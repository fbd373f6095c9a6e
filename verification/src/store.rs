//! The register itself: its two tables, what must hold of them, and the
//! lookups that every operation is built from.

use vstd::prelude::*;
use crate::records::{Member, MemberView, AttendanceRow, RowView, members_view, rows_view};

verus! {

/// The mathematical content of a [`Store`]: the member table and the
/// attendance table, each in insertion order.
pub struct StoreView {
    pub members: Seq<MemberView>,
    pub attendance: Seq<RowView>,
}

/// Some member carries this identifier.
pub open spec fn has_member_id(ms: Seq<MemberView>, id: Seq<char>) -> bool {
    exists|i: int| 0 <= i < ms.len() && (#[trigger] ms[i]).id == id
}

/// Some member carries this badge number.
pub open spec fn has_prefect(ms: Seq<MemberView>, pn: Seq<char>) -> bool {
    exists|i: int| 0 <= i < ms.len() && (#[trigger] ms[i]).prefect_number == pn
}

/// The position of a member that carries this identifier, where there is one.
pub open spec fn index_of_id(ms: Seq<MemberView>, id: Seq<char>) -> int {
    choose|i: int| 0 <= i < ms.len() && (#[trigger] ms[i]).id == id
}

/// The position of a member that carries this badge number, where there is one.
pub open spec fn index_of_prefect(ms: Seq<MemberView>, pn: Seq<char>) -> int {
    choose|i: int| 0 <= i < ms.len() && (#[trigger] ms[i]).prefect_number == pn
}

/// A member that carries this identifier, where there is one.
pub open spec fn member_with_id(ms: Seq<MemberView>, id: Seq<char>) -> MemberView {
    ms[index_of_id(ms, id)]
}

/// A member that carries this badge number, where there is one.
pub open spec fn member_with_prefect(ms: Seq<MemberView>, pn: Seq<char>) -> MemberView {
    ms[index_of_prefect(ms, pn)]
}

/// Some attendance row carries this identifier.
pub open spec fn has_row_id(rows: Seq<RowView>, id: Seq<char>) -> bool {
    exists|i: int| 0 <= i < rows.len() && (#[trigger] rows[i]).id == id
}

/// Some attendance row belongs to this member on this day.
pub open spec fn marked_on(rows: Seq<RowView>, member_id: Seq<char>, date: Seq<char>) -> bool {
    exists|i: int|
        0 <= i < rows.len() && (#[trigger] rows[i]).member_id == member_id && rows[i].date == date
}

/// What the tables themselves enforce: no two members share an identifier or
/// a badge number, and no two attendance rows share an identifier.
pub open spec fn well_formed(v: StoreView) -> bool {
    &&& forall|i: int, j: int|
        0 <= i < j < v.members.len() ==> (#[trigger] v.members[i]).id != (
        #[trigger] v.members[j]).id
    &&& forall|i: int, j: int|
        0 <= i < j < v.members.len() ==> (#[trigger] v.members[i]).prefect_number != (
        #[trigger] v.members[j]).prefect_number
    &&& forall|i: int, j: int|
        0 <= i < j < v.attendance.len() ==> (#[trigger] v.attendance[i]).id != (
        #[trigger] v.attendance[j]).id
}

/// No member has two rows for one day. The tables do not enforce this: marking
/// keeps it, and a register loaded from elsewhere may lack it.
pub open spec fn once_a_day(rows: Seq<RowView>) -> bool {
    forall|i: int, j: int|
        0 <= i < j < rows.len() ==> !((#[trigger] rows[i]).member_id == (
        #[trigger] rows[j]).member_id && rows[i].date == rows[j].date)
}

/// The register with nothing in it.
pub open spec fn empty_store() -> StoreView {
    StoreView { members: Seq::empty(), attendance: Seq::empty() }
}

/// In a well-formed register the member found at a position is the member
/// with that position's identifier and the one with its badge number.
pub proof fn lemma_member_at(v: StoreView, k: int)
    requires
        well_formed(v),
        0 <= k < v.members.len(),
    ensures
        has_member_id(v.members, v.members[k].id),
        has_prefect(v.members, v.members[k].prefect_number),
        index_of_id(v.members, v.members[k].id) == k,
        index_of_prefect(v.members, v.members[k].prefect_number) == k,
        member_with_id(v.members, v.members[k].id) == v.members[k],
        member_with_prefect(v.members, v.members[k].prefect_number) == v.members[k],
{
    let ms = v.members;
    let a = index_of_id(ms, ms[k].id);
    let b = index_of_prefect(ms, ms[k].prefect_number);
    assert(a == k) by {
        if a < k {
            assert(ms[a].id != ms[k].id);
        } else if k < a {
            assert(ms[k].id != ms[a].id);
        }
    }
    assert(b == k) by {
        if b < k {
            assert(ms[b].prefect_number != ms[k].prefect_number);
        } else if k < b {
            assert(ms[k].prefect_number != ms[b].prefect_number);
        }
    }
}

/// The attendance register: a member table and an attendance table.
pub struct Store {
    members: Vec<Member>,
    attendance: Vec<AttendanceRow>,
}

impl View for Store {
    type V = StoreView;

    closed spec fn view(&self) -> StoreView {
        StoreView {
            members: members_view(self.members@),
            attendance: rows_view(self.attendance@),
        }
    }
}

impl Store {
    #[verifier::type_invariant]
    closed spec fn inv(&self) -> bool {
        well_formed(self@)
    }

    /// A register with no member and no attendance row.
    pub fn new() -> (s: Store)
        ensures
            well_formed(s@),
            s@ == empty_store(),
    {
        let s = Store { members: Vec::new(), attendance: Vec::new() };
        assert(s@.members =~= Seq::<MemberView>::empty());
        assert(s@.attendance =~= Seq::<RowView>::empty());
        s
    }

    /// The register that holds these members and rows, in this order. There is
    /// none where they are not well formed together: where two members share
    /// an identifier or a badge number, or two rows share an identifier.
    pub fn load(members: Vec<Member>, rows: Vec<AttendanceRow>) -> (r: Option<Store>)
        ensures
            match r {
                Some(s) => well_formed(s@) && s@ == (StoreView {
                    members: members_view(members@),
                    attendance: rows_view(rows@),
                }),
                None => !well_formed(
                    StoreView { members: members_view(members@), attendance: rows_view(rows@) },
                ),
            },
    {
        let ghost all = StoreView {
            members: members_view(members@),
            attendance: rows_view(rows@),
        };
        let mut s = Store::new();
        let mut k: usize = 0;
        while k < members.len()
            invariant
                k <= members.len(),
                all == (StoreView {
                    members: members_view(members@),
                    attendance: rows_view(rows@),
                }),
                well_formed(s@),
                s@.members =~= all.members.take(k as int),
                s@.attendance =~= Seq::<RowView>::empty(),
            decreases members.len() - k,
        {
            let m = members[k].clone();
            let by_id = s.find_member(&m.id);
            let by_badge = s.find_prefect(&m.prefect_number);
            if by_id.is_some() || by_badge.is_some() {
                proof {
                    if by_id is Some {
                        let j = by_id->0 as int;
                        assert(all.members[j].id == all.members[k as int].id);
                    } else {
                        let j = by_badge->0 as int;
                        assert(all.members[j].prefect_number == all.members[k as int].prefect_number);
                    }
                }
                return None;
            }
            s.insert_member(m);
            k += 1;
        }
        proof {
            assert(all.members.take(members.len() as int) =~= all.members);
        }
        let mut k: usize = 0;
        while k < rows.len()
            invariant
                k <= rows.len(),
                all == (StoreView {
                    members: members_view(members@),
                    attendance: rows_view(rows@),
                }),
                well_formed(s@),
                s@.members =~= all.members,
                s@.attendance =~= all.attendance.take(k as int),
            decreases rows.len() - k,
        {
            let row = rows[k].clone();
            if s.row_id_taken(&row.id) {
                proof {
                    let j = choose|j: int|
                        0 <= j < s@.attendance.len() && (#[trigger] s@.attendance[j]).id
                            == row@.id;
                    assert(all.attendance[j] == s@.attendance[j]);
                    assert(all.attendance[j].id == all.attendance[k as int].id);
                }
                return None;
            }
            s.insert_row(row);
            k += 1;
        }
        proof {
            assert(all.members.take(members.len() as int) =~= all.members);
            assert(all.attendance.take(rows.len() as int) =~= all.attendance);
        }
        Some(s)
    }

    /// The position of the member with this badge number.
    pub fn find_prefect(&self, prefect_number: &String) -> (r: Option<usize>)
        ensures
            well_formed(self@),
            match r {
                Some(k) => has_prefect(self@.members, prefect_number@) && k == index_of_prefect(
                    self@.members,
                    prefect_number@,
                ),
                None => !has_prefect(self@.members, prefect_number@),
            },
    {
        proof {
            use_type_invariant(self);
        }
        let mut k: usize = 0;
        while k < self.members.len()
            invariant
                well_formed(self@),
                k <= self.members.len(),
                forall|i: int| 0 <= i < k ==> (#[trigger] self@.members[i]).prefect_number
                    != prefect_number@,
            decreases self.members.len() - k,
        {
            if self.members[k].prefect_number == *prefect_number {
                proof {
                    lemma_member_at(self@, k as int);
                }
                return Some(k);
            }
            k += 1;
        }
        None
    }

    /// The position of the member with this identifier.
    pub fn find_member(&self, id: &String) -> (r: Option<usize>)
        ensures
            well_formed(self@),
            match r {
                Some(k) => has_member_id(self@.members, id@) && k == index_of_id(
                    self@.members,
                    id@,
                ),
                None => !has_member_id(self@.members, id@),
            },
    {
        proof {
            use_type_invariant(self);
        }
        let mut k: usize = 0;
        while k < self.members.len()
            invariant
                well_formed(self@),
                k <= self.members.len(),
                forall|i: int| 0 <= i < k ==> (#[trigger] self@.members[i]).id != id@,
            decreases self.members.len() - k,
        {
            if self.members[k].id == *id {
                proof {
                    lemma_member_at(self@, k as int);
                }
                return Some(k);
            }
            k += 1;
        }
        None
    }

    /// Whether some attendance row carries this identifier.
    pub fn row_id_taken(&self, id: &String) -> (r: bool)
        ensures
            well_formed(self@),
            r == has_row_id(self@.attendance, id@),
    {
        proof {
            use_type_invariant(self);
        }
        let mut k: usize = 0;
        while k < self.attendance.len()
            invariant
                well_formed(self@),
                k <= self.attendance.len(),
                forall|i: int| 0 <= i < k ==> (#[trigger] self@.attendance[i]).id != id@,
            decreases self.attendance.len() - k,
        {
            if self.attendance[k].id == *id {
                assert(self@.attendance[k as int].id == id@);
                return true;
            }
            k += 1;
        }
        false
    }

    /// Whether this member already has a row for this day.
    pub fn is_marked(&self, member_id: &String, date: &String) -> (r: bool)
        ensures
            well_formed(self@),
            r == marked_on(self@.attendance, member_id@, date@),
    {
        proof {
            use_type_invariant(self);
        }
        let mut k: usize = 0;
        while k < self.attendance.len()
            invariant
                well_formed(self@),
                k <= self.attendance.len(),
                forall|i: int|
                    0 <= i < k ==> !((#[trigger] self@.attendance[i]).member_id == member_id@
                        && self@.attendance[i].date == date@),
            decreases self.attendance.len() - k,
        {
            if self.attendance[k].member_id == *member_id && self.attendance[k].date == *date {
                assert(self@.attendance[k as int].member_id == member_id@);
                return true;
            }
            k += 1;
        }
        false
    }

    /// How many members the register holds.
    pub fn member_count(&self) -> (n: usize)
        ensures
            well_formed(self@),
            n == self@.members.len(),
    {
        proof {
            use_type_invariant(self);
        }
        self.members.len()
    }

    /// How many attendance rows the register holds.
    pub fn row_count(&self) -> (n: usize)
        ensures
            well_formed(self@),
            n == self@.attendance.len(),
    {
        proof {
            use_type_invariant(self);
        }
        self.attendance.len()
    }

    /// The member at a position of the member table.
    pub(crate) fn member_at(&self, k: usize) -> (m: &Member)
        requires
            k < self@.members.len(),
        ensures
            m@ == self@.members[k as int],
    {
        &self.members[k]
    }

    /// The row at a position of the attendance table.
    pub(crate) fn row_at(&self, k: usize) -> (r: &AttendanceRow)
        requires
            k < self@.attendance.len(),
        ensures
            r@ == self@.attendance[k as int],
    {
        &self.attendance[k]
    }

    /// Moves both tables out and leaves the register empty, so that a changed
    /// table can be put back as a whole.
    fn take_tables(&mut self) -> (t: (Vec<Member>, Vec<AttendanceRow>))
        ensures
            t.0 == old(self).members,
            t.1 == old(self).attendance,
    {
        let mut taken = Store::new();
        core::mem::swap(self, &mut taken);
        let Store { members, attendance } = taken;
        (members, attendance)
    }

    /// Appends a member whose identifier and badge number are both new.
    pub(crate) fn insert_member(&mut self, member: Member)
        requires
            !has_member_id(old(self)@.members, member@.id),
            !has_prefect(old(self)@.members, member@.prefect_number),
        ensures
            well_formed(final(self)@),
            final(self)@ == (StoreView {
                members: old(self)@.members.push(member@),
                ..old(self)@
            }),
    {
        proof {
            use_type_invariant(&*self);
            let ms = members_view(self.members@);
            assert(members_view(self.members@.push(member)) =~= ms.push(member@));
            assert forall|i: int| 0 <= i < ms.len() implies (#[trigger] ms[i]).id != member@.id
                && ms[i].prefect_number != member@.prefect_number by {}
        }
        let (mut members, attendance) = self.take_tables();
        members.push(member);
        *self = Store { members, attendance };
    }

    /// Appends an attendance row whose identifier is new.
    pub(crate) fn insert_row(&mut self, row: AttendanceRow)
        requires
            !has_row_id(old(self)@.attendance, row@.id),
        ensures
            well_formed(final(self)@),
            final(self)@ == (StoreView {
                attendance: old(self)@.attendance.push(row@),
                ..old(self)@
            }),
    {
        proof {
            use_type_invariant(&*self);
            let rs = rows_view(self.attendance@);
            assert(rows_view(self.attendance@.push(row)) =~= rs.push(row@));
            assert forall|i: int| 0 <= i < rs.len() implies (#[trigger] rs[i]).id != row@.id by {}
        }
        let (members, mut attendance) = self.take_tables();
        attendance.push(row);
        *self = Store { members, attendance };
    }

    /// Puts a member in the place of the one at a position. The newcomer keeps
    /// that member's identifier, and its badge number is held by no other member.
    pub(crate) fn replace_member(&mut self, k: usize, member: Member)
        requires
            k < old(self)@.members.len(),
            member@.id == old(self)@.members[k as int].id,
            forall|j: int|
                0 <= j < old(self)@.members.len() && j != k ==> (#[trigger] old(
                    self,
                )@.members[j]).prefect_number != member@.prefect_number,
        ensures
            well_formed(final(self)@),
            final(self)@ == (StoreView {
                members: old(self)@.members.update(k as int, member@),
                ..old(self)@
            }),
    {
        proof {
            use_type_invariant(&*self);
            let ms = members_view(self.members@);
            assert(members_view(self.members@.update(k as int, member)) =~= ms.update(
                k as int,
                member@,
            ));
        }
        let (mut members, attendance) = self.take_tables();
        members.set(k, member);
        *self = Store { members, attendance };
    }

    /// Takes the member at a position out of the member table. Attendance rows
    /// stay as they are.
    pub(crate) fn remove_member(&mut self, k: usize)
        requires
            k < old(self)@.members.len(),
        ensures
            well_formed(final(self)@),
            final(self)@ == (StoreView {
                members: old(self)@.members.remove(k as int),
                ..old(self)@
            }),
    {
        proof {
            use_type_invariant(&*self);
            let ms = members_view(self.members@);
            assert(members_view(self.members@.remove(k as int)) =~= ms.remove(k as int));
        }
        let (mut members, attendance) = self.take_tables();
        members.remove(k);
        *self = Store { members, attendance };
    }

    /// Empties both tables.
    pub(crate) fn clear(&mut self)
        ensures
            final(self)@ == empty_store(),
    {
        proof {
            assert(rows_view(Seq::<AttendanceRow>::empty()) =~= Seq::<RowView>::empty());
            assert(members_view(Seq::<Member>::empty()) =~= Seq::<MemberView>::empty());
        }
        *self = Store { members: Vec::new(), attendance: Vec::new() };
    }
}

} // verus!
