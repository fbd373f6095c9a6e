//! What holds of the operations taken together, over the views of the register.

use vstd::prelude::*;
use crate::clock::MomentView;
use crate::commands::{
    creating, deleting, joined, listed, listing_filter, listing_join, marked_row, marking,
    resolved_id, resolved_role, resolving, shown, sighted_member, updating,
};
use crate::records::{MemberView, RecordView};
use crate::rules::{duplicate_text, status_at, taken_prefect_text};
use crate::store::{
    empty_store, has_member_id, has_prefect, has_row_id, index_of_id, index_of_prefect,
    lemma_member_at, marked_on, member_with_prefect, once_a_day, well_formed, StoreView,
};

verus! {

/// The first marking of a day succeeds. Where the member has no row for the
/// day yet, and the identifiers held ready are not in use, marking is
/// accepted: it leaves a well-formed register with exactly one row more,
/// with one member more if the badge number was new and the same members
/// otherwise, and from then on the badge number's member is marked for that day.
pub proof fn law_first_marking_succeeds(
    v: StoreView,
    prefect_number: Seq<char>,
    role: Seq<char>,
    at: MomentView,
    new_member_id: Seq<char>,
    record_id: Seq<char>,
)
    requires
        well_formed(v),
        !marked_on(v.attendance, resolved_id(v.members, prefect_number, new_member_id), at.date),
        has_prefect(v.members, prefect_number) || !has_member_id(v.members, new_member_id),
        !has_row_id(v.attendance, record_id),
    ensures
        ({
            let (w, r) = marking(v, prefect_number, role, at, new_member_id, record_id);
            let row = marked_row(v, prefect_number, at, new_member_id, record_id);
            &&& r == Ok::<RecordView, Seq<char>>(
                shown(row, prefect_number, resolved_role(v.members, prefect_number, role)),
            )
            &&& well_formed(w)
            &&& w.attendance == v.attendance.push(row)
            &&& has_prefect(v.members, prefect_number) ==> w.members == v.members
            &&& !has_prefect(v.members, prefect_number) ==> w.members.len() == v.members.len() + 1
                && w.members.drop_last() == v.members
            &&& has_prefect(w.members, prefect_number)
            &&& member_with_prefect(w.members, prefect_number).id == row.member_id
            &&& marked_on(w.attendance, row.member_id, at.date)
        }),
{
    let (w, r) = marking(v, prefect_number, role, at, new_member_id, record_id);
    let row = marked_row(v, prefect_number, at, new_member_id, record_id);
    assert(w.attendance[v.attendance.len() as int] == row);
    if has_prefect(v.members, prefect_number) {
        assert(w.members == v.members);
    } else {
        let k = v.members.len() as int;
        assert(w.members.drop_last() =~= v.members);
        assert(w.members[k].prefect_number == prefect_number);
        assert forall|i: int, j: int| 0 <= i < j < w.members.len() implies (
        #[trigger] w.members[i]).id != (#[trigger] w.members[j]).id && w.members[i].prefect_number
            != w.members[j].prefect_number by {
            if j == k {
                assert(v.members[i].id != new_member_id);
                assert(v.members[i].prefect_number != prefect_number);
            } else {
                assert(w.members[i] == v.members[i]);
                assert(w.members[j] == v.members[j]);
            }
        }
    }
    assert forall|i: int, j: int| 0 <= i < j < w.attendance.len() implies (
    #[trigger] w.attendance[i]).id != (#[trigger] w.attendance[j]).id by {
        if j == v.attendance.len() {
            assert(v.attendance[i].id != record_id);
        } else {
            assert(w.attendance[i] == v.attendance[i]);
            assert(w.attendance[j] == v.attendance[j]);
        }
    }
    assert(well_formed(w));
    let at_member = if has_prefect(v.members, prefect_number) {
        index_of_prefect(v.members, prefect_number)
    } else {
        v.members.len() as int
    };
    lemma_member_at(w, at_member);
}

/// The member of a new badge number, entered at the end of a well-formed
/// roster under a free identifier, is the member with that badge number.
proof fn lemma_sighted_member(
    v: StoreView,
    prefect_number: Seq<char>,
    role: Seq<char>,
    new_id: Seq<char>,
)
    requires
        well_formed(v),
        !has_prefect(v.members, prefect_number),
        !has_member_id(v.members, new_id),
    ensures
        ({
            let u = StoreView {
                members: v.members.push(sighted_member(new_id, prefect_number, role)),
                ..v
            };
            &&& well_formed(u)
            &&& has_prefect(u.members, prefect_number)
            &&& member_with_prefect(u.members, prefect_number) == sighted_member(
                new_id,
                prefect_number,
                role,
            )
        }),
{
    let u = StoreView {
        members: v.members.push(sighted_member(new_id, prefect_number, role)),
        ..v
    };
    let k = v.members.len() as int;
    assert forall|i: int, j: int| 0 <= i < j < u.members.len() implies (
    #[trigger] u.members[i]).id != (#[trigger] u.members[j]).id && u.members[i].prefect_number
        != u.members[j].prefect_number by {
        if j == k {
            assert(v.members[i].id != new_id);
            assert(v.members[i].prefect_number != prefect_number);
        } else {
            assert(u.members[i] == v.members[i]);
            assert(u.members[j] == v.members[j]);
        }
    }
    lemma_member_at(u, k);
}

/// Marking resolves the member first. Where resolving the badge number
/// reports a clash, marking reports the same clash and changes nothing. Where
/// marking is accepted, resolving succeeds, the roster is the one that
/// resolving leaves, and the record names the identifier that resolving
/// reports and shows the badge number and the role of the member that the
/// roster then holds for it.
pub proof fn law_marking_resolves_the_member(
    v: StoreView,
    prefect_number: Seq<char>,
    role: Seq<char>,
    at: MomentView,
    new_member_id: Seq<char>,
    record_id: Seq<char>,
)
    requires
        well_formed(v),
    ensures
        ({
            let (u, found) = resolving(v, prefect_number, role, new_member_id);
            let (w, r) = marking(v, prefect_number, role, at, new_member_id, record_id);
            &&& found is Err ==> w == v && r == Err::<RecordView, Seq<char>>(found->Err_0)
            &&& r is Ok ==> {
                &&& found is Ok
                &&& w.members == u.members
                &&& r->Ok_0.member_id == found->Ok_0.id()
                &&& has_prefect(u.members, prefect_number)
                &&& member_with_prefect(u.members, prefect_number).id == r->Ok_0.member_id
                &&& r->Ok_0.role == Some(member_with_prefect(u.members, prefect_number).role)
                &&& r->Ok_0.prefect_number == Some(prefect_number)
            }
        }),
{
    if !has_prefect(v.members, prefect_number) && !has_member_id(v.members, new_member_id) {
        lemma_sighted_member(v, prefect_number, role, new_member_id);
    }
}

/// Marking keeps one row a day. Where no member has two rows for one day,
/// none has after a marking, accepted or refused.
pub proof fn law_marking_keeps_one_row_a_day(
    v: StoreView,
    prefect_number: Seq<char>,
    role: Seq<char>,
    at: MomentView,
    new_member_id: Seq<char>,
    record_id: Seq<char>,
)
    requires
        once_a_day(v.attendance),
    ensures
        once_a_day(marking(v, prefect_number, role, at, new_member_id, record_id).0.attendance),
{
    let (w, r) = marking(v, prefect_number, role, at, new_member_id, record_id);
    if r is Ok {
        let row = marked_row(v, prefect_number, at, new_member_id, record_id);
        assert forall|i: int, j: int| 0 <= i < j < w.attendance.len() implies !((
        #[trigger] w.attendance[i]).member_id == (#[trigger] w.attendance[j]).member_id
            && w.attendance[i].date == w.attendance[j].date) by {
            if j == v.attendance.len() {
                assert(!(v.attendance[i].member_id == row.member_id && v.attendance[i].date
                    == at.date));
            } else {
                assert(w.attendance[i] == v.attendance[i]);
                assert(w.attendance[j] == v.attendance[j]);
            }
        }
    }
}

/// A second marking on the same day is refused. After an accepted marking,
/// marking the same badge number again for the same day is refused as a
/// duplicate that names the badge number and the day, whatever role, time of
/// day and identifiers it comes with, and the register stays as the first
/// marking left it.
pub proof fn law_second_marking_refused(
    v: StoreView,
    prefect_number: Seq<char>,
    role: Seq<char>,
    at: MomentView,
    new_member_id: Seq<char>,
    record_id: Seq<char>,
    again_role: Seq<char>,
    again_at: MomentView,
    again_member_id: Seq<char>,
    again_record_id: Seq<char>,
)
    requires
        well_formed(v),
        marking(v, prefect_number, role, at, new_member_id, record_id).1 is Ok,
        again_at.date == at.date,
    ensures
        ({
            let w = marking(v, prefect_number, role, at, new_member_id, record_id).0;
            marking(w, prefect_number, again_role, again_at, again_member_id, again_record_id) == (
                w,
                Err::<RecordView, Seq<char>>(duplicate_text(prefect_number, at.date)),
            )
        }),
{
    law_first_marking_succeeds(v, prefect_number, role, at, new_member_id, record_id);
}

/// A member who is marked for a day stays refused for it. In any register in
/// which the badge number's member has a row for the day, marking that badge
/// number for that day changes nothing and reports the duplicate.
pub proof fn law_marked_day_refused(
    v: StoreView,
    prefect_number: Seq<char>,
    role: Seq<char>,
    at: MomentView,
    new_member_id: Seq<char>,
    record_id: Seq<char>,
)
    requires
        has_prefect(v.members, prefect_number),
        marked_on(v.attendance, member_with_prefect(v.members, prefect_number).id, at.date),
    ensures
        marking(v, prefect_number, role, at, new_member_id, record_id) == (
            v,
            Err::<RecordView, Seq<char>>(duplicate_text(prefect_number, at.date)),
        ),
{
}

/// The cutoff is seven o'clock, by the minute. A marking is classified as
/// late exactly when its hour is past seven, or is seven with a minute past
/// zero, and as present exactly otherwise; the two classifications differ.
pub proof fn law_status_follows_cutoff(hour: int, minute: int)
    ensures
        status_at(hour, minute) == "Late"@ <==> hour > 7 || (hour == 7 && minute > 0),
        status_at(hour, minute) == "Present"@ <==> hour < 7 || (hour == 7 && minute <= 0),
        "Late"@ != "Present"@,
{
    reveal_strlit("Late");
    reveal_strlit("Present");
    assert("Late"@.len() != "Present"@.len());
}

/// A badge number is entered once. Entering a member under a badge number
/// that is on the roster is refused and the register stays as it was.
pub proof fn law_taken_badge_refused(
    v: StoreView,
    prefect_number: Seq<char>,
    role: Seq<char>,
    name: Option<Seq<char>>,
    new_id: Seq<char>,
)
    requires
        has_prefect(v.members, prefect_number),
    ensures
        creating(v, prefect_number, role, name, new_id) == (
            v,
            Err::<Seq<char>, Seq<char>>(taken_prefect_text()),
        ),
{
}

/// An update changes what it is given and nothing else. Where an update is
/// accepted, the register stays well formed, the attendance table and the
/// number and order of members stay, every member with another identifier
/// stays as it was, and the member with the identifier keeps each field that
/// was not given.
pub proof fn law_update_changes_given_fields(
    v: StoreView,
    id: Seq<char>,
    prefect_number: Option<Seq<char>>,
    role: Option<Seq<char>>,
    name: Option<Seq<char>>,
)
    requires
        well_formed(v),
        updating(v, id, prefect_number, role, name).1 is Ok,
    ensures
        ({
            let w = updating(v, id, prefect_number, role, name).0;
            &&& well_formed(w)
            &&& w.attendance == v.attendance
            &&& w.members.len() == v.members.len()
            &&& forall|i: int|
                0 <= i < v.members.len() && (#[trigger] v.members[i]).id != id ==> w.members[i]
                    == v.members[i]
            &&& forall|i: int|
                0 <= i < v.members.len() && (#[trigger] v.members[i]).id == id ==> {
                    &&& w.members[i].id == id
                    &&& w.members[i].prefect_number == match prefect_number {
                        Some(p) => p,
                        None => v.members[i].prefect_number,
                    }
                    &&& w.members[i].role == match role {
                        Some(r) => r,
                        None => v.members[i].role,
                    }
                    &&& w.members[i].name == match name {
                        Some(n) => Some(n),
                        None => v.members[i].name,
                    }
                }
        }),
{
    let w = updating(v, id, prefect_number, role, name).0;
    assert forall|i: int, j: int| 0 <= i < j < w.members.len() implies (
    #[trigger] w.members[i]).id != (#[trigger] w.members[j]).id && w.members[i].prefect_number
        != w.members[j].prefect_number by {
        assert(v.members[i].id != v.members[j].id);
        assert(v.members[i].prefect_number != v.members[j].prefect_number);
        assert(w.members[i].id == v.members[i].id);
        assert(w.members[j].id == v.members[j].id);
        if prefect_number is Some {
            if v.members[i].id == id {
                assert(has_member_id(v.members, id));
                assert(v.members[j].prefect_number != prefect_number->0);
            } else if v.members[j].id == id {
                assert(has_member_id(v.members, id));
                assert(v.members[i].prefect_number != prefect_number->0);
            }
        }
    }
}

/// An update of nobody is no change and no failure. Where no member has the
/// identifier, an update is accepted and the register stays as it was.
pub proof fn law_update_of_unknown_member(
    v: StoreView,
    id: Seq<char>,
    prefect_number: Option<Seq<char>>,
    role: Option<Seq<char>>,
    name: Option<Seq<char>>,
)
    requires
        !has_member_id(v.members, id),
    ensures
        updating(v, id, prefect_number, role, name) == (v, Ok::<(), Seq<char>>(())),
{
    let w = updating(v, id, prefect_number, role, name).0;
    assert(w.members =~= v.members);
}

/// A record is the join of a stored row with the member that owns it.
pub open spec fn is_join_of_row(record: RecordView, v: StoreView) -> bool {
    exists|i: int, j: int|
        #![trigger v.attendance[i], v.members[j]]
        0 <= i < v.attendance.len() && 0 <= j < v.members.len() && v.members[j].id
            == v.attendance[i].member_id && record == shown(
            v.attendance[i],
            v.members[j].prefect_number,
            v.members[j].role,
        )
}

/// The listing of a day holds that day's rows, rightly joined, and no others.
/// Every record on the listing for a day carries exactly that day and is a
/// stored row beside the badge number and role of the member whose identifier
/// the row names; and every stored row of that day whose member is on the
/// roster is on the listing.
pub proof fn law_listing_by_date(v: StoreView, date: Seq<char>)
    requires
        well_formed(v),
    ensures
        forall|k: int|
            0 <= k < listed(v, Some(date)).len() ==> (#[trigger] listed(v, Some(date))[k]).date
                == date && is_join_of_row(listed(v, Some(date))[k], v),
        forall|i: int|
            0 <= i < v.attendance.len() && (#[trigger] v.attendance[i]).date == date
                && has_member_id(v.members, v.attendance[i].member_id) ==> listed(
                v,
                Some(date),
            ).contains(joined(v.attendance[i], v.members)),
{
    let keep = listing_filter(v.members, Some(date));
    let join = listing_join(v.members);
    let kept = v.attendance.filter(keep);
    let out = listed(v, Some(date));
    assert forall|k: int| 0 <= k < out.len() implies (#[trigger] out[k]).date == date
        && is_join_of_row(out[k], v) by {
        v.attendance.lemma_filter_pred(keep, k);
        assert(keep(kept[k]));
        assert(kept.contains(kept[k]));
        v.attendance.lemma_filter_contains_rev(keep, kept[k]);
        let i = choose|i: int| 0 <= i < v.attendance.len() && v.attendance[i] == kept[k];
        let j = index_of_id(v.members, v.attendance[i].member_id);
        assert(out[k] == joined(v.attendance[i], v.members));
        assert(v.members[j].id == v.attendance[i].member_id);
    }
    assert forall|i: int|
        0 <= i < v.attendance.len() && (#[trigger] v.attendance[i]).date == date && has_member_id(
            v.members,
            v.attendance[i].member_id,
        ) implies out.contains(joined(v.attendance[i], v.members)) by {
        assert(keep(v.attendance[i]));
        v.attendance.lemma_filter_contains(keep, i);
        let k = choose|k: int| 0 <= k < kept.len() && kept[k] == v.attendance[i];
        assert(out[k] == joined(v.attendance[i], v.members));
    }
}

/// After a wipe there is nothing to list. The emptied register is well
/// formed, its roster is empty, and its listing is empty for every day and
/// for all days.
pub proof fn law_wiped_register_lists_nothing(date: Option<Seq<char>>)
    ensures
        well_formed(empty_store()),
        empty_store().members == Seq::<MemberView>::empty(),
        listed(empty_store(), date) == Seq::<RecordView>::empty(),
{
    reveal(Seq::filter);
    assert(listed(empty_store(), date) =~= Seq::<RecordView>::empty());
}

/// A deleted member is gone and the rows stay. After the member with an
/// identifier is taken off a well-formed roster, no member has that
/// identifier, every other member is still there, the attendance table is
/// untouched, and the register is well formed.
pub proof fn law_deleted_member_is_gone(v: StoreView, id: Seq<char>)
    requires
        well_formed(v),
    ensures
        well_formed(deleting(v, id)),
        !has_member_id(deleting(v, id).members, id),
        deleting(v, id).attendance == v.attendance,
        forall|i: int|
            0 <= i < v.members.len() && (#[trigger] v.members[i]).id != id ==> deleting(
                v,
                id,
            ).members.contains(v.members[i]),
{
    let w = deleting(v, id);
    if has_member_id(v.members, id) {
        let k = index_of_id(v.members, id);
        assert forall|i: int| 0 <= i < w.members.len() implies (#[trigger] w.members[i]).id
            != id by {
            if i < k {
                assert(w.members[i] == v.members[i]);
                assert(v.members[i].id != v.members[k].id);
            } else {
                assert(w.members[i] == v.members[i + 1]);
                assert(v.members[k].id != v.members[i + 1].id);
            }
        }
        assert forall|i: int| 0 <= i < v.members.len() && (#[trigger] v.members[i]).id
            != id implies w.members.contains(v.members[i]) by {
            if i < k {
                assert(w.members[i] == v.members[i]);
            } else {
                assert(w.members[i - 1] == v.members[i]);
            }
        }
        assert forall|i: int, j: int| 0 <= i < j < w.members.len() implies (
        #[trigger] w.members[i]).id != (#[trigger] w.members[j]).id && w.members[i].prefect_number
            != w.members[j].prefect_number by {
            let a = if i < k {
                i
            } else {
                i + 1
            };
            let b = if j < k {
                j
            } else {
                j + 1
            };
            assert(w.members[i] == v.members[a]);
            assert(w.members[j] == v.members[b]);
            assert(v.members[a].id != v.members[b].id);
            assert(v.members[a].prefect_number != v.members[b].prefect_number);
        }
    } else {
        assert forall|i: int| 0 <= i < v.members.len() && (#[trigger] v.members[i]).id
            != id implies w.members.contains(v.members[i]) by {
            assert(w.members[i] == v.members[i]);
        }
    }
}

} // verus!
