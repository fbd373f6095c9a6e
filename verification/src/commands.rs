//! The operations of the register: marking attendance, the listings, and the
//! upkeep of the roster.

use vstd::prelude::*;
use crate::clock::{read_clock, Moment, MomentView};
use crate::ident::fresh_id;
use crate::records::{
    copy_text, members_view, records_view, text_of, AttendanceRecord, AttendanceRow, Member,
    MemberView, RecordView, RowView,
};
use crate::rules::{
    attendance_status, duplicate_message, duplicate_text, status_at, taken_member_id_message,
    taken_member_id_text, taken_prefect_message, taken_prefect_text, taken_row_id_message,
    taken_row_id_text,
};
use crate::store::{
    empty_store, has_member_id, has_prefect, has_row_id, index_of_id, index_of_prefect,
    lemma_member_at, marked_on, member_with_id, member_with_prefect, well_formed, Store,
    StoreView,
};

verus! {

/// How a badge number was matched to a member.
#[derive(Debug, PartialEq, Eq)]
pub enum Resolution {
    /// The badge number was already on the roster; the member's identifier.
    Found(String),
    /// The badge number was new and a member was entered for it; the new identifier.
    Created(String),
}

/// The view of a [`Resolution`].
pub enum ResolutionView {
    Found(Seq<char>),
    Created(Seq<char>),
}

impl ResolutionView {
    /// The identifier of the member that was found or entered.
    pub open spec fn id(self) -> Seq<char> {
        match self {
            ResolutionView::Found(id) => id,
            ResolutionView::Created(id) => id,
        }
    }
}

impl View for Resolution {
    type V = ResolutionView;

    open spec fn view(&self) -> ResolutionView {
        match self {
            Resolution::Found(id) => ResolutionView::Found(id@),
            Resolution::Created(id) => ResolutionView::Created(id@),
        }
    }
}

/// The member entered for a badge number on its first sighting: the given
/// role, and no name.
pub open spec fn sighted_member(id: Seq<char>, prefect_number: Seq<char>, role: Seq<char>)
    -> MemberView {
    MemberView { id, name: None, role, prefect_number }
}

/// Where the member for a badge number stands on the roster, for use before
/// anything is entered: its position where the badge number is known, no
/// position where it is new and `new_id` is free for it, and the clash where
/// it is new and some member already carries `new_id`.
fn locate(store: &Store, prefect_number: &String, new_id: &String) -> (r: Result<
    Option<usize>,
    String,
>)
    ensures
        well_formed(store@),
        match r {
            Ok(Some(k)) => has_prefect(store@.members, prefect_number@) && k == index_of_prefect(
                store@.members,
                prefect_number@,
            ) && k < store@.members.len(),
            Ok(None) => !has_prefect(store@.members, prefect_number@) && !has_member_id(
                store@.members,
                new_id@,
            ),
            Err(e) => !has_prefect(store@.members, prefect_number@) && has_member_id(
                store@.members,
                new_id@,
            ) && e@ == taken_member_id_text(),
        },
{
    match store.find_prefect(prefect_number) {
        Some(k) => Ok(Some(k)),
        None => {
            if store.find_member(new_id).is_some() {
                Err(taken_member_id_message())
            } else {
                Ok(None)
            }
        },
    }
}

/// What resolving a badge number does to a register and what it reports,
/// where `new_id` is the identifier held ready for a new member. A known
/// badge number is found and nothing changes. An unknown one is entered under
/// `new_id`, unless some member already carries that identifier: then the
/// register stays as it was and the clash is reported.
pub open spec fn resolving(
    v: StoreView,
    prefect_number: Seq<char>,
    role: Seq<char>,
    new_id: Seq<char>,
) -> (StoreView, Result<ResolutionView, Seq<char>>) {
    if has_prefect(v.members, prefect_number) {
        (v, Ok(ResolutionView::Found(member_with_prefect(v.members, prefect_number).id)))
    } else if has_member_id(v.members, new_id) {
        (v, Err(taken_member_id_text()))
    } else {
        (
            StoreView {
                members: v.members.push(sighted_member(new_id, prefect_number, role)),
                ..v
            },
            Ok(ResolutionView::Created(new_id)),
        )
    }
}

/// The view of what resolving reports.
pub open spec fn resolution_view(r: Result<Resolution, String>) -> Result<
    ResolutionView,
    Seq<char>,
> {
    match r {
        Ok(x) => Ok(x@),
        Err(e) => Err(e@),
    }
}

/// Finds the member with this badge number or, on its first sighting, enters
/// one under `new_id` with the given role and no name.
pub fn resolve_or_create_member(
    store: &mut Store,
    prefect_number: &String,
    role: &String,
    new_id: String,
) -> (r: Result<Resolution, String>)
    ensures
        well_formed(final(store)@),
        (final(store)@, resolution_view(r)) == resolving(
            old(store)@,
            prefect_number@,
            role@,
            new_id@,
        ),
{
    match locate(store, prefect_number, &new_id) {
        Ok(Some(k)) => Ok(Resolution::Found(store.member_at(k).id.clone())),
        Ok(None) => {
            store.insert_member(
                Member {
                    id: new_id.clone(),
                    name: None,
                    role: role.clone(),
                    prefect_number: prefect_number.clone(),
                },
            );
            Ok(Resolution::Created(new_id))
        },
        Err(e) => Err(e),
    }
}

/// The identifier under which a marking for this badge number is entered: the
/// member's own where the badge number is known, else the one held ready.
pub open spec fn resolved_id(ms: Seq<MemberView>, prefect_number: Seq<char>, new_id: Seq<char>)
    -> Seq<char> {
    if has_prefect(ms, prefect_number) {
        member_with_prefect(ms, prefect_number).id
    } else {
        new_id
    }
}

/// The role that a marking is shown with: the member's own where the badge
/// number is known, else the given one, with which the member is entered.
pub open spec fn resolved_role(ms: Seq<MemberView>, prefect_number: Seq<char>, role: Seq<char>)
    -> Seq<char> {
    if has_prefect(ms, prefect_number) {
        member_with_prefect(ms, prefect_number).role
    } else {
        role
    }
}

/// The row that a successful marking enters.
pub open spec fn marked_row(
    v: StoreView,
    prefect_number: Seq<char>,
    at: MomentView,
    new_member_id: Seq<char>,
    record_id: Seq<char>,
) -> RowView {
    RowView {
        id: record_id,
        member_id: resolved_id(v.members, prefect_number, new_member_id),
        date: at.date,
        timestamp: at.timestamp,
        status: status_at(at.hour, at.minute),
    }
}

/// A stored row as it is shown, with a badge number and a role beside it.
pub open spec fn shown(row: RowView, prefect_number: Seq<char>, role: Seq<char>) -> RecordView {
    RecordView {
        id: row.id,
        member_id: row.member_id,
        date: row.date,
        timestamp: row.timestamp,
        status: row.status,
        prefect_number: Some(prefect_number),
        role: Some(role),
    }
}

/// Why a marking is refused, if it is. In this order: the badge number is new
/// and the identifier held ready for its member is taken; the member already
/// has a row for the day; the identifier held ready for the row is taken.
pub open spec fn marking_refusal(
    v: StoreView,
    prefect_number: Seq<char>,
    date: Seq<char>,
    new_member_id: Seq<char>,
    record_id: Seq<char>,
) -> Option<Seq<char>> {
    if !has_prefect(v.members, prefect_number) && has_member_id(v.members, new_member_id) {
        Some(taken_member_id_text())
    } else if marked_on(
        v.attendance,
        resolved_id(v.members, prefect_number, new_member_id),
        date,
    ) {
        Some(duplicate_text(prefect_number, date))
    } else if has_row_id(v.attendance, record_id) {
        Some(taken_row_id_text())
    } else {
        None
    }
}

/// What marking attendance does to a register and what it reports, at a given
/// reading of the clock and with two identifiers held ready, one for a new
/// member and one for the new row. A refused marking changes nothing. An
/// accepted one enters the member if the badge number is new, then the row,
/// and shows the row with the badge number and the member's role.
pub open spec fn marking(
    v: StoreView,
    prefect_number: Seq<char>,
    role: Seq<char>,
    at: MomentView,
    new_member_id: Seq<char>,
    record_id: Seq<char>,
) -> (StoreView, Result<RecordView, Seq<char>>) {
    match marking_refusal(v, prefect_number, at.date, new_member_id, record_id) {
        Some(why) => (v, Err(why)),
        None => {
            let row = marked_row(v, prefect_number, at, new_member_id, record_id);
            (
                StoreView {
                    members: if has_prefect(v.members, prefect_number) {
                        v.members
                    } else {
                        v.members.push(sighted_member(new_member_id, prefect_number, role))
                    },
                    attendance: v.attendance.push(row),
                },
                Ok(shown(row, prefect_number, resolved_role(v.members, prefect_number, role))),
            )
        },
    }
}

/// The view of what marking reports.
pub open spec fn record_outcome(r: Result<AttendanceRecord, String>) -> Result<
    RecordView,
    Seq<char>,
> {
    match r {
        Ok(x) => Ok(x@),
        Err(e) => Err(e@),
    }
}

/// Marks attendance for a badge number at a given reading of the clock, with
/// `new_member_id` held ready for a member seen for the first time and
/// `record_id` for the new row.
pub fn mark_attendance_at(
    store: &mut Store,
    prefect_number: String,
    role: String,
    at: Moment,
    new_member_id: String,
    record_id: String,
) -> (r: Result<AttendanceRecord, String>)
    ensures
        well_formed(final(store)@),
        (final(store)@, record_outcome(r)) == marking(
            old(store)@,
            prefect_number@,
            role@,
            at@,
            new_member_id@,
            record_id@,
        ),
{
    let found = match locate(store, &prefect_number, &new_member_id) {
        Ok(place) => place,
        Err(e) => {
            return Err(e);
        },
    };
    let (member_id, shown_role) = match found {
        Some(k) => (store.member_at(k).id.clone(), store.member_at(k).role.clone()),
        None => (new_member_id, role.clone()),
    };
    if store.is_marked(&member_id, &at.date) {
        return Err(duplicate_message(&prefect_number, &at.date));
    }
    if store.row_id_taken(&record_id) {
        return Err(taken_row_id_message());
    }
    let status = attendance_status(at.hour, at.minute);
    if found.is_none() {
        store.insert_member(
            Member {
                id: member_id.clone(),
                name: None,
                role,
                prefect_number: prefect_number.clone(),
            },
        );
    }
    store.insert_row(
        AttendanceRow {
            id: record_id.clone(),
            member_id: member_id.clone(),
            date: at.date.clone(),
            timestamp: at.timestamp.clone(),
            status: status.clone(),
        },
    );
    Ok(
        AttendanceRecord {
            id: record_id,
            member_id,
            date: at.date,
            timestamp: at.timestamp,
            status,
            prefect_number: Some(prefect_number),
            role: Some(shown_role),
        },
    )
}

/// A reading that a clock can give: an hour of the day and a minute of the hour.
pub open spec fn clock_reading(at: MomentView) -> bool {
    0 <= at.hour < 24 && 0 <= at.minute < 60
}

/// The stored row that a shown record stands for.
pub open spec fn row_of(record: RecordView) -> RowView {
    RowView {
        id: record.id,
        member_id: record.member_id,
        date: record.date,
        timestamp: record.timestamp,
        status: record.status,
    }
}

/// Marks attendance for a badge number now: reads the local clock, draws the
/// identifiers, and marks as [`mark_attendance_at`] does with them. Which
/// reading and which identifiers were used is not known beforehand, so the
/// outcome is that of [`marking`] for some reading and some pair of
/// identifiers. Whatever they were: a refusal changes nothing; an accepted
/// marking enters exactly the row of the record it reports, whose identifier
/// was free and whose member had no row for its day, leaves a known member's
/// roster as it was and shows that member's role, and enters a new badge
/// number under the record's member identifier with the given role.
pub fn mark_attendance(store: &mut Store, prefect_number: String, role: String) -> (r: Result<
    AttendanceRecord,
    String,
>)
    ensures
        well_formed(final(store)@),
        match r {
            Ok(record) => {
                &&& final(store)@.attendance == old(store)@.attendance.push(row_of(record@))
                &&& !has_row_id(old(store)@.attendance, record@.id)
                &&& !marked_on(old(store)@.attendance, record@.member_id, record@.date)
                &&& record@.status == "Present"@ || record@.status == "Late"@
                &&& record@.prefect_number == Some(prefect_number@)
                &&& record@.role == Some(
                    resolved_role(old(store)@.members, prefect_number@, role@),
                )
                &&& has_prefect(old(store)@.members, prefect_number@) ==> final(store)@.members
                    == old(store)@.members && record@.member_id == member_with_prefect(
                    old(store)@.members,
                    prefect_number@,
                ).id
                &&& !has_prefect(old(store)@.members, prefect_number@) ==> final(store)@.members
                    == old(store)@.members.push(
                    sighted_member(record@.member_id, prefect_number@, role@),
                ) && !has_member_id(old(store)@.members, record@.member_id)
            },
            Err(_) => final(store)@ == old(store)@,
        },
        exists|at: MomentView, new_member_id: Seq<char>, record_id: Seq<char>|
            clock_reading(at) && new_member_id.len() == 36 && record_id.len() == 36 && (
                final(store)@,
                record_outcome(r),
            ) == #[trigger] marking(
                old(store)@,
                prefect_number@,
                role@,
                at,
                new_member_id,
                record_id,
            ),
{
    let at = read_clock();
    let new_member_id = fresh_id();
    let record_id = fresh_id();
    mark_attendance_at(store, prefect_number, role, at, new_member_id, record_id)
}

/// A stored row as it is listed: beside it the badge number and role of the
/// member it belongs to.
pub open spec fn joined(row: RowView, ms: Seq<MemberView>) -> RecordView {
    let m = member_with_id(ms, row.member_id);
    shown(row, m.prefect_number, m.role)
}

/// Whether a stored row is on a listing: its member is on the roster, and
/// where the listing is for one day, the row's day is exactly that day.
pub open spec fn on_listing(row: RowView, ms: Seq<MemberView>, date: Option<Seq<char>>) -> bool {
    has_member_id(ms, row.member_id) && match date {
        Some(d) => row.date == d,
        None => true,
    }
}

/// [`on_listing`] as a function of the row.
pub open spec fn listing_filter(ms: Seq<MemberView>, date: Option<Seq<char>>) -> spec_fn(
    RowView,
) -> bool {
    |row: RowView| on_listing(row, ms, date)
}

/// [`joined`] as a function of the row.
pub open spec fn listing_join(ms: Seq<MemberView>) -> spec_fn(RowView) -> RecordView {
    |row: RowView| joined(row, ms)
}

/// The listing of a register, for one day or for all: the rows that are on
/// it, in the order in which they were entered, each joined with its member.
pub open spec fn listed(v: StoreView, date: Option<Seq<char>>) -> Seq<RecordView> {
    v.attendance.filter(listing_filter(v.members, date)).map_values(listing_join(v.members))
}

/// Filtering one element more either appends that element or changes nothing.
proof fn lemma_filter_step<A>(s: Seq<A>, k: int, keep: spec_fn(A) -> bool)
    requires
        0 <= k < s.len(),
    ensures
        s.take(k + 1).filter(keep) == if keep(s[k]) {
            s.take(k).filter(keep).push(s[k])
        } else {
            s.take(k).filter(keep)
        },
{
    reveal(Seq::filter);
    assert(s.take(k + 1).drop_last() =~= s.take(k));
}

/// The listing for one day, or for all days where `date` is `None`.
pub fn list_attendance(store: &Store, date: Option<&String>) -> (out: Vec<AttendanceRecord>)
    ensures
        well_formed(store@),
        records_view(out@) == listed(
            store@,
            match date {
                Some(d) => Some(d@),
                None => None,
            },
        ),
{
    let ghost v = store@;
    let ghost day: Option<Seq<char>> = match date {
        Some(d) => Some(d@),
        None => None,
    };
    let ghost keep = listing_filter(v.members, day);
    let ghost join = listing_join(v.members);
    let n = store.row_count();
    let mut out: Vec<AttendanceRecord> = Vec::new();
    let mut k: usize = 0;
    proof {
        assert(v.attendance.take(0) =~= Seq::<RowView>::empty());
        reveal(Seq::filter);
        assert(records_view(out@) =~= v.attendance.take(0).filter(keep).map_values(join));
    }
    while k < n
        invariant
            k <= n,
            n == v.attendance.len(),
            v == store@,
            keep == listing_filter(v.members, day),
            join == listing_join(v.members),
            day == match date {
                Some(d) => Some(d@),
                None => None::<Seq<char>>,
            },
            records_view(out@) == v.attendance.take(k as int).filter(keep).map_values(join),
        decreases n - k,
    {
        let row = store.row_at(k);
        let wanted = match date {
            Some(d) => row.date == *d,
            None => true,
        };
        proof {
            lemma_filter_step(v.attendance, k as int, keep);
        }
        if wanted {
            match store.find_member(&row.member_id) {
                Some(j) => {
                    let m = store.member_at(j);
                    let record = AttendanceRecord {
                        id: row.id.clone(),
                        member_id: row.member_id.clone(),
                        date: row.date.clone(),
                        timestamp: row.timestamp.clone(),
                        status: row.status.clone(),
                        prefect_number: Some(m.prefect_number.clone()),
                        role: Some(m.role.clone()),
                    };
                    proof {
                        let before = v.attendance.take(k as int).filter(keep);
                        assert(record@ == join(v.attendance[k as int]));
                        assert(records_view(out@.push(record)) =~= records_view(out@).push(
                            record@,
                        ));
                        assert(before.push(v.attendance[k as int]).map_values(join)
                            =~= before.map_values(join).push(join(v.attendance[k as int])));
                    }
                    out.push(record);
                },
                None => {},
            }
        }
        k += 1;
    }
    proof {
        assert(v.attendance.take(n as int) =~= v.attendance);
    }
    out
}

/// The attendance of one day: every row whose day is exactly `date` and whose
/// member is on the roster, joined with that member's badge number and role.
pub fn get_attendance_by_date(store: &Store, date: String) -> (r: Result<
    Vec<AttendanceRecord>,
    String,
>)
    ensures
        well_formed(store@),
        r matches Ok(out) && records_view(out@) == listed(store@, Some(date@)),
{
    Ok(list_attendance(store, Some(&date)))
}

/// The attendance of all days: every row whose member is on the roster,
/// joined with that member's badge number and role.
pub fn get_all_attendance(store: &Store) -> (r: Result<Vec<AttendanceRecord>, String>)
    ensures
        well_formed(store@),
        r matches Ok(out) && records_view(out@) == listed(store@, None),
{
    Ok(list_attendance(store, None))
}

/// The roster: every member, in the order of entry.
pub fn get_member_list(store: &Store) -> (r: Result<Vec<Member>, String>)
    ensures
        well_formed(store@),
        r matches Ok(out) && members_view(out@) == store@.members,
{
    let n = store.member_count();
    let mut out: Vec<Member> = Vec::new();
    let mut k: usize = 0;
    while k < n
        invariant
            k <= n,
            n == store@.members.len(),
            members_view(out@) =~= store@.members.take(k as int),
        decreases n - k,
    {
        let m = store.member_at(k).clone();
        proof {
            assert(members_view(out@.push(m)) =~= members_view(out@).push(m@));
            assert(store@.members.take(k + 1) =~= store@.members.take(k as int).push(
                store@.members[k as int],
            ));
        }
        out.push(m);
        k += 1;
    }
    proof {
        assert(store@.members.take(n as int) =~= store@.members);
    }
    Ok(out)
}

/// The member that an explicit entry makes: the name as given, or none.
pub open spec fn entered_member(
    id: Seq<char>,
    prefect_number: Seq<char>,
    role: Seq<char>,
    name: Option<Seq<char>>,
) -> MemberView {
    MemberView { id, name, role, prefect_number }
}

/// What entering a member does to a register and what it reports, where
/// `new_id` is the identifier held ready. A badge number that is taken, or
/// else an identifier that is taken, is reported and changes nothing.
/// Otherwise the member is appended and its identifier reported.
pub open spec fn creating(
    v: StoreView,
    prefect_number: Seq<char>,
    role: Seq<char>,
    name: Option<Seq<char>>,
    new_id: Seq<char>,
) -> (StoreView, Result<Seq<char>, Seq<char>>) {
    if has_prefect(v.members, prefect_number) {
        (v, Err(taken_prefect_text()))
    } else if has_member_id(v.members, new_id) {
        (v, Err(taken_member_id_text()))
    } else {
        (
            StoreView {
                members: v.members.push(entered_member(new_id, prefect_number, role, name)),
                ..v
            },
            Ok(new_id),
        )
    }
}

/// The view of a reported identifier or refusal.
pub open spec fn text_outcome(r: Result<String, String>) -> Result<Seq<char>, Seq<char>> {
    match r {
        Ok(x) => Ok(x@),
        Err(e) => Err(e@),
    }
}

/// Enters a member under the identifier `new_id`.
pub fn create_member_with(
    store: &mut Store,
    prefect_number: String,
    role: String,
    name: Option<String>,
    new_id: String,
) -> (r: Result<String, String>)
    ensures
        well_formed(final(store)@),
        (final(store)@, text_outcome(r)) == creating(
            old(store)@,
            prefect_number@,
            role@,
            text_of(name),
            new_id@,
        ),
{
    if store.find_prefect(&prefect_number).is_some() {
        return Err(taken_prefect_message());
    }
    if store.find_member(&new_id).is_some() {
        return Err(taken_member_id_message());
    }
    store.insert_member(Member { id: new_id.clone(), name, role, prefect_number });
    Ok(new_id)
}

/// Enters a member under a freshly drawn identifier. A badge number that is
/// already on the roster is refused and nothing changes; otherwise the
/// outcome is that of [`creating`] for the identifier that was drawn. Whatever
/// it was: a refusal changes nothing, and an accepted entry appends exactly
/// the member with the reported identifier, which was free.
pub fn create_member(
    store: &mut Store,
    prefect_number: String,
    role: String,
    name: Option<String>,
) -> (r: Result<String, String>)
    ensures
        well_formed(final(store)@),
        has_prefect(old(store)@.members, prefect_number@) ==> final(store)@ == old(store)@
            && text_outcome(r) == Err::<Seq<char>, Seq<char>>(taken_prefect_text()),
        match r {
            Ok(id) => {
                &&& id@.len() == 36
                &&& !has_prefect(old(store)@.members, prefect_number@)
                &&& !has_member_id(old(store)@.members, id@)
                &&& final(store)@ == (StoreView {
                    members: old(store)@.members.push(
                        entered_member(id@, prefect_number@, role@, text_of(name)),
                    ),
                    ..old(store)@
                })
            },
            Err(_) => final(store)@ == old(store)@,
        },
        exists|new_id: Seq<char>|
            new_id.len() == 36 && (final(store)@, text_outcome(r)) == #[trigger] creating(
                old(store)@,
                prefect_number@,
                role@,
                text_of(name),
                new_id,
            ),
{
    let new_id = fresh_id();
    create_member_with(store, prefect_number, role, name, new_id)
}

/// A member after an update: each field that was given takes the given
/// value, each field that was not stays. The identifier never changes.
pub open spec fn revised(
    m: MemberView,
    prefect_number: Option<Seq<char>>,
    role: Option<Seq<char>>,
    name: Option<Seq<char>>,
) -> MemberView {
    MemberView {
        id: m.id,
        name: match name {
            Some(n) => Some(n),
            None => m.name,
        },
        role: match role {
            Some(r) => r,
            None => m.role,
        },
        prefect_number: match prefect_number {
            Some(p) => p,
            None => m.prefect_number,
        },
    }
}

/// Some member other than the one with this identifier carries this badge number.
pub open spec fn held_by_other(ms: Seq<MemberView>, id: Seq<char>, prefect_number: Seq<char>)
    -> bool {
    exists|j: int|
        0 <= j < ms.len() && (#[trigger] ms[j]).prefect_number == prefect_number && ms[j].id != id
}

/// [`revised`] applied to the member with this identifier and to no other, as
/// a function of the member.
pub open spec fn revision(
    id: Seq<char>,
    prefect_number: Option<Seq<char>>,
    role: Option<Seq<char>>,
    name: Option<Seq<char>>,
) -> spec_fn(MemberView) -> MemberView {
    |m: MemberView|
        if m.id == id {
            revised(m, prefect_number, role, name)
        } else {
            m
        }
}

/// What an update does to a register and what it reports. It is refused, and
/// changes nothing, where the member exists, a badge number is given, and
/// another member carries it. Otherwise the member with this identifier is
/// revised; where there is none, nothing changes and nothing is reported.
pub open spec fn updating(
    v: StoreView,
    id: Seq<char>,
    prefect_number: Option<Seq<char>>,
    role: Option<Seq<char>>,
    name: Option<Seq<char>>,
) -> (StoreView, Result<(), Seq<char>>) {
    if has_member_id(v.members, id) && prefect_number is Some && held_by_other(
        v.members,
        id,
        prefect_number->0,
    ) {
        (v, Err(taken_prefect_text()))
    } else {
        (
            StoreView {
                members: v.members.map_values(revision(id, prefect_number, role, name)),
                ..v
            },
            Ok(()),
        )
    }
}

/// The view of a reported success or refusal.
pub open spec fn unit_outcome(r: Result<(), String>) -> Result<(), Seq<char>> {
    match r {
        Ok(x) => Ok(()),
        Err(e) => Err(e@),
    }
}

/// Updates the member with this identifier: each field that is given is set,
/// each field that is not is left as it was.
pub fn update_member(
    store: &mut Store,
    id: String,
    prefect_number: Option<String>,
    role: Option<String>,
    name: Option<String>,
) -> (r: Result<(), String>)
    ensures
        well_formed(final(store)@),
        (final(store)@, unit_outcome(r)) == updating(
            old(store)@,
            id@,
            text_of(prefect_number),
            text_of(role),
            text_of(name),
        ),
{
    let ghost v = store@;
    let ghost change = revision(id@, text_of(prefect_number), text_of(role), text_of(name));
    match store.find_member(&id) {
        None => {
            proof {
                assert(v.members.map_values(change) =~= v.members);
            }
            Ok(())
        },
        Some(k) => {
            proof {
                lemma_member_at(v, k as int);
            }
            match &prefect_number {
                Some(p) => {
                    match store.find_prefect(p) {
                        Some(j) => {
                            if j != k {
                                assert(v.members[j as int].prefect_number == p@);
                                return Err(taken_prefect_message());
                            }
                        },
                        None => {},
                    }
                },
                None => {},
            }
            let current = store.member_at(k);
            let member = Member {
                id: current.id.clone(),
                name: match name {
                    Some(n) => Some(n),
                    None => copy_text(&current.name),
                },
                role: match role {
                    Some(r) => r,
                    None => current.role.clone(),
                },
                prefect_number: match prefect_number {
                    Some(p) => p,
                    None => current.prefect_number.clone(),
                },
            };
            proof {
                assert(member@ == change(v.members[k as int]));
                assert forall|j: int| 0 <= j < v.members.len() && j != k implies (
                #[trigger] v.members[j]).prefect_number != member@.prefect_number by {
                    lemma_member_at(v, j);
                }
                assert(v.members.map_values(change) =~= v.members.update(k as int, member@)) by {
                    assert forall|j: int| 0 <= j < v.members.len() && j != k implies (
                    #[trigger] v.members[j]).id != id@ by {
                        lemma_member_at(v, j);
                    }
                }
            }
            store.replace_member(k, member);
            Ok(())
        },
    }
}

/// The register after the member with this identifier is taken off the
/// roster. Attendance rows stay, also those of that member.
pub open spec fn deleting(v: StoreView, id: Seq<char>) -> StoreView {
    if has_member_id(v.members, id) {
        StoreView { members: v.members.remove(index_of_id(v.members, id)), ..v }
    } else {
        v
    }
}

/// Takes the member with this identifier off the roster. Where there is none,
/// nothing changes and nothing is reported.
pub fn delete_member(store: &mut Store, id: String) -> (r: Result<(), String>)
    ensures
        r is Ok,
        well_formed(final(store)@),
        final(store)@ == deleting(old(store)@, id@),
{
    match store.find_member(&id) {
        Some(k) => {
            store.remove_member(k);
        },
        None => {},
    }
    Ok(())
}

/// Removes every attendance row and every member.
pub fn wipe_all_data(store: &mut Store) -> (r: Result<(), String>)
    ensures
        r is Ok,
        final(store)@ == empty_store(),
{
    store.clear();
    Ok(())
}

/// Whether a newer release is on offer: never, as no source of releases is
/// consulted.
pub fn check_for_updates() -> (r: Result<bool, String>)
    ensures
        r matches Ok(available) && !available,
{
    Ok(false)
}

} // verus!
