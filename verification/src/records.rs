//! The rows of the register and their mathematical views.

use vstd::prelude::*;

verus! {

/// A tracked individual, identified from outside by a badge number.
#[derive(Debug, PartialEq, Eq)]
pub struct Member {
    pub id: String,
    pub name: Option<String>,
    pub role: String,
    pub prefect_number: String,
}

/// What a [`Member`] holds, as sequences of characters.
pub struct MemberView {
    pub id: Seq<char>,
    pub name: Option<Seq<char>>,
    pub role: Seq<char>,
    pub prefect_number: Seq<char>,
}

/// One stored attendance event: which member, which day, when, and how it was classified.
#[derive(Debug, PartialEq, Eq)]
pub struct AttendanceRow {
    pub id: String,
    pub member_id: String,
    pub date: String,
    pub timestamp: String,
    pub status: String,
}

/// What an [`AttendanceRow`] holds, as sequences of characters.
pub struct RowView {
    pub id: Seq<char>,
    pub member_id: Seq<char>,
    pub date: Seq<char>,
    pub timestamp: Seq<char>,
    pub status: Seq<char>,
}

/// An attendance event as handed to callers: the stored row together with the
/// badge number and role it is shown with.
#[derive(Debug, PartialEq, Eq)]
pub struct AttendanceRecord {
    pub id: String,
    pub member_id: String,
    pub date: String,
    pub timestamp: String,
    pub status: String,
    pub prefect_number: Option<String>,
    pub role: Option<String>,
}

/// What an [`AttendanceRecord`] holds, as sequences of characters.
pub struct RecordView {
    pub id: Seq<char>,
    pub member_id: Seq<char>,
    pub date: Seq<char>,
    pub timestamp: Seq<char>,
    pub status: Seq<char>,
    pub prefect_number: Option<Seq<char>>,
    pub role: Option<Seq<char>>,
}

/// The view of an optional string.
pub open spec fn text_of(s: Option<String>) -> Option<Seq<char>> {
    match s {
        Some(t) => Some(t@),
        None => None,
    }
}

impl View for Member {
    type V = MemberView;

    open spec fn view(&self) -> MemberView {
        MemberView {
            id: self.id@,
            name: text_of(self.name),
            role: self.role@,
            prefect_number: self.prefect_number@,
        }
    }
}

impl View for AttendanceRow {
    type V = RowView;

    open spec fn view(&self) -> RowView {
        RowView {
            id: self.id@,
            member_id: self.member_id@,
            date: self.date@,
            timestamp: self.timestamp@,
            status: self.status@,
        }
    }
}

impl View for AttendanceRecord {
    type V = RecordView;

    open spec fn view(&self) -> RecordView {
        RecordView {
            id: self.id@,
            member_id: self.member_id@,
            date: self.date@,
            timestamp: self.timestamp@,
            status: self.status@,
            prefect_number: text_of(self.prefect_number),
            role: text_of(self.role),
        }
    }
}

/// The views of a sequence of members, in order.
pub open spec fn members_view(s: Seq<Member>) -> Seq<MemberView> {
    s.map_values(|m: Member| m@)
}

/// The views of a sequence of stored rows, in order.
pub open spec fn rows_view(s: Seq<AttendanceRow>) -> Seq<RowView> {
    s.map_values(|r: AttendanceRow| r@)
}

/// The views of a sequence of records, in order.
pub open spec fn records_view(s: Seq<AttendanceRecord>) -> Seq<RecordView> {
    s.map_values(|r: AttendanceRecord| r@)
}

/// A copy of an optional string with the same text.
pub fn copy_text(s: &Option<String>) -> (r: Option<String>)
    ensures
        r == *s,
{
    match s {
        Some(t) => Some(t.clone()),
        None => None,
    }
}

impl Clone for Member {
    fn clone(&self) -> (r: Self)
        ensures
            r == *self,
    {
        Member {
            id: self.id.clone(),
            name: copy_text(&self.name),
            role: self.role.clone(),
            prefect_number: self.prefect_number.clone(),
        }
    }
}

impl Clone for AttendanceRow {
    fn clone(&self) -> (r: Self)
        ensures
            r == *self,
    {
        AttendanceRow {
            id: self.id.clone(),
            member_id: self.member_id.clone(),
            date: self.date.clone(),
            timestamp: self.timestamp.clone(),
            status: self.status.clone(),
        }
    }
}

impl Clone for AttendanceRecord {
    fn clone(&self) -> (r: Self)
        ensures
            r == *self,
    {
        AttendanceRecord {
            id: self.id.clone(),
            member_id: self.member_id.clone(),
            date: self.date.clone(),
            timestamp: self.timestamp.clone(),
            status: self.status.clone(),
            prefect_number: copy_text(&self.prefect_number),
            role: copy_text(&self.role),
        }
    }
}

} // verus!
