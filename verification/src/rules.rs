//! The rules of marking: when a marking counts as late, and the words in
//! which a refusal is reported.

use vstd::prelude::*;
use vstd::string::StringExecFns;

verus! {

/// A marking is late strictly after seven o'clock, counted in whole minutes:
/// the whole of minute 07:00 is still on time.
pub open spec fn is_late(hour: int, minute: int) -> bool {
    hour > 7 || (hour == 7 && minute > 0)
}

/// The status that a marking at this time of day is given.
pub open spec fn status_at(hour: int, minute: int) -> Seq<char> {
    if is_late(hour, minute) {
        "Late"@
    } else {
        "Present"@
    }
}

/// The status of a marking made at the given hour and minute.
pub fn attendance_status(hour: u32, minute: u32) -> (s: String)
    ensures
        s@ == status_at(hour as int, minute as int),
{
    if hour > 7 || (hour == 7 && minute > 0) {
        String::from_str("Late")
    } else {
        String::from_str("Present")
    }
}

/// The report of a second marking for one member on one day: it names the
/// badge number and the day.
pub open spec fn duplicate_text(prefect_number: Seq<char>, date: Seq<char>) -> Seq<char> {
    "Attendance already marked for "@ + prefect_number + " today ("@ + date + ")"@
}

/// The report of a second marking for one member on one day.
pub fn duplicate_message(prefect_number: &String, date: &String) -> (s: String)
    ensures
        s@ == duplicate_text(prefect_number@, date@),
{
    let mut s = String::from_str("Attendance already marked for ");
    s.append(prefect_number.as_str());
    s.append(" today (");
    s.append(date.as_str());
    s.append(")");
    s
}

/// The report of a member identifier that is already in the member table.
pub open spec fn taken_member_id_text() -> Seq<char> {
    "UNIQUE constraint failed: members.id"@
}

/// The report of a badge number that is already in the member table.
pub open spec fn taken_prefect_text() -> Seq<char> {
    "UNIQUE constraint failed: members.prefect_number"@
}

/// The report of a row identifier that is already in the attendance table.
pub open spec fn taken_row_id_text() -> Seq<char> {
    "UNIQUE constraint failed: attendance.id"@
}

/// The report of a member identifier that is already taken.
pub fn taken_member_id_message() -> (s: String)
    ensures
        s@ == taken_member_id_text(),
{
    String::from_str("UNIQUE constraint failed: members.id")
}

/// The report of a badge number that is already taken.
pub fn taken_prefect_message() -> (s: String)
    ensures
        s@ == taken_prefect_text(),
{
    String::from_str("UNIQUE constraint failed: members.prefect_number")
}

/// The report of a row identifier that is already taken.
pub fn taken_row_id_message() -> (s: String)
    ensures
        s@ == taken_row_id_text(),
{
    String::from_str("UNIQUE constraint failed: attendance.id")
}

} // verus!
