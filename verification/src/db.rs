//! Where the register is kept.

use vstd::prelude::*;
use vstd::string::StringExecFns;

verus! {

/// The name of the file that holds the register, inside the application's
/// data directory.
pub open spec fn db_file_text() -> Seq<char> {
    "attendance.db"@
}

/// The name of the file that holds the register.
pub fn db_file_name() -> (name: String)
    ensures
        name@ == db_file_text(),
{
    String::from_str("attendance.db")
}

} // verus!
