//! Backups as text: the bytes of a register file carried in base64.

use vstd::prelude::*;
use vstd::string::StringExecFns;

verus! {

/// `base64::DecodeError`, the reason for which `base64::decode` refuses a
/// text. It is carried through unopened.
#[verifier::external_type_specification]
#[verifier::external_body]
pub struct ExDecodeError(base64::DecodeError);

/// The standard base64 text of a sequence of bytes, with padding, as
/// `base64::encode` produces it.
pub uninterp spec fn base64_encoding(bytes: Seq<u8>) -> Seq<char>;

/// The bytes that a text stands for in standard base64 with padding, as
/// `base64::decode` reads it; `None` where the text is no such encoding.
pub uninterp spec fn base64_decoding(text: Seq<char>) -> Option<Seq<u8>>;

/// Whether content of this length has a base64 text whose length fits in `usize`.
pub open spec fn fits_in_text(len: int) -> bool {
    len / 3 <= (usize::MAX - 4) / 4
}

/// Trusted: `base64::encode`, which encodes with the crate's `STANDARD`
/// engine. It fails only where the length of the text does not fit in
/// `usize`, which the precondition leaves out. The text it gives is named
/// [`base64_encoding`]; that the same engine reads that text back as the same
/// bytes is stated here as well.
#[verifier::external_body]
#[allow(deprecated)]
fn encode(content: &Vec<u8>) -> (text: String)
    requires
        fits_in_text(content@.len() as int),
    ensures
        text@ == base64_encoding(content@),
        base64_decoding(text@) == Some(content@),
{
    base64::encode(content)
}

/// Trusted: `base64::decode`, which decodes with the crate's `STANDARD`
/// engine. What it reads from a text is named [`base64_decoding`]; an error
/// comes back exactly where the text is no encoding.
#[verifier::external_body]
#[allow(deprecated)]
fn decode(text: &String) -> (r: Result<Vec<u8>, base64::DecodeError>)
    ensures
        match r {
            Ok(bytes) => base64_decoding(text@) == Some(bytes@),
            Err(_) => base64_decoding(text@) is None,
        },
{
    base64::decode(text)
}

/// Trusted: the `Display` text of a `base64::DecodeError`. Nothing is claimed
/// of the text.
#[verifier::external_body]
fn decode_error_text(e: &base64::DecodeError) -> String {
    e.to_string()
}

/// The report of content too long to be carried as text.
pub open spec fn too_long_text() -> Seq<char> {
    "backup is too long to encode"@
}

/// The backup of a register file: its bytes as base64 text. Content whose
/// text would be longer than `usize` can count is refused.
pub fn export_backup(content: Vec<u8>) -> (r: Result<String, String>)
    ensures
        match r {
            Ok(text) => fits_in_text(content@.len() as int) && text@ == base64_encoding(
                content@,
            ) && base64_decoding(text@) == Some(content@),
            Err(e) => !fits_in_text(content@.len() as int) && e@ == too_long_text(),
        },
{
    if content.len() / 3 <= (usize::MAX - 4) / 4 {
        Ok(encode(&content))
    } else {
        Err(String::from_str("backup is too long to encode"))
    }
}

/// The bytes of a register file from its backup text. A text that is no
/// base64 encoding is refused, and no other.
pub fn import_backup(backup_data: String) -> (r: Result<Vec<u8>, String>)
    ensures
        match r {
            Ok(bytes) => base64_decoding(backup_data@) == Some(bytes@),
            Err(_) => base64_decoding(backup_data@) is None,
        },
{
    match decode(&backup_data) {
        Ok(bytes) => Ok(bytes),
        Err(e) => Err(decode_error_text(&e)),
    }
}

} // verus!
