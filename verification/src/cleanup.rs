//! The check of a cleanup report before it is shown.

use crate::json::{json_read, read_json, Json, JsonModel};
use crate::text::{byte_count, byte_length, decimal, join3, owned, write_number, write_wide_number};
use vstd::prelude::*;
use vstd::string::*;
use vstd::utf8::*;

verus! {

pub const MAX_REPORT_BYTES: usize = 262_144;

/// The document is a report of the version that is understood.
pub open spec fn versioned_report(document: JsonModel) -> bool {
    &&& document.member("schema"@) matches Some(schema)
    &&& schema.unsigned() == Some(1u64)
    &&& document.member("clean"@) matches Some(clean)
    &&& clean.truth() is Some
    &&& document.member("suggested"@) matches Some(suggested)
    &&& suggested.text() is Some
    &&& document.member("edits"@) matches Some(edits)
    &&& edits is Array
}

fn is_versioned(document: &Json) -> (r: bool)
    ensures
        r == versioned_report(document@),
{
    let schema = match document.get("schema") {
        Some(schema) => schema.as_unsigned(),
        None => None,
    };
    let clean = match document.get("clean") {
        Some(clean) => clean.as_bool().is_some(),
        None => false,
    };
    let suggested = match document.get("suggested") {
        Some(suggested) => suggested.as_text().is_some(),
        None => false,
    };
    let edits = match document.get("edits") {
        Some(Json::Array(_)) => true,
        _ => false,
    };
    match schema {
        Some(schema) => schema == 1 && clean && suggested && edits,
        None => false,
    }
}

/// Checks what was read out of a report.
pub fn check_document(read: Result<Json, String>) -> (r: Result<Json, String>)
    ensures
        match read {
            Err(text) => r matches Err(message) && message@ == text@,
            Ok(document) => if versioned_report(document@) {
                r == Ok::<Json, String>(document)
            } else {
                r matches Err(message) && message@ == "cleanup report has an unsupported schema"@
            },
        },
{
    match read {
        Err(text) => Err(text),
        Ok(document) => {
            if !is_versioned(&document) {
                return Err(owned("cleanup report has an unsupported schema"));
            }
            Ok(document)
        },
    }
}

/// Checks that a report is one that can be shown.
pub fn validate_report(report: &str) -> (r: Result<Json, String>)
    ensures
        match r {
            Ok(document) => {
                &&& byte_length(report@) <= MAX_REPORT_BYTES
                &&& json_read(encode_utf8(report@)) == Ok::<JsonModel, Seq<char>>(document@)
                &&& versioned_report(document@)
            },
            Err(message) => if byte_length(report@) > MAX_REPORT_BYTES {
                message@ == "cleanup report is too large"@
            } else {
                match json_read(encode_utf8(report@)) {
                    Err(text) => message@ == text,
                    Ok(document) => !versioned_report(document) && message@
                        == "cleanup report has an unsupported schema"@,
                }
            },
        },
{
    if byte_count(report) > MAX_REPORT_BYTES {
        return Err(owned("cleanup report is too large"));
    }
    check_document(read_json(report.as_bytes()))
}

/// The file that a report is handed over in.
pub fn report_name(process: u32, nonce: u128) -> (name: String)
    ensures
        name@ == "cleanup-report-"@ + decimal(process as nat) + "-"@ + decimal(nonce as nat)
            + ".json"@,
{
    let first = write_number(process as u64);
    let second = write_wide_number(nonce);
    let mut name = join3("cleanup-report-", first.as_str(), "-");
    name.append(second.as_str());
    name.append(".json");
    name
}

} // verus!
