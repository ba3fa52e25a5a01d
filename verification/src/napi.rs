//! Status codes and value types of Node's N-API, and how failures are
//! reported.

use crate::text::{decimal, push_decimal, push_str};
use vstd::prelude::*;

verus! {

/// The status N-API returns on success.
pub const NAPI_OK: u32 = 0;

/// What a failed N-API status means.
pub open spec fn spec_status_description(status: u32) -> Seq<char> {
    if status == 1 { "invalid argument"@ }
    else if status == 2 { "object expected"@ }
    else if status == 3 { "string expected"@ }
    else if status == 4 { "name expected"@ }
    else if status == 5 { "function expected"@ }
    else if status == 6 { "number expected"@ }
    else if status == 7 { "boolean expected"@ }
    else if status == 8 { "array expected"@ }
    else if status == 9 { "generic failure"@ }
    else if status == 10 { "pending exception"@ }
    else if status == 11 { "cancelled"@ }
    else if status == 12 { "escape called twice"@ }
    else if status == 13 { "handle scope mismatch"@ }
    else if status == 14 { "callback scope mismatch"@ }
    else if status == 15 { "queue full"@ }
    else if status == 16 { "closing"@ }
    else if status == 17 { "bigint expected"@ }
    else if status == 18 { "date expected"@ }
    else if status == 19 { "arraybuffer expected"@ }
    else if status == 20 { "detachable arraybuffer expected"@ }
    else { "unknown error"@ }
}

pub fn status_description(status: u32) -> (desc: &'static str)
    ensures
        desc@ == spec_status_description(status),
{
    if status == 1 { "invalid argument" }
    else if status == 2 { "object expected" }
    else if status == 3 { "string expected" }
    else if status == 4 { "name expected" }
    else if status == 5 { "function expected" }
    else if status == 6 { "number expected" }
    else if status == 7 { "boolean expected" }
    else if status == 8 { "array expected" }
    else if status == 9 { "generic failure" }
    else if status == 10 { "pending exception" }
    else if status == 11 { "cancelled" }
    else if status == 12 { "escape called twice" }
    else if status == 13 { "handle scope mismatch" }
    else if status == 14 { "callback scope mismatch" }
    else if status == 15 { "queue full" }
    else if status == 16 { "closing" }
    else if status == 17 { "bigint expected" }
    else if status == 18 { "date expected" }
    else if status == 19 { "arraybuffer expected" }
    else if status == 20 { "detachable arraybuffer expected" }
    else { "unknown error" }
}

pub open spec fn spec_status_message(status: u32) -> Seq<char> {
    "js error #"@ + spec_status_description(status) + ": "@ + decimal(status as nat)
}

/// How a failed status is reported to JavaScript.
pub fn status_message(status: u32) -> (msg: String)
    ensures
        msg@ == spec_status_message(status),
{
    let mut s = String::new();
    push_str(&mut s, "js error #");
    push_str(&mut s, status_description(status));
    push_str(&mut s, ": ");
    push_decimal(&mut s, status as u64);
    s
}

/// The report of a failed status with its code repeated, for diagnostics.
pub fn status_debug_message(status: u32) -> (msg: String)
    ensures
        msg@ == spec_status_message(status) + " (code "@ + decimal(status as nat) + ")"@,
{
    let mut s = status_message(status);
    push_str(&mut s, " (code ");
    push_decimal(&mut s, status as u64);
    push_str(&mut s, ")");
    s
}

/// An error's report wrapped for diagnostics.
pub fn js_error_debug_message(display: &str) -> (msg: String)
    ensures
        msg@ == "JsError("@ + display@ + ")"@,
{
    let mut s = String::new();
    push_str(&mut s, "JsError(");
    push_str(&mut s, display);
    push_str(&mut s, ")");
    s
}

/// Success, or the failed status as an error.
pub fn check_status(status: u32) -> (res: Result<(), u32>)
    ensures
        status == NAPI_OK ==> res == Ok::<(), u32>(()),
        status != NAPI_OK ==> res == Err::<(), u32>(status),
{
    if status == NAPI_OK {
        Ok(())
    } else {
        Err(status)
    }
}

/// The name of an N-API value type.
pub open spec fn spec_value_type_name(t: u32) -> Seq<char> {
    if t == 0 { "undefined"@ }
    else if t == 1 { "null"@ }
    else if t == 2 { "boolean"@ }
    else if t == 3 { "number"@ }
    else if t == 4 { "string"@ }
    else if t == 5 { "symbol"@ }
    else if t == 6 { "object"@ }
    else if t == 7 { "function"@ }
    else if t == 8 { "external"@ }
    else if t == 9 { "bigint"@ }
    else { "?"@ }
}

pub fn value_type_name(t: u32) -> (name: &'static str)
    ensures
        name@ == spec_value_type_name(t),
{
    if t == 0 { "undefined" }
    else if t == 1 { "null" }
    else if t == 2 { "boolean" }
    else if t == 3 { "number" }
    else if t == 4 { "string" }
    else if t == 5 { "symbol" }
    else if t == 6 { "object" }
    else if t == 7 { "function" }
    else if t == 8 { "external" }
    else if t == 9 { "bigint" }
    else { "?" }
}

} // verus!
