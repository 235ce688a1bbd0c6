//! Text shaping for the web procedures: the UTC clock stamp and the reply
//! lines the chat page shows.

use vstd::prelude::*;

use crate::clock::now_unix;
use crate::text::{decimal, is_blank, is_blank_str, push_decimal, push_str};

verus! {

/// Two-digit rendering of a value below 100 (`{:02}`).
pub open spec fn two_digits(v: nat) -> Seq<char> {
    if v < 10 {
        "0"@ + decimal(v)
    } else {
        decimal(v)
    }
}

/// `HH:MM:SS` of the UTC time of day at `secs` seconds after the epoch.
pub open spec fn clock_text(secs: u64) -> Seq<char> {
    two_digits(((secs / 3600) % 24) as nat) + ":"@ + two_digits(((secs / 60) % 60) as nat) + ":"@
        + two_digits((secs % 60) as nat)
}

fn push_two_digits(s: &mut String, v: u64)
    requires
        v < 100,
    ensures
        final(s)@ == old(s)@ + two_digits(v as nat),
{
    if v < 10 {
        push_str(s, "0");
    }
    push_decimal(s, v);
}

/// `HH:MM:SS` of the UTC time of day at `secs`.
pub fn hms_of(secs: u64) -> (s: String)
    ensures
        s@ == clock_text(secs),
{
    let mut s = String::new();
    push_two_digits(&mut s, (secs / 3600) % 24);
    push_str(&mut s, ":");
    push_two_digits(&mut s, (secs / 60) % 60);
    push_str(&mut s, ":");
    push_two_digits(&mut s, secs % 60);
    s
}

/// The current UTC time of day as `HH:MM:SS`.
pub fn utc_hms() -> (s: String)
    ensures
        exists|t: u64| s@ == clock_text(t),
{
    let t = now_unix();
    let s = hms_of(t);
    assert(s@ == clock_text(t));
    s
}

/// A procedure's reply line: the stamped body, or the stamped error.
pub open spec fn reply_text(hms: Seq<char>, body: Result<String, String>) -> Seq<char> {
    match body {
        Ok(b) => "["@ + hms + "] "@ + b@,
        Err(e) => "["@ + hms + "] (error: "@ + e@ + ")"@,
    }
}

/// Stamp a procedure's result for the page log.
pub fn reply_line(hms: &str, body: Result<String, String>) -> (s: String)
    ensures
        s@ == reply_text(hms@, body),
{
    let mut s = String::new();
    push_str(&mut s, "[");
    push_str(&mut s, hms);
    match body {
        Ok(b) => {
            push_str(&mut s, "] ");
            push_str(&mut s, b.as_str());
        },
        Err(e) => {
            push_str(&mut s, "] (error: ");
            push_str(&mut s, e.as_str());
            push_str(&mut s, ")");
        },
    }
    s
}

/// A stamped note in parentheses, such as `(empty message)`.
pub fn note_line(hms: &str, note: &str) -> (s: String)
    ensures
        s@ == "["@ + hms@ + "] ("@ + note@ + ")"@,
{
    let mut s = String::new();
    push_str(&mut s, "[");
    push_str(&mut s, hms);
    push_str(&mut s, "] (");
    push_str(&mut s, note);
    push_str(&mut s, ")");
    s
}

/// The note a free chat turn is answered with instead of a reply: a blank
/// message is not sent.
pub fn message_guard(message: &str) -> (r: Option<&'static str>)
    ensures
        is_blank(message@) ==> (r matches Some(n) && n@ == "empty message"@),
        !is_blank(message@) ==> r is None,
{
    if is_blank_str(message) {
        Some("empty message")
    } else {
        None
    }
}

/// The note a create request is answered with instead of a card: a blank
/// concept creates nothing.
pub fn concept_guard(concept: &str) -> (r: Option<&'static str>)
    ensures
        is_blank(concept@) ==> (r matches Some(n) && n@ == "empty concept"@),
        !is_blank(concept@) ==> r is None,
{
    if is_blank_str(concept) {
        Some("empty concept")
    } else {
        None
    }
}

/// The note a character chat turn is answered with instead of a reply: a
/// blank slug is reported first, then a blank message.
pub fn chat_guard(slug: &str, message: &str) -> (r: Option<&'static str>)
    ensures
        is_blank(slug@) ==> (r matches Some(n) && n@ == "empty slug"@),
        !is_blank(slug@) && is_blank(message@) ==> (r matches Some(n) && n@ == "empty message"@),
        !is_blank(slug@) && !is_blank(message@) ==> r is None,
{
    if is_blank_str(slug) {
        Some("empty slug")
    } else {
        message_guard(message)
    }
}

} // verus!
