use vstd::prelude::*;
use crate::text::{
    occurs_at, has_substr, first_occurrence, last_occurrence, to_chars, find_chars, rfind_chars,
    contains_chars, lemma_occurrence_survives_wrapping,
};

verus! {

/// Kind of event a status line reports; decides its emoji.
#[derive(Debug, Clone, Copy, PartialEq, Eq, Structural)]
pub enum EventType {
    Success,
    Error,
    Refresh,
    Shutdown,
}

/// The event kind that a status text reports: success markers win over
/// error markers, which win over shutdown markers; anything else is a
/// refresh.
pub open spec fn event_type_of(s: Seq<char>) -> EventType {
    if has_substr(s, "Success"@) || has_substr(s, "completed successfully"@) || has_substr(
        s,
        "Proof submitted"@,
    ) || has_substr(s, "Successfully submitted"@) {
        EventType::Success
    } else if has_substr(s, "Error"@) || has_substr(s, "Failed"@) || has_substr(s, "error"@)
        || has_substr(s, "failed"@) {
        EventType::Error
    } else if has_substr(s, "Shutdown"@) || has_substr(s, "Stopped"@) {
        EventType::Shutdown
    } else {
        EventType::Refresh
    }
}

/// The emoji shown for each event kind.
pub open spec fn emoji_of(e: EventType) -> Seq<char> {
    match e {
        EventType::Success => "✅"@,
        EventType::Error => "❌"@,
        EventType::Refresh => "🔄"@,
        EventType::Shutdown => "🔴"@,
    }
}

/// The short text that replaces an HTML error page, by the status code it
/// mentions.
pub open spec fn html_error_summary(m: Seq<char>) -> Seq<char> {
    if has_substr(m, "502"@) {
        "❌ HTTP 502 Bad Gateway"@
    } else if has_substr(m, "503"@) {
        "❌ HTTP 503 Service Unavailable"@
    } else if has_substr(m, "504"@) {
        "❌ HTTP 504 Gateway Timeout"@
    } else if has_substr(m, "500"@) {
        "❌ HTTP 500 Internal Server Error"@
    } else if has_substr(m, "429"@) {
        "⏳ HTTP 429 Rate Limited"@
    } else {
        "❌ HTTP Error (server returned HTML)"@
    }
}

/// `first_occurrence(s, a)`, or failing that `first_occurrence(s, b)`.
pub open spec fn first_of_either(s: Seq<char>, a: Seq<char>, b: Seq<char>) -> Option<int> {
    match first_occurrence(s, a) {
        Some(i) => Some(i),
        None => first_occurrence(s, b),
    }
}

/// `last_occurrence(s, a)`, or failing that `last_occurrence(s, b)`.
pub open spec fn last_of_either(s: Seq<char>, a: Seq<char>, b: Seq<char>) -> Option<int> {
    match last_occurrence(s, a) {
        Some(i) => Some(i),
        None => last_occurrence(s, b),
    }
}

/// A message that holds an HTML page becomes a one-line summary of its
/// status code. Otherwise a message with `status ` followed (later) by `:`
/// or `<` is cut before that mark and keeps its text from the last
/// `error`/`Error` before the cut, or else from `status `, behind `❌ `
/// (with `HTTP ` in the second case). Any other message is kept.
pub open spec fn cleaned_http_message(m: Seq<char>) -> Seq<char> {
    if has_substr(m, "<html>"@) || has_substr(m, "<!DOCTYPE"@) {
        html_error_summary(m)
    } else {
        match first_occurrence(m, "status "@) {
            None => m,
            Some(sp) => cleaned_status_message(m, sp),
        }
    }
}

/// The cleaning of a message whose first `status ` stands at `sp`.
pub open spec fn cleaned_status_message(m: Seq<char>, sp: int) -> Seq<char> {
    match first_of_either(m.subrange(sp, m.len() as int), ":"@, "<"@) {
        None => m,
        Some(e) => {
            let part = m.subrange(0, sp + e);
            match last_of_either(part, "error"@, "Error"@) {
                Some(k) => "❌ "@ + part.subrange(k, part.len() as int),
                None => "❌ HTTP "@ + part.subrange(sp, part.len() as int),
            }
        },
    }
}

/// A status as displayed: the cleaned HTTP error text when cleaning changed
/// it, or else the event's emoji, a space and the status itself.
pub open spec fn formatted_status(s: Seq<char>) -> Seq<char> {
    let cleaned = cleaned_http_message(s);
    if cleaned != s {
        cleaned
    } else {
        emoji_of(event_type_of(s)) + " "@ + s
    }
}

/// Whether `s` holds `pat`.
fn has(s: &Vec<char>, pat: &str) -> (b: bool)
    ensures
        b == has_substr(s@, pat@),
{
    let p = to_chars(pat);
    contains_chars(s, &p)
}

/// First position of `pat` in `s`, or else of `alt`.
fn find_either(s: &Vec<char>, pat: &str, alt: &str) -> (r: Option<usize>)
    ensures
        match r {
            Some(i) => first_of_either(s@, pat@, alt@) == Some(i as int) && i <= s@.len(),
            None => first_of_either(s@, pat@, alt@) is None,
        },
{
    let p = to_chars(pat);
    match find_chars(s, &p) {
        Some(i) => Some(i),
        None => {
            let a = to_chars(alt);
            let r = find_chars(s, &a);
            r
        },
    }
}

/// Last position of `pat` in `s`, or else of `alt`.
fn rfind_either(s: &Vec<char>, pat: &str, alt: &str) -> (r: Option<usize>)
    ensures
        match r {
            Some(i) => last_of_either(s@, pat@, alt@) == Some(i as int) && i <= s@.len(),
            None => last_of_either(s@, pat@, alt@) is None,
        },
{
    let p = to_chars(pat);
    match rfind_chars(s, &p) {
        Some(i) => Some(i),
        None => {
            let a = to_chars(alt);
            rfind_chars(s, &a)
        },
    }
}

/// The kind of event a status message reports.
pub fn determine_event_type(status: &str) -> (e: EventType)
    ensures
        e == event_type_of(status@),
{
    let s = to_chars(status);
    if has(&s, "Success") || has(&s, "completed successfully") || has(&s, "Proof submitted") || has(
        &s,
        "Successfully submitted",
    ) {
        EventType::Success
    } else if has(&s, "Error") || has(&s, "Failed") || has(&s, "error") || has(&s, "failed") {
        EventType::Error
    } else if has(&s, "Shutdown") || has(&s, "Stopped") {
        EventType::Shutdown
    } else {
        EventType::Refresh
    }
}

/// The emoji for an event kind.
pub fn get_event_emoji(event_type: &EventType) -> (r: &'static str)
    ensures
        r@ == emoji_of(*event_type),
{
    match event_type {
        EventType::Success => "✅",
        EventType::Error => "❌",
        EventType::Refresh => "🔄",
        EventType::Shutdown => "🔴",
    }
}

/// Shortens HTTP error messages: see `cleaned_http_message`.
pub fn clean_http_error_message(msg: &str) -> (r: String)
    ensures
        r@ == cleaned_http_message(msg@),
{
    let m = to_chars(msg);
    if has(&m, "<html>") || has(&m, "<!DOCTYPE") {
        if has(&m, "502") {
            return String::from_str("❌ HTTP 502 Bad Gateway");
        }
        if has(&m, "503") {
            return String::from_str("❌ HTTP 503 Service Unavailable");
        }
        if has(&m, "504") {
            return String::from_str("❌ HTTP 504 Gateway Timeout");
        }
        if has(&m, "500") {
            return String::from_str("❌ HTTP 500 Internal Server Error");
        }
        if has(&m, "429") {
            return String::from_str("⏳ HTTP 429 Rate Limited");
        }
        return String::from_str("❌ HTTP Error (server returned HTML)");
    }
    let status_key = to_chars("status ");
    match find_chars(&m, &status_key) {
        None => String::from_str(msg),
        Some(sp) => shorten_status_error(msg, &m, sp),
    }
}

/// The cleaning of a message whose first `status ` stands at `sp`.
fn shorten_status_error(msg: &str, m: &Vec<char>, sp: usize) -> (r: String)
    requires
        m@ == msg@,
        sp <= m@.len(),
    ensures
        r@ == cleaned_status_message(msg@, sp as int),
{
    let rest_str = msg.substring_char(sp, m.len());
    let rest = to_chars(rest_str);
    match find_either(&rest, ":", "<") {
        None => String::from_str(msg),
        Some(e) => {
            let cut = sp + e;
            let part_str = msg.substring_char(0, cut);
            let part = to_chars(part_str);
            match rfind_either(&part, "error", "Error") {
                Some(k) => {
                    let mut out = String::from_str("❌ ");
                    out.append(msg.substring_char(k, cut));
                    assert(part@.subrange(k as int, part@.len() as int) =~= msg@.subrange(
                        k as int,
                        cut as int,
                    ));
                    out
                },
                None => {
                    let mut out = String::from_str("❌ HTTP ");
                    out.append(msg.substring_char(sp, cut));
                    assert(part@.subrange(sp as int, part@.len() as int) =~= msg@.subrange(
                        sp as int,
                        cut as int,
                    ));
                    out
                },
            }
        },
    }
}

/// A status line ready for display: see `formatted_status`.
pub fn format_status_with_emoji(status: &str) -> (r: String)
    ensures
        r@ == formatted_status(status@),
{
    let cleaned = clean_http_error_message(status);
    let unchanged = String::from_str(status);
    if cleaned != unchanged {
        cleaned
    } else {
        let event_type = determine_event_type(status);
        let emoji = get_event_emoji(&event_type);
        let mut out = String::from_str(emoji);
        out.append(" ");
        out.append(status);
        out
    }
}

/// A message that cleaning leaves as it is keeps its whole text when
/// formatted, behind its event's emoji.
pub proof fn lemma_plain_status_kept(s: Seq<char>)
    requires
        cleaned_http_message(s) == s,
    ensures
        formatted_status(s) == emoji_of(event_type_of(s)) + " "@ + s,
        has_substr(formatted_status(s), s),
        has_substr(formatted_status(s), emoji_of(event_type_of(s))),
{
    let f = formatted_status(s);
    let prefix = emoji_of(event_type_of(s)) + " "@;
    assert(f == prefix + s);
    assert(f.subrange(prefix.len() as int, (prefix.len() + s.len()) as int) =~= s);
    assert(occurs_at(f, s, prefix.len() as int));
    let e = emoji_of(event_type_of(s));
    assert(f.subrange(0, e.len() as int) =~= e);
    assert(occurs_at(f, e, 0));
}

/// A status's kind goes by which markers occur in it, wherever they stand:
/// a success marker at any position makes it a success; otherwise an error
/// marker at any position makes it an error; otherwise a shutdown marker
/// makes it a shutdown; a status with none of them is a refresh.
pub proof fn lemma_event_markers_anywhere(s: Seq<char>, i: int)
    ensures
        occurs_at(s, "Success"@, i) || occurs_at(s, "completed successfully"@, i) || occurs_at(
            s,
            "Proof submitted"@,
            i,
        ) || occurs_at(s, "Successfully submitted"@, i) ==> event_type_of(s) == EventType::Success,
        !has_substr(s, "Success"@) && !has_substr(s, "completed successfully"@) && !has_substr(
            s,
            "Proof submitted"@,
        ) && !has_substr(s, "Successfully submitted"@) && (occurs_at(s, "Error"@, i) || occurs_at(
            s,
            "Failed"@,
            i,
        ) || occurs_at(s, "error"@, i) || occurs_at(s, "failed"@, i)) ==> event_type_of(s)
            == EventType::Error,
        !has_substr(s, "Success"@) && !has_substr(s, "completed successfully"@) && !has_substr(
            s,
            "Proof submitted"@,
        ) && !has_substr(s, "Successfully submitted"@) && !has_substr(s, "Error"@) && !has_substr(
            s,
            "Failed"@,
        ) && !has_substr(s, "error"@) && !has_substr(s, "failed"@) && (occurs_at(
            s,
            "Shutdown"@,
            i,
        ) || occurs_at(s, "Stopped"@, i)) ==> event_type_of(s) == EventType::Shutdown,
        event_type_of(s) == EventType::Refresh <==> !has_substr(s, "Success"@) && !has_substr(
            s,
            "completed successfully"@,
        ) && !has_substr(s, "Proof submitted"@) && !has_substr(s, "Successfully submitted"@)
            && !has_substr(s, "Error"@) && !has_substr(s, "Failed"@) && !has_substr(s, "error"@)
            && !has_substr(s, "failed"@) && !has_substr(s, "Shutdown"@) && !has_substr(
            s,
            "Stopped"@,
        ),
{
}

/// Text put around a status never takes a success away, and keeps an
/// error an error as long as it brings no success marker.
pub proof fn lemma_event_type_wrapped(p: Seq<char>, s: Seq<char>, q: Seq<char>)
    ensures
        event_type_of(s) == EventType::Success ==> event_type_of(p + s + q) == EventType::Success,
        event_type_of(s) == EventType::Error && !has_substr(p + s + q, "Success"@) && !has_substr(
            p + s + q,
            "completed successfully"@,
        ) && !has_substr(p + s + q, "Proof submitted"@) && !has_substr(
            p + s + q,
            "Successfully submitted"@,
        ) ==> event_type_of(p + s + q) == EventType::Error,
{
    let w = p + s + q;
    if event_type_of(s) == EventType::Success {
        if has_substr(s, "Success"@) {
            lemma_occurrence_survives_wrapping(p, s, q, "Success"@, choose|j: int| occurs_at(s, "Success"@, j));
        } else if has_substr(s, "completed successfully"@) {
            lemma_occurrence_survives_wrapping(p, s, q, "completed successfully"@, choose|j: int| occurs_at(s, "completed successfully"@, j));
        } else if has_substr(s, "Proof submitted"@) {
            lemma_occurrence_survives_wrapping(p, s, q, "Proof submitted"@, choose|j: int| occurs_at(s, "Proof submitted"@, j));
        } else {
            lemma_occurrence_survives_wrapping(p, s, q, "Successfully submitted"@, choose|j: int| occurs_at(s, "Successfully submitted"@, j));
        }
    }
    if event_type_of(s) == EventType::Error {
        if has_substr(s, "Error"@) {
            lemma_occurrence_survives_wrapping(p, s, q, "Error"@, choose|j: int| occurs_at(s, "Error"@, j));
        } else if has_substr(s, "Failed"@) {
            lemma_occurrence_survives_wrapping(p, s, q, "Failed"@, choose|j: int| occurs_at(s, "Failed"@, j));
        } else if has_substr(s, "error"@) {
            lemma_occurrence_survives_wrapping(p, s, q, "error"@, choose|j: int| occurs_at(s, "error"@, j));
        } else {
            lemma_occurrence_survives_wrapping(p, s, q, "failed"@, choose|j: int| occurs_at(s, "failed"@, j));
        }
    }
}

} // verus!
