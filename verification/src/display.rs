//! Display-text resolution: turning a stored timestamp string into a
//! short human-readable local time for a notification body.
//!
//! The happy path parses the string as a UTC instant (ignoring a
//! trailing `Z` and optional fractional seconds) and renders it in the
//! machine's local time zone as `YYYY-MM-DD HH:MM`. When parsing fails,
//! resolution degrades to a purely textual fallback and never reports
//! an error: the first sixteen characters with the `T` separator turned
//! into a space, or the whole string verbatim when it is shorter.

use vstd::prelude::*;

verus! {

/// `s` with every `T` among its characters replaced by a space.
pub open spec fn replace_t(s: Seq<char>) -> Seq<char> {
    Seq::new(s.len(), |i: int| if s[i] == 'T' { ' ' } else { s[i] })
}

/// The textual fallback for a timestamp that does not parse: the first
/// sixteen characters with `T` replaced by a space, or the whole string
/// verbatim when it has fewer than sixteen characters.
pub open spec fn fallback_display(s: Seq<char>) -> Seq<char> {
    if s.len() < 16 {
        s
    } else {
        replace_t(s.take(16))
    }
}

/// `s` without its trailing `Z`, when it ends in one.
pub open spec fn strip_z(s: Seq<char>) -> Seq<char> {
    if s.len() > 0 && s.last() == 'Z' {
        s.drop_last()
    } else {
        s
    }
}

/// Drops a trailing literal `Z` (the UTC designator) before parsing.
pub fn strip_trailing_z(s: &str) -> (r: &str)
    ensures
        r@ == strip_z(s@),
{
    let n = s.unicode_len();
    if n > 0 && s.get_char(n - 1) == 'Z' {
        let r = s.substring_char(0, n - 1);
        proof {
            assert(r@ =~= s@.drop_last());
        }
        r
    } else {
        s
    }
}

/// Builds the textual fallback of [`fallback_display`].
pub fn fallback_display_text(s: &str) -> (r: String)
    ensures
        r@ == fallback_display(s@),
{
    let n = s.unicode_len();
    if n < 16 {
        s.to_owned()
    } else {
        let mut out = String::new();
        proof {
            reveal_strlit(" ");
        }
        let mut i: usize = 0;
        while i < 16
            invariant
                i <= 16,
                16 <= s@.len(),
                out@ =~= replace_t(s@.take(16)).take(i as int),
            decreases 16 - i,
        {
            proof {
                reveal_strlit(" ");
            }
            let c = s.get_char(i);
            if c == 'T' {
                out.append(" ");
            } else {
                let piece = s.substring_char(i, i + 1);
                out.append(piece);
            }
            i = i + 1;
        }
        proof {
            assert(out@ =~= fallback_display(s@));
        }
        out
    }
}

/// Whether a (Z-stripped) timestamp string parses as a UTC instant in
/// the `YYYY-MM-DDTHH:MM:SS` format with optional fractional seconds;
/// this depends on the characters of the string alone.
pub uninterp spec fn parses_as_utc_timestamp(s: Seq<char>) -> bool;

/// Relies on `chrono::NaiveDateTime::parse_from_str` with the format
/// `"%Y-%m-%dT%H:%M:%S%.f"`: whether it returns `Ok` is a function of
/// the input characters alone, and the whole input must be consumed.
/// On success the instant is taken as UTC (`Utc.from_utc_datetime`),
/// converted to the machine's local time zone
/// (`DateTime::with_timezone(&chrono::Local)`) and rendered with the
/// format `"%Y-%m-%d %H:%M"`, whose fields are zero-padded with a year
/// of at least four digits, so at least sixteen characters come back;
/// which exact text comes back depends on the machine's time zone.
#[verifier::external_body]
fn utc_to_local_hm(s: &str) -> (r: Option<String>)
    ensures
        r is Some <==> parses_as_utc_timestamp(s@),
        r is Some ==> r->0@.len() >= 16,
{
    match chrono::NaiveDateTime::parse_from_str(s, "%Y-%m-%dT%H:%M:%S%.f") {
        Ok(t) => {
            let utc = chrono::TimeZone::from_utc_datetime(&chrono::Utc, &t);
            let local = utc.with_timezone(&chrono::Local);
            Some(local.format("%Y-%m-%d %H:%M").to_string())
        }
        Err(_) => None,
    }
}

/// Combines a parse outcome with the fallback: the parsed rendering
/// when there is one, the textual fallback of the raw string otherwise.
pub fn display_from_parse(event_time: &str, parsed: Option<String>) -> (r: String)
    ensures
        match parsed {
            Some(s) => r@ == s@,
            None => r@ == fallback_display(event_time@),
        },
{
    match parsed {
        Some(s) => s,
        None => fallback_display_text(event_time),
    }
}

/// What display resolution may hand back for an event's raw timestamp:
/// when the (Z-stripped) string parses as a UTC instant, a local-time
/// rendering of at least sixteen characters (its exact text depends on
/// the machine's time zone); otherwise exactly the textual fallback.
pub open spec fn resolved_display_for(d: Seq<char>, event_time: Seq<char>) -> bool {
    if parses_as_utc_timestamp(strip_z(event_time)) {
        d.len() >= 16
    } else {
        d == fallback_display(event_time)
    }
}

/// Resolves the display text for an event's raw timestamp string.
/// Resolution is total: every input, well-formed or not, yields some
/// displayable string, per [`resolved_display_for`].
pub fn resolve_display(event_time: &str) -> (r: String)
    ensures
        resolved_display_for(r@, event_time@),
{
    let stripped = strip_trailing_z(event_time);
    let parsed = utc_to_local_hm(stripped);
    display_from_parse(event_time, parsed)
}

} // verus!
