//! Decisions a request handler makes on what the visitor typed.

use vstd::prelude::*;

use crate::text::str_eq;

verus! {

/// The text between the first and the last double quote of a line, as the
/// pattern `"(.*)"` of the regex crate captures it; `None` without a match.
pub uninterp spec fn quoted_capture_of(s: Seq<char>) -> Option<Seq<char>>;

/// The lower-case form of a text, as std's `str::to_lowercase` gives it.
pub uninterp spec fn lower_of(s: Seq<char>) -> Seq<char>;

/// Relies on the regex crate: `Regex::new(r#""(.*)""#)` compiles, and
/// `captures` then yields group 1 of the leftmost match; the result depends on
/// the text alone.
#[verifier::external_body]
fn quoted_capture(s: &str) -> (r: Option<String>)
    ensures
        r.is_some() == quoted_capture_of(s@).is_some(),
        r.is_some() ==> quoted_capture_of(s@) == Some(r.unwrap()@),
{
    let pattern = regex::Regex::new(r#""(.*)""#).ok()?;
    let captures = pattern.captures(s)?;
    Some(captures.get(1)?.as_str().to_owned())
}

/// Relies on std's `str::to_lowercase`: the result depends on the characters
/// alone.
#[verifier::external_body]
fn lowercase(s: &str) -> (r: String)
    ensures
        r@ == lower_of(s@),
{
    s.to_lowercase()
}

/// What the visitor answered to "publish this leaderboard?".
#[derive(Clone, Copy, Debug, PartialEq, Eq, Structural)]
pub enum Confirmation {
    /// Nothing typed yet: ask.
    Ask,
    /// Anything but "yes": go back.
    Declined,
    /// "yes", in any case: publish.
    Confirmed,
}

pub open spec fn session_from(query: Seq<char>, capture: Option<Seq<char>>) -> Seq<char> {
    match capture {
        Some(c) => c,
        None => query,
    }
}

/// The session key in what the visitor pasted, given what the quote pattern
/// captured of it: the quoted part when there is one (a browser copies the
/// cookie as `session:"..."`), else the whole text.
pub fn session_from_capture(query: &str, capture: Option<String>) -> (r: String)
    ensures
        r@ == session_from(query@, match capture {
            Some(c) => Some(c@),
            None => None,
        }),
{
    match capture {
        Some(c) => c,
        None => String::from_str(query),
    }
}

/// The session key in what the visitor pasted.
pub fn extract_session(query: &str) -> (r: String)
    ensures
        r@ == session_from(query@, quoted_capture_of(query@)),
{
    let capture = quoted_capture(query);
    session_from_capture(query, capture)
}

pub open spec fn confirmation_of(query: Seq<char>, lowered: Seq<char>) -> Confirmation {
    if query.len() == 0 {
        Confirmation::Ask
    } else if lowered == "yes"@ {
        Confirmation::Confirmed
    } else {
        Confirmation::Declined
    }
}

/// Reads the answer `query`, given its lower-case form `lowered`.
pub fn confirmation_from_lowered(query: &str, lowered: &str) -> (r: Confirmation)
    ensures
        r == confirmation_of(query@, lowered@),
{
    if query.unicode_len() == 0 {
        Confirmation::Ask
    } else if str_eq(lowered, "yes") {
        Confirmation::Confirmed
    } else {
        Confirmation::Declined
    }
}

/// Reads the answer to "publish this leaderboard?".
pub fn confirm_publish(query: &str) -> (r: Confirmation)
    ensures
        r == confirmation_of(query@, lower_of(query@)),
{
    let lowered = lowercase(query);
    confirmation_from_lowered(query, lowered.as_str())
}

/// Whether `day` is a day of the contest.
pub fn is_contest_day(day: u32) -> (r: bool)
    ensures
        r == (1 <= day <= 25),
{
    1 <= day && day <= 25
}

/// The days linked from the page of `day`: the one before and the one after,
/// where they are contest days.
pub fn adjacent_days(day: u32) -> (r: Vec<u32>)
    requires
        1 <= day <= 25,
    ensures
        day == 1 ==> r@ == seq![2u32],
        day == 25 ==> r@ == seq![24u32],
        1 < day < 25 ==> r@ == seq![(day - 1) as u32, (day + 1) as u32],
{
    let mut days: Vec<u32> = Vec::new();
    if day > 1 {
        days.push(day - 1);
    }
    if day < 25 {
        days.push(day + 1);
    }
    proof {
        if day == 1 {
            assert(days@ =~= seq![2u32]);
        } else if day == 25 {
            assert(days@ =~= seq![24u32]);
        } else {
            assert(days@ =~= seq![(day - 1) as u32, (day + 1) as u32]);
        }
    }
    days
}

} // verus!
