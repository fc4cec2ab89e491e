use vstd::prelude::*;
use vstd::string::*;

use crate::text::push_char;

verus! {

/// Whether `char::is_alphanumeric` holds of a character: the Unicode
/// `Alphabetic` or `Numeric` property.
pub uninterp spec fn alphanumeric(c: char) -> bool;

/// Whether `c` is an ASCII letter or digit.
pub open spec fn ascii_alphanumeric(c: char) -> bool {
    let u = c as u32;
    ||| 0x30 <= u <= 0x39
    ||| 0x41 <= u <= 0x5a
    ||| 0x61 <= u <= 0x7a
}

/// Calls `char::is_alphanumeric`; its result is named by `alphanumeric`.
/// Among ASCII characters exactly the letters and digits are alphabetic or
/// numeric.
#[verifier::external_body]
fn is_alphanumeric(c: char) -> (r: bool)
    ensures
        r == alphanumeric(c),
        (c as u32) < 128 ==> (r == ascii_alphanumeric(c)),
{
    c.is_alphanumeric()
}

/// The character that stands for `c` in a file name: `c` itself if it is
/// alphanumeric, `-` or `_`, and `_` otherwise.
pub open spec fn safe_char(c: char) -> char {
    if alphanumeric(c) || c == '-' || c == '_' {
        c
    } else {
        '_'
    }
}

/// The character that stands for an ASCII character in a file name.
pub open spec fn ascii_safe_char(c: char) -> char {
    if ascii_alphanumeric(c) || c == '-' || c == '_' {
        c
    } else {
        '_'
    }
}

/// `name` with every character that is not alphanumeric, `-` or `_`
/// replaced by `_`; an ASCII character is kept exactly when it is a letter,
/// a digit, `-` or `_`.
pub fn sanitize(name: &str) -> (r: String)
    ensures
        r@ == name@.map_values(|c: char| safe_char(c)),
        forall|i: int|
            0 <= i < name@.len() && (name@[i] as u32) < 128 ==> #[trigger] r@[i]
                == ascii_safe_char(name@[i]),
{
    let n: usize = name.unicode_len();
    let mut r = String::new();
    let mut i: usize = 0;
    while i < n
        invariant
            n == name@.len(),
            i <= n,
            r@ == name@.take(i as int).map_values(|c: char| safe_char(c)),
            forall|j: int|
                0 <= j < i && (name@[j] as u32) < 128 ==> #[trigger] r@[j] == ascii_safe_char(
                    name@[j],
                ),
        decreases n - i,
    {
        let c = name.get_char(i);
        let keep = is_alphanumeric(c) || c == '-' || c == '_';
        if keep {
            push_char(&mut r, c);
        } else {
            push_char(&mut r, '_');
        }
        assert(name@.take(i + 1).map_values(|c: char| safe_char(c)) =~= name@.take(
            i as int,
        ).map_values(|c: char| safe_char(c)).push(safe_char(c)));
        i = i + 1;
    }
    assert(name@.take(n as int) =~= name@);
    r
}

/// The file name under which a match between `team_a` and `team_b` is saved
/// at the moment written as `timestamp`.
pub open spec fn export_file_name(team_a: Seq<char>, team_b: Seq<char>, timestamp: Seq<char>) -> Seq<
    char,
> {
    "match_"@ + team_a.map_values(|c: char| safe_char(c)) + "_v_"@ + team_b.map_values(
        |c: char| safe_char(c),
    ) + "_"@ + timestamp + ".json"@
}

/// `match_{team_a}_v_{team_b}_{timestamp}.json`, with the team names
/// sanitized.
pub fn match_file_name(team_a: &str, team_b: &str, timestamp: &str) -> (r: String)
    ensures
        r@ == export_file_name(team_a@, team_b@, timestamp@),
{
    let safe_a = sanitize(team_a);
    let safe_b = sanitize(team_b);
    let mut r = String::from_str("match_");
    r.append(safe_a.as_str());
    r.append("_v_");
    r.append(safe_b.as_str());
    r.append("_");
    r.append(timestamp);
    r.append(".json");
    r
}

} // verus!
