//! The question asked when the entry to change to is no longer a
//! directory: remove it from the list? A reply counts by its first visible
//! character; one that says neither yes nor no gets the question again.

use vstd::prelude::*;

verus! {

/// What a reply to the removal question decides.
#[derive(Debug, Clone, Copy, PartialEq, Eq, Structural)]
pub enum Prompt {
    /// Remove the entry.
    Remove,
    /// Keep the entry.
    Keep,
    /// The reply said neither: ask again.
    AskAgain,
}

/// The characters that Unicode counts as white space.
pub open spec fn white_space(c: char) -> bool {
    let u = c as u32;
    ||| 0x09 <= u <= 0x0d
    ||| u == 0x20
    ||| u == 0x85
    ||| u == 0xa0
    ||| u == 0x1680
    ||| 0x2000 <= u <= 0x200a
    ||| u == 0x2028
    ||| u == 0x2029
    ||| u == 0x202f
    ||| u == 0x205f
    ||| u == 0x3000
}

/// The first character of `s` from index `i` on that is not white space.
pub open spec fn first_visible(s: Seq<char>, i: int) -> Option<char>
    decreases s.len() - i,
{
    if i < 0 || i >= s.len() {
        None
    } else if white_space(s[i]) {
        first_visible(s, i + 1)
    } else {
        Some(s[i])
    }
}

/// What the reply `s` decides: yes or no by its first visible character,
/// in either case; anything else asks again.
pub open spec fn decision(s: Seq<char>) -> Prompt {
    match first_visible(s, 0) {
        Some(c) => if c == 'y' || c == 'Y' {
            Prompt::Remove
        } else if c == 'n' || c == 'N' {
            Prompt::Keep
        } else {
            Prompt::AskAgain
        },
        None => Prompt::AskAgain,
    }
}

/// Whether `c` is white space, as `char::is_whitespace` tells it.
fn is_white_space(c: char) -> (r: bool)
    ensures
        r == white_space(c),
{
    let u = c as u32;
    (0x09 <= u && u <= 0x0d) || u == 0x20 || u == 0x85 || u == 0xa0 || u == 0x1680 || (0x2000
        <= u && u <= 0x200a) || u == 0x2028 || u == 0x2029 || u == 0x202f || u == 0x205f || u
        == 0x3000
}

/// What the reply `reply` decides.
pub fn answer(reply: &str) -> (r: Prompt)
    ensures
        r == decision(reply@),
{
    let n = reply.unicode_len();
    let mut i: usize = 0;
    while i < n
        invariant
            n == reply@.len(),
            i <= n,
            first_visible(reply@, 0) == first_visible(reply@, i as int),
        decreases n - i,
    {
        let c = reply.get_char(i);
        if !is_white_space(c) {
            if c == 'y' || c == 'Y' {
                return Prompt::Remove;
            } else if c == 'n' || c == 'N' {
                return Prompt::Keep;
            } else {
                return Prompt::AskAgain;
            }
        }
        i = i + 1;
    }
    Prompt::AskAgain
}

} // verus!
