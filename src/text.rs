//! The plain text of rows and confirmations: positions in brackets, then
//! the path.

use vstd::prelude::*;
use crate::engine::Effect;

verus! {

/// The character of a decimal digit.
pub open spec fn digit(d: nat) -> char {
    seq!['0', '1', '2', '3', '4', '5', '6', '7', '8', '9'][d as int]
}

/// `n` in decimal, without leading zeros.
pub open spec fn decimal(n: nat) -> Seq<char>
    decreases n,
{
    if n < 10 {
        seq![digit(n)]
    } else {
        decimal(n / 10).push(digit(n % 10))
    }
}

/// The bracketed position of the entry with index `id`: `[1]` for the first.
pub open spec fn id_text(id: nat) -> Seq<char> {
    "["@ + decimal(id + 1) + "]"@
}

/// A row for the entry with index `id` and path `p`: `[1] /tmp`.
pub open spec fn path_text(id: nat, p: Seq<char>) -> Seq<char> {
    id_text(id) + " "@ + p
}

/// What a save did, in words fit to follow its heading: the new position
/// of a new path, or the old and new positions of a moved one.
pub open spec fn effect_text(e: Effect, p: Seq<char>) -> Seq<char> {
    match e {
        Effect::Moved { from, to } => id_text(from as nat) + " -> "@ + path_text(to as nat, p),
        Effect::Saved { at } => path_text(at as nat, p),
    }
}

/// A listing row: a stale entry carries a mark after its path.
pub open spec fn row_text(id: nat, p: Seq<char>, stale: bool) -> Seq<char> {
    if stale {
        path_text(id, p) + " [*]"@
    } else {
        path_text(id, p)
    }
}

/// The one-character text of the digit `d`.
fn digit_str(d: usize) -> (s: &'static str)
    requires
        d < 10,
    ensures
        s@ == seq![digit(d as nat)],
{
    let digits = "0123456789";
    proof {
        reveal_strlit("0123456789");
    }
    let s = digits.substring_char(d, d + 1);
    assert(s@ =~= seq![digit(d as nat)]);
    s
}

/// `n` written in decimal.
pub fn decimal_string(n: usize) -> (s: String)
    ensures
        s@ == decimal(n as nat),
    decreases n,
{
    if n < 10 {
        String::from_str(digit_str(n))
    } else {
        let mut s = decimal_string(n / 10);
        s.append(digit_str(n % 10));
        s
    }
}

/// The bracketed position of the entry with index `id`.
pub fn fmt_id(id: usize) -> (s: String)
    requires
        id < usize::MAX,
    ensures
        s@ == id_text(id as nat),
{
    let mut s = String::from_str("[");
    let num = decimal_string(id + 1);
    s.append(num.as_str());
    s.append("]");
    s
}

/// The row of the entry with index `id` and the given path.
pub fn fmt_path(id: usize, path: &String) -> (s: String)
    requires
        id < usize::MAX,
    ensures
        s@ == path_text(id as nat, path@),
{
    let mut s = fmt_id(id);
    s.append(" ");
    s.append(path.as_str());
    s
}

/// `detail` set apart below a message by an empty line.
pub fn attach_nested(detail: &str) -> (s: String)
    ensures
        s@ == "\n\n"@ + detail@,
{
    let mut s = String::from_str("\n\n");
    s.append(detail);
    s
}

/// The confirmation of what saving `path` did.
pub fn fmt_effect(effect: &Effect, path: &String) -> (s: String)
    requires
        match *effect {
            Effect::Moved { from, to } => from < usize::MAX && to < usize::MAX,
            Effect::Saved { at } => at < usize::MAX,
        },
    ensures
        s@ == effect_text(*effect, path@),
{
    match effect {
        Effect::Moved { from, to } => {
            let mut s = fmt_id(*from);
            s.append(" -> ");
            let rest = fmt_path(*to, path);
            s.append(rest.as_str());
            s
        },
        Effect::Saved { at } => fmt_path(*at, path),
    }
}

/// A listing row; a stale entry is marked as such.
pub fn fmt_row(id: usize, path: &String, stale: bool) -> (s: String)
    requires
        id < usize::MAX,
    ensures
        s@ == row_text(id as nat, path@, stale),
{
    let mut s = fmt_path(id, path);
    if stale {
        s.append(" [*]");
    }
    s
}

} // verus!
