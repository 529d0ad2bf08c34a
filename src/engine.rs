//! The operations on the saved list: save (insert or move), delete, select
//! for restoring, and how much of it a listing shows.

use vstd::prelude::*;
use crate::error::{Error, Warn};
use crate::position::{resolve_position, resolved, valid_pos};
use crate::store::{all_storable, storable};

verus! {

/// How many entries the list may hold.
pub const CAPACITY: usize = 19;

/// The paths held by a list, as character sequences.
pub open spec fn paths(lines: Seq<String>) -> Seq<Seq<char>> {
    lines.map_values(|l: String| l@)
}

/// `i` is the first index at which `p` occurs in `ls`.
pub open spec fn first_at(ls: Seq<Seq<char>>, p: Seq<char>, i: int) -> bool {
    &&& 0 <= i < ls.len()
    &&& ls[i] == p
    &&& forall|j: int| 0 <= j < i ==> ls[j] != p
}

/// `p` occurs nowhere in `ls`.
pub open spec fn absent(ls: Seq<Seq<char>>, p: Seq<char>) -> bool {
    forall|j: int| 0 <= j < ls.len() ==> ls[j] != p
}

/// No path occurs twice in `ls`.
pub open spec fn unique(ls: Seq<Seq<char>>) -> bool {
    forall|i: int, j: int| 0 <= i < ls.len() && 0 <= j < ls.len() && i != j ==> ls[i] != ls[j]
}

/// `after` is `before` with `p` put in at index `id`: the entries before `id`
/// stay where they were, and those from `id` on move one place down.
pub open spec fn inserted_at(before: Seq<Seq<char>>, after: Seq<Seq<char>>, id: int, p: Seq<char>) -> bool {
    &&& after.len() == before.len() + 1
    &&& after[id] == p
    &&& forall|j: int| 0 <= j < id ==> after[j] == before[j]
    &&& forall|j: int| id <= j < before.len() ==> after[j + 1] == before[j]
}

/// `after` is `before` without the entry at index `i`: the others keep their order.
pub open spec fn removed_at(before: Seq<Seq<char>>, after: Seq<Seq<char>>, i: int) -> bool {
    &&& after.len() == before.len() - 1
    &&& forall|j: int| 0 <= j < i ==> after[j] == before[j]
    &&& forall|j: int| i <= j < after.len() ==> after[j] == before[j + 1]
}

/// The line that tells the calling shell to change to `path`; the verbose
/// form asks it to show the path as well.
pub open spec fn chdir_line(path: Seq<char>, verbose: bool) -> Seq<char> {
    if verbose {
        "CHDIRV "@ + path
    } else {
        "CHDIR "@ + path
    }
}

/// How many entries the short listing shows at most.
pub const SHORT_LIST_LINES: usize = 5;

/// Taking an entry out of a list without duplicates leaves none, and the
/// path taken out no longer occurs.
proof fn lemma_remove_unique(ls: Seq<Seq<char>>, i: int)
    requires
        unique(ls),
        0 <= i < ls.len(),
    ensures
        unique(ls.remove(i)),
        absent(ls.remove(i), ls[i]),
{
    let r = ls.remove(i);
    assert forall|a: int, b: int| 0 <= a < r.len() && 0 <= b < r.len() && a != b implies r[a]
        != r[b] by {
        let a0 = if a < i { a } else { a + 1 };
        let b0 = if b < i { b } else { b + 1 };
        assert(r[a] == ls[a0] && r[b] == ls[b0]);
    }
    assert forall|j: int| 0 <= j < r.len() implies r[j] != ls[i] by {
        let j0 = if j < i { j } else { j + 1 };
        assert(r[j] == ls[j0]);
    }
}

/// Putting a path that does not occur into a list without duplicates
/// leaves none, and the path then occurs only where it was put.
proof fn lemma_insert_unique(ls: Seq<Seq<char>>, id: int, p: Seq<char>)
    requires
        unique(ls),
        absent(ls, p),
        0 <= id <= ls.len(),
    ensures
        unique(ls.insert(id, p)),
        forall|j: int| 0 <= j < ls.len() + 1 && j != id ==> ls.insert(id, p)[j] != p,
{
    let r = ls.insert(id, p);
    assert forall|j: int| 0 <= j < r.len() && j != id implies r[j] != p by {
        let j0 = if j < id { j } else { j - 1 };
        assert(r[j] == ls[j0]);
    }
    assert forall|a: int, b: int| 0 <= a < r.len() && 0 <= b < r.len() && a != b implies r[a]
        != r[b] by {
        if a != id && b != id {
            let a0 = if a < id { a } else { a - 1 };
            let b0 = if b < id { b } else { b - 1 };
            assert(r[a] == ls[a0] && r[b] == ls[b0]);
        }
    }
}

/// Taking an entry out keeps every other path storable.
proof fn lemma_remove_storable(ls: Seq<Seq<char>>, i: int)
    requires
        all_storable(ls),
        0 <= i < ls.len(),
    ensures
        all_storable(ls.remove(i)),
{
    let r = ls.remove(i);
    assert forall|j: int| 0 <= j < r.len() implies #[trigger] storable(r[j]) by {
        let j0 = if j < i { j } else { j + 1 };
        assert(r[j] == ls[j0]);
    }
}

/// Putting a storable path in keeps every path storable.
proof fn lemma_insert_storable(ls: Seq<Seq<char>>, id: int, p: Seq<char>)
    requires
        all_storable(ls),
        storable(p),
        0 <= id <= ls.len(),
    ensures
        all_storable(ls.insert(id, p)),
{
    let r = ls.insert(id, p);
    assert forall|j: int| 0 <= j < r.len() implies #[trigger] storable(r[j]) by {
        if j != id {
            let j0 = if j < id { j } else { j - 1 };
            assert(r[j] == ls[j0]);
        }
    }
}

/// What a successful save did.
#[derive(Debug, PartialEq, Eq, Structural)]
pub enum Effect {
    /// The path was already saved at index `from` and now stands at `to`.
    Moved { from: usize, to: usize },
    /// The path was new and now stands at index `at`.
    Saved { at: usize },
}

/// The error for an index outside a list of length `n_lines`.
pub fn get_invalid_pos_err<T>(id: usize, n_lines: usize) -> (r: Result<T, Error>)
    ensures
        r matches Err(Error::InvalidPosValue(i, n)) && i == id && n == n_lines,
{
    Err(Error::InvalidPosValue(id, n_lines))
}

/// The first index at which `path` is saved, if any.
fn find(lines: &Vec<String>, path: &String) -> (r: Option<usize>)
    ensures
        r matches Some(i) ==> first_at(paths(lines@), path@, i as int),
        r is None ==> absent(paths(lines@), path@),
{
    let mut i: usize = 0;
    while i < lines.len()
        invariant
            i <= lines.len(),
            forall|j: int| 0 <= j < i ==> paths(lines@)[j] != path@,
        decreases lines.len() - i,
    {
        if lines[i] == *path {
            return Some(i);
        }
        i = i + 1;
    }
    None
}

/// Saves `path` at the position `pos` (the first when none is given).
///
/// A path that is already saved elsewhere is moved there: it is taken out
/// of the list, then put back at the requested index of the shorter list,
/// so it still occurs once. A new path is inserted, and every entry from
/// that index on moves one place down. On any error the list is unchanged.
pub fn save(lines: &mut Vec<String>, path: &String, pos: Option<u8>) -> (r: Result<Effect, Error>)
    requires
        valid_pos(pos),
    ensures
        ({
            let ls = paths(old(lines)@);
            let id = resolved(pos);
            absent(ls, path@) ==> {
                if id > ls.len() {
                    &&& r matches Err(Error::InvalidPosValue(i, n)) && i == id && n == ls.len()
                    &&& final(lines)@ == old(lines)@
                } else if ls.len() >= CAPACITY {
                    &&& r matches Err(Error::PathLimitReached())
                    &&& final(lines)@ == old(lines)@
                } else {
                    &&& r == Ok::<Effect, Error>(Effect::Saved { at: id as usize })
                    &&& paths(final(lines)@) == ls.insert(id, path@)
                }
            }
        }),
        forall|ex: int| #[trigger] first_at(paths(old(lines)@), path@, ex) ==> {
            let ls = paths(old(lines)@);
            let id = resolved(pos);
            if id >= ls.len() {
                &&& r matches Err(Error::InvalidPosValue(i, n)) && i == id && n == ls.len()
                &&& final(lines)@ == old(lines)@
            } else if ex == id {
                &&& r matches Err(Error::IdenticalPathPos(p)) && p@ == path@
                &&& final(lines)@ == old(lines)@
            } else {
                &&& r == Ok::<Effect, Error>(Effect::Moved { from: ex as usize, to: id as usize })
                &&& paths(final(lines)@) == ls.remove(ex).insert(id, path@)
            }
        },
        // A new path, asked for anywhere from the first index to one past
        // the last of a list with room, is put in there.
        absent(paths(old(lines)@), path@) && resolved(pos) <= old(lines)@.len() < CAPACITY ==> {
            &&& r is Ok
            &&& inserted_at(paths(old(lines)@), paths(final(lines)@), resolved(pos), path@)
        },
        // A path saved once, asked for at another index of the list, then
        // stands there and nowhere else, and the length is kept.
        forall|ex: int|
            #![trigger first_at(paths(old(lines)@), path@, ex)]
            unique(paths(old(lines)@)) && first_at(paths(old(lines)@), path@, ex) && ex
                != resolved(pos) && resolved(pos) < old(lines)@.len() ==> {
                &&& r is Ok
                &&& final(lines)@.len() == old(lines)@.len()
                &&& paths(final(lines)@)[resolved(pos)] == path@
                &&& forall|j: int|
                    0 <= j < final(lines)@.len() && j != resolved(pos) ==> paths(
                        final(lines)@,
                    )[j] != path@
            },
        // A path asked for where it already is: refused, nothing changed.
        forall|ex: int|
            #![trigger first_at(paths(old(lines)@), path@, ex)]
            first_at(paths(old(lines)@), path@, ex) && ex == resolved(pos) ==> {
                &&& r matches Err(Error::IdenticalPathPos(p)) && p@ == path@
                &&& final(lines)@ == old(lines)@
            },
        // Saving keeps a list free of duplicates and within its capacity,
        // and a storable path keeps it storable.
        unique(paths(old(lines)@)) && old(lines)@.len() <= CAPACITY ==> {
            &&& unique(paths(final(lines)@))
            &&& final(lines)@.len() <= CAPACITY
        },
        all_storable(paths(old(lines)@)) && storable(path@) ==> all_storable(paths(final(lines)@)),
{
    let id = resolve_position(pos);
    let n_lines = lines.len();
    let existing = find(lines, path);
    let ghost old_lines = lines@;
    match existing {
        Some(ex) => {
            if id >= n_lines {
                return get_invalid_pos_err(id, n_lines);
            }
            if ex == id {
                return Err(Error::IdenticalPathPos(path.clone()));
            }
            lines.remove(ex);
            lines.insert(id, path.clone());
            proof {
                let ls = paths(old_lines);
                assert(paths(lines@) =~= ls.remove(ex as int).insert(id as int, path@));
                if unique(ls) {
                    lemma_remove_unique(ls, ex as int);
                    lemma_insert_unique(ls.remove(ex as int), id as int, path@);
                }
                if all_storable(ls) && storable(path@) {
                    lemma_remove_storable(ls, ex as int);
                    lemma_insert_storable(ls.remove(ex as int), id as int, path@);
                }
            }
            Ok(Effect::Moved { from: ex, to: id })
        },
        None => {
            if id > n_lines {
                return get_invalid_pos_err(id, n_lines);
            }
            if n_lines >= CAPACITY {
                return Err(Error::PathLimitReached());
            }
            lines.insert(id, path.clone());
            proof {
                let ls = paths(old_lines);
                assert(paths(lines@) =~= ls.insert(id as int, path@));
                if unique(ls) {
                    lemma_insert_unique(ls, id as int, path@);
                }
                if all_storable(ls) && storable(path@) {
                    lemma_insert_storable(ls, id as int, path@);
                }
            }
            Ok(Effect::Saved { at: id })
        },
    }
}

/// Removes the entry at index `id` and hands back its path.
pub fn remove_entry(lines: &mut Vec<String>, id: usize) -> (r: Result<String, Error>)
    ensures
        id >= old(lines)@.len() ==> {
            &&& r matches Err(Error::InvalidPosValue(i, n)) && i == id && n == old(lines)@.len()
            &&& final(lines)@ == old(lines)@
        },
        id < old(lines)@.len() ==> {
            &&& r == Ok::<String, Error>(old(lines)@[id as int])
            &&& final(lines)@ == old(lines)@.remove(id as int)
            &&& removed_at(paths(old(lines)@), paths(final(lines)@), id as int)
        },
        unique(paths(old(lines)@)) ==> unique(paths(final(lines)@)),
        all_storable(paths(old(lines)@)) ==> all_storable(paths(final(lines)@)),
{
    if id >= lines.len() {
        return get_invalid_pos_err(id, lines.len());
    }
    let ghost ls = paths(lines@);
    let path = lines.remove(id);
    proof {
        assert(paths(lines@) =~= ls.remove(id as int));
        if unique(ls) {
            lemma_remove_unique(ls, id as int);
        }
        if all_storable(ls) {
            lemma_remove_storable(ls, id as int);
        }
    }
    Ok(path)
}

/// Deletes the entry at position `pos` and hands back its path. The
/// position must be given: no default entry is ever deleted.
pub fn delete(lines: &mut Vec<String>, pos: Option<u8>) -> (r: Result<String, Error>)
    requires
        valid_pos(pos),
    ensures
        pos is None ==> {
            &&& r matches Err(Error::NoPosArg())
            &&& final(lines)@ == old(lines)@
        },
        pos is Some ==> {
            let i = resolved(pos);
            &&& i >= old(lines)@.len() ==> {
                &&& r matches Err(Error::InvalidPosValue(e, n)) && e == i && n == old(lines)@.len()
                &&& final(lines)@ == old(lines)@
            }
            &&& i < old(lines)@.len() ==> {
                &&& r == Ok::<String, Error>(old(lines)@[i])
                &&& final(lines)@ == old(lines)@.remove(i)
                &&& removed_at(paths(old(lines)@), paths(final(lines)@), i)
            }
        },
        unique(paths(old(lines)@)) ==> unique(paths(final(lines)@)),
        all_storable(paths(old(lines)@)) ==> all_storable(paths(final(lines)@)),
{
    match pos {
        None => Err(Error::NoPosArg()),
        Some(_) => remove_entry(lines, resolve_position(pos)),
    }
}

/// The index of the entry at position `pos` (the first when none is
/// given), if the list has one there.
pub fn select(lines: &Vec<String>, pos: Option<u8>) -> (r: Result<usize, Error>)
    requires
        valid_pos(pos),
    ensures
        resolved(pos) < lines@.len() ==> r == Ok::<usize, Error>(resolved(pos) as usize),
        resolved(pos) >= lines@.len() ==> (r matches Err(Error::InvalidPosValue(i, n)) && i
            == resolved(pos) && n == lines@.len()),
{
    let id = resolve_position(pos);
    if id >= lines.len() {
        return get_invalid_pos_err(id, lines.len());
    }
    Ok(id)
}

/// Relies on `std::path::Path::is_dir`: whether `path` names an existing
/// directory at the moment of the call. The answer depends on the disk, so
/// nothing is stated of it.
#[verifier::external_body]
fn is_dir(path: &String) -> bool {
    std::path::Path::new(path).is_dir()
}

/// The command for the calling shell to change to `path`, given whether
/// `path` is a directory: a path that is not cannot be changed to.
pub fn chdir_command(path: &String, verbose: bool, is_dir: bool) -> (r: Result<String, Error>)
    ensures
        is_dir ==> (r matches Ok(s) && s@ == chdir_line(path@, verbose)),
        !is_dir ==> (r matches Err(Error::PathIsNotDir(p)) && p@ == path@),
{
    if !is_dir {
        return Err(Error::PathIsNotDir(path.clone()));
    }
    let mut line = if verbose {
        String::from_str("CHDIRV ")
    } else {
        String::from_str("CHDIR ")
    };
    line.append(path.as_str());
    Ok(line)
}

/// The command to change to the entry at position `pos` (the first when
/// none is given). It fails if there is no such entry, or if its path is no
/// longer a directory. The list itself is only read.
pub fn restore(lines: &Vec<String>, pos: Option<u8>, verbose: bool) -> (r: Result<String, Error>)
    requires
        valid_pos(pos),
    ensures
        resolved(pos) >= lines@.len() ==> (r matches Err(Error::InvalidPosValue(i, n)) && i
            == resolved(pos) && n == lines@.len()),
        resolved(pos) < lines@.len() ==> {
            let p = lines@[resolved(pos)]@;
            &&& r matches Ok(s) ==> s@ == chdir_line(p, verbose)
            &&& r matches Err(e) ==> e matches Error::PathIsNotDir(q) && q@ == p
        },
{
    match select(lines, pos) {
        Err(e) => Err(e),
        Ok(id) => {
            let found = is_dir(&lines[id]);
            chdir_command(&lines[id], verbose, found)
        },
    }
}

/// Fails unless `path` is an existing directory, the only kind of path
/// worth saving.
pub fn check_dir(path: &String) -> (r: Result<(), Error>)
    ensures
        r matches Err(e) ==> e matches Error::PathIsNotDir(p) && p@ == path@,
{
    if is_dir(path) {
        Ok(())
    } else {
        Err(Error::PathIsNotDir(path.clone()))
    }
}

/// One row of a listing.
pub struct Entry {
    /// The index of the entry.
    pub id: usize,
    /// Its path.
    pub path: String,
    /// Whether the path had stopped being a directory when it was listed.
    pub stale: bool,
}

/// The first `n` entries, each marked stale or not. Stale entries are shown,
/// never dropped.
fn entries(lines: &Vec<String>, n: usize) -> (r: Vec<Entry>)
    requires
        n <= lines@.len(),
    ensures
        r@.len() == n,
        forall|i: int| 0 <= i < n ==> r@[i].id == i && r@[i].path@ == lines@[i]@,
{
    let mut rows: Vec<Entry> = Vec::new();
    let mut i: usize = 0;
    while i < n
        invariant
            i <= n <= lines@.len(),
            rows@.len() == i,
            forall|k: int| 0 <= k < i ==> rows@[k].id == k && rows@[k].path@ == lines@[k]@,
        decreases n - i,
    {
        let stale = !is_dir(&lines[i]);
        rows.push(Entry { id: i, path: lines[i].clone(), stale });
        i = i + 1;
    }
    rows
}

/// The rows of the full listing: every entry, or the first `length` of
/// them. A length beyond the entries saved is warned of and cut to them.
pub fn list(lines: &Vec<String>, length: Option<u8>) -> (r: (Vec<Entry>, Option<Warn>))
    ensures
        forall|i: int| 0 <= i < r.0@.len() ==> r.0@[i].id == i && r.0@[i].path@ == lines@[i]@,
        length is None ==> r.0@.len() == lines@.len() && r.1 is None,
        length is Some && length->0 > lines@.len() ==> {
            &&& r.0@.len() == lines@.len()
            &&& r.1 matches Some(Warn::InvalidLengthValue(a, b)) && a == length->0 && b
                == lines@.len()
        },
        length is Some && length->0 <= lines@.len() ==> r.0@.len() == length->0 && r.1 is None,
{
    let n_lines = lines.len();
    match length {
        None => (entries(lines, n_lines), None),
        Some(k) => {
            if k as usize > n_lines {
                (entries(lines, n_lines), Some(Warn::InvalidLengthValue(k as usize, n_lines)))
            } else {
                (entries(lines, k as usize), None)
            }
        },
    }
}

/// The rows of the short listing: the first few entries.
pub fn l(lines: &Vec<String>) -> (r: Vec<Entry>)
    ensures
        r@.len() == if lines@.len() < SHORT_LIST_LINES { lines@.len() } else { SHORT_LIST_LINES as nat },
        forall|i: int| 0 <= i < r@.len() ==> r@[i].id == i && r@[i].path@ == lines@[i]@,
{
    let n = if lines.len() < SHORT_LIST_LINES {
        lines.len()
    } else {
        SHORT_LIST_LINES
    };
    entries(lines, n)
}

} // verus!
