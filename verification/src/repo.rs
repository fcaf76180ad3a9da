//! What the state of a repository is, read from what git prints or stores.
use vstd::prelude::*;
use crate::text::{chars_of, has_prefix, starts_with_chars, trim, trim_chars, trim_start,
    trim_start_chars};

verus! {

/// HEAD is detached unless the HEAD file, once leading whitespace is
/// dropped, starts with `ref:`.
pub fn head_is_detached(head_file: &str) -> (r: bool)
    ensures
        r == !has_prefix(trim_start(head_file@), "ref:"@),
{
    let t = trim_start_chars(&chars_of(head_file));
    let prefix = chars_of("ref:");
    !starts_with_chars(&t, &prefix)
}

/// Whether git printed anything but whitespace (a remote is listed, the
/// working tree has changes, commits are unpushed).
pub fn prints_something(output: &str) -> (r: bool)
    ensures
        r == (trim(output@).len() > 0),
{
    let t = trim_chars(&chars_of(output));
    t.len() > 0
}

/// The marker git leaves where a conflict starts.
pub open spec fn conflict_marker() -> Seq<u8> {
    seq![60u8, 60u8, 60u8, 60u8, 60u8, 60u8, 60u8]
}

/// `content` holds `<<<<<<<` somewhere.
pub open spec fn holds_conflict_marker(content: Seq<u8>) -> bool {
    exists|i: int| 0 <= i && i + 7 <= content.len() && #[trigger] content.subrange(i, i + 7) == conflict_marker()
}

/// Whether a file's bytes still hold a conflict marker.
pub fn has_conflict_marker(content: &[u8]) -> (r: bool)
    ensures
        r == holds_conflict_marker(content@),
{
    if content.len() < 7 {
        assert forall|i: int| 0 <= i && i + 7 <= content@.len() implies #[trigger] content@.subrange(i, i + 7)
            != conflict_marker() by {}
        return false;
    }
    let mut i: usize = 0;
    let n = content.len();
    let last = n - 7;
    while i <= last
        invariant
            n == content@.len(),
            last == content@.len() - 7,
            i <= last + 1,
            forall|j: int| 0 <= j < i && j + 7 <= content@.len() ==> #[trigger] content@.subrange(j, j + 7)
                != conflict_marker(),
        decreases content@.len() - i,
    {
        let mut k: usize = 0;
        let mut matching = true;
        while matching && k < 7
            invariant
                k <= 7,
                i <= last,
                n == content@.len(),
                last == content@.len() - 7,
                forall|m: int| i <= m < i + k ==> #[trigger] content@[m] == 60u8,
                !matching ==> k < 7 && content@[i + k] != 60u8,
            decreases 7 - k + if matching { 1int } else { 0int },
        {
            let pos = i + k;
            if content[pos] == 60u8 {
                k = k + 1;
            } else {
                matching = false;
            }
        }
        if k == 7 {
            assert(content@.subrange(i as int, i + 7) =~= conflict_marker());
            return true;
        }
        assert(content@.subrange(i as int, i + 7)[k as int] != conflict_marker()[k as int]);
        i = i + 1;
    }
    false
}

/// Whether any of the conflicted files still holds a conflict marker.
pub fn any_conflict_marker(contents: &Vec<Vec<u8>>) -> (r: bool)
    ensures
        r == exists|i: int| 0 <= i < contents@.len() && holds_conflict_marker(#[trigger] contents@[i]@),
{
    let mut i: usize = 0;
    while i < contents.len()
        invariant
            i <= contents@.len(),
            forall|j: int| 0 <= j < i ==> !holds_conflict_marker(#[trigger] contents@[j]@),
        decreases contents@.len() - i,
    {
        if has_conflict_marker(contents[i].as_slice()) {
            return true;
        }
        i = i + 1;
    }
    false
}

/// The paths of the status entries that a hard reset leaves behind: new in
/// the working tree (first of each pair) and with a path (second).
pub open spec fn leftover_paths(entries: Seq<(bool, Option<String>)>) -> Seq<Seq<char>>
    decreases entries.len(),
{
    if entries.len() == 0 {
        Seq::empty()
    } else {
        let rest = leftover_paths(entries.drop_last());
        let last = entries.last();
        if last.0 && last.1 is Some {
            rest.push(last.1->0@)
        } else {
            rest
        }
    }
}

/// The paths, in order, that a reset removes after resetting hard: those
/// of the entries new in the working tree that have a path.
pub fn untracked_to_remove(entries: &Vec<(bool, Option<String>)>) -> (r: Vec<String>)
    ensures
        r@.map_values(|s: String| s@) == leftover_paths(entries@),
{
    let mut r: Vec<String> = Vec::new();
    let mut i: usize = 0;
    while i < entries.len()
        invariant
            i <= entries@.len(),
            r@.map_values(|s: String| s@) == leftover_paths(entries@.subrange(0, i as int)),
        decreases entries@.len() - i,
    {
        proof {
            assert(entries@.subrange(0, i + 1).drop_last() =~= entries@.subrange(0, i as int));
        }
        let (is_new, path) = &entries[i];
        if *is_new {
            match path {
                Some(p) => {
                    let ghost before = r@.map_values(|s: String| s@);
                    r.push(p.clone());
                    assert(r@.map_values(|s: String| s@) =~= before.push(p@));
                },
                None => {},
            }
        }
        i = i + 1;
    }
    assert(entries@.subrange(0, entries@.len() as int) =~= entries@);
    r
}

} // verus!
