//! Names of image files: which files are sources, and what a converted file
//! is called.

use vstd::prelude::*;
use vstd::string::{StrSliceExecFns, StringExecFns};

verus! {

/// Index of the last `wanted` in `text`, or `-1` where there is none.
pub open spec fn last_index_of(text: Seq<char>, wanted: char) -> int
    decreases text.len(),
{
    if text.len() == 0 {
        -1
    } else if text.last() == wanted {
        text.len() - 1
    } else {
        last_index_of(text.drop_last(), wanted)
    }
}

/// `name` with `postfix` put in before its last dot.
pub open spec fn with_postfix(name: Seq<char>, postfix: Seq<char>) -> Seq<char> {
    let dot = last_index_of(name, '.');
    name.subrange(0, dot) + postfix + name.subrange(dot, name.len() as int)
}

/// `text` ends in `ending`.
pub open spec fn ends_in(text: Seq<char>, ending: Seq<char>) -> bool {
    ending.len() <= text.len() && text.subrange(text.len() - ending.len(), text.len() as int)
        == ending
}

/// `part` stands in `text` from index `at` on.
pub open spec fn stands_at(text: Seq<char>, part: Seq<char>, at: int) -> bool {
    0 <= at && at + part.len() <= text.len() && text.subrange(at, at + part.len()) == part
}

/// `part` stands somewhere in `text`.
pub open spec fn holds(text: Seq<char>, part: Seq<char>) -> bool {
    exists|at: int| stands_at(text, part, at)
}

/// A path names a source image when it ends in `.jpg` or `.png` and does not
/// hold `_sdr`, the mark of a file that a conversion wrote.
pub open spec fn names_source_image(path: Seq<char>) -> bool {
    (ends_in(path, ".jpg"@) || ends_in(path, ".png"@)) && !holds(path, "_sdr"@)
}

/// `last_index_of` finds an index that holds the character, and none after
/// it does; it finds none only where the text holds none.
pub proof fn lemma_last_index_of(text: Seq<char>, wanted: char)
    ensures
        -1 <= last_index_of(text, wanted) < text.len(),
        last_index_of(text, wanted) >= 0 ==> text[last_index_of(text, wanted)] == wanted,
        forall|i: int| last_index_of(text, wanted) < i < text.len() ==> text[i] != wanted,
        last_index_of(text, wanted) >= 0 <==> text.contains(wanted),
    decreases text.len(),
{
    if text.len() > 0 {
        let front = text.drop_last();
        lemma_last_index_of(front, wanted);
        if text.last() != wanted {
            assert forall|i: int| last_index_of(text, wanted) < i < text.len() implies text[i]
                != wanted by {
                if i < front.len() {
                    assert(front[i] == text[i]);
                }
            }
            if front.contains(wanted) {
                let i = choose|i: int| 0 <= i < front.len() && front[i] == wanted;
                assert(text[i] == wanted);
            }
            if text.contains(wanted) {
                let i = choose|i: int| 0 <= i < text.len() && text[i] == wanted;
                assert(front[i] == wanted);
            }
        }
    }
}

/// Puts `postfix` in before the last dot of `file_name`, that is before its
/// extension.
pub fn add_postfix_to_file_name(file_name: &str, postfix: &str) -> (named: String)
    requires
        file_name@.contains('.'),
    ensures
        named@ == with_postfix(file_name@, postfix@),
{
    let len: usize = file_name.unicode_len();
    proof {
        lemma_last_index_of(file_name@, '.');
    }
    let mut dot: usize = len - 1;
    while file_name.get_char(dot) != '.'
        invariant
            dot < len,
            len == file_name@.len(),
            0 <= last_index_of(file_name@, '.') <= dot,
            file_name@[last_index_of(file_name@, '.')] == '.',
        decreases dot,
    {
        dot = dot - 1;
    }
    let mut named: String = String::from_str(file_name.substring_char(0, dot));
    named.append(postfix);
    named.append(file_name.substring_char(dot, len));
    named
}

/// Tests whether `part` stands in `text` from index `at` on. The caller has
/// counted the characters of `text`.
fn part_stands_at(text: &str, text_len: usize, part: &str, at: usize) -> (found: bool)
    requires
        text_len == text@.len(),
        at + part@.len() <= text_len,
    ensures
        found == stands_at(text@, part@, at as int),
{
    let len: usize = part.unicode_len();
    let mut same: usize = 0;
    while same < len
        invariant
            same <= len,
            len == part@.len(),
            text_len == text@.len(),
            at + len <= text_len,
            forall|i: int| 0 <= i < same ==> text@[at + i] == part@[i],
        decreases len - same,
    {
        if text.get_char(at + same) != part.get_char(same) {
            assert(text@.subrange(at as int, at + len)[same as int] != part@[same as int]);
            return false;
        }
        same = same + 1;
    }
    assert(text@.subrange(at as int, at + len) =~= part@);
    true
}

/// Tests whether `text` ends in `ending`.
fn text_ends_in(text: &str, ending: &str) -> (found: bool)
    ensures
        found == ends_in(text@, ending@),
{
    let len: usize = text.unicode_len();
    let short: usize = ending.unicode_len();
    if short > len {
        false
    } else {
        part_stands_at(text, len, ending, len - short)
    }
}

/// Tests whether `part` stands somewhere in `text`.
fn text_holds(text: &str, part: &str) -> (found: bool)
    ensures
        found == holds(text@, part@),
{
    let len: usize = text.unicode_len();
    let short: usize = part.unicode_len();
    if short > len {
        return false;
    }
    let last: usize = len - short;
    let mut at: usize = 0;
    loop
        invariant
            len == text@.len(),
            short == part@.len(),
            last == len - short,
            at <= last,
            forall|i: int| 0 <= i < at ==> !stands_at(text@, part@, i),
        decreases last - at,
    {
        if part_stands_at(text, len, part, at) {
            return true;
        }
        if at == last {
            return false;
        }
        at = at + 1;
    }
}

/// Tests whether a path names a source image.
pub fn is_source_image(path: &str) -> (source: bool)
    ensures
        source == names_source_image(path@),
{
    (text_ends_in(path, ".jpg") || text_ends_in(path, ".png")) && !text_holds(path, "_sdr")
}

} // verus!
