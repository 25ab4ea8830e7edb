//! Word boundaries on a single line of text. A word boundary appears wherever
//! the class of a character changes between whitespace, ASCII punctuation and
//! everything else, so `fn foo(a)` consists of the words `fn`, `foo`, `(`,
//! `a` and `)`.

use vstd::prelude::*;

verus! {

/// The three character classes that delimit words.
#[derive(Debug, Clone, Copy, PartialEq, Eq, Structural)]
pub enum CharKind {
    Space,
    Punct,
    Other,
}

/// Class of a character: space and tab are whitespace, the four ASCII
/// punctuation ranges are punctuation, everything else is word material.
pub open spec fn kind(c: char) -> CharKind {
    let u = c as u32;
    if u == 32 || u == 9 {
        CharKind::Space
    } else if (33 <= u && u <= 47) || (58 <= u && u <= 64) || (91 <= u && u <= 96) || (123 <= u
        && u <= 126) {
        CharKind::Punct
    } else {
        CharKind::Other
    }
}

pub fn kind_of(c: char) -> (k: CharKind)
    ensures
        k == kind(c),
{
    let u = c as u32;
    if u == 32 || u == 9 {
        CharKind::Space
    } else if (33 <= u && u <= 47) || (58 <= u && u <= 64) || (91 <= u && u <= 96) || (123 <= u
        && u <= 126) {
        CharKind::Punct
    } else {
        CharKind::Other
    }
}

/// Backward scan step: `i` is the number of characters left of the cursor not
/// yet passed, `cur` the class of the character just right of position `i`.
pub open spec fn wsb_from(line: Seq<char>, i: int, cur: CharKind) -> Option<int>
    decreases i,
{
    if i <= 0 {
        if cur != CharKind::Space {
            Some(0int)
        } else {
            None
        }
    } else {
        let next = kind(line[i - 1]);
        if cur != CharKind::Space && next != cur {
            Some(i)
        } else {
            wsb_from(line, i - 1, next)
        }
    }
}

/// Start of the word ending at or before `col`, scanning backward: the
/// position after the first class change below a non-space run, `Some(0)` if
/// that run reaches the head of the line, `None` if only whitespace lies
/// behind the cursor.
pub open spec fn word_start_backward(line: Seq<char>, col: int) -> Option<int> {
    if col <= 0 || col > line.len() {
        None
    } else {
        wsb_from(line, col - 1, kind(line[col - 1]))
    }
}

pub fn find_word_start_backward(line: &Vec<char>, col: usize) -> (r: Option<usize>)
    requires
        col <= line@.len(),
    ensures
        r matches Some(c) ==> word_start_backward(line@, col as int) == Some(c as int) && c < col,
        r is None ==> word_start_backward(line@, col as int) is None,
{
    if col == 0 {
        return None;
    }
    let mut cur = kind_of(line[col - 1]);
    let mut i: usize = col - 1;
    while i > 0
        invariant
            i < col <= line@.len(),
            wsb_from(line@, i as int, cur) == word_start_backward(line@, col as int),
        decreases i,
    {
        let next = kind_of(line[i - 1]);
        if !matches!(cur, CharKind::Space) && !equal_kind(next, cur) {
            return Some(i);
        }
        cur = next;
        i = i - 1;
    }
    if !matches!(cur, CharKind::Space) {
        Some(0)
    } else {
        None
    }
}

/// Forward scan step for the exclusive end of the word at the cursor.
pub open spec fn wef_from(line: Seq<char>, i: int, prev: CharKind) -> Option<int>
    decreases line.len() - i,
{
    if i >= line.len() {
        None
    } else {
        let cur = kind(line[i]);
        if prev != CharKind::Space && cur != prev {
            Some(i)
        } else {
            wef_from(line, i + 1, cur)
        }
    }
}

/// First position after `col` where a non-space run starting at `col` ends,
/// `None` when no such boundary exists before the end of the line.
pub open spec fn word_end_forward(line: Seq<char>, col: int) -> Option<int> {
    if col < 0 || col >= line.len() {
        None
    } else {
        wef_from(line, col + 1, kind(line[col]))
    }
}

pub fn find_word_end_forward(line: &Vec<char>, col: usize) -> (r: Option<usize>)
    ensures
        r matches Some(c) ==> word_end_forward(line@, col as int) == Some(c as int) && col < c
            <= line@.len(),
        r is None ==> word_end_forward(line@, col as int) is None,
{
    if col >= line.len() {
        return None;
    }
    let mut prev = kind_of(line[col]);
    let mut i: usize = col + 1;
    while i < line.len()
        invariant
            col < i <= line@.len(),
            wef_from(line@, i as int, prev) == word_end_forward(line@, col as int),
        decreases line@.len() - i,
    {
        let cur = kind_of(line[i]);
        if !matches!(prev, CharKind::Space) && !equal_kind(cur, prev) {
            return Some(i);
        }
        prev = cur;
        i = i + 1;
    }
    None
}

/// Forward scan step for the start of the next word.
pub open spec fn wsf_from(line: Seq<char>, i: int, prev: CharKind) -> Option<int>
    decreases line.len() - i,
{
    if i >= line.len() {
        None
    } else {
        let cur = kind(line[i]);
        if cur != CharKind::Space && cur != prev {
            Some(i)
        } else {
            wsf_from(line, i + 1, cur)
        }
    }
}

/// First position after `col` where a new word begins: a non-space character
/// whose class differs from its predecessor's.
pub open spec fn word_start_forward(line: Seq<char>, col: int) -> Option<int> {
    if col < 0 || col >= line.len() {
        None
    } else {
        wsf_from(line, col + 1, kind(line[col]))
    }
}

pub fn find_word_start_forward(line: &Vec<char>, col: usize) -> (r: Option<usize>)
    ensures
        r matches Some(c) ==> word_start_forward(line@, col as int) == Some(c as int) && col < c
            < line@.len(),
        r is None ==> word_start_forward(line@, col as int) is None,
{
    if col >= line.len() {
        return None;
    }
    let mut prev = kind_of(line[col]);
    let mut i: usize = col + 1;
    while i < line.len()
        invariant
            col < i <= line@.len(),
            wsf_from(line@, i as int, prev) == word_start_forward(line@, col as int),
        decreases line@.len() - i,
    {
        let cur = kind_of(line[i]);
        if !matches!(cur, CharKind::Space) && !equal_kind(cur, prev) {
            return Some(i);
        }
        prev = cur;
        i = i + 1;
    }
    None
}

fn equal_kind(a: CharKind, b: CharKind) -> (r: bool)
    ensures
        r == (a == b),
{
    match (a, b) {
        (CharKind::Space, CharKind::Space) => true,
        (CharKind::Punct, CharKind::Punct) => true,
        (CharKind::Other, CharKind::Other) => true,
        _ => false,
    }
}

} // verus!
