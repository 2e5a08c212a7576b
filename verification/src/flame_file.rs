//! The head of a flame file: the tag that names a group of flames.
//!
//! The tag is a `<`, the group's name and a `>`. Blanks may stand before the
//! `<`, on either side of the name and after the `>`; the name is everything
//! from its first byte that is no blank up to the first `>`, blanks inside
//! and at its end included.

use vstd::prelude::*;

verus! {

/// What reading the tag came to.
#[derive(Clone, Copy, Debug, PartialEq, Eq)]
pub enum TagResult {
    /// The tag was read. The name is the input from `name_start` up to
    /// `name_end`; what follows the tag begins at `rest`.
    Done { name_start: usize, name_end: usize, rest: usize },
    /// The input ends where the `<` or the name should begin: with more
    /// input it might be a tag.
    Incomplete,
    /// The input is no tag: something other than `<` comes first, or no `>`
    /// follows the name's first byte.
    Error,
}

/// Blank bytes: space, tab, carriage return and line feed.
pub open spec fn is_blank(byte: u8) -> bool {
    byte == 0x20 || byte == 0x09 || byte == 0x0d || byte == 0x0a
}

/// The first place at or after `from` where no blank stands; the input's
/// length if only blanks follow.
pub open spec fn skip_blanks(input: Seq<u8>, from: int) -> int
    decreases input.len() - from,
{
    if 0 <= from < input.len() && is_blank(input[from]) {
        skip_blanks(input, from + 1)
    } else {
        from
    }
}

/// The first place at or after `from` where a `>` stands; the input's length
/// if none follows.
pub open spec fn find_close(input: Seq<u8>, from: int) -> int
    decreases input.len() - from,
{
    if 0 <= from < input.len() && input[from] != 0x3e {
        find_close(input, from + 1)
    } else {
        from
    }
}

/// What the tag at the head of `input` reads as.
pub open spec fn tag_of(input: Seq<u8>) -> TagResult {
    let open: int = skip_blanks(input, 0);
    let start: int = skip_blanks(input, open + 1);
    let end: int = find_close(input, start);
    if open >= input.len() {
        TagResult::Incomplete
    } else if input[open] != 0x3c {
        TagResult::Error
    } else if start >= input.len() {
        TagResult::Incomplete
    } else if end >= input.len() {
        TagResult::Error
    } else {
        TagResult::Done {
            name_start: start as usize,
            name_end: end as usize,
            rest: skip_blanks(input, end + 1) as usize,
        }
    }
}

/// `skip_blanks` stops inside the input, passes blanks only, and stops at
/// the first byte that is none.
pub proof fn lemma_skip_blanks(input: Seq<u8>, from: int)
    requires
        0 <= from <= input.len(),
    ensures
        from <= skip_blanks(input, from) <= input.len(),
        forall|k: int| from <= k < skip_blanks(input, from) ==> is_blank(#[trigger] input[k]),
        skip_blanks(input, from) < input.len() ==> !is_blank(input[skip_blanks(input, from)]),
    decreases input.len() - from,
{
    if from < input.len() && is_blank(input[from]) {
        lemma_skip_blanks(input, from + 1);
    }
}

/// `find_close` stops inside the input, passes no `>`, and stops at the
/// first one.
pub proof fn lemma_find_close(input: Seq<u8>, from: int)
    requires
        0 <= from <= input.len(),
    ensures
        from <= find_close(input, from) <= input.len(),
        forall|k: int| from <= k < find_close(input, from) ==> #[trigger] input[k] != 0x3e,
        find_close(input, from) < input.len() ==> input[find_close(input, from)] == 0x3e,
    decreases input.len() - from,
{
    if from < input.len() && input[from] != 0x3e {
        lemma_find_close(input, from + 1);
    }
}

/// Whether a byte is a blank.
pub fn blank(byte: u8) -> (yes: bool)
    ensures
        yes == is_blank(byte),
{
    byte == 0x20 || byte == 0x09 || byte == 0x0d || byte == 0x0a
}

/// Passes over the blanks that begin at `from`.
fn after_blanks(input: &[u8], from: usize) -> (to: usize)
    requires
        from <= input@.len(),
    ensures
        to == skip_blanks(input@, from as int),
        from <= to <= input@.len(),
{
    let mut to: usize = from;
    while to < input.len() && blank(input[to])
        invariant
            from <= to <= input@.len(),
            skip_blanks(input@, from as int) == skip_blanks(input@, to as int),
        decreases input@.len() - to,
    {
        to = to + 1;
    }
    to
}

/// Passes over everything up to the next `>`.
fn up_to_close(input: &[u8], from: usize) -> (to: usize)
    requires
        from <= input@.len(),
    ensures
        to == find_close(input@, from as int),
        from <= to <= input@.len(),
{
    let mut to: usize = from;
    while to < input.len() && input[to] != 0x3e
        invariant
            from <= to <= input@.len(),
            find_close(input@, from as int) == find_close(input@, to as int),
        decreases input@.len() - to,
    {
        to = to + 1;
    }
    to
}

/// Reads the tag at the head of a flame file.
pub fn flames_tag(input: &[u8]) -> (result: TagResult)
    ensures
        result == tag_of(input@),
        result matches TagResult::Done { name_start, name_end, rest } ==> name_start <= name_end
            < rest <= input@.len(),
{
    let open: usize = after_blanks(input, 0);
    if open >= input.len() {
        return TagResult::Incomplete;
    }
    if input[open] != 0x3c {
        return TagResult::Error;
    }
    let start: usize = after_blanks(input, open + 1);
    if start >= input.len() {
        return TagResult::Incomplete;
    }
    let end: usize = up_to_close(input, start);
    if end >= input.len() {
        return TagResult::Error;
    }
    let rest: usize = after_blanks(input, end + 1);
    TagResult::Done { name_start: start, name_end: end, rest }
}

/// What a tag that was read looks like: blanks, a `<`, blanks, then a name
/// that begins with no blank and holds no `>`, the `>` itself, and blanks up
/// to the rest, which begins with no blank.
pub proof fn lemma_tag_shape(input: Seq<u8>)
    requires
        input.len() <= usize::MAX,
        tag_of(input) is Done,
    ensures
        ({
            let open: int = skip_blanks(input, 0);
            let start: int = tag_of(input)->name_start as int;
            let end: int = tag_of(input)->name_end as int;
            let rest: int = tag_of(input)->rest as int;
            &&& 0 <= open < start <= end < rest <= input.len()
            &&& input[open] == 0x3c
            &&& input[end] == 0x3e
            &&& !is_blank(input[start])
            &&& rest < input.len() ==> !is_blank(input[rest])
            &&& forall|k: int| 0 <= k < open ==> is_blank(#[trigger] input[k])
            &&& forall|k: int| open < k < start ==> is_blank(#[trigger] input[k])
            &&& forall|k: int| start <= k < end ==> #[trigger] input[k] != 0x3e
            &&& forall|k: int| end < k < rest ==> is_blank(#[trigger] input[k])
        }),
{
    let open: int = skip_blanks(input, 0);
    lemma_skip_blanks(input, 0);
    let start: int = skip_blanks(input, open + 1);
    lemma_skip_blanks(input, open + 1);
    let end: int = find_close(input, start);
    lemma_find_close(input, start);
    lemma_skip_blanks(input, end + 1);
}

} // verus!
