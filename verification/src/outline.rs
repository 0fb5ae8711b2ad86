//! The note's table of contents: its headings (`#` to `######` at the start
//! of a line), the rows the reading view lists for them, and the jump a
//! click on a row makes.
use vstd::prelude::*;
use crate::editor::position_after;
use crate::properties::{chars_of, trim_spec, trim_text};

verus! {

/// Position `i` starts a line.
pub open spec fn is_line_start(s: Seq<char>, i: int) -> bool {
    i == 0 || (0 < i <= s.len() && s[i - 1] == '\n')
}

/// The number of '#' characters in a row from position `i`.
pub open spec fn hash_run(s: Seq<char>, i: int) -> int
    decreases s.len() - i,
{
    if 0 <= i < s.len() && s[i] == '#' {
        1 + hash_run(s, i + 1)
    } else {
        0
    }
}

/// The level of the heading whose line starts at `i`: one to six '#'
/// followed by a space or the end of the line; 0 when the line is no
/// heading.
pub open spec fn heading_level(s: Seq<char>, i: int) -> int {
    let h = hash_run(s, i);
    if is_line_start(s, i) && 1 <= h <= 6 && (i + h == s.len() || s[i + h] == ' ' || s[i + h] == '\n') {
        h
    } else {
        0
    }
}

/// The end of the line holding position `i`: the next newline, or the end.
pub open spec fn line_end(s: Seq<char>, i: int) -> int
    decreases s.len() - i,
{
    if i >= s.len() || (0 <= i && s[i] == '\n') {
        i
    } else {
        line_end(s, i + 1)
    }
}

/// The text of the heading at `i`: the rest of its line, trimmed.
pub open spec fn heading_text(s: Seq<char>, i: int) -> Seq<char> {
    trim_spec(s.subrange(i + heading_level(s, i), line_end(s, i + heading_level(s, i))))
}

/// The positions of the headings that start before `n`, in order.
pub open spec fn heading_starts(s: Seq<char>, n: int) -> Seq<int>
    decreases n,
{
    if n <= 0 {
        Seq::empty()
    } else {
        let before = heading_starts(s, n - 1);
        if heading_level(s, n - 1) > 0 {
            before.push(n - 1)
        } else {
            before
        }
    }
}

/// A heading of the note: its level, its text and the character offset of
/// its line.
#[derive(Debug, Clone)]
pub struct OutlineHeading {
    pub level: usize,
    pub text: String,
    pub offset: usize,
}

/// The '#' run at `i`, counted up to seven.
fn hash_run_capped(chars: &Vec<char>, i: usize) -> (h: usize)
    requires
        i <= chars.len(),
    ensures
        h <= 7,
        i + h <= chars.len(),
        h == hash_run(chars@, i as int) || (h == 7 && hash_run(chars@, i as int) >= 7),
{
    let mut h: usize = 0;
    while i + h < chars.len() && chars[i + h] == '#' && h < 7
        invariant
            i <= chars.len(),
            h <= 7,
            i + h <= chars.len(),
            hash_run(chars@, i as int) == h + hash_run(chars@, i + h),
        decreases 7 - h,
    {
        h = h + 1;
    }
    proof {
        if h < 7 {
            assert(hash_run(chars@, i + h) == 0);
        } else {
            assert(hash_run(chars@, i + h) >= 0) by {
                lemma_hash_run_nonnegative(chars@, i + h);
            }
        }
    }
    h
}

proof fn lemma_hash_run_nonnegative(s: Seq<char>, i: int)
    ensures
        hash_run(s, i) >= 0,
    decreases s.len() - i,
{
    if 0 <= i < s.len() && s[i] == '#' {
        lemma_hash_run_nonnegative(s, i + 1);
    }
}

/// The end of the line holding position `i`.
fn find_line_end(chars: &Vec<char>, i: usize) -> (e: usize)
    requires
        i <= chars.len(),
    ensures
        e == line_end(chars@, i as int),
        i <= e <= chars.len(),
{
    let mut e = i;
    while e < chars.len() && chars[e] != '\n'
        invariant
            i <= e <= chars.len(),
            line_end(chars@, i as int) == line_end(chars@, e as int),
        decreases chars.len() - e,
    {
        e = e + 1;
    }
    e
}

/// The level of the heading at `i`, 0 when none starts there.
fn level_at(chars: &Vec<char>, i: usize) -> (level: usize)
    requires
        i < chars.len(),
    ensures
        level == heading_level(chars@, i as int),
        i + level <= chars.len(),
{
    if i > 0 && chars[i - 1] != '\n' {
        return 0;
    }
    let h = hash_run_capped(chars, i);
    if 1 <= h && h <= 6 && (i + h == chars.len() || chars[i + h] == ' ' || chars[i + h] == '\n') {
        h
    } else {
        0
    }
}

/// The headings of a note, in order, as the table of contents lists them.
pub fn outline_headings(content: &str) -> (headings: Vec<OutlineHeading>)
    ensures
        headings@.len() == heading_starts(content@, content@.len() as int).len(),
        forall|k: int|
            0 <= k < headings@.len() ==> {
                let o = heading_starts(content@, content@.len() as int)[k];
                &&& #[trigger] headings@[k].offset == o
                &&& headings@[k].level == heading_level(content@, o)
                &&& headings@[k].text@ == heading_text(content@, o)
            },
{
    let chars = chars_of(content);
    let ghost s = content@;
    let mut headings: Vec<OutlineHeading> = Vec::new();
    let mut i: usize = 0;
    while i < chars.len()
        invariant
            chars@ == s,
            s == content@,
            0 <= i <= chars.len(),
            headings@.len() == heading_starts(s, i as int).len(),
            forall|k: int|
                0 <= k < headings@.len() ==> {
                    let o = heading_starts(s, i as int)[k];
                    &&& #[trigger] headings@[k].offset == o
                    &&& headings@[k].level == heading_level(s, o)
                    &&& headings@[k].text@ == heading_text(s, o)
                },
        decreases chars.len() - i,
    {
        let level = level_at(&chars, i);
        let ghost before = headings@;
        proof {
            if level > 0 {
                assert(heading_starts(s, i + 1) == heading_starts(s, i as int).push(i as int));
            } else {
                assert(heading_starts(s, i + 1) == heading_starts(s, i as int));
            }
        }
        if level > 0 {
            let e = find_line_end(&chars, i + level);
            let text = trim_text(content.substring_char(i + level, e));
            headings.push(OutlineHeading { level, text, offset: i });
            proof {
                assert forall|k: int| 0 <= k < headings@.len() implies {
                    let o = heading_starts(s, i + 1)[k];
                    &&& #[trigger] headings@[k].offset == o
                    &&& headings@[k].level == heading_level(s, o)
                    &&& headings@[k].text@ == heading_text(s, o)
                } by {
                    if k < before.len() {
                        assert(headings@[k] == before[k]);
                        assert(heading_starts(s, i + 1)[k] == heading_starts(s, i as int)[k]);
                    } else {
                        assert(heading_starts(s, i + 1)[k] == i);
                    }
                }
            }
        }
        i = i + 1;
    }
    headings
}

/// A line ends at or after where it is looked for, and within the text.
proof fn lemma_line_end_bounds(s: Seq<char>, i: int)
    requires
        0 <= i <= s.len(),
    ensures
        i <= line_end(s, i) <= s.len(),
    decreases s.len() - i,
{
    if i < s.len() && s[i] != '\n' {
        lemma_line_end_bounds(s, i + 1);
    }
}

/// Every listed heading starts a line inside the text, with a heading on it.
pub proof fn lemma_heading_starts_are_headings(s: Seq<char>, n: int, k: int)
    requires
        0 <= n <= s.len(),
        0 <= k < heading_starts(s, n).len(),
    ensures
        0 <= heading_starts(s, n)[k] < n,
        heading_level(s, heading_starts(s, n)[k]) > 0,
        is_line_start(s, heading_starts(s, n)[k]),
    decreases n,
{
    if k < heading_starts(s, n - 1).len() {
        lemma_heading_starts_are_headings(s, n - 1, k);
    }
}

/// A click on the `index`-th row of the table of contents puts the cursor
/// at the start of that heading's line; `None` when there is no such row.
pub fn outline_jump(headings: &Vec<OutlineHeading>, index: usize) -> (offset: Option<usize>)
    ensures
        index < headings@.len() ==> offset == Some(headings@[index as int].offset),
        index >= headings@.len() ==> offset is None,
{
    if index < headings.len() {
        Some(headings[index].offset)
    } else {
        None
    }
}

/// Jumping to a heading lands at column 1 of its line, and that line is
/// the heading's (its first characters are the heading's '#' marks).
pub proof fn lemma_jump_lands_on_heading(s: Seq<char>, k: int)
    requires
        0 <= k < heading_starts(s, s.len() as int).len(),
    ensures
        ({
            let o = heading_starts(s, s.len() as int)[k];
            &&& position_after(s.take(o)).1 == 1
            &&& o < s.len() && s[o] == '#'
        }),
{
    let o = heading_starts(s, s.len() as int)[k];
    lemma_heading_starts_are_headings(s, s.len() as int, k);
    if o > 0 {
        assert(s.take(o).last() == '\n');
    }
}

/// The left padding, in pixels, of a row of the reading view's table of
/// contents for a heading of level `depth` (1 for `#`).
pub fn reading_outline_indent(depth: usize) -> (indent: usize)
    requires
        depth >= 1,
        (depth - 1) * 12 + 8 <= usize::MAX,
    ensures
        indent == (depth - 1) * 12 + 8,
{
    (depth - 1) * 12 + 8
}

} // verus!
