//! What the editor's status line shows for a note: its word and character
//! counts, the cursor's line and column, and whether it is saved.
use vstd::prelude::*;
use vstd::std_specs::iter::IteratorSpec;
use crate::text::{char_count_fits, decimal_digits, push_decimal_u64};

verus! {

/// Unicode White_Space characters, the ones `char::is_whitespace` accepts.
pub open spec fn is_whitespace_spec(c: char) -> bool {
    ||| '\u{9}' <= c <= '\u{d}'
    ||| c == ' '
    ||| c == '\u{85}'
    ||| c == '\u{a0}'
    ||| c == '\u{1680}'
    ||| '\u{2000}' <= c <= '\u{200a}'
    ||| c == '\u{2028}'
    ||| c == '\u{2029}'
    ||| c == '\u{202f}'
    ||| c == '\u{205f}'
    ||| c == '\u{3000}'
}

/// Whether `c` is a Unicode White_Space character.
pub fn is_whitespace(c: char) -> (ws: bool)
    ensures
        ws == is_whitespace_spec(c),
{
    ('\u{9}' <= c && c <= '\u{d}') || c == ' ' || c == '\u{85}' || c == '\u{a0}' || c == '\u{1680}'
        || ('\u{2000}' <= c && c <= '\u{200a}') || c == '\u{2028}' || c == '\u{2029}' || c == '\u{202f}'
        || c == '\u{205f}' || c == '\u{3000}'
}

/// Position `i` starts a word: a non-whitespace character at the start or
/// after whitespace.
pub open spec fn starts_word(s: Seq<char>, i: int) -> bool {
    !is_whitespace_spec(s[i]) && (i == 0 || is_whitespace_spec(s[i - 1]))
}

/// Number of words of `s`: maximal runs of non-whitespace characters, the
/// pieces `split_whitespace` yields.
pub open spec fn word_count(s: Seq<char>) -> nat
    decreases s.len(),
{
    if s.len() == 0 {
        0
    } else {
        word_count(s.drop_last()) + if starts_word(s, s.len() - 1) { 1nat } else { 0nat }
    }
}

/// Counts the words and the characters of a note's content, as the
/// editor's status line shows them.
pub fn editor_stats(content: &str) -> (stats: (usize, usize))
    ensures
        stats.0 == word_count(content@),
        stats.1 == content@.len(),
{
    char_count_fits(content);
    let mut words: usize = 0;
    let mut chars: usize = 0;
    let mut previous_is_space = true;
    let mut it = content.chars();
    let ghost s = content@;
    proof {
        broadcast use vstd::string::axiom_spec_iter;
        assert(s.skip(0) =~= s);
    }
    loop
        invariant
            s.len() <= usize::MAX,
            it.obeys_prophetic_iter_laws(),
            chars <= s.len(),
            it.remaining() == s.skip(chars as int),
            words == word_count(s.take(chars as int)),
            words <= chars,
            previous_is_space == (chars == 0 || is_whitespace_spec(s[chars - 1])),
        ensures
            words == word_count(s.take(chars as int)),
            chars == s.len(),
        decreases s.len() - chars,
    {
        proof {
            broadcast use vstd::string::next_postcondition;
        }
        match it.next() {
            Some(c) => {
                proof {
                    assert(s.take(chars + 1).drop_last() =~= s.take(chars as int));
                }
                let ws = is_whitespace(c);
                if !ws && previous_is_space {
                    words = words + 1;
                }
                previous_is_space = ws;
                chars = chars + 1;
                proof {
                    assert(s.skip(chars as int) =~= s.skip(chars - 1).drop_first());
                }
            },
            None => {
                break;
            },
        }
    }
    proof {
        assert(s.take(chars as int) =~= s);
    }
    (words, chars)
}

/// Line and column (both from 1) of the position just after `prefix`:
/// each newline starts a new line at column 1.
pub open spec fn position_after(prefix: Seq<char>) -> (nat, nat)
    decreases prefix.len(),
{
    if prefix.len() == 0 {
        (1, 1)
    } else {
        let (line, column) = position_after(prefix.drop_last());
        if prefix.last() == '\n' {
            (line + 1, 1)
        } else {
            (line, column + 1)
        }
    }
}

/// Line and column never exceed one more than the characters before them.
pub proof fn lemma_position_bounded(prefix: Seq<char>)
    ensures
        position_after(prefix).0 >= 1,
        position_after(prefix).1 >= 1,
        position_after(prefix).0 + position_after(prefix).1 <= prefix.len() + 2,
    decreases prefix.len(),
{
    if prefix.len() > 0 {
        lemma_position_bounded(prefix.drop_last());
    }
}

/// The cursor offset, in characters, kept within the content.
pub open spec fn clamped_offset(content: Seq<char>, offset: usize) -> int {
    if offset <= content.len() { offset as int } else { content.len() as int }
}

/// Line and column of the cursor at character `offset` of the content (an
/// offset past the end stands for the end).
pub fn cursor_position(content: &str, offset: usize) -> (position: (usize, usize))
    requires
        content@.len() < usize::MAX,
    ensures
        (position.0 as nat, position.1 as nat) == position_after(content@.take(clamped_offset(content@, offset))),
{
    let chars = crate::properties::chars_of(content);
    let end = if offset <= chars.len() { offset } else { chars.len() };
    let mut line: usize = 1;
    let mut column: usize = 1;
    let mut i: usize = 0;
    assert(content@.take(0) =~= Seq::<char>::empty());
    while i < end
        invariant
            chars@ == content@,
            end <= chars.len(),
            chars.len() < usize::MAX,
            0 <= i <= end,
            (line as nat, column as nat) == position_after(content@.take(i as int)),
        decreases end - i,
    {
        proof {
            assert(content@.take(i + 1).drop_last() =~= content@.take(i as int));
            lemma_position_bounded(content@.take(i as int));
        }
        if chars[i] == '\n' {
            line = line + 1;
            column = 1;
        } else {
            column = column + 1;
        }
        i = i + 1;
    }
    (line, column)
}

/// The counts text of the status line: "<words> words · <chars> chars".
pub open spec fn counts_text(words: nat, chars: nat) -> Seq<char> {
    decimal_digits(words) + " words · "@ + decimal_digits(chars) + " chars"@
}

/// The position text of the status line: "Ln <line>, Col <column>".
pub open spec fn position_text(line: nat, column: nat) -> Seq<char> {
    "Ln "@ + decimal_digits(line) + ", Col "@ + decimal_digits(column)
}

/// What the editor's status line shows.
#[derive(Debug, Clone)]
pub struct EditorStatus {
    pub counts_text: String,
    pub position_text: String,
    pub line: usize,
    pub column: usize,
    /// The "unsaved changes" badge is shown (else the "saved" one).
    pub unsaved: bool,
}

/// The status line of the editor for a note's content, the cursor's
/// character offset in it and whether it has unsaved changes.
pub fn editor_status(content: &str, cursor: usize, is_dirty: bool) -> (status: EditorStatus)
    requires
        content@.len() < usize::MAX,
    ensures
        status.counts_text@ == counts_text(word_count(content@), content@.len()),
        (status.line as nat, status.column as nat) == position_after(
            content@.take(clamped_offset(content@, cursor)),
        ),
        status.position_text@ == position_text(status.line as nat, status.column as nat),
        status.unsaved == is_dirty,
{
    let (words, chars) = editor_stats(content);
    let mut counts = String::new();
    push_decimal_u64(&mut counts, words as u64);
    counts.append(" words · ");
    push_decimal_u64(&mut counts, chars as u64);
    counts.append(" chars");
    let (line, column) = cursor_position(content, cursor);
    let mut position = String::from_str("Ln ");
    push_decimal_u64(&mut position, line as u64);
    position.append(", Col ");
    push_decimal_u64(&mut position, column as u64);
    EditorStatus { counts_text: counts, position_text: position, line, column, unsaved: is_dirty }
}

/// The cursor's line is one more than the newlines before it, and its
/// column one more than the characters since the last of them (or since
/// the start).
pub proof fn lemma_position_counts_newlines(prefix: Seq<char>)
    ensures
        position_after(prefix).0 == prefix.filter(|c: char| c == '\n').len() + 1,
        ({
            let col = position_after(prefix).1;
            &&& 1 <= col <= prefix.len() + 1
            &&& forall|j: int| prefix.len() - (col - 1) <= j < prefix.len() ==> prefix[j] != '\n'
            &&& (col - 1 == prefix.len() || prefix[prefix.len() - col] == '\n')
        }),
    decreases prefix.len(),
{
    reveal(Seq::filter);
    if prefix.len() > 0 {
        let rest = prefix.drop_last();
        lemma_position_counts_newlines(rest);
        let col = position_after(prefix).1;
        let rcol = position_after(rest).1;
        if prefix.last() != '\n' {
            assert forall|j: int| prefix.len() - (col - 1) <= j < prefix.len() implies prefix[j] != '\n' by {
                if j < prefix.len() - 1 {
                    assert(prefix[j] == rest[j]);
                }
            }
            if rcol - 1 != rest.len() {
                assert(prefix[prefix.len() - col] == rest[rest.len() - rcol]);
            }
        }
    }
}

} // verus!
