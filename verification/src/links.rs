//! Resolving the target of an embedded note (`![[Target#Heading]]`) in the
//! editor's preview: the note path tried first, and the notes whose title
//! matches the target when that path does not exist.
use vstd::prelude::*;
use crate::properties::{chars_of, trim_spec, trim_text};

verus! {

/// The part of a link target before its first '#' (the whole target when
/// it has none).
pub open spec fn before_hash(target: Seq<char>) -> Seq<char>
    decreases target.len(),
{
    if target.len() == 0 {
        target
    } else if target[0] == '#' {
        Seq::empty()
    } else {
        seq![target[0]] + before_hash(target.drop_first())
    }
}

/// The note named by a link target: the part before '#', trimmed.
pub open spec fn clean_target(target: Seq<char>) -> Seq<char> {
    trim_spec(before_hash(target))
}

/// A prefix with no '#' reads the same up to the end of the target.
proof fn lemma_before_hash_prefix(target: Seq<char>, k: int)
    requires
        0 <= k <= target.len(),
        forall|j: int| 0 <= j < k ==> target[j] != '#',
    ensures
        before_hash(target) == target.take(k) + before_hash(target.skip(k)),
    decreases k,
{
    if k > 0 {
        lemma_before_hash_prefix(target.drop_first(), k - 1);
        assert(target.drop_first().take(k - 1) =~= target.take(k).drop_first());
        assert(target.drop_first().skip(k - 1) =~= target.skip(k));
        assert(target.take(k) =~= seq![target[0]] + target.take(k).drop_first());
    } else {
        assert(target.skip(0) =~= target);
    }
}

/// The note named by a link target, as `clean_target` gives it.
pub fn link_target_name(target: &str) -> (name: String)
    ensures
        name@ == clean_target(target@),
{
    let chars = chars_of(target);
    let mut k: usize = 0;
    while k < chars.len() && chars[k] != '#'
        invariant
            chars@ == target@,
            0 <= k <= chars.len(),
            forall|j: int| 0 <= j < k ==> target@[j] != '#',
        decreases chars.len() - k,
    {
        k = k + 1;
    }
    proof {
        lemma_before_hash_prefix(target@, k as int);
        if k < chars.len() {
            assert(target@.skip(k as int)[0] == '#');
        } else {
            assert(target@.skip(k as int).len() == 0);
        }
        assert(target@.take(k as int) =~= target@.subrange(0, k as int));
    }
    trim_text(target.substring_char(0, k))
}

/// The path tried first for a link target: its note name with ".md".
pub fn link_target_path(target: &str) -> (path: String)
    ensures
        path@ == clean_target(target@) + ".md"@,
{
    let mut path = link_target_name(target);
    path.append(".md");
    path
}

/// Two characters are the same letter up to ASCII case, or equal.
pub open spec fn same_char_ignoring_ascii_case(a: char, b: char) -> bool {
    ||| a == b
    ||| 'A' <= a <= 'Z' && b as u32 == a as u32 + 32
    ||| 'A' <= b <= 'Z' && a as u32 == b as u32 + 32
}

/// Texts equal up to the case of ASCII letters, as `str::eq_ignore_ascii_case`
/// compares them.
pub open spec fn eq_ignoring_ascii_case(a: Seq<char>, b: Seq<char>) -> bool {
    &&& a.len() == b.len()
    &&& forall|i: int| 0 <= i < a.len() ==> same_char_ignoring_ascii_case(#[trigger] a[i], b[i])
}

/// Whether two texts are equal up to the case of ASCII letters.
pub fn equal_ignoring_ascii_case(a: &str, b: &str) -> (equal: bool)
    ensures
        equal == eq_ignoring_ascii_case(a@, b@),
{
    let x = chars_of(a);
    let y = chars_of(b);
    if x.len() != y.len() {
        return false;
    }
    let mut i: usize = 0;
    while i < x.len()
        invariant
            x@ == a@,
            y@ == b@,
            x.len() == y.len(),
            0 <= i <= x.len(),
            forall|j: int| 0 <= j < i ==> same_char_ignoring_ascii_case(#[trigger] a@[j], b@[j]),
        decreases x.len() - i,
    {
        let c = x[i];
        let d = y[i];
        let same = c == d || ('A' <= c && c <= 'Z' && (d as u32) == (c as u32) + 32) || ('A' <= d && d <= 'Z'
            && (c as u32) == (d as u32) + 32);
        if !same {
            assert(!same_char_ignoring_ascii_case(a@[i as int], b@[i as int]));
            return false;
        }
        i = i + 1;
    }
    true
}

/// The indices of the notes whose title equals the link's note name up to
/// ASCII case, in order: the notes tried after the path.
pub open spec fn titles_matching(titles: Seq<String>, name: Seq<char>) -> Seq<usize>
    decreases titles.len(),
{
    if titles.len() == 0 {
        Seq::empty()
    } else {
        let rest = titles_matching(titles.drop_last(), name);
        if eq_ignoring_ascii_case(titles.last()@, name) {
            rest.push((titles.len() - 1) as usize)
        } else {
            rest
        }
    }
}

/// The notes, by index into `titles`, that a link target may name by title.
pub fn notes_titled_like(titles: &Vec<String>, target: &str) -> (found: Vec<usize>)
    ensures
        found@ == titles_matching(titles@, clean_target(target@)),
{
    let name = link_target_name(target);
    let mut found: Vec<usize> = Vec::new();
    let mut i: usize = 0;
    while i < titles.len()
        invariant
            0 <= i <= titles.len(),
            name@ == clean_target(target@),
            found@ == titles_matching(titles@.take(i as int), name@),
        decreases titles.len() - i,
    {
        proof {
            assert(titles@.take(i + 1).drop_last() =~= titles@.take(i as int));
            assert(titles@.take(i + 1).last() == titles@[i as int]);
        }
        if equal_ignoring_ascii_case(titles[i].as_str(), name.as_str()) {
            found.push(i);
        }
        i = i + 1;
    }
    proof {
        assert(titles@.take(titles@.len() as int) =~= titles@);
    }
    found
}

} // verus!
