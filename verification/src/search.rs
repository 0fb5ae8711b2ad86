//! Case-insensitive text search, as the graph view's node search and the
//! template picker filter their items.
use vstd::prelude::*;
use crate::properties::{chars_of, trim_spec, trim_text};

verus! {

/// What `str::to_lowercase` gives for a text: Unicode lowercase mapping,
/// a function of the text alone.
pub uninterp spec fn lowercase_of(text: Seq<char>) -> Seq<char>;

/// `str::to_lowercase` (std): the lowercase form of the text under
/// Unicode's case mapping, character by character. The contract names the
/// result as a function of the text, and states only that an empty text
/// stays empty; the mapping itself is not restated.
#[verifier::external_body]
fn to_lowercase(text: &str) -> (lower: String)
    ensures
        lower@ == lowercase_of(text@),
        text@.len() == 0 ==> lower@.len() == 0,
{
    text.to_lowercase()
}

/// `needle` occurs in `haystack` as a run of consecutive characters.
pub open spec fn contains_text(haystack: Seq<char>, needle: Seq<char>) -> bool {
    exists|i: int| 0 <= i <= haystack.len() - needle.len() && #[trigger] haystack.subrange(i, i + needle.len()) == needle
}

/// Whether `needle` occurs in `haystack`.
pub fn text_contains(haystack: &str, needle: &str) -> (found: bool)
    ensures
        found == contains_text(haystack@, needle@),
{
    let h = chars_of(haystack);
    let n = chars_of(needle);
    if n.len() > h.len() {
        return false;
    }
    if n.len() == 0 {
        assert(haystack@.subrange(0int, 0int + needle@.len()) =~= needle@);
        return true;
    }
    let last_start = h.len() - n.len();
    let mut i: usize = 0;
    while i < last_start + 1
        invariant
            0 < n.len(),
            h@ == haystack@,
            n@ == needle@,
            n.len() <= h.len(),
            last_start == h.len() - n.len(),
            0 <= i <= last_start + 1,
            forall|k: int| 0 <= k < i ==> #[trigger] h@.subrange(k, k + n@.len()) != n@,
        decreases last_start + 1 - i,
    {
        let mut j: usize = 0;
        let mut same = true;
        while j < n.len()
            invariant
                h@ == haystack@,
                n@ == needle@,
                i + n.len() <= h.len(),
                0 <= j <= n.len(),
                same == (forall|m: int| 0 <= m < j ==> h@[i + m] == n@[m]),
            decreases n.len() - j,
        {
            if h[i + j] != n[j] {
                same = false;
            }
            j = j + 1;
        }
        if same {
            assert(h@.subrange(i as int, i + n@.len()) =~= n@);
            return true;
        }
        proof {
            assert(h@.subrange(i as int, i + n@.len()) != n@) by {
                let m = choose|m: int| 0 <= m < n@.len() && h@[i + m] != n@[m];
                assert(h@.subrange(i as int, i + n@.len())[m] == h@[i + m]);
            }
        }
        i = i + 1;
    }
    proof {
        if contains_text(haystack@, needle@) {
            let k = choose|k: int|
                0 <= k <= haystack@.len() - needle@.len() && #[trigger] haystack@.subrange(k, k + needle@.len())
                    == needle@;
            assert(h@.subrange(k, k + n@.len()) == n@);
        }
    }
    false
}

/// An item matches a (lowercased) query when the query is empty or occurs
/// in the item's lowercased text.
pub open spec fn matches_query(text: Seq<char>, query: Seq<char>) -> bool {
    query.len() == 0 || contains_text(lowercase_of(text), query)
}

/// Whether a graph node's label matches the search box's text: the query
/// is trimmed and lowercased first.
pub fn label_matches_search(label: &str, search: &str) -> (matches: bool)
    ensures
        matches == matches_query(label@, lowercase_of(trim_spec(search@))),
        trim_spec(search@).len() == 0 ==> matches,
{
    let trimmed = trim_text(search);
    let query = to_lowercase(trimmed.as_str());
    if query.as_str().unicode_len() == 0 {
        return true;
    }
    let lower = to_lowercase(label);
    text_contains(lower.as_str(), query.as_str())
}

/// A template offered by the template picker.
#[derive(Debug, Clone)]
pub struct TemplateInfo {
    pub name: String,
    pub description: String,
}

/// The indices of the templates whose name or description matches the
/// lowercased query, in order.
pub open spec fn template_matches(t: TemplateInfo, query: Seq<char>) -> bool {
    matches_query(t.name@, query) || matches_query(t.description@, query)
}

/// The templates the picker lists for its search text, by index and in
/// order: all of them for an empty query, else those whose lowercased name
/// or description contains the lowercased query.
pub fn filter_templates(templates: &Vec<TemplateInfo>, search: &str) -> (shown: Vec<usize>)
    ensures
        forall|k: int| 0 <= k < shown@.len() ==> #[trigger] shown@[k] < templates@.len(),
        forall|k: int, l: int| 0 <= k < l < shown@.len() ==> shown@[k] < shown@[l],
        forall|i: int|
            0 <= i < templates@.len() ==> (shown@.contains(i as usize) <==> template_matches(
                #[trigger] templates@[i],
                lowercase_of(search@),
            )),
        search@.len() == 0 ==> shown@.len() == templates@.len(),
{
    let query = to_lowercase(search);
    let empty_query = query.as_str().unicode_len() == 0;
    let mut shown: Vec<usize> = Vec::new();
    let mut i: usize = 0;
    while i < templates.len()
        invariant
            0 <= i <= templates.len(),
            query@ == lowercase_of(search@),
            empty_query == (query@.len() == 0),
            search@.len() == 0 ==> empty_query,
            empty_query ==> shown@.len() == i,
            forall|k: int| 0 <= k < shown@.len() ==> #[trigger] shown@[k] < i,
            forall|k: int, l: int| 0 <= k < l < shown@.len() ==> shown@[k] < shown@[l],
            forall|m: int|
                0 <= m < i ==> (shown@.contains(m as usize) <==> template_matches(
                    #[trigger] templates@[m],
                    lowercase_of(search@),
                )),
        decreases templates.len() - i,
    {
        let t = &templates[i];
        let keep = if empty_query {
            true
        } else {
            let name = to_lowercase(t.name.as_str());
            let description = to_lowercase(t.description.as_str());
            text_contains(name.as_str(), query.as_str()) || text_contains(description.as_str(), query.as_str())
        };
        let ghost before = shown@;
        if keep {
            shown.push(i);
        }
        proof {
            assert forall|m: int| 0 <= m < i + 1 implies (shown@.contains(m as usize) <==> template_matches(
                #[trigger] templates@[m],
                lowercase_of(search@),
            )) by {
                if m < i {
                    if before.contains(m as usize) {
                        let k = choose|k: int| 0 <= k < before.len() && before[k] == m as usize;
                        assert(shown@[k] == m as usize);
                    }
                    if shown@.contains(m as usize) {
                        let k = choose|k: int| 0 <= k < shown@.len() && shown@[k] == m as usize;
                        if k < before.len() {
                            assert(before[k] == m as usize);
                        }
                    }
                } else {
                    if keep {
                        assert(shown@[before.len() as int] == i);
                    } else {
                        if shown@.contains(m as usize) {
                            let k = choose|k: int| 0 <= k < shown@.len() && shown@[k] == m as usize;
                            assert(before[k] < i);
                        }
                    }
                }
            }
        }
        i = i + 1;
    }
    shown
}

/// The task view's filter text as it is stored: none when the input is
/// blank, else the input as typed.
pub fn task_search_query(input: &str) -> (query: Option<String>)
    ensures
        query is None <==> trim_spec(input@).len() == 0,
        query matches Some(q) ==> q@ == input@,
{
    let trimmed = trim_text(input);
    if trimmed.as_str().unicode_len() == 0 {
        None
    } else {
        Some(String::from_str(input))
    }
}

} // verus!
