//! The citation picker's cards: what a bibliography entry shows for its
//! title, authors and year when some of them are missing.
use vstd::prelude::*;
use crate::properties::{join_with_commas, text_views};

verus! {

/// The parts of a bibliography entry a card shows.
#[derive(Debug, Clone)]
pub struct CitationEntry {
    pub citation_key: String,
    pub title: Option<String>,
    pub authors: Vec<String>,
    pub year: Option<String>,
}

/// What a card shows: title, authors and year.
#[derive(Debug, Clone)]
pub struct CitationCard {
    pub title: String,
    pub authors: String,
    pub year: String,
}

/// The texts joined with ", " between them.
pub fn join_texts(parts: &Vec<String>) -> (joined: String)
    ensures
        joined@ == join_with_commas(text_views(parts@)),
{
    let mut joined = String::new();
    let mut i: usize = 0;
    while i < parts.len()
        invariant
            0 <= i <= parts.len(),
            joined@ == join_with_commas(text_views(parts@.take(i as int))),
        decreases parts.len() - i,
    {
        let ghost before = text_views(parts@.take(i as int));
        let ghost next = text_views(parts@.take(i + 1));
        proof {
            assert(next =~= before.push(parts@[i as int]@));
            assert(next.drop_last() =~= before);
        }
        if i > 0 {
            joined.append(", ");
        }
        joined.append(parts[i].as_str());
        proof {
            if i == 0 {
                assert(joined@ =~= next[0]);
            }
        }
        i = i + 1;
    }
    proof {
        assert(parts@.take(parts@.len() as int) =~= parts@);
    }
    joined
}

/// The card's authors line: the authors separated by ", ", or "Unknown
/// Author" when there are none.
pub open spec fn authors_text(authors: Seq<String>) -> Seq<char> {
    if authors.len() == 0 {
        "Unknown Author"@
    } else {
        join_with_commas(text_views(authors))
    }
}

/// The text of an optional field, or `fallback` when it is missing.
pub open spec fn text_or(field: Option<String>, fallback: Seq<char>) -> Seq<char> {
    match field {
        Some(t) => t@,
        None => fallback,
    }
}

/// The card shown for an entry: its title, else its citation key; its
/// authors, else "Unknown Author"; its year, else "n.d.".
pub fn citation_card(entry: &CitationEntry) -> (card: CitationCard)
    ensures
        card.title@ == text_or(entry.title, entry.citation_key@),
        card.authors@ == authors_text(entry.authors@),
        card.year@ == text_or(entry.year, "n.d."@),
{
    let title = match &entry.title {
        Some(t) => t.clone(),
        None => entry.citation_key.clone(),
    };
    let authors = if entry.authors.len() == 0 {
        String::from_str("Unknown Author")
    } else {
        join_texts(&entry.authors)
    };
    let year = match &entry.year {
        Some(y) => y.clone(),
        None => String::from_str("n.d."),
    };
    CitationCard { title, authors, year }
}

} // verus!
