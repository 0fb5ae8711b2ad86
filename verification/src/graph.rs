//! Graph-view bookkeeping on node indices: the simulation's edge list built
//! from the note graph's links, and the neighbourhood highlighted around a
//! focused node.
use vstd::prelude::*;
use std::collections::HashSet;
use crate::properties::chars_of;

verus! {

broadcast use vstd::std_specs::hash::group_hash_axioms;

/// A link between simulation nodes, by index.
#[derive(Debug, Clone, Copy, PartialEq, Eq, Hash, Structural)]
pub struct SimEdge {
    pub source: usize,
    pub target: usize,
}

/// A link of the note graph, between node ids.
#[derive(Debug, Clone)]
pub struct GraphLink {
    pub source: String,
    pub target: String,
}

/// The ids of a list of nodes, as plain values.
pub open spec fn id_views(ids: Seq<String>) -> Seq<Seq<char>> {
    ids.map_values(|s: String| s@)
}

/// The index of the last node with this id; the id-to-index table keeps
/// the last index of an id that occurs twice.
pub open spec fn last_index_of(ids: Seq<Seq<char>>, id: Seq<char>) -> Option<int>
    decreases ids.len(),
{
    if ids.len() == 0 {
        None
    } else if ids.last() == id {
        Some(ids.len() - 1)
    } else {
        last_index_of(ids.drop_last(), id)
    }
}

/// Some edge already joins `a` and `b`, in either direction.
pub open spec fn joins(edges: Seq<SimEdge>, a: int, b: int) -> bool {
    exists|k: int|
        0 <= k < edges.len() && ((edges[k].source == a && edges[k].target == b) || (edges[k].source == b
            && edges[k].target == a))
}

/// The simulation edges for `links` over nodes with ids `ids`: in link
/// order, each link whose two ends are known nodes, that is not a loop,
/// and whose pair of nodes no earlier edge already joins.
pub open spec fn sim_edges(ids: Seq<Seq<char>>, links: Seq<GraphLink>) -> Seq<SimEdge>
    decreases links.len(),
{
    if links.len() == 0 {
        Seq::empty()
    } else {
        let prev = sim_edges(ids, links.drop_last());
        let link = links.last();
        match (last_index_of(ids, link.source@), last_index_of(ids, link.target@)) {
            (Some(s), Some(t)) => if s != t && !joins(prev, s, t) {
                prev.push(SimEdge { source: s as usize, target: t as usize })
            } else {
                prev
            },
            _ => prev,
        }
    }
}

/// The index of the last node whose id is `id`.
pub fn find_node_index(ids: &Vec<String>, id: &String) -> (index: Option<usize>)
    ensures
        index matches Some(i) ==> last_index_of(id_views(ids@), id@) == Some(i as int),
        index is None ==> last_index_of(id_views(ids@), id@) is None,
{
    let ghost views = id_views(ids@);
    let mut i: usize = ids.len();
    assert(views.take(i as int) =~= views);
    while i > 0
        invariant
            i <= ids.len(),
            views == id_views(ids@),
            last_index_of(views, id@) == last_index_of(views.take(i as int), id@),
        decreases i,
    {
        assert(views.take(i as int).drop_last() =~= views.take(i - 1));
        if ids[i - 1] == *id {
            return Some(i - 1);
        }
        i = i - 1;
    }
    None
}

/// Whether some edge already joins `a` and `b`.
pub fn edges_join(edges: &Vec<SimEdge>, a: usize, b: usize) -> (joined: bool)
    ensures
        joined == joins(edges@, a as int, b as int),
{
    let mut k: usize = 0;
    while k < edges.len()
        invariant
            0 <= k <= edges.len(),
            forall|j: int|
                0 <= j < k ==> !((edges@[j].source == a && edges@[j].target == b) || (edges@[j].source == b
                    && edges@[j].target == a)),
        decreases edges.len() - k,
    {
        let e = edges[k];
        if (e.source == a && e.target == b) || (e.source == b && e.target == a) {
            return true;
        }
        k = k + 1;
    }
    false
}

/// Builds the simulation edges from the graph's links, for nodes whose ids
/// are `node_ids` in simulation order.
pub fn build_sim_edges(node_ids: &Vec<String>, links: &Vec<GraphLink>) -> (edges: Vec<SimEdge>)
    ensures
        edges@ == sim_edges(id_views(node_ids@), links@),
{
    let ghost ids = id_views(node_ids@);
    let mut edges: Vec<SimEdge> = Vec::new();
    let mut i: usize = 0;
    while i < links.len()
        invariant
            0 <= i <= links.len(),
            ids == id_views(node_ids@),
            edges@ == sim_edges(ids, links@.take(i as int)),
        decreases links.len() - i,
    {
        proof {
            assert(links@.take(i + 1).drop_last() =~= links@.take(i as int));
            assert(links@.take(i + 1).last() == links@[i as int]);
        }
        let link = &links[i];
        let source = find_node_index(node_ids, &link.source);
        let target = find_node_index(node_ids, &link.target);
        match (source, target) {
            (Some(s), Some(t)) => {
                if s != t && !edges_join(&edges, s, t) {
                    edges.push(SimEdge { source: s, target: t });
                }
            },
            _ => {},
        }
        i = i + 1;
    }
    proof {
        assert(links@.take(links@.len() as int) =~= links@);
    }
    edges
}

/// The nodes highlighted around a focused node: the node itself and every
/// node an edge joins to it, in either direction.
pub open spec fn neighbourhood(edges: Seq<SimEdge>, focused: Option<usize>) -> Set<usize> {
    match focused {
        None => Set::empty(),
        Some(f) => Set::new(
            |n: usize|
                n == f || exists|k: int|
                    0 <= k < edges.len() && ((edges[k].source == f && edges[k].target == n) || (
                    edges[k].target == f && edges[k].source == n)),
        ),
    }
}

/// Collects the focused node and its direct neighbours.
pub fn connected_indices(edges: &Vec<SimEdge>, focused: Option<usize>) -> (connected: HashSet<usize>)
    ensures
        connected@ == neighbourhood(edges@, focused),
{
    let mut connected: HashSet<usize> = HashSet::new();
    match focused {
        None => {
            assert(connected@ =~= neighbourhood(edges@, focused));
        },
        Some(f) => {
            connected.insert(f);
            let mut k: usize = 0;
            while k < edges.len()
                invariant
                    0 <= k <= edges.len(),
                    connected@ == Set::new(
                        |n: usize|
                            n == f || exists|j: int|
                                0 <= j < k && ((edges@[j].source == f && edges@[j].target == n) || (
                                edges@[j].target == f && edges@[j].source == n)),
                    ),
                decreases edges.len() - k,
            {
                let e = edges[k];
                let ghost before = connected@;
                if e.source == f {
                    connected.insert(e.target);
                } else if e.target == f {
                    connected.insert(e.source);
                }
                assert(connected@ =~= Set::new(
                    |n: usize|
                        n == f || exists|j: int|
                            0 <= j < k + 1 && ((edges@[j].source == f && edges@[j].target == n) || (
                            edges@[j].target == f && edges@[j].source == n)),
                )) by {
                    assert forall|n: usize| #![auto]
                        (n == f || exists|j: int|
                            0 <= j < k + 1 && ((edges@[j].source == f && edges@[j].target == n) || (
                            edges@[j].target == f && edges@[j].source == n))) implies connected@.contains(n) by {
                        if n != f && !before.contains(n) {
                            let j = choose|j: int|
                                0 <= j < k + 1 && ((edges@[j].source == f && edges@[j].target == n) || (
                                edges@[j].target == f && edges@[j].source == n));
                            assert(j == k);
                        }
                    }
                }
                k = k + 1;
            }
            assert(connected@ =~= neighbourhood(edges@, focused));
        },
    }
    connected
}


/// The palette of community colours, cycled through by community id.
pub open spec fn community_color_spec(slot: int) -> Seq<char> {
    if slot == 0 {
        "#5C6FE6"@
    } else if slot == 1 {
        "#7081F0"@
    } else if slot == 2 {
        "#8492F6"@
    } else if slot == 3 {
        "#4F61C9"@
    } else if slot == 4 {
        "#3F4D9E"@
    } else if slot == 5 {
        "#6B7DF2"@
    } else if slot == 6 {
        "#7E8DF4"@
    } else if slot == 7 {
        "#4555B8"@
    } else if slot == 8 {
        "#364391"@
    } else if slot == 9 {
        "#5466DB"@
    } else if slot == 10 {
        "#6475E8"@
    } else {
        "#4A5CC5"@
    }
}

/// The colour of a node's community, cycling through twelve colours.
pub fn community_color(community_id: usize) -> (color: &'static str)
    ensures
        color@ == community_color_spec((community_id % 12) as int),
{
    match community_id % 12 {
        0 => "#5C6FE6",
        1 => "#7081F0",
        2 => "#8492F6",
        3 => "#4F61C9",
        4 => "#3F4D9E",
        5 => "#6B7DF2",
        6 => "#7E8DF4",
        7 => "#4555B8",
        8 => "#364391",
        9 => "#5466DB",
        10 => "#6475E8",
        _ => "#4A5CC5",
    }
}

/// Lexicographic order of texts by code point, the order in which `str`'s
/// `Ord` puts them (UTF-8 byte order keeps the order of code points).
pub open spec fn text_le(a: Seq<char>, b: Seq<char>) -> bool
    decreases a.len(),
{
    if a.len() == 0 {
        true
    } else if b.len() == 0 {
        false
    } else if a[0] != b[0] {
        a[0] < b[0]
    } else {
        text_le(a.drop_first(), b.drop_first())
    }
}

/// Every text is in order with itself.
pub proof fn lemma_text_le_reflexive(a: Seq<char>)
    ensures
        text_le(a, a),
    decreases a.len(),
{
    if a.len() > 0 {
        lemma_text_le_reflexive(a.drop_first());
    }
}

/// Any two texts are in order one way or the other, and both ways only
/// when they are equal.
pub proof fn lemma_text_le_total(a: Seq<char>, b: Seq<char>)
    ensures
        text_le(a, b) || text_le(b, a),
        text_le(a, b) && text_le(b, a) ==> a == b,
    decreases a.len(),
{
    if a.len() > 0 && b.len() > 0 && a[0] == b[0] {
        lemma_text_le_total(a.drop_first(), b.drop_first());
        if a.drop_first() == b.drop_first() {
            assert(a =~= seq![a[0]] + a.drop_first());
            assert(b =~= seq![b[0]] + b.drop_first());
        }
    }
    if a.len() == 0 && b.len() == 0 {
        assert(a =~= b);
    }
}

/// The order of texts is transitive.
pub proof fn lemma_text_le_transitive(a: Seq<char>, b: Seq<char>, c: Seq<char>)
    requires
        text_le(a, b),
        text_le(b, c),
    ensures
        text_le(a, c),
    decreases a.len(),
{
    if a.len() > 0 && b.len() > 0 && c.len() > 0 && a[0] == b[0] && b[0] == c[0] {
        lemma_text_le_transitive(a.drop_first(), b.drop_first(), c.drop_first());
    }
}

/// Whether `a` comes no later than `b` in the order of texts.
pub fn texts_in_order(a: &str, b: &str) -> (in_order: bool)
    ensures
        in_order == text_le(a@, b@),
{
    let x = chars_of(a);
    let y = chars_of(b);
    let mut i: usize = 0;
    assert(a@.skip(0) =~= a@ && b@.skip(0) =~= b@);
    while i < x.len() && i < y.len()
        invariant
            x@ == a@,
            y@ == b@,
            0 <= i <= x.len(),
            i <= y.len(),
            text_le(a@, b@) == text_le(a@.skip(i as int), b@.skip(i as int)),
        decreases x.len() - i,
    {
        let c = x[i];
        let d = y[i];
        assert(a@.skip(i as int)[0] == c && b@.skip(i as int)[0] == d);
        if c != d {
            return c < d;
        }
        assert(a@.skip(i as int).drop_first() =~= a@.skip(i + 1));
        assert(b@.skip(i as int).drop_first() =~= b@.skip(i + 1));
        i = i + 1;
    }
    i == x.len()
}

/// `order` lists the indices of `ids` so that their texts are in order,
/// and indices of equal texts in increasing order.
pub open spec fn is_sorted_order(ids: Seq<Seq<char>>, order: Seq<usize>) -> bool {
    &&& forall|a: int, b: int|
        0 <= a < b < order.len() ==> text_le(ids[#[trigger] order[a] as int], ids[#[trigger] order[b] as int])
    &&& forall|a: int, b: int|
        0 <= a < b < order.len() && ids[#[trigger] order[a] as int] == ids[#[trigger] order[b] as int]
            ==> order[a] < order[b]
}

/// `order` holds each index below `n` exactly once.
pub open spec fn is_permutation_of_indices(order: Seq<usize>, n: int) -> bool {
    &&& order.len() == n
    &&& forall|k: int| 0 <= k < order.len() ==> #[trigger] order[k] < n
    &&& order.no_duplicates()
}

/// The positions of the nodes when they are sorted by id, as a stable sort
/// by `String`'s order puts them: entry `k` is the index of the node that
/// comes `k`-th.
pub fn sorted_order(node_ids: &Vec<String>) -> (order: Vec<usize>)
    ensures
        is_permutation_of_indices(order@, node_ids@.len() as int),
        is_sorted_order(id_views(node_ids@), order@),
{
    let ghost ids = id_views(node_ids@);
    let mut order: Vec<usize> = Vec::new();
    let mut i: usize = 0;
    while i < node_ids.len()
        invariant
            0 <= i <= node_ids.len(),
            ids == id_views(node_ids@),
            is_permutation_of_indices(order@, i as int),
            is_sorted_order(ids, order@),
        decreases node_ids.len() - i,
    {
        let ghost new = ids[i as int];
        let mut p: usize = order.len();
        while p > 0 && !texts_in_order(node_ids[order[p - 1]].as_str(), node_ids[i].as_str())
            invariant
                0 <= p <= order.len(),
                order.len() == i,
                i < node_ids.len(),
                ids == id_views(node_ids@),
                new == ids[i as int],
                is_permutation_of_indices(order@, i as int),
                forall|k: int| p <= k < order.len() ==> !text_le(#[trigger] ids[order@[k] as int], new),
            decreases p,
        {
            p = p - 1;
        }
        proof {
            assert forall|k: int| 0 <= k < p implies text_le(#[trigger] ids[order@[k] as int], new) by {
                let last = ids[order@[p - 1] as int];
                if k < p - 1 {
                    lemma_text_le_transitive(ids[order@[k] as int], last, new);
                }
            }
        }
        let ghost before = order@;
        order.insert(p, i);
        proof {
            assert forall|k: int| 0 <= k < order@.len() implies #[trigger] order@[k] < i + 1 by {
                if k < p {
                    assert(order@[k] == before[k]);
                } else if k > p {
                    assert(order@[k] == before[k - 1]);
                }
            }
            assert forall|a: int, b: int| 0 <= a < b < order@.len() implies order@[a] != order@[b] by {
                if a != p && b != p {
                    let a0 = if a < p { a } else { a - 1 };
                    let b0 = if b < p { b } else { b - 1 };
                    assert(order@[a] == before[a0] && order@[b] == before[b0]);
                } else if a == p {
                    let b0 = b - 1;
                    assert(order@[b] == before[b0]);
                } else {
                    assert(order@[a] == before[a]);
                }
            }
            assert forall|a: int, b: int| 0 <= a < b < order@.len() implies text_le(
                ids[#[trigger] order@[a] as int],
                ids[#[trigger] order@[b] as int],
            ) && (ids[order@[a] as int] == ids[order@[b] as int] ==> order@[a] < order@[b]) by {
                let a0 = if a < p { a } else { a - 1 };
                let b0 = if b < p { b } else { b - 1 };
                if a != p && b != p {
                    assert(order@[a] == before[a0] && order@[b] == before[b0]);
                } else if a == p {
                    assert(order@[a] == i);
                    assert(order@[b] == before[b0]);
                    lemma_text_le_total(ids[before[b0] as int], new);
                    lemma_text_le_reflexive(new);
                } else {
                    assert(order@[b] == i);
                    assert(order@[a] == before[a]);
                }
            }
        }
        i = i + 1;
    }
    order
}

/// A found index points into the list of ids.
pub proof fn lemma_last_index_in_bounds(ids: Seq<Seq<char>>, id: Seq<char>)
    ensures
        last_index_of(ids, id) matches Some(i) ==> 0 <= i < ids.len() && ids[i] == id,
    decreases ids.len(),
{
    if ids.len() > 0 && ids.last() != id {
        lemma_last_index_in_bounds(ids.drop_last(), id);
    }
}

/// The simulation edges join existing nodes, contain no loop, and join no
/// pair of nodes twice (in either direction).
pub proof fn lemma_sim_edges_well_formed(ids: Seq<Seq<char>>, links: Seq<GraphLink>)
    requires
        ids.len() <= usize::MAX,
    ensures
        forall|k: int|
            0 <= k < sim_edges(ids, links).len() ==> {
                let e = #[trigger] sim_edges(ids, links)[k];
                &&& e.source != e.target
                &&& e.source < ids.len()
                &&& e.target < ids.len()
            },
        forall|k: int, l: int|
            0 <= k < l < sim_edges(ids, links).len() ==> !({
                let a = #[trigger] sim_edges(ids, links)[k];
                let b = #[trigger] sim_edges(ids, links)[l];
                (a.source == b.source && a.target == b.target) || (a.source == b.target && a.target == b.source)
            }),
    decreases links.len(),
{
    if links.len() > 0 {
        let prev = sim_edges(ids, links.drop_last());
        lemma_sim_edges_well_formed(ids, links.drop_last());
        let link = links.last();
        lemma_last_index_in_bounds(ids, link.source@);
        lemma_last_index_in_bounds(ids, link.target@);
        let cur = sim_edges(ids, links);
        match (last_index_of(ids, link.source@), last_index_of(ids, link.target@)) {
            (Some(s), Some(t)) => {
                if s != t && !joins(prev, s, t) {
                    let e = SimEdge { source: s as usize, target: t as usize };
                    assert(e.source == s && e.target == t);
                    assert(cur == prev.push(e));
                    assert forall|k: int, l: int| 0 <= k < l < cur.len() implies !({
                        let a = #[trigger] cur[k];
                        let b = #[trigger] cur[l];
                        (a.source == b.source && a.target == b.target) || (a.source == b.target && a.target
                            == b.source)
                    }) by {
                        if l == cur.len() - 1 {
                            let a = cur[k];
                            assert(prev[k] == a);
                            assert(cur[l] == e);
                            if (a.source == s && a.target == t) || (a.source == t && a.target == s) {
                                assert(0 <= k < prev.len() && ((prev[k].source == s && prev[k].target == t) || (
                                prev[k].source == t && prev[k].target == s)));
                                assert(joins(prev, s, t));
                            }
                        } else {
                            assert(cur[k] == prev[k] && cur[l] == prev[l]);
                        }
                    }
                    assert forall|k: int| 0 <= k < cur.len() implies {
                        let e = #[trigger] cur[k];
                        &&& e.source != e.target
                        &&& e.source < ids.len()
                        &&& e.target < ids.len()
                    } by {
                        if k < prev.len() {
                            assert(cur[k] == prev[k]);
                        }
                    }
                }
            },
            _ => {},
        }
    }
}

/// Neighbourhoods are symmetric: `n` is highlighted around `f` exactly
/// when `f` is highlighted around `n`; and the focused node is always in
/// its own neighbourhood.
pub proof fn lemma_neighbourhood_symmetric(edges: Seq<SimEdge>, f: usize, n: usize)
    ensures
        neighbourhood(edges, Some(f)).contains(f),
        neighbourhood(edges, Some(f)).contains(n) <==> neighbourhood(edges, Some(n)).contains(f),
{
    if neighbourhood(edges, Some(f)).contains(n) && n != f {
        let k = choose|k: int|
            0 <= k < edges.len() && ((edges[k].source == f && edges[k].target == n) || (edges[k].target == f
                && edges[k].source == n));
        assert(0 <= k < edges.len() && ((edges[k].source == n && edges[k].target == f) || (edges[k].target
            == n && edges[k].source == f)));
    }
    if neighbourhood(edges, Some(n)).contains(f) && n != f {
        let k = choose|k: int|
            0 <= k < edges.len() && ((edges[k].source == n && edges[k].target == f) || (edges[k].target == n
                && edges[k].source == f));
        assert(0 <= k < edges.len() && ((edges[k].source == f && edges[k].target == n) || (edges[k].target
            == f && edges[k].source == n)));
    }
}

/// No link is lost: every link whose two ends are known, different nodes
/// is drawn by some simulation edge between those nodes (in one direction
/// or the other).
pub proof fn lemma_sim_edges_cover_links(ids: Seq<Seq<char>>, links: Seq<GraphLink>, k: int)
    requires
        ids.len() <= usize::MAX,
        0 <= k < links.len(),
        last_index_of(ids, links[k].source@) is Some,
        last_index_of(ids, links[k].target@) is Some,
        last_index_of(ids, links[k].source@) != last_index_of(ids, links[k].target@),
    ensures
        joins(
            sim_edges(ids, links),
            last_index_of(ids, links[k].source@)->0,
            last_index_of(ids, links[k].target@)->0,
        ),
    decreases links.len(),
{
    let prev = sim_edges(ids, links.drop_last());
    let cur = sim_edges(ids, links);
    let s = last_index_of(ids, links[k].source@)->0;
    let t = last_index_of(ids, links[k].target@)->0;
    lemma_last_index_in_bounds(ids, links[k].source@);
    lemma_last_index_in_bounds(ids, links[k].target@);
    if k < links.len() - 1 {
        assert(links.drop_last()[k] == links[k]);
        lemma_sim_edges_cover_links(ids, links.drop_last(), k);
        let j = choose|j: int|
            0 <= j < prev.len() && ((prev[j].source == s && prev[j].target == t) || (prev[j].source == t
                && prev[j].target == s));
        assert(cur[j] == prev[j]);
    } else {
        if !joins(prev, s, t) {
            assert(links.last() == links[k]);
            assert(cur == prev.push(SimEdge { source: s as usize, target: t as usize }));
            assert(cur[prev.len() as int].source == s && cur[prev.len() as int].target == t);
        } else {
            let j = choose|j: int|
                0 <= j < prev.len() && ((prev[j].source == s && prev[j].target == t) || (prev[j].source == t
                    && prev[j].target == s));
            assert(cur[j] == prev[j]);
        }
    }
}

} // verus!
