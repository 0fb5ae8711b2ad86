//! Source projects' code graphs in the inspector: the symbol shown, its
//! badge and relations (whom it calls, who calls it, what it implements),
//! and the project overview's symbol counts.
use vstd::prelude::*;
use crate::properties::text_views;

verus! {

/// The kinds of edge the inspector tells apart; every other kind of edge
/// of a project graph is `Other`.
#[derive(Debug, Clone, Copy, PartialEq, Eq, Structural)]
pub enum EdgeKind {
    Calls,
    Implements,
    Other,
}

/// An edge of a project graph between two symbols, by their ids.
#[derive(Debug, Clone)]
pub struct SymbolEdge {
    pub source: String,
    pub target: String,
    pub kind: EdgeKind,
}

/// The targets of the call edges that leave `id`, in edge order.
pub open spec fn calls_from(edges: Seq<SymbolEdge>, id: Seq<char>) -> Seq<Seq<char>>
    decreases edges.len(),
{
    if edges.len() == 0 {
        seq![]
    } else {
        let e = edges.last();
        let rest = calls_from(edges.drop_last(), id);
        if e.source@ == id && e.kind == EdgeKind::Calls {
            rest.push(e.target@)
        } else {
            rest
        }
    }
}

/// The sources of the call edges that reach `id`, in edge order.
pub open spec fn calls_to(edges: Seq<SymbolEdge>, id: Seq<char>) -> Seq<Seq<char>>
    decreases edges.len(),
{
    if edges.len() == 0 {
        seq![]
    } else {
        let e = edges.last();
        let rest = calls_to(edges.drop_last(), id);
        if e.target@ == id && e.kind == EdgeKind::Calls {
            rest.push(e.source@)
        } else {
            rest
        }
    }
}

/// The other end of each implementation edge that touches `id`, in edge
/// order.
pub open spec fn implementations(edges: Seq<SymbolEdge>, id: Seq<char>) -> Seq<Seq<char>>
    decreases edges.len(),
{
    if edges.len() == 0 {
        seq![]
    } else {
        let e = edges.last();
        let rest = implementations(edges.drop_last(), id);
        if (e.source@ == id || e.target@ == id) && e.kind == EdgeKind::Implements {
            rest.push(if e.source@ == id { e.target@ } else { e.source@ })
        } else {
            rest
        }
    }
}

/// What the symbol inspector lists for a symbol.
#[derive(Debug, Clone)]
pub struct SymbolRelations {
    pub outgoing_calls: Vec<String>,
    pub incoming_calls: Vec<String>,
    pub implements: Vec<String>,
}

/// The calls out of, the calls into and the implementation edges of the
/// symbol `node_id`.
pub fn symbol_relations(edges: &Vec<SymbolEdge>, node_id: &String) -> (relations: SymbolRelations)
    ensures
        text_views(relations.outgoing_calls@) == calls_from(edges@, node_id@),
        text_views(relations.incoming_calls@) == calls_to(edges@, node_id@),
        text_views(relations.implements@) == implementations(edges@, node_id@),
{
    let mut outgoing_calls: Vec<String> = Vec::new();
    let mut incoming_calls: Vec<String> = Vec::new();
    let mut implements: Vec<String> = Vec::new();
    let mut i: usize = 0;
    while i < edges.len()
        invariant
            0 <= i <= edges.len(),
            text_views(outgoing_calls@) == calls_from(edges@.take(i as int), node_id@),
            text_views(incoming_calls@) == calls_to(edges@.take(i as int), node_id@),
            text_views(implements@) == implementations(edges@.take(i as int), node_id@),
        decreases edges.len() - i,
    {
        let e = &edges[i];
        let ghost prefix = edges@.take(i + 1);
        proof {
            assert(prefix.drop_last() =~= edges@.take(i as int));
            assert(prefix.last() == edges@[i as int]);
        }
        let from_node = e.source == *node_id;
        let to_node = e.target == *node_id;
        if from_node && e.kind == EdgeKind::Calls {
            let ghost before = outgoing_calls@;
            outgoing_calls.push(e.target.clone());
            assert(text_views(outgoing_calls@) =~= text_views(before).push(e.target@));
        }
        if to_node && e.kind == EdgeKind::Calls {
            let ghost before = incoming_calls@;
            incoming_calls.push(e.source.clone());
            assert(text_views(incoming_calls@) =~= text_views(before).push(e.source@));
        }
        if (from_node || to_node) && e.kind == EdgeKind::Implements {
            let other = if from_node { e.target.clone() } else { e.source.clone() };
            let ghost before = implements@;
            implements.push(other);
            assert(text_views(implements@) =~= text_views(before).push(other@));
        }
        i = i + 1;
    }
    proof {
        assert(edges@.take(edges@.len() as int) =~= edges@);
    }
    SymbolRelations { outgoing_calls, incoming_calls, implements }
}

/// The kinds of symbol in a project graph.
#[derive(Debug, Clone, Copy, PartialEq, Eq, Structural)]
pub enum SymbolKind {
    Function,
    Method,
    Struct,
    Enum,
    EnumVariant,
    Trait,
    Implementation,
    Module,
    Constant,
    Static,
    Macro,
    TypeAlias,
    Field,
    File,
    Other,
}

/// The badge of a symbol kind: its label, background and text colour.
pub open spec fn kind_badge_spec(kind: SymbolKind) -> (Seq<char>, Seq<char>, Seq<char>) {
    match kind {
        SymbolKind::Function => ("FN"@, "rgba(59, 130, 246, 0.15)"@, "#60a5fa"@),
        SymbolKind::Method => ("METHOD"@, "rgba(59, 130, 246, 0.15)"@, "#60a5fa"@),
        SymbolKind::Struct => ("STRUCT"@, "rgba(168, 85, 247, 0.15)"@, "#c084fc"@),
        SymbolKind::Enum => ("ENUM"@, "rgba(249, 115, 22, 0.15)"@, "#fb923c"@),
        SymbolKind::EnumVariant => ("VARIANT"@, "rgba(249, 115, 22, 0.15)"@, "#fb923c"@),
        SymbolKind::Trait => ("TRAIT"@, "rgba(16, 185, 129, 0.15)"@, "#34d399"@),
        SymbolKind::Implementation => ("IMPL"@, "rgba(20, 184, 166, 0.15)"@, "#2dd4bf"@),
        SymbolKind::Module => ("MOD"@, "rgba(245, 158, 11, 0.15)"@, "#fbbf24"@),
        SymbolKind::Constant => ("CONST"@, "rgba(239, 68, 68, 0.15)"@, "#f87171"@),
        SymbolKind::Static => ("STATIC"@, "rgba(239, 68, 68, 0.15)"@, "#f87171"@),
        SymbolKind::Macro => ("MACRO"@, "rgba(236, 72, 153, 0.15)"@, "#f472b6"@),
        SymbolKind::TypeAlias => ("TYPE"@, "rgba(139, 92, 246, 0.15)"@, "#a78bfa"@),
        SymbolKind::Field => ("FIELD"@, "rgba(100, 116, 139, 0.15)"@, "#94a3b8"@),
        SymbolKind::File => ("FILE"@, "rgba(107, 114, 128, 0.15)"@, "#9ca3af"@),
        SymbolKind::Other => ("OTHER"@, "rgba(107, 114, 128, 0.15)"@, "#9ca3af"@),
    }
}

/// The badge the symbol inspector shows for a kind of symbol.
pub fn kind_badge(kind: SymbolKind) -> (badge: (&'static str, &'static str, &'static str))
    ensures
        (badge.0@, badge.1@, badge.2@) == kind_badge_spec(kind),
{
    match kind {
        SymbolKind::Function => ("FN", "rgba(59, 130, 246, 0.15)", "#60a5fa"),
        SymbolKind::Method => ("METHOD", "rgba(59, 130, 246, 0.15)", "#60a5fa"),
        SymbolKind::Struct => ("STRUCT", "rgba(168, 85, 247, 0.15)", "#c084fc"),
        SymbolKind::Enum => ("ENUM", "rgba(249, 115, 22, 0.15)", "#fb923c"),
        SymbolKind::EnumVariant => ("VARIANT", "rgba(249, 115, 22, 0.15)", "#fb923c"),
        SymbolKind::Trait => ("TRAIT", "rgba(16, 185, 129, 0.15)", "#34d399"),
        SymbolKind::Implementation => ("IMPL", "rgba(20, 184, 166, 0.15)", "#2dd4bf"),
        SymbolKind::Module => ("MOD", "rgba(245, 158, 11, 0.15)", "#fbbf24"),
        SymbolKind::Constant => ("CONST", "rgba(239, 68, 68, 0.15)", "#f87171"),
        SymbolKind::Static => ("STATIC", "rgba(239, 68, 68, 0.15)", "#f87171"),
        SymbolKind::Macro => ("MACRO", "rgba(236, 72, 153, 0.15)", "#f472b6"),
        SymbolKind::TypeAlias => ("TYPE", "rgba(139, 92, 246, 0.15)", "#a78bfa"),
        SymbolKind::Field => ("FIELD", "rgba(100, 116, 139, 0.15)", "#94a3b8"),
        SymbolKind::File => ("FILE", "rgba(107, 114, 128, 0.15)", "#9ca3af"),
        SymbolKind::Other => ("OTHER", "rgba(107, 114, 128, 0.15)", "#9ca3af"),
    }
}

/// How many of the kinds satisfy `pred`.
pub open spec fn count_kinds(kinds: Seq<SymbolKind>, pred: spec_fn(SymbolKind) -> bool) -> nat
    decreases kinds.len(),
{
    if kinds.len() == 0 {
        0
    } else {
        count_kinds(kinds.drop_last(), pred) + if pred(kinds.last()) { 1nat } else { 0nat }
    }
}

/// Functions and methods.
pub open spec fn is_function_like(k: SymbolKind) -> bool {
    k is Function || k is Method
}

/// Enums and their variants.
pub open spec fn is_enum_like(k: SymbolKind) -> bool {
    k is Enum || k is EnumVariant
}

/// The symbol counts of a project's overview.
#[derive(Debug, Clone, Copy, PartialEq, Eq, Structural)]
pub struct KindCounts {
    pub functions: usize,
    pub structs: usize,
    pub enums: usize,
    pub traits: usize,
    pub modules: usize,
}

/// Counts a project's symbols for its overview: functions (with methods),
/// structs, enums (with their variants), traits and modules.
pub fn kind_counts(kinds: &Vec<SymbolKind>) -> (counts: KindCounts)
    ensures
        counts.functions == count_kinds(kinds@, |k: SymbolKind| is_function_like(k)),
        counts.structs == count_kinds(kinds@, |k: SymbolKind| k is Struct),
        counts.enums == count_kinds(kinds@, |k: SymbolKind| is_enum_like(k)),
        counts.traits == count_kinds(kinds@, |k: SymbolKind| k is Trait),
        counts.modules == count_kinds(kinds@, |k: SymbolKind| k is Module),
{
    let mut counts = KindCounts { functions: 0, structs: 0, enums: 0, traits: 0, modules: 0 };
    let mut i: usize = 0;
    while i < kinds.len()
        invariant
            0 <= i <= kinds.len(),
            counts.functions == count_kinds(kinds@.take(i as int), |k: SymbolKind| is_function_like(k)),
            counts.structs == count_kinds(kinds@.take(i as int), |k: SymbolKind| k is Struct),
            counts.enums == count_kinds(kinds@.take(i as int), |k: SymbolKind| is_enum_like(k)),
            counts.traits == count_kinds(kinds@.take(i as int), |k: SymbolKind| k is Trait),
            counts.modules == count_kinds(kinds@.take(i as int), |k: SymbolKind| k is Module),
            counts.functions <= i && counts.structs <= i && counts.enums <= i && counts.traits <= i
                && counts.modules <= i,
        decreases kinds.len() - i,
    {
        proof {
            assert(kinds@.take(i + 1).drop_last() =~= kinds@.take(i as int));
            assert(kinds@.take(i + 1).last() == kinds@[i as int]);
        }
        match kinds[i] {
            SymbolKind::Function | SymbolKind::Method => counts.functions = counts.functions + 1,
            SymbolKind::Struct => counts.structs = counts.structs + 1,
            SymbolKind::Enum | SymbolKind::EnumVariant => counts.enums = counts.enums + 1,
            SymbolKind::Trait => counts.traits = counts.traits + 1,
            SymbolKind::Module => counts.modules = counts.modules + 1,
            _ => {},
        }
        i = i + 1;
    }
    proof {
        assert(kinds@.take(kinds@.len() as int) =~= kinds@);
    }
    counts
}

/// The first index whose id is `id`.
pub open spec fn first_index_of(ids: Seq<String>, id: Seq<char>) -> Option<int>
    decreases ids.len(),
{
    if ids.len() == 0 {
        None
    } else if ids[0]@ == id {
        Some(0)
    } else {
        match first_index_of(ids.drop_first(), id) {
            Some(k) => Some(k + 1),
            None => None,
        }
    }
}

/// The first index of a node whose id is `id`.
fn first_symbol_index(node_ids: &Vec<String>, id: &String) -> (index: Option<usize>)
    ensures
        match first_index_of(node_ids@, id@) {
            Some(k) => index == Some(k as usize),
            None => index is None,
        },
{
    let mut i: usize = 0;
    assert(node_ids@.skip(0) =~= node_ids@);
    while i < node_ids.len()
        invariant
            0 <= i <= node_ids.len(),
            first_index_of(node_ids@, id@) == match first_index_of(node_ids@.skip(i as int), id@) {
                Some(k) => Some(k + i),
                None => None::<int>,
            },
        decreases node_ids.len() - i,
    {
        proof {
            assert(node_ids@.skip(i as int).drop_first() =~= node_ids@.skip(i + 1));
            assert(node_ids@.skip(i as int)[0] == node_ids@[i as int]);
        }
        if node_ids[i] == *id {
            assert(first_index_of(node_ids@.skip(i as int), id@) == Some(0int));
            return Some(i);
        }
        i = i + 1;
    }
    None
}

/// The symbol the inspector shows: the first node whose id is the selected
/// id, if any (with no selection, the project overview is shown).
pub fn selected_symbol(node_ids: &Vec<String>, selected: &Option<String>) -> (index: Option<usize>)
    ensures
        selected is None ==> index is None,
        selected matches Some(id) ==> match first_index_of(node_ids@, id@) {
            Some(k) => index == Some(k as usize),
            None => index is None,
        },
{
    match selected {
        None => None,
        Some(id) => first_symbol_index(node_ids, id),
    }
}

/// The call edges that leave `id`.
pub open spec fn is_call_from(id: Seq<char>) -> spec_fn(SymbolEdge) -> bool {
    |e: SymbolEdge| e.source@ == id && e.kind == EdgeKind::Calls
}

/// The call edges that reach `id`.
pub open spec fn is_call_into(id: Seq<char>) -> spec_fn(SymbolEdge) -> bool {
    |e: SymbolEdge| e.target@ == id && e.kind == EdgeKind::Calls
}

/// Outgoing calls list the target of every call edge leaving the symbol,
/// one entry per edge, in edge order; incoming calls list the source of
/// every call edge reaching it, likewise.
pub proof fn lemma_calls_are_every_call_edge(edges: Seq<SymbolEdge>, id: Seq<char>)
    ensures
        calls_from(edges, id) == edges.filter(is_call_from(id)).map_values(|e: SymbolEdge| e.target@),
        calls_to(edges, id) == edges.filter(is_call_into(id)).map_values(|e: SymbolEdge| e.source@),
        calls_from(edges, id).len() == edges.filter(is_call_from(id)).len(),
        calls_to(edges, id).len() == edges.filter(is_call_into(id)).len(),
    decreases edges.len(),
{
    reveal(Seq::filter);
    if edges.len() == 0 {
        assert(edges.filter(is_call_from(id)).map_values(|e: SymbolEdge| e.target@) =~= Seq::empty());
        assert(edges.filter(is_call_into(id)).map_values(|e: SymbolEdge| e.source@) =~= Seq::empty());
    } else {
        lemma_calls_are_every_call_edge(edges.drop_last(), id);
        let e = edges.last();
        let out_before = edges.drop_last().filter(is_call_from(id));
        let in_before = edges.drop_last().filter(is_call_into(id));
        if is_call_from(id)(e) {
            assert(out_before.push(e).map_values(|e: SymbolEdge| e.target@) =~= out_before.map_values(
                |e: SymbolEdge| e.target@,
            ).push(e.target@));
        }
        if is_call_into(id)(e) {
            assert(in_before.push(e).map_values(|e: SymbolEdge| e.source@) =~= in_before.map_values(
                |e: SymbolEdge| e.source@,
            ).push(e.source@));
        }
    }
}

/// The other end of an implementation edge touching `id`, if it is one.
pub open spec fn implementation_partner(id: Seq<char>) -> spec_fn(SymbolEdge) -> Option<Seq<char>> {
    |e: SymbolEdge|
        if e.kind == EdgeKind::Implements && e.source@ == id {
            Some(e.target@)
        } else if e.kind == EdgeKind::Implements && e.target@ == id {
            Some(e.source@)
        } else {
            None
        }
}

/// The implementations list holds, for every implementation edge touching
/// the symbol and in edge order, the edge's other end.
pub proof fn lemma_implementations_are_every_implements_edge(edges: Seq<SymbolEdge>, id: Seq<char>)
    ensures
        implementations(edges, id) == edges.filter_map(implementation_partner(id)),
    decreases edges.len(),
{
    if edges.len() > 0 {
        lemma_implementations_are_every_implements_edge(edges.drop_last(), id);
        let e = edges.last();
        let before = edges.drop_last().filter_map(implementation_partner(id));
        match implementation_partner(id)(e) {
            Some(x) => {
                assert(before + seq![x] =~= before.push(x));
            },
            None => {},
        }
    }
}

} // verus!
