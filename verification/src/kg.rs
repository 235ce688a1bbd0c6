//! Minimal ego knowledge graph seeded from card relationships.
//!
//! Nodes and edges only — no community summaries.

use vstd::prelude::*;

use crate::card::{RelationshipNode, TavernCardV2};
use crate::text::{chars_of, is_blank, is_blank_str, is_ws, owned, push_str, string_of, trim, trim_str};

verus! {

/// A graph node (character ego + relation targets + optional concept tags).
#[derive(Debug, Clone, PartialEq, Eq)]
pub struct KgNode {
    /// Stable id (`char:{name}` or `concept:{name}`).
    pub id: String,
    /// Display label.
    pub label: String,
    /// `protagonist` | `character` | `concept` (`"type"` on the wire).
    pub node_type: String,
}

/// A directed edge between nodes.
#[derive(Debug, Clone, PartialEq, Eq)]
pub struct KgEdge {
    pub from: String,
    pub to: String,
    /// Relation label (ally / rival / …).
    pub relation: String,
    /// Optional free-text detail (`defines_protagonist_how`).
    pub detail: String,
}

/// Ego graph for one character card.
#[derive(Debug, Clone, PartialEq, Eq, Default)]
pub struct KnowledgeGraph {
    /// Protagonist character name at seed time.
    pub character_name: String,
    pub nodes: Vec<KgNode>,
    pub edges: Vec<KgEdge>,
}

/// A node by its field views: (id, label, type).
pub type NodeView = (Seq<char>, Seq<char>, Seq<char>);

/// An edge by its field views: (from, to, relation, detail).
pub type EdgeView = (Seq<char>, Seq<char>, Seq<char>, Seq<char>);

pub open spec fn node_view(n: KgNode) -> NodeView {
    (n.id@, n.label@, n.node_type@)
}

pub open spec fn edge_view(e: KgEdge) -> EdgeView {
    (e.from@, e.to@, e.relation@, e.detail@)
}

pub open spec fn nodes_view(s: Seq<KgNode>) -> Seq<NodeView> {
    s.map_values(|n: KgNode| node_view(n))
}

pub open spec fn edges_view(s: Seq<KgEdge>) -> Seq<EdgeView> {
    s.map_values(|e: KgEdge| edge_view(e))
}

// ---------------------------------------------------------------------------
// Reciprocal-edge merging
// ---------------------------------------------------------------------------

/// `b` runs opposite to `a` (`a: X→Y`, `b: Y→X`).
pub open spec fn reciprocal(a: KgEdge, b: KgEdge) -> bool {
    a.from@ == b.to@ && a.to@ == b.from@
}

/// Index of the first edge of `keep` that is reciprocal to `e`.
pub open spec fn first_reciprocal(keep: Seq<KgEdge>, e: KgEdge) -> Option<int>
    decreases keep.len(),
{
    if keep.len() == 0 {
        None
    } else {
        match first_reciprocal(keep.drop_last(), e) {
            Some(i) => Some(i),
            None => if reciprocal(keep.last(), e) {
                Some(keep.len() - 1)
            } else {
                None
            },
        }
    }
}

/// `kept` absorbing `e`: keeps its own detail unless that is empty and `e`'s
/// is not.
pub open spec fn absorb(kept: KgEdge, e: KgEdge) -> KgEdge {
    if kept.detail@.len() == 0 && e.detail@.len() > 0 {
        KgEdge { detail: e.detail, ..kept }
    } else {
        kept
    }
}

/// Reciprocal merging of `rest` into `keep`, edge by edge: an edge whose
/// reciprocal is already kept is absorbed into the first such edge;
/// any other edge is kept.
pub open spec fn dedupe(keep: Seq<KgEdge>, rest: Seq<KgEdge>) -> Seq<KgEdge>
    decreases rest.len(),
{
    if rest.len() == 0 {
        keep
    } else {
        let e = rest[0];
        match first_reciprocal(keep, e) {
            Some(i) => dedupe(keep.update(i, absorb(keep[i], e)), rest.drop_first()),
            None => dedupe(keep.push(e), rest.drop_first()),
        }
    }
}

/// No edge of `s` is reciprocal to an earlier one.
pub open spec fn no_reciprocal_pairs(s: Seq<KgEdge>) -> bool {
    forall|i: int, j: int| 0 <= i < j < s.len() ==> !reciprocal(#[trigger] s[i], #[trigger] s[j])
}

proof fn lemma_first_reciprocal(keep: Seq<KgEdge>, e: KgEdge)
    ensures
        match first_reciprocal(keep, e) {
            Some(i) => 0 <= i < keep.len() && reciprocal(keep[i], e) && forall|j: int|
                0 <= j < i ==> !reciprocal(#[trigger] keep[j], e),
            None => forall|j: int| 0 <= j < keep.len() ==> !reciprocal(#[trigger] keep[j], e),
        },
    decreases keep.len(),
{
    if keep.len() > 0 {
        lemma_first_reciprocal(keep.drop_last(), e);
        assert forall|j: int| 0 <= j < keep.len() - 1 implies keep.drop_last()[j] == keep[j] by {}
    }
}

/// Merging keeps the no-reciprocal-pair property of `keep`, and every kept
/// edge runs between the same endpoints, with the same relation, as an edge
/// of `keep` or `rest`.
proof fn lemma_dedupe_invariant(keep: Seq<KgEdge>, rest: Seq<KgEdge>)
    requires
        no_reciprocal_pairs(keep),
    ensures
        no_reciprocal_pairs(dedupe(keep, rest)),
        dedupe(keep, rest).len() <= keep.len() + rest.len(),
        dedupe(keep, rest).len() >= keep.len(),
    decreases rest.len(),
{
    if rest.len() > 0 {
        let e = rest[0];
        lemma_first_reciprocal(keep, e);
        match first_reciprocal(keep, e) {
            Some(i) => {
                let k2 = keep.update(i, absorb(keep[i], e));
                assert forall|a: int, b: int| 0 <= a < b < k2.len() implies !reciprocal(
                    #[trigger] k2[a],
                    #[trigger] k2[b],
                ) by {
                    assert(!reciprocal(keep[a], keep[b]));
                }
                lemma_dedupe_invariant(k2, rest.drop_first());
            },
            None => {
                let k2 = keep.push(e);
                assert forall|a: int, b: int| 0 <= a < b < k2.len() implies !reciprocal(
                    #[trigger] k2[a],
                    #[trigger] k2[b],
                ) by {
                    if b == keep.len() {
                        assert(!reciprocal(keep[a], e));
                    } else {
                        assert(!reciprocal(keep[a], keep[b]));
                    }
                }
                lemma_dedupe_invariant(k2, rest.drop_first());
            },
        }
    }
}

/// After merging, no edge is reciprocal to an earlier one, and the edge
/// count did not grow.
pub proof fn lemma_dedupe_no_reciprocal(edges: Seq<KgEdge>)
    ensures
        no_reciprocal_pairs(dedupe(Seq::empty(), edges)),
        dedupe(Seq::empty(), edges).len() <= edges.len(),
{
    lemma_dedupe_invariant(Seq::empty(), edges);
}

proof fn lemma_dedupe_identity_from(s: Seq<KgEdge>, k: int)
    requires
        no_reciprocal_pairs(s),
        0 <= k <= s.len(),
    ensures
        dedupe(s.take(k), s.skip(k)) == s,
    decreases s.len() - k,
{
    if k < s.len() {
        let keep = s.take(k);
        let e = s[k];
        lemma_first_reciprocal(keep, e);
        assert(s.skip(k)[0] == e);
        assert forall|j: int| 0 <= j < keep.len() implies !reciprocal(#[trigger] keep[j], e) by {
            assert(keep[j] == s[j]);
        }
        assert(keep.push(e) =~= s.take(k + 1));
        assert(s.skip(k).drop_first() =~= s.skip(k + 1));
        lemma_dedupe_identity_from(s, k + 1);
    } else {
        assert(s.take(k) =~= s);
        assert(s.skip(k).len() == 0);
    }
}

/// Merging is idempotent: a merged edge list merges to itself.
pub proof fn lemma_dedupe_idempotent(edges: Seq<KgEdge>)
    ensures
        dedupe(Seq::empty(), dedupe(Seq::empty(), edges)) == dedupe(Seq::empty(), edges),
{
    let once = dedupe(Seq::empty(), edges);
    lemma_dedupe_no_reciprocal(edges);
    lemma_dedupe_identity_from(once, 0);
    assert(once.take(0) =~= Seq::<KgEdge>::empty());
    assert(once.skip(0) =~= once);
}

fn copy_edge(e: &KgEdge) -> (r: KgEdge)
    ensures
        r == *e,
{
    KgEdge {
        from: e.from.clone(),
        to: e.to.clone(),
        relation: e.relation.clone(),
        detail: e.detail.clone(),
    }
}

fn find_reciprocal(keep: &Vec<KgEdge>, e: &KgEdge) -> (r: Option<usize>)
    ensures
        r matches Some(k) ==> first_reciprocal(keep@, *e) == Some(k as int) && k < keep@.len(),
        r is None ==> first_reciprocal(keep@, *e) is None,
{
    let mut j: usize = 0;
    while j < keep.len()
        invariant
            j <= keep@.len(),
            forall|k: int| 0 <= k < j ==> !reciprocal(#[trigger] keep@[k], *e),
        decreases keep@.len() - j,
    {
        if crate::text::str_eq(keep[j].from.as_str(), e.to.as_str()) && crate::text::str_eq(
            keep[j].to.as_str(),
            e.from.as_str(),
        ) {
            proof {
                lemma_first_reciprocal(keep@, *e);
            }
            return Some(j);
        }
        j += 1;
    }
    proof {
        lemma_first_reciprocal(keep@, *e);
    }
    None
}

impl KnowledgeGraph {
    /// Merge reciprocal edges: A→B and B→A collapse into a single edge. The
    /// surviving edge is the earlier one; it keeps its relation and takes the
    /// later edge's detail only when its own is empty. Nodes and the
    /// character name are untouched.
    pub fn dedupe_reciprocal_edges(&mut self)
        ensures
            final(self).edges@ == dedupe(Seq::empty(), old(self).edges@),
            final(self).nodes == old(self).nodes,
            final(self).character_name == old(self).character_name,
    {
        let mut input: Vec<KgEdge> = Vec::new();
        std::mem::swap(&mut input, &mut self.edges);
        let mut keep: Vec<KgEdge> = Vec::new();
        let mut i: usize = 0;
        assert(input@.skip(0) =~= input@);
        while i < input.len()
            invariant
                i <= input@.len(),
                dedupe(keep@, input@.skip(i as int)) == dedupe(Seq::empty(), input@),
            decreases input@.len() - i,
        {
            let e = copy_edge(&input[i]);
            let ghost ev = e;
            let ghost old_keep = keep@;
            let ghost rest = input@.skip(i as int);
            assert(rest[0] == ev);
            assert(rest.drop_first() =~= input@.skip(i + 1));
            match find_reciprocal(&keep, &e) {
                Some(idx) => {
                    let kept = copy_edge(&keep[idx]);
                    let merged = if kept.detail.as_str().is_empty() && !e.detail.as_str().is_empty() {
                        KgEdge { detail: e.detail, ..kept }
                    } else {
                        kept
                    };
                    assert(merged == absorb(old_keep[idx as int], ev));
                    keep.set(idx, merged);
                    assert(keep@ == old_keep.update(idx as int, absorb(old_keep[idx as int], ev)));
                    assert(first_reciprocal(old_keep, ev) == Some(idx as int));
                    assert(dedupe(old_keep, rest) == dedupe(keep@, rest.drop_first()));
                },
                None => {
                    keep.push(e);
                    assert(keep@ == old_keep.push(ev));
                    assert(first_reciprocal(old_keep, ev) is None);
                    assert(dedupe(old_keep, rest) == dedupe(keep@, rest.drop_first()));
                },
            }
            assert(dedupe(old_keep, rest) == dedupe(keep@, input@.skip(i + 1)));
            i += 1;
        }
        assert(input@.skip(i as int) =~= Seq::<KgEdge>::empty());
        self.edges = keep;
    }
}

// ---------------------------------------------------------------------------
// Seeding from a card
// ---------------------------------------------------------------------------

/// Whitespace characters replaced by `_`.
pub open spec fn underscore_ws(s: Seq<char>) -> Seq<char> {
    s.map_values(|c: char| if is_ws(c) { '_' } else { c })
}

/// Stable node id: `{prefix}:{label with whitespace as _}`.
pub open spec fn node_id_spec(prefix: Seq<char>, label: Seq<char>) -> Seq<char> {
    prefix + ":"@ + underscore_ws(label)
}

/// Some node of `nodes` has id `id`.
pub open spec fn has_node_id(nodes: Seq<NodeView>, id: Seq<char>) -> bool {
    exists|j: int| 0 <= j < nodes.len() && (#[trigger] nodes[j]).0 == id
}

/// Relation label of an edge: the trimmed type, or `related_to` when blank.
pub open spec fn relation_label(rel: RelationshipNode) -> Seq<char> {
    if is_blank(rel.relation_type@) {
        "related_to"@
    } else {
        trim(rel.relation_type@)
    }
}

/// Graph as (nodes, edges) views while it is being built.
pub type GraphView = (Seq<NodeView>, Seq<EdgeView>);

/// One relationship added to the graph: skipped when the other name is blank;
/// otherwise the other character's node is added unless its id is present,
/// and an ego → other edge is added.
pub open spec fn kg_add_rel(g: GraphView, ego: Seq<char>, rel: RelationshipNode) -> GraphView {
    let other = trim(rel.name@);
    if other.len() == 0 {
        g
    } else {
        let oid = node_id_spec("char"@, other);
        let nodes = if has_node_id(g.0, oid) {
            g.0
        } else {
            g.0.push((oid, other, "character"@))
        };
        (nodes, g.1.push((ego, oid, relation_label(rel), trim(rel.defines_protagonist_how@))))
    }
}

/// All relationships added in order.
pub open spec fn kg_add_rels(g: GraphView, ego: Seq<char>, rels: Seq<RelationshipNode>) -> GraphView
    decreases rels.len(),
{
    if rels.len() == 0 {
        g
    } else {
        kg_add_rels(kg_add_rel(g, ego, rels[0]), ego, rels.drop_first())
    }
}

/// The ego graph of a card: the protagonist node, a concept node with a
/// `struggles_with` edge when the moral axis is not blank, then one edge per
/// relationship with a non-blank name.
pub open spec fn kg_of_card(card: TavernCardV2) -> GraphView {
    let name = trim(card.data.name@);
    let ego = node_id_spec("char"@, name);
    let g0: GraphView = (seq![(ego, name, "protagonist"@)], Seq::empty());
    match card.data.extensions.novelagent {
        None => g0,
        Some(ext) => {
            let g1 = if is_blank(ext.moral_axis@) {
                g0
            } else {
                let cid = node_id_spec("concept"@, "moral_axis"@);
                (
                    g0.0.push((cid, trim(ext.moral_axis@), "concept"@)),
                    g0.1.push((ego, cid, "struggles_with"@, Seq::empty())),
                )
            };
            kg_add_rels(g1, ego, ext.relationships@)
        },
    }
}

/// No two nodes share an id.
pub open spec fn distinct_ids(nodes: Seq<NodeView>) -> bool {
    forall|i: int, j: int| 0 <= i < j < nodes.len() ==> (#[trigger] nodes[i]).0 != (#[trigger] nodes[j]).0
}

proof fn lemma_add_rels_keeps_ids_distinct(g: GraphView, ego: Seq<char>, rels: Seq<RelationshipNode>)
    requires
        distinct_ids(g.0),
    ensures
        distinct_ids(kg_add_rels(g, ego, rels).0),
    decreases rels.len(),
{
    if rels.len() > 0 {
        let g1 = kg_add_rel(g, ego, rels[0]);
        let other = trim(rels[0].name@);
        if other.len() > 0 {
            let oid = node_id_spec("char"@, other);
            if !has_node_id(g.0, oid) {
                assert forall|i: int, j: int| 0 <= i < j < g1.0.len() implies (#[trigger] g1.0[i]).0
                    != (#[trigger] g1.0[j]).0 by {
                    if j == g.0.len() {
                        assert(g1.0[i] == g.0[i]);
                    }
                }
            }
        }
        lemma_add_rels_keeps_ids_distinct(g1, ego, rels.drop_first());
    }
}

/// A seeded graph never holds two nodes with the same id: the concept node
/// cannot clash with the protagonist, and a relationship adds its node only
/// when the id is new.
pub proof fn lemma_kg_ids_distinct(card: TavernCardV2)
    ensures
        distinct_ids(kg_of_card(card).0),
{
    let name = trim(card.data.name@);
    let ego = node_id_spec("char"@, name);
    let g0: GraphView = (seq![(ego, name, "protagonist"@)], Seq::empty());
    match card.data.extensions.novelagent {
        None => {},
        Some(ext) => {
            let g1 = if is_blank(ext.moral_axis@) {
                g0
            } else {
                let cid = node_id_spec("concept"@, "moral_axis"@);
                reveal_strlit("char");
                reveal_strlit("concept");
                assert(ego[1] == 'h');
                assert(cid[1] == 'o');
                (
                    g0.0.push((cid, trim(ext.moral_axis@), "concept"@)),
                    g0.1.push((ego, cid, "struggles_with"@, Seq::empty())),
                )
            };
            lemma_add_rels_keeps_ids_distinct(g1, ego, ext.relationships@);
        },
    }
}

/// A node that is not the protagonist: a related character, or the moral
/// axis concept.
pub open spec fn secondary_node(n: NodeView) -> bool {
    n.2 == "character"@ || (n.2 == "concept"@ && n.0 == node_id_spec("concept"@, "moral_axis"@))
}

proof fn lemma_add_rels_nodes(g: GraphView, ego: Seq<char>, rels: Seq<RelationshipNode>)
    requires
        g.0.len() >= 1,
        forall|j: int| 1 <= j < g.0.len() ==> secondary_node(#[trigger] g.0[j]),
    ensures
        kg_add_rels(g, ego, rels).0.len() >= g.0.len(),
        forall|k: int| 0 <= k < g.0.len() ==> #[trigger] kg_add_rels(g, ego, rels).0[k] == g.0[k],
        forall|j: int|
            1 <= j < kg_add_rels(g, ego, rels).0.len() ==> secondary_node(
                #[trigger] kg_add_rels(g, ego, rels).0[j],
            ),
        forall|i: int|
            0 <= i < rels.len() && !is_blank(#[trigger] rels[i].name@) ==> has_node_id(
                kg_add_rels(g, ego, rels).0,
                node_id_spec("char"@, trim(rels[i].name@)),
            ),
    decreases rels.len(),
{
    if rels.len() > 0 {
        let g1 = kg_add_rel(g, ego, rels[0]);
        let other = trim(rels[0].name@);
        if other.len() > 0 {
            let oid = node_id_spec("char"@, other);
            if !has_node_id(g.0, oid) {
                assert(g1.0[g.0.len() as int].0 == oid);
            } else {
                let j = choose|j: int| 0 <= j < g.0.len() && (#[trigger] g.0[j]).0 == oid;
                assert(g1.0[j].0 == oid);
            }
            assert(has_node_id(g1.0, oid));
        }
        assert forall|j: int| 1 <= j < g1.0.len() implies secondary_node(#[trigger] g1.0[j]) by {
            if j < g.0.len() {
                assert(g1.0[j] == g.0[j]);
            }
        }
        let rest = rels.drop_first();
        lemma_add_rels_nodes(g1, ego, rest);
        let g2 = kg_add_rels(g1, ego, rest);
        assert(g2 == kg_add_rels(g, ego, rels));
        assert forall|i: int| 0 <= i < rels.len() && !is_blank(#[trigger] rels[i].name@) implies has_node_id(
            g2.0,
            node_id_spec("char"@, trim(rels[i].name@)),
        ) by {
            if i == 0 {
                let oid = node_id_spec("char"@, other);
                let j = choose|j: int| 0 <= j < g1.0.len() && (#[trigger] g1.0[j]).0 == oid;
                assert(g2.0[j] == g1.0[j]);
            } else {
                assert(rest[i - 1] == rels[i]);
            }
        }
    }
}

/// The node types of a seeded graph: the first node is the protagonist,
/// the card's ego node; every other node is a related character or the
/// moral-axis concept, so exactly one node is the protagonist; every
/// relationship with a non-blank name has its character's node; and a node
/// with a character id other than the first is typed `character`.
pub proof fn lemma_kg_node_types(card: TavernCardV2)
    ensures
        kg_of_card(card).0.len() >= 1,
        kg_of_card(card).0[0] == (
            node_id_spec("char"@, trim(card.data.name@)),
            trim(card.data.name@),
            "protagonist"@,
        ),
        forall|j: int|
            1 <= j < kg_of_card(card).0.len() ==> secondary_node(#[trigger] kg_of_card(card).0[j]),
        forall|j: int|
            1 <= j < kg_of_card(card).0.len() ==> (#[trigger] kg_of_card(card).0[j]).2 != "protagonist"@,
        forall|j: int, x: Seq<char>|
            #![trigger kg_of_card(card).0[j], node_id_spec("char"@, x)]
            1 <= j < kg_of_card(card).0.len() && kg_of_card(card).0[j].0 == node_id_spec("char"@, x)
                ==> kg_of_card(card).0[j].2 == "character"@,
        card.data.extensions.novelagent matches Some(ext) ==> forall|i: int|
            0 <= i < ext.relationships@.len() && !is_blank(#[trigger] ext.relationships@[i].name@)
                ==> has_node_id(
                kg_of_card(card).0,
                node_id_spec("char"@, trim(ext.relationships@[i].name@)),
            ),
{
    let name = trim(card.data.name@);
    let ego = node_id_spec("char"@, name);
    let g0: GraphView = (seq![(ego, name, "protagonist"@)], Seq::empty());
    let cid = node_id_spec("concept"@, "moral_axis"@);
    reveal_strlit("char");
    reveal_strlit("concept");
    reveal_strlit("character");
    reveal_strlit("protagonist");
    assert("character"@.len() == 9);
    assert("concept"@.len() == 7);
    assert("protagonist"@.len() == 11);
    assert(cid[1] == 'o');
    assert forall|x: Seq<char>| #[trigger] node_id_spec("char"@, x)[1] == 'h' by {}
    match card.data.extensions.novelagent {
        None => {},
        Some(ext) => {
            let g1 = if is_blank(ext.moral_axis@) {
                g0
            } else {
                (
                    g0.0.push((cid, trim(ext.moral_axis@), "concept"@)),
                    g0.1.push((ego, cid, "struggles_with"@, Seq::empty())),
                )
            };
            assert(g1.0[0] == g0.0[0]);
            assert forall|j: int| 1 <= j < g1.0.len() implies secondary_node(#[trigger] g1.0[j]) by {}
            lemma_add_rels_nodes(g1, ego, ext.relationships@);
        },
    }
    let nodes = kg_of_card(card).0;
    assert forall|j: int, x: Seq<char>|
        #![trigger nodes[j], node_id_spec("char"@, x)]
        1 <= j < nodes.len() && nodes[j].0 == node_id_spec("char"@, x) implies nodes[j].2
        == "character"@ by {
        assert(secondary_node(nodes[j]));
        if nodes[j].2 != "character"@ {
            assert(nodes[j].0 == cid);
            assert(node_id_spec("char"@, x)[1] == 'h');
        }
    }
}

/// Executable node id.
fn node_id(prefix: &str, label: &str) -> (id: String)
    ensures
        id@ == node_id_spec(prefix@, label@),
{
    let mut id = owned(prefix);
    push_str(&mut id, ":");
    let v = chars_of(label);
    let mut mapped: Vec<char> = Vec::new();
    let mut i: usize = 0;
    while i < v.len()
        invariant
            i <= v@.len(),
            mapped@ == underscore_ws(v@.take(i as int)),
        decreases v@.len() - i,
    {
        let c = v[i];
        let m = if crate::text::is_whitespace(c) {
            '_'
        } else {
            c
        };
        mapped.push(m);
        assert(underscore_ws(v@.take(i + 1)) =~= underscore_ws(v@.take(i as int)).push(m));
        i += 1;
    }
    assert(v@.take(v@.len() as int) =~= v@);
    let tail = string_of(mapped.as_slice());
    push_str(&mut id, tail.as_str());
    id
}

fn contains_node_id(nodes: &Vec<KgNode>, id: &str) -> (r: bool)
    ensures
        r == has_node_id(nodes_view(nodes@), id@),
{
    let mut j: usize = 0;
    while j < nodes.len()
        invariant
            j <= nodes@.len(),
            forall|k: int| 0 <= k < j ==> nodes@[k].id@ != id@,
        decreases nodes@.len() - j,
    {
        if crate::text::str_eq(nodes[j].id.as_str(), id) {
            assert(nodes_view(nodes@)[j as int].0 == id@);
            return true;
        }
        j += 1;
    }
    assert forall|k: int| 0 <= k < nodes_view(nodes@).len() implies (#[trigger] nodes_view(
        nodes@,
    )[k]).0 != id@ by {
        assert(nodes_view(nodes@)[k] == node_view(nodes@[k]));
    }
    false
}

fn make_node(id: String, label: String, node_type: &str) -> (n: KgNode)
    ensures
        node_view(n) == (id@, label@, node_type@),
{
    KgNode { id, label, node_type: owned(node_type) }
}

/// Build an ego knowledge graph from the card's name, moral axis and
/// relationships.
pub fn build_kg_from_card(card: &TavernCardV2) -> (kg: KnowledgeGraph)
    ensures
        kg.character_name@ == trim(card.data.name@),
        (nodes_view(kg.nodes@), edges_view(kg.edges@)) == kg_of_card(*card),
{
    let name = trim_str(card.data.name.as_str());
    let ego_id = node_id("char", name.as_str());
    let mut nodes: Vec<KgNode> = Vec::new();
    nodes.push(make_node(ego_id.clone(), name.clone(), "protagonist"));
    let mut edges: Vec<KgEdge> = Vec::new();
    assert(nodes_view(nodes@) =~= seq![(ego_id@, name@, "protagonist"@)]);
    assert(edges_view(edges@) =~= Seq::<EdgeView>::empty());
    if let Some(ext) = &card.data.extensions.novelagent {
        if !is_blank_str(ext.moral_axis.as_str()) {
            let concept_id = node_id("concept", "moral_axis");
            let ghost n0 = nodes@;
            let ghost e0 = edges@;
            nodes.push(make_node(concept_id.clone(), trim_str(ext.moral_axis.as_str()), "concept"));
            edges.push(
                KgEdge {
                    from: ego_id.clone(),
                    to: concept_id,
                    relation: owned("struggles_with"),
                    detail: String::new(),
                },
            );
            assert(nodes_view(nodes@) =~= nodes_view(n0).push(nodes_view(nodes@).last()));
            assert(edges_view(edges@) =~= edges_view(e0).push(edges_view(edges@).last()));
        }
        let rels = &ext.relationships;
        let ghost g1: GraphView = (nodes_view(nodes@), edges_view(edges@));
        let mut i: usize = 0;
        assert(rels@.skip(0) =~= rels@);
        while i < rels.len()
            invariant
                i <= rels@.len(),
                kg_add_rels(g1, ego_id@, rels@) == kg_add_rels(
                    (nodes_view(nodes@), edges_view(edges@)),
                    ego_id@,
                    rels@.skip(i as int),
                ),
            decreases rels@.len() - i,
        {
            let rel = &rels[i];
            let ghost g: GraphView = (nodes_view(nodes@), edges_view(edges@));
            assert(rels@.skip(i as int)[0] == *rel);
            assert(rels@.skip(i as int).drop_first() =~= rels@.skip(i + 1));
            let other = trim_str(rel.name.as_str());
            if !other.as_str().is_empty() {
                let other_id = node_id("char", other.as_str());
                if !contains_node_id(&nodes, other_id.as_str()) {
                    let ghost n0 = nodes@;
                    nodes.push(make_node(other_id.clone(), other.clone(), "character"));
                    assert(nodes_view(nodes@) =~= nodes_view(n0).push(
                        (other_id@, other@, "character"@),
                    ));
                }
                let relation = if is_blank_str(rel.relation_type.as_str()) {
                    owned("related_to")
                } else {
                    trim_str(rel.relation_type.as_str())
                };
                let ghost e0 = edges@;
                edges.push(
                    KgEdge {
                        from: ego_id.clone(),
                        to: other_id,
                        relation,
                        detail: trim_str(rel.defines_protagonist_how.as_str()),
                    },
                );
                assert(edges_view(edges@) =~= edges_view(e0).push(edges_view(edges@).last()));
            }
            assert(kg_add_rel(g, ego_id@, *rel) == (nodes_view(nodes@), edges_view(edges@)));
            i += 1;
        }
        assert(rels@.skip(i as int) =~= Seq::<RelationshipNode>::empty());
    }
    KnowledgeGraph { character_name: name, nodes, edges }
}

} // verus!
