use novelagent::card::{CardExtensions, NovelAgentCharExt, RelationshipNode, TavernCardV2};
use novelagent::{build_kg_from_card, KgEdge, KnowledgeGraph};

fn sample_card() -> TavernCardV2 {
    let mut card = TavernCardV2::skeleton_zh("苏晚");
    card.data.extensions = CardExtensions {
        novelagent: Some(NovelAgentCharExt {
            moral_axis: "独立 vs 依附".to_owned(),
            relationships: vec![
                RelationshipNode {
                    name: "老周".to_owned(),
                    relation_type: "mentor".to_owned(),
                    defines_protagonist_how: "提醒她被记得".to_owned(),
                },
                RelationshipNode {
                    name: "阿凯".to_owned(),
                    relation_type: "rival".to_owned(),
                    defines_protagonist_how: "镜像她的逃避".to_owned(),
                },
            ],
            ..NovelAgentCharExt::default()
        }),
    };
    card
}

fn edge(from: &str, to: &str, relation: &str, detail: &str) -> KgEdge {
    KgEdge {
        from: from.to_owned(),
        to: to.to_owned(),
        relation: relation.to_owned(),
        detail: detail.to_owned(),
    }
}

#[test]
fn builds_ego_and_edges() {
    let kg = build_kg_from_card(&sample_card());
    assert_eq!(kg.character_name, "苏晚");
    assert!(kg.nodes.iter().any(|n| n.node_type == "protagonist"));
    assert_eq!(kg.edges.len(), 3);
    assert!(kg.edges.iter().any(|e| e.relation == "mentor" && e.to == "char:老周"));
}

#[test]
fn kg_node_ids_and_edges_exact() {
    let kg = build_kg_from_card(&sample_card());
    let ids: Vec<&str> = kg.nodes.iter().map(|n| n.id.as_str()).collect();
    assert_eq!(ids, vec!["char:苏晚", "concept:moral_axis", "char:老周", "char:阿凯"]);
    assert_eq!(kg.edges[0], edge("char:苏晚", "concept:moral_axis", "struggles_with", ""));
    assert_eq!(kg.edges[2], edge("char:苏晚", "char:阿凯", "rival", "镜像她的逃避"));
}

#[test]
fn skeleton_has_only_ego() {
    let kg = build_kg_from_card(&TavernCardV2::skeleton_zh("空"));
    assert_eq!(kg.nodes.len(), 1);
    assert!(kg.edges.is_empty());
}

#[test]
fn dedupes_reciprocal_edges() {
    let mut kg = KnowledgeGraph::default();
    kg.edges.push(edge("char:A", "char:B", "mentor", "first"));
    kg.edges.push(edge("char:B", "char:A", "mentor", "second"));
    kg.edges.push(edge("char:A", "char:C", "ally", ""));
    kg.dedupe_reciprocal_edges();
    assert_eq!(kg.edges.len(), 2);
    let ab = kg
        .edges
        .iter()
        .find(|e| (e.from == "char:A" && e.to == "char:B") || (e.from == "char:B" && e.to == "char:A"))
        .expect("A-B edge");
    assert_eq!(ab.detail, "first");
}

#[test]
fn dedupe_fills_empty_detail_and_is_idempotent() {
    let mut kg = KnowledgeGraph::default();
    kg.edges.push(edge("char:A", "char:B", "mentor", ""));
    kg.edges.push(edge("char:B", "char:A", "ally", "later"));
    kg.dedupe_reciprocal_edges();
    assert_eq!(kg.edges, vec![edge("char:A", "char:B", "mentor", "later")]);
    let once = kg.clone();
    kg.dedupe_reciprocal_edges();
    assert_eq!(kg, once);
}

#[test]
fn duplicate_relationship_names_share_node() {
    let mut card = TavernCardV2::skeleton_zh("苏晚");
    card.data.extensions = CardExtensions {
        novelagent: Some(NovelAgentCharExt {
            relationships: vec![
                RelationshipNode {
                    name: "老周".to_owned(),
                    relation_type: "mentor".to_owned(),
                    defines_protagonist_how: String::new(),
                },
                RelationshipNode {
                    name: " 老周 ".to_owned(),
                    relation_type: "".to_owned(),
                    defines_protagonist_how: "又一次".to_owned(),
                },
            ],
            ..NovelAgentCharExt::default()
        }),
    };
    let kg = build_kg_from_card(&card);
    assert_eq!(kg.nodes.len(), 2);
    assert_eq!(kg.edges.len(), 2);
    assert_eq!(kg.edges[1], edge("char:苏晚", "char:老周", "related_to", "又一次"));
}
