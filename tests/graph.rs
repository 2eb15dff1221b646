use sprite_anim_graph::error::{LoadError, RunError};
use sprite_anim_graph::loader::load;
use sprite_anim_graph::node_id::{NameRegistry, NodeId};
use sprite_anim_graph::nodes::{AnimationNode, FpsNode, IndexNode, MatchNode, NodeResult};
use sprite_anim_graph::state::{AnimationState, AttrValue, Attribute};
use sprite_anim_graph::tree::{AnimationNodeTree, MAX_HOPS};

const INDEX_DEF: &str = "NodeID(\"0x0000000000000001\"):IndexNode(\nname: \"Zombie1_Idle\",\n
    frames: [
    Zombie1/zombie1_00000.png,
    Zombie1/zombie1_00001.png,
    Zombie1/zombie1_00002.png,
    ],is_loop: true,index: IndexID(256),)";

const FPS_DEF: &str = "FPSNode(\nname: \"Zombie_fps\",\nfps: 7,then: NodeID(\"0x1\"),)";

#[test]
fn driver_runs_fps_then_index() {
    let mut tree = AnimationNodeTree::new();
    let mut reg = NameRegistry::new();
    let idx = tree.add_node(
        AnimationNode::Index(IndexNode::new("walk", vec!["a".to_string(), "b".to_string(), "c".to_string()], true)),
        &mut reg,
    );
    let start = tree.add_node(AnimationNode::Fps(FpsNode::new("fps", 10, idx)), &mut reg);
    let mut s = AnimationState::new();
    s.update_delta(250_000);
    let f = tree.run_from(start, &mut s).unwrap();
    assert_eq!(f.node, idx);
    assert_eq!(f.index, 2);
    assert_eq!(f.path, "c");
    assert_eq!(NodeId::of_name("walk").name_or_id(&reg), "walk");
}

#[test]
fn driver_reports_missing_node() {
    let mut tree = AnimationNodeTree::new();
    let mut reg = NameRegistry::new();
    let start = tree.add_node(AnimationNode::Fps(FpsNode::new("fps", 10, NodeId(77))), &mut reg);
    let mut s = AnimationState::new();
    assert!(matches!(tree.run_from(start, &mut s), Err(RunError::NodeNotFound(NodeId(77)))));
    assert!(matches!(tree.run_from(NodeId(5), &mut s), Err(RunError::NodeNotFound(NodeId(5)))));
}

#[test]
fn driver_stops_a_cycle_at_the_hop_limit() {
    let mut tree = AnimationNodeTree::new();
    let mut reg = NameRegistry::new();
    let mut a = AnimationNode::Match(MatchNode::new("a", Attribute::Custom(1), vec![], NodeId(2)));
    a.set_id(NodeId(1));
    let mut b = AnimationNode::Match(MatchNode::new("b", Attribute::Custom(1), vec![], NodeId(1)));
    b.set_id(NodeId(2));
    tree.add_node(a, &mut reg);
    tree.add_node(b, &mut reg);
    let mut s = AnimationState::new();
    assert_eq!(MAX_HOPS, 256);
    assert!(matches!(tree.run_from(NodeId(1), &mut s), Err(RunError::HopLimit(NodeId(1)))));
}

#[test]
fn add_node_replaces_at_the_same_identity() {
    let mut tree = AnimationNodeTree::new();
    let mut reg = NameRegistry::new();
    let a = tree.add_node(AnimationNode::Index(IndexNode::new("x", vec!["one".to_string()], false)), &mut reg);
    let b = tree.add_node(AnimationNode::Index(IndexNode::new("x", vec!["two".to_string()], false)), &mut reg);
    assert_eq!(a, b);
    let mut s = AnimationState::new();
    assert_eq!(tree.run_from(a, &mut s).unwrap().path, "two");
}

#[test]
fn example_definitions_load_and_run() {
    let mut tree = AnimationNodeTree::new();
    let mut reg = NameRegistry::new();
    let mut deps: Vec<String> = Vec::new();
    let idx = tree.load_node_from_str(INDEX_DEF, &mut reg, &mut deps).unwrap();
    assert_eq!(idx, NodeId(1));
    assert_eq!(
        deps,
        vec![
            "Zombie1/zombie1_00000.png".to_string(),
            "Zombie1/zombie1_00001.png".to_string(),
            "Zombie1/zombie1_00002.png".to_string(),
        ]
    );
    let fps = tree.load_node_from_str(FPS_DEF, &mut reg, &mut deps).unwrap();
    assert_eq!(fps, NodeId::of_name("Zombie_fps"));
    assert_eq!(deps.len(), 3);
    let mut s = AnimationState::new();
    s.update_delta(500_000);
    let f = tree.run_from(fps, &mut s).unwrap();
    assert_eq!(f.index, 0);
    assert_eq!(f.path, "Zombie1/zombie1_00000.png");
    assert_eq!(s.try_get_u64(Attribute::IndexId(256)), Ok(Some(0)));
    // 3 frames advanced on a 3-frame loop
    assert_eq!(s.get_attribute(Attribute::Frames), AttrValue::UInt(3));
}

#[test]
fn missing_frames_field_leaves_tree_unchanged() {
    let mut tree = AnimationNodeTree::new();
    let mut reg = NameRegistry::new();
    let mut deps: Vec<String> = Vec::new();
    let r = tree.load_node_from_str("IndexNode(name: \"idle\", is_loop: true)", &mut reg, &mut deps);
    assert_eq!(r, Err(LoadError::MissingField("frames".to_string())));
    assert!(deps.is_empty());
    assert!(tree.get(NodeId::of_name("idle")).is_none());
    assert!(reg.lookup(NodeId::of_name("idle").0).is_none());
}

#[test]
fn load_errors_by_kind() {
    let mut deps: Vec<String> = Vec::new();
    assert_eq!(load("IndexNode(frames: [a])", &mut deps).err(), Some(LoadError::MissingField("name".to_string())));
    assert_eq!(load("IndexNode(name: x, frames: [])", &mut deps).err(), Some(LoadError::NoFrames));
    assert_eq!(load("WaveNode(name: x)", &mut deps).err(), Some(LoadError::UnknownNode("WaveNode".to_string())));
    assert_eq!(load("IndexNode(name: \"x, frames: [a])", &mut deps).err(), Some(LoadError::ParseError));
    assert_eq!(load("IndexNode(name: x frames: [a])", &mut deps).err(), Some(LoadError::ParseError));
    assert_eq!(load("IndexNode(name: x, frames: [a], is_loop: maybe)", &mut deps).err(), Some(LoadError::ParseError));
    assert_eq!(load("FPSNode(name: x, fps: 4294967296, then: y)", &mut deps).err(), Some(LoadError::ParseError));
    assert_eq!(load("FPSNode(name: x, fps: 3)", &mut deps).err(), Some(LoadError::MissingField("then".to_string())));
    assert_eq!(load("ScaleNode(name: x, next: y)", &mut deps).err(), Some(LoadError::MissingField("scale".to_string())));
    assert_eq!(load("IndexNode(name: x, frames: [a]) trailing", &mut deps).err(), Some(LoadError::ParseError));
    assert!(deps.is_empty());
}

#[test]
fn quoted_strings_are_decoded() {
    let mut deps: Vec<String> = Vec::new();
    let node = load("IndexNode(name: \"a \\\"b\\\"\", frames: [\"x y.png\", \"q\\\\r.png\"])", &mut deps).unwrap();
    assert_eq!(node.name(), "a \"b\"");
    assert_eq!(deps, vec!["x y.png".to_string(), "q\\r.png".to_string()]);
}

#[test]
fn scale_definition_loads() {
    let mut deps: Vec<String> = Vec::new();
    let mut reg = NameRegistry::new();
    let node = load("NodeID(0x20): ScaleNode(name: fast, scale: Custom(9), next: NodeID(\"walk\"))", &mut deps).unwrap();
    assert_eq!(node.id(&mut reg), NodeId(0x20));
    assert_eq!(node.name(), "fast");
    let mut s = AnimationState::new();
    s.set_attribute(Attribute::Frames, AttrValue::UInt(1));
    s.set_attribute(Attribute::Custom(9), AttrValue::UInt(3000));
    match node.run(&mut s) {
        Ok(NodeResult::Next(n)) => assert_eq!(n, NodeId::of_name("walk")),
        _ => panic!("expected a hop"),
    }
    // one frame of progress is not yet a frame three times as wide
    assert_eq!(s.try_get_u64(Attribute::Frames), Ok(Some(0)));
    assert_eq!(s.try_get_u64(Attribute::TimeThisFrame), Ok(Some(1_000_000)));
}

use sprite_anim_graph::loader::ScaleNodeLoader;

#[test]
fn scale_loader_reads_only_scale_nodes() {
    let l = ScaleNodeLoader;
    assert_eq!(l.can_load(), vec!["ScaleNode".to_string()]);
    let n = l.load("ScaleNode(name: s, scale: IndexID(300), next: 0x5)").unwrap();
    assert_eq!(n.name(), "s");
    assert_eq!(l.load("IndexNode(name: x, frames: [a])").err(), Some(LoadError::ParseError));
    assert_eq!(l.load("ScaleNode(name: s)").err(), Some(LoadError::MissingField("scale".to_string())));
    assert_eq!(l.load("ScaleNode(name: s, scale: IndexID(70000), next: 0x5)").err(), Some(LoadError::ParseError));
}

#[test]
fn match_definition_loads_and_branches() {
    let mut tree = AnimationNodeTree::new();
    let mut reg = NameRegistry::new();
    let mut deps: Vec<String> = Vec::new();
    tree.load_node_from_str("NodeID(0x10): IndexNode(name: a, frames: [a0.png])", &mut reg, &mut deps).unwrap();
    tree.load_node_from_str("NodeID(0x11): IndexNode(name: b, frames: [b0.png])", &mut reg, &mut deps).unwrap();
    let pick = tree
        .load_node_from_str(
            "MatchNode(name: pick, check: Custom(1), default: NodeID(0x10), branches: [Case(2, 0x11), Case(true, \"0x11\")])",
            &mut reg,
            &mut deps,
        )
        .unwrap();
    assert_eq!(pick, NodeId::of_name("pick"));
    let mut s = AnimationState::new();
    assert_eq!(tree.run_from(pick, &mut s).unwrap().path, "a0.png");
    s.set_attribute(Attribute::Custom(1), AttrValue::UInt(2));
    assert_eq!(tree.run_from(pick, &mut s).unwrap().path, "b0.png");
    s.set_attribute(Attribute::Custom(1), AttrValue::Bool(true));
    assert_eq!(tree.run_from(pick, &mut s).unwrap().path, "b0.png");
    let mut none: Vec<String> = Vec::new();
    assert_eq!(load("MatchNode(name: p, check: Frames)", &mut none).err(), Some(LoadError::MissingField("default".to_string())));
    assert_eq!(load("MatchNode(name: p, check: Frames, default: x, branches: [Case(maybe, y)])", &mut none).err(), Some(LoadError::ParseError));
}

#[test]
fn node_result_text() {
    assert_eq!(NodeResult::Next(NodeId(0x1F)).to_text(), "Next(NodeID(0x000000000000001F))");
    assert_eq!(NodeResult::Done(2, "x".to_string()).to_text(), "Done");
}

#[test]
fn scale_node_serializes_to_a_loadable_definition() {
    let mut node = sprite_anim_graph::nodes::ScaleNode::new("fa\"st", Attribute::IndexId(300), NodeId(0x42));
    let mut text = String::new();
    node.serialize(&mut text);
    assert_eq!(
        text,
        "ScaleNode(\n\tname: \"fa\\\"st\",\n\tscale: IndexID(0x000000000000012C),\n\tnext: NodeID(\"0x0000000000000042\"),\n),\n"
    );
    node.set_id(NodeId(7));
    let mut bound = String::new();
    node.serialize(&mut bound);
    assert!(bound.starts_with("NodeID(\"0x0000000000000007\"): ScaleNode("));
    // the trailing separator is not part of one definition
    let def = bound.trim_end().trim_end_matches(',');
    let mut deps: Vec<String> = Vec::new();
    let back = load(def, &mut deps).unwrap();
    let mut reg = NameRegistry::new();
    assert_eq!(back.id(&mut reg), NodeId(7));
    assert_eq!(back.name(), "fa\"st");
    let mut again = String::new();
    match back {
        AnimationNode::Scale(n) => {
            n.serialize(&mut again);
            assert_eq!(again, bound);
        }
        _ => panic!("expected a scale node"),
    }
}

#[test]
fn script_and_match_definitions_make_a_condition() {
    let mut tree = AnimationNodeTree::new();
    let mut reg = NameRegistry::new();
    let mut deps: Vec<String> = Vec::new();
    tree.load_node_from_str("NodeID(0x10): IndexNode(name: slow, frames: [s.png])", &mut reg, &mut deps).unwrap();
    tree.load_node_from_str("NodeID(0x11): IndexNode(name: fast, frames: [f.png])", &mut reg, &mut deps).unwrap();
    tree.load_node_from_str(
        "NodeID(0x12): MatchNode(name: pick, check: Custom(2), default: 0x10, branches: [Case(true, 0x11)])",
        &mut reg,
        &mut deps,
    )
    .unwrap();
    let cond = tree
        .load_node_from_str(
            "ScriptNode(name: cond, op: Lt, left: 5, right: Custom(1), target: Custom(2), next: 0x12)",
            &mut reg,
            &mut deps,
        )
        .unwrap();
    let mut s = AnimationState::new();
    assert_eq!(tree.run_from(cond, &mut s).unwrap().path, "s.png");
    s.set_attribute(Attribute::Custom(1), AttrValue::UInt(9));
    assert_eq!(tree.run_from(cond, &mut s).unwrap().path, "f.png");
    let mut none: Vec<String> = Vec::new();
    assert_eq!(
        load("ScriptNode(name: c, op: Div, left: 1, right: 2, target: Custom(2), next: x)", &mut none).err(),
        Some(LoadError::ParseError)
    );
    assert_eq!(
        load("ScriptNode(name: c, op: Add, left: 1, right: 2, next: x)", &mut none).err(),
        Some(LoadError::MissingField("target".to_string()))
    );
}

#[test]
fn unknown_fields_are_refused() {
    let mut deps: Vec<String> = Vec::new();
    assert_eq!(load("IndexNode(name: n, frames: [a], foo: x)", &mut deps).err(), Some(LoadError::ParseError));
    assert_eq!(load("ScaleNode(name: n, scale: Frames, next: x, then: y)", &mut deps).err(), Some(LoadError::ParseError));
    assert_eq!(load("FPSNode(name: n, fps: 3, then: x, next: y)", &mut deps).err(), Some(LoadError::ParseError));
    assert!(deps.is_empty());
}

#[test]
fn a_repeated_field_keeps_its_last_value() {
    let mut deps: Vec<String> = Vec::new();
    let node = load("IndexNode(name: first, frames: [a], name: second, frames: [b, c])", &mut deps).unwrap();
    assert_eq!(node.name(), "second");
    assert_eq!(deps, vec!["b".to_string(), "c".to_string()]);
}

#[test]
fn a_self_looping_scale_node_hits_the_hop_limit() {
    let mut tree = AnimationNodeTree::new();
    let mut reg = NameRegistry::new();
    let node = sprite_anim_graph::nodes::ScaleNode::new("loop", Attribute::Custom(9), NodeId::of_name("loop"));
    assert_eq!(node.id(), NodeId::of_name("loop"));
    let id = tree.add_node(AnimationNode::Scale(node), &mut reg);
    let mut s = AnimationState::new();
    assert!(matches!(tree.run_from(id, &mut s), Err(RunError::HopLimit(x)) if x == id));
}
