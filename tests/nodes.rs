use sprite_anim_graph::error::RunError;
use sprite_anim_graph::node_id::NodeId;
use sprite_anim_graph::nodes::{AnimationNode, FpsNode, IndexNode, MatchNode, NodeResult, ScaleNode};
use sprite_anim_graph::state::{AnimationState, AttrValue, Attribute};

fn frames(n: usize) -> Vec<String> {
    (0..n).map(|i| format!("f{}.png", i)).collect()
}

#[test]
fn index_without_loop_holds_last_frame() {
    let node = IndexNode::new("idle", frames(9), false);
    let mut s = AnimationState::new();
    s.set_attribute(Attribute::Frames, AttrValue::UInt(12));
    match node.run(&mut s) {
        Ok(NodeResult::Done(i, path)) => {
            assert_eq!(i, 8);
            assert_eq!(path, "f8.png");
        }
        other => panic!("unexpected {:?}", other),
    }
    assert_eq!(s.try_get_u64(Attribute::IndexId(0)), Ok(Some(8)));
}

#[test]
fn index_with_loop_wraps() {
    let node = IndexNode::new("walk", frames(9), true);
    let mut s = AnimationState::new();
    s.set_attribute(Attribute::Frames, AttrValue::UInt(12));
    match node.run(&mut s) {
        Ok(NodeResult::Done(i, path)) => {
            assert_eq!(i, 3);
            assert_eq!(path, "f3.png");
        }
        other => panic!("unexpected {:?}", other),
    }
    assert_eq!(s.try_get_u64(Attribute::IndexId(0)), Ok(Some(3)));
}

#[test]
fn index_adds_to_its_own_slot() {
    let node = IndexNode::new_with_index("walk", frames(4), true, Attribute::IndexId(300));
    let mut s = AnimationState::new();
    s.set_attribute(Attribute::IndexId(300), AttrValue::UInt(2));
    s.set_attribute(Attribute::Frames, AttrValue::UInt(1));
    assert!(matches!(node.run(&mut s), Ok(NodeResult::Done(3, _))));
    assert!(matches!(node.run(&mut s), Ok(NodeResult::Done(0, _))));
    assert_eq!(s.try_get_u64(Attribute::IndexId(0)), Ok(None));
}

#[test]
fn index_reports_a_mistyped_counter() {
    let node = IndexNode::new("walk", frames(4), true);
    let mut s = AnimationState::new();
    s.set_attribute(Attribute::IndexId(0), AttrValue::Bool(true));
    assert!(matches!(
        node.run(&mut s),
        Err(RunError::AttributeTypeMismatch(Attribute::IndexId(0)))
    ));
}

#[test]
fn fps_turns_half_a_second_at_seven_into_three_frames() {
    let node = FpsNode::new("fps", 7, NodeId(1));
    let mut s = AnimationState::new();
    s.update_delta(500_000);
    assert!(matches!(node.run(&mut s), Ok(NodeResult::Next(NodeId(1)))));
    assert_eq!(s.try_get_u64(Attribute::Frames), Ok(Some(3)));
    // half a frame carried, in millionths of a frame
    assert_eq!(s.try_get_u64(Attribute::TimeThisFrame), Ok(Some(500_000)));
    assert_eq!(s.try_get_u64(Attribute::LastFps), Ok(Some(7000)));
    // the carried half frame completes a fourth frame next tick
    s.update_delta(500_000);
    node.run(&mut s).unwrap();
    assert_eq!(s.try_get_u64(Attribute::Frames), Ok(Some(4)));
    assert_eq!(s.try_get_u64(Attribute::TimeThisFrame), Ok(Some(0)));
}

#[test]
fn fps_overflow_is_reported() {
    let node = FpsNode::new("fps", u32::MAX, NodeId(1));
    let mut s = AnimationState::new();
    s.update_delta(u64::MAX);
    assert!(matches!(node.run(&mut s), Err(RunError::Overflow)));
    assert_eq!(s.try_get_u64(Attribute::Frames), Ok(Some(0)));
}

#[test]
fn scale_two_widens_each_frame() {
    let node = ScaleNode::new("slow", Attribute::Custom(9), NodeId(2));
    let mut s = AnimationState::new();
    s.set_attribute(Attribute::Frames, AttrValue::UInt(3));
    s.set_attribute(Attribute::TimeThisFrame, AttrValue::UInt(500_000));
    s.set_attribute(Attribute::LastFps, AttrValue::UInt(7000));
    s.set_attribute(Attribute::Custom(9), AttrValue::UInt(2000));
    assert!(matches!(node.run(&mut s), Ok(NodeResult::Next(NodeId(2)))));
    // 3.5 frames of progress are 1 frame twice as wide, and 1.5 frames carried
    assert_eq!(s.try_get_u64(Attribute::Frames), Ok(Some(1)));
    assert_eq!(s.try_get_u64(Attribute::TimeThisFrame), Ok(Some(1_500_000)));
    assert_eq!(s.try_get_u64(Attribute::LastFps), Ok(Some(3500)));
}

#[test]
fn scale_defaults_to_one() {
    let node = ScaleNode::new_with_index("same", Attribute::Custom(9), NodeId(2));
    let mut s = AnimationState::new();
    s.set_attribute(Attribute::Frames, AttrValue::UInt(2));
    s.set_attribute(Attribute::TimeThisFrame, AttrValue::UInt(250_000));
    s.set_attribute(Attribute::LastFps, AttrValue::UInt(5000));
    node.run(&mut s).unwrap();
    assert_eq!(s.try_get_u64(Attribute::Frames), Ok(Some(2)));
    assert_eq!(s.try_get_u64(Attribute::TimeThisFrame), Ok(Some(250_000)));
    assert_eq!(s.try_get_u64(Attribute::LastFps), Ok(Some(5000)));
}

#[test]
fn scale_half_narrows_each_frame() {
    let node = ScaleNode::new("fast", Attribute::Custom(9), NodeId(2));
    let mut s = AnimationState::new();
    s.set_attribute(Attribute::Frames, AttrValue::UInt(3));
    s.set_attribute(Attribute::TimeThisFrame, AttrValue::UInt(0));
    s.set_attribute(Attribute::LastFps, AttrValue::UInt(8000));
    s.set_attribute(Attribute::Custom(9), AttrValue::UInt(500));
    node.run(&mut s).unwrap();
    assert_eq!(s.try_get_u64(Attribute::Frames), Ok(Some(6)));
    assert_eq!(s.try_get_u64(Attribute::TimeThisFrame), Ok(Some(0)));
    assert_eq!(s.try_get_u64(Attribute::LastFps), Ok(Some(16000)));
}

#[test]
fn match_picks_the_branch_or_default() {
    let node = MatchNode::new(
        "pick",
        Attribute::Custom(1),
        vec![(AttrValue::UInt(1), NodeId(10)), (AttrValue::Bool(true), NodeId(20))],
        NodeId(30),
    );
    let mut s = AnimationState::new();
    assert!(matches!(node.run(&mut s), Ok(NodeResult::Next(NodeId(30)))));
    s.set_attribute(Attribute::Custom(1), AttrValue::UInt(1));
    assert!(matches!(node.run(&mut s), Ok(NodeResult::Next(NodeId(10)))));
    s.set_attribute(Attribute::Custom(1), AttrValue::Bool(true));
    assert!(matches!(node.run(&mut s), Ok(NodeResult::Next(NodeId(20)))));
    s.set_attribute(Attribute::Custom(1), AttrValue::UInt(2));
    assert!(matches!(node.run(&mut s), Ok(NodeResult::Next(NodeId(30)))));
}

#[test]
fn node_identity_defaults_to_name_hash() {
    let mut reg = sprite_anim_graph::node_id::NameRegistry::new();
    let mut node = AnimationNode::Index(IndexNode::new("walk", frames(2), true));
    assert_eq!(node.name(), "walk");
    assert_eq!(node.id(&mut reg), NodeId::of_name("walk"));
    node.set_id(NodeId(5));
    assert_eq!(node.id(&mut reg), NodeId(5));
}

use sprite_anim_graph::nodes::{Operand, ScriptNode, ScriptOp};

#[test]
fn script_computes_and_stores() {
    let mut s = AnimationState::new();
    s.set_attribute(Attribute::Custom(1), AttrValue::UInt(40));
    let add = ScriptNode::new("add", ScriptOp::Add, Operand::Attr(Attribute::Custom(1)), Operand::Const(2), Attribute::Custom(2), NodeId(9));
    assert!(matches!(add.run(&mut s), Ok(NodeResult::Next(NodeId(9)))));
    assert_eq!(s.try_get_u64(Attribute::Custom(2)), Ok(Some(42)));
    let sub = ScriptNode::new("sub", ScriptOp::Sub, Operand::Const(3), Operand::Attr(Attribute::Custom(2)), Attribute::Custom(3), NodeId(9));
    sub.run(&mut s).unwrap();
    assert_eq!(s.try_get_u64(Attribute::Custom(3)), Ok(Some(0)));
    let mul = ScriptNode::new("mul", ScriptOp::Mul, Operand::Const(6), Operand::Const(7), Attribute::Custom(4), NodeId(9));
    mul.run(&mut s).unwrap();
    assert_eq!(s.try_get_u64(Attribute::Custom(4)), Ok(Some(42)));
    let eq = ScriptNode::new("eq", ScriptOp::Eq, Operand::Attr(Attribute::Custom(2)), Operand::Attr(Attribute::Custom(4)), Attribute::Custom(5), NodeId(9));
    eq.run(&mut s).unwrap();
    assert_eq!(s.try_get_attribute(Attribute::Custom(5)), Some(AttrValue::Bool(true)));
    let lt = ScriptNode::new("lt", ScriptOp::Lt, Operand::Attr(Attribute::Custom(9)), Operand::Const(1), Attribute::Custom(6), NodeId(9));
    lt.run(&mut s).unwrap();
    assert_eq!(s.try_get_attribute(Attribute::Custom(6)), Some(AttrValue::Bool(true)));
}

#[test]
fn script_reports_overflow_and_mismatch() {
    let mut s = AnimationState::new();
    let mul = ScriptNode::new("mul", ScriptOp::Mul, Operand::Const(u64::MAX), Operand::Const(2), Attribute::Custom(4), NodeId(9));
    assert!(matches!(mul.run(&mut s), Err(RunError::Overflow)));
    assert_eq!(s.try_get_attribute(Attribute::Custom(4)), None);
    s.set_attribute(Attribute::Custom(1), AttrValue::Bool(false));
    let add = ScriptNode::new("add", ScriptOp::Add, Operand::Attr(Attribute::Custom(1)), Operand::Const(2), Attribute::Custom(2), NodeId(9));
    assert!(matches!(add.run(&mut s), Err(RunError::AttributeTypeMismatch(Attribute::Custom(1)))));
}

#[test]
fn script_feeds_a_match() {
    let mut s = AnimationState::new();
    s.set_attribute(Attribute::Custom(1), AttrValue::UInt(5));
    let cond = ScriptNode::new("cond", ScriptOp::Lt, Operand::Attr(Attribute::Custom(1)), Operand::Const(10), Attribute::Custom(2), NodeId(3));
    let pick = MatchNode::new("pick", Attribute::Custom(2), vec![(AttrValue::Bool(true), NodeId(100))], NodeId(200));
    cond.run(&mut s).unwrap();
    assert!(matches!(pick.run(&mut s), Ok(NodeResult::Next(NodeId(100)))));
}

#[test]
fn larger_scale_never_gives_more_frames() {
    let mut counts = Vec::new();
    for scale in [500u64, 1000, 2000, 3000] {
        let node = ScaleNode::new("s", Attribute::Custom(9), NodeId(2));
        let mut s = AnimationState::new();
        s.set_attribute(Attribute::Frames, AttrValue::UInt(1));
        s.set_attribute(Attribute::LastFps, AttrValue::UInt(1000));
        s.set_attribute(Attribute::Custom(9), AttrValue::UInt(scale));
        node.run(&mut s).unwrap();
        counts.push(s.try_get_u64(Attribute::Frames).unwrap().unwrap());
    }
    assert_eq!(counts, vec![2, 1, 0, 0]);
}

#[test]
fn zero_scale_is_reported() {
    let node = ScaleNode::new("s", Attribute::Custom(9), NodeId(2));
    let mut s = AnimationState::new();
    s.set_attribute(Attribute::Custom(9), AttrValue::UInt(0));
    assert!(matches!(node.run(&mut s), Err(RunError::Overflow)));
}

fn frames_over_ticks(scale: u64, ticks: usize) -> u64 {
    let fps = FpsNode::new("fps", 7, NodeId(2));
    let scale_node = ScaleNode::new("scale", Attribute::Custom(9), NodeId(3));
    let mut s = AnimationState::new();
    s.set_attribute(Attribute::Custom(9), AttrValue::UInt(scale));
    let mut total = 0;
    for _ in 0..ticks {
        s.update_delta(200_000);
        fps.run(&mut s).unwrap();
        scale_node.run(&mut s).unwrap();
        total += s.try_get_u64(Attribute::Frames).unwrap().unwrap();
        s.end_tick();
    }
    total
}

#[test]
fn scaled_speed_holds_over_many_ticks() {
    // 50 ticks of 0.2 s at 7 fps are 70 frames of time
    assert_eq!(frames_over_ticks(1000, 50), 70);
    assert_eq!(frames_over_ticks(2000, 50), 35);
    assert_eq!(frames_over_ticks(500, 50), 140);
    assert_eq!(frames_over_ticks(3000, 30), 14);
}

#[test]
fn two_ticks_advance_like_one() {
    let fps = FpsNode::new("fps", 7, NodeId(2));
    let scale_node = ScaleNode::new("scale", Attribute::Custom(9), NodeId(3));
    let mut a = AnimationState::new();
    a.set_attribute(Attribute::Custom(9), AttrValue::UInt(1500));
    let mut split = 0;
    for d in [130_000u64, 370_000] {
        a.update_delta(d);
        fps.run(&mut a).unwrap();
        scale_node.run(&mut a).unwrap();
        split += a.try_get_u64(Attribute::Frames).unwrap().unwrap();
    }
    let mut b = AnimationState::new();
    b.set_attribute(Attribute::Custom(9), AttrValue::UInt(1500));
    b.update_delta(500_000);
    fps.run(&mut b).unwrap();
    scale_node.run(&mut b).unwrap();
    assert_eq!(split, b.try_get_u64(Attribute::Frames).unwrap().unwrap());
    assert_eq!(a.try_get_u64(Attribute::TimeThisFrame), b.try_get_u64(Attribute::TimeThisFrame));
}
