use sprite_anim_graph::state::{AnimationState, AttrValue, Attribute, AttributeError};
use sprite_anim_graph::node_id::NodeId;

#[test]
fn store_starts_with_zero_time_and_frames() {
    let s = AnimationState::default();
    assert_eq!(s.try_get_attribute(Attribute::Delta), Some(AttrValue::UInt(0)));
    assert_eq!(s.try_get_attribute(Attribute::Frames), Some(AttrValue::UInt(0)));
    assert_eq!(s.try_get_attribute(Attribute::LastFps), None);
    assert!(!s.changed(&Attribute::Delta));
}

#[test]
fn set_then_get_round_trips() {
    let mut s = AnimationState::new();
    s.set_attribute(Attribute::Custom(7), AttrValue::UInt(99));
    assert_eq!(s.get_attribute(Attribute::Custom(7)), AttrValue::UInt(99));
    assert_eq!(s.try_get_u64(Attribute::Custom(7)), Ok(Some(99)));
    s.set_attribute(Attribute::Custom(7), AttrValue::UInt(5));
    assert_eq!(s.get_attribute(Attribute::Custom(7)), AttrValue::UInt(5));
    assert!(s.changed(&Attribute::Custom(7)));
}

#[test]
fn reading_with_another_type_is_an_error() {
    let mut s = AnimationState::new();
    s.set_attribute(Attribute::Custom(1), AttrValue::Bool(true));
    assert_eq!(
        s.try_get_u64(Attribute::Custom(1)),
        Err(AttributeError::TypeMismatch(Attribute::Custom(1)))
    );
    assert_eq!(s.try_get_u64(Attribute::Custom(2)), Ok(None));
}

#[test]
fn temporary_marks_report_changes() {
    let mut s = AnimationState::new();
    assert!(s.set_temporary(Attribute::Custom(3)));
    assert!(!s.set_temporary(Attribute::Custom(3)));
    assert!(s.set_persistent(&Attribute::Custom(3)));
    assert!(!s.set_persistent(&Attribute::Custom(3)));
}

#[test]
fn stale_temporary_is_evicted_at_tick_end() {
    let mut s = AnimationState::new();
    s.set_attribute(Attribute::Custom(4), AttrValue::UInt(1));
    s.set_temporary(Attribute::Custom(4));
    // written in this tick: survives
    s.end_tick();
    assert_eq!(s.try_get_attribute(Attribute::Custom(4)), Some(AttrValue::UInt(1)));
    // not written in the next tick: gone
    s.end_tick();
    assert_eq!(s.try_get_attribute(Attribute::Custom(4)), None);
}

#[test]
fn key_set_every_tick_is_never_evicted() {
    let mut s = AnimationState::new();
    s.set_temporary(Attribute::Custom(5));
    for tick in 0..5u64 {
        s.set_attribute(Attribute::Custom(5), AttrValue::UInt(tick));
        s.end_tick();
        assert_eq!(s.try_get_attribute(Attribute::Custom(5)), Some(AttrValue::UInt(tick)));
    }
}

#[test]
fn persistent_key_is_kept_without_writes() {
    let mut s = AnimationState::new();
    s.set_attribute(Attribute::Custom(6), AttrValue::UInt(8));
    s.end_tick();
    s.end_tick();
    assert_eq!(s.try_get_attribute(Attribute::Custom(6)), Some(AttrValue::UInt(8)));
    assert!(!s.changed(&Attribute::Custom(6)));
}

#[test]
fn clear_and_delta_update() {
    let mut s = AnimationState::new();
    s.update_delta(16_000);
    assert_eq!(s.try_get_u64(Attribute::Delta), Ok(Some(16_000)));
    assert!(s.changed(&Attribute::Delta));
    s.clear_changed();
    assert!(!s.changed(&Attribute::Delta));
    s.clear_attribute(&Attribute::Delta);
    assert_eq!(s.try_get_attribute(Attribute::Delta), None);
}

#[test]
fn typed_reads_of_flags_and_identities() {
    let mut s = AnimationState::new();
    s.set_attribute(Attribute::Custom(1), AttrValue::Bool(true));
    s.set_attribute(Attribute::Custom(2), AttrValue::Id(NodeId(70000)));
    assert_eq!(s.try_get_bool(Attribute::Custom(1)), Ok(Some(true)));
    assert_eq!(s.try_get_id(Attribute::Custom(2)), Ok(Some(NodeId(70000))));
    assert_eq!(s.try_get_bool(Attribute::Custom(2)), Err(AttributeError::TypeMismatch(Attribute::Custom(2))));
    assert_eq!(s.try_get_id(Attribute::Frames), Err(AttributeError::TypeMismatch(Attribute::Frames)));
    assert_eq!(s.try_get_bool(Attribute::Custom(3)), Ok(None));
    assert_eq!(s.try_get_id(Attribute::Custom(3)), Ok(None));
}
