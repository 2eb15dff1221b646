use sprite_anim_graph::error::LoadError;
use sprite_anim_graph::node_id::{NameRegistry, NodeId, RESERVED_LIMIT};

#[test]
fn literal_forms_give_exact_values() {
    assert_eq!(NodeId::from_literal("42"), Ok(NodeId(42)));
    assert_eq!(NodeId::from_literal("0x1F"), Ok(NodeId(31)));
    assert_eq!(NodeId::from_literal("0xff"), Ok(NodeId(255)));
    assert_eq!(NodeId::from_literal("0o17"), Ok(NodeId(15)));
    assert_eq!(NodeId::from_literal("0b101"), Ok(NodeId(5)));
    assert_eq!(NodeId::from_literal("0x0000000000000001"), Ok(NodeId(1)));
    assert_eq!(NodeId::from_literal("18446744073709551615"), Ok(NodeId(u64::MAX)));
    assert_eq!(NodeId::from_literal("0xFFFFFFFFFFFFFFFF"), Ok(NodeId(u64::MAX)));
}

#[test]
fn malformed_literals_are_refused() {
    assert_eq!(NodeId::from_literal(""), Err(LoadError::ParseError));
    assert_eq!(NodeId::from_literal("0x"), Err(LoadError::ParseError));
    assert_eq!(NodeId::from_literal("12a"), Err(LoadError::ParseError));
    assert_eq!(NodeId::from_literal("0b102"), Err(LoadError::ParseError));
    assert_eq!(NodeId::from_literal("0o8"), Err(LoadError::ParseError));
    assert_eq!(NodeId::from_literal("walk"), Err(LoadError::ParseError));
    assert_eq!(NodeId::from_literal("18446744073709551616"), Err(LoadError::ParseError));
    assert_eq!(NodeId::from_literal("0x10000000000000000"), Err(LoadError::ParseError));
}

#[test]
fn name_ids_avoid_the_reserved_range() {
    let mut reg = NameRegistry::new();
    for name in ["a", "b", "walk", "Zombie1_Idle", "Zombie_fps", "", "256", "x y"] {
        let id = NodeId::from_name(name, &mut reg);
        assert!(id.0 >= RESERVED_LIMIT);
        assert!(id.0 >= 65536);
    }
}

#[test]
fn same_name_same_id_and_trimmed() {
    let mut reg = NameRegistry::new();
    let a = NodeId::from_name("walk", &mut reg);
    let b = NodeId::from_name("walk", &mut reg);
    let c = NodeId::from_name("  walk\n", &mut reg);
    assert_eq!(a, b);
    assert_eq!(a, c);
    assert_eq!(NodeId::of_name("walk"), a);
}

#[test]
fn distinct_names_give_distinct_ids() {
    let mut reg = NameRegistry::new();
    let a = NodeId::from_name("walk", &mut reg);
    let b = NodeId::from_name("run", &mut reg);
    let c = NodeId::from_name("idle", &mut reg);
    assert_ne!(a, b);
    assert_ne!(b, c);
    assert_ne!(a, c);
}

#[test]
fn registry_records_trimmed_names() {
    let mut reg = NameRegistry::new();
    let id = NodeId::from_name("  walk ", &mut reg);
    assert_eq!(reg.lookup(id.0).map(|s| s.as_str()), Some("walk"));
    assert_eq!(id.name_or_id(&reg), "walk");
}

#[test]
fn unnamed_ids_print_in_fixed_width_hex() {
    let reg = NameRegistry::new();
    assert_eq!(NodeId(1).name_or_id(&reg), "NodeID(0x0000000000000001)");
    assert_eq!(NodeId(0xABCDEF).to_text(), "NodeID(0x0000000000ABCDEF)");
    assert_eq!(NodeId(u64::MAX).to_text(), "NodeID(0xFFFFFFFFFFFFFFFF)");
    assert_eq!(NodeId(0).to_text(), "NodeID(0x0000000000000000)");
}

#[test]
fn registering_keeps_the_first_name() {
    let mut reg = NameRegistry::new();
    reg.register(70000, "first");
    reg.register(70000, "second");
    assert_eq!(reg.lookup(70000).map(|s| s.as_str()), Some("first"));
    assert!(reg.lookup(70001).is_none());
}

#[test]
fn every_rendering_reads_back() {
    for n in [0u64, 1, 7, 255, 256, 65535, 65536, 123_456_789, u64::MAX] {
        assert_eq!(NodeId::from_literal(&format!("{}", n)), Ok(NodeId(n)));
        assert_eq!(NodeId::from_literal(&format!("0x{:x}", n)), Ok(NodeId(n)));
        assert_eq!(NodeId::from_literal(&format!("0x{:X}", n)), Ok(NodeId(n)));
        assert_eq!(NodeId::from_literal(&format!("0o{:o}", n)), Ok(NodeId(n)));
        assert_eq!(NodeId::from_literal(&format!("0b{:b}", n)), Ok(NodeId(n)));
        assert_eq!(NodeId::from_literal(&format!("0x{:016x}", n)), Ok(NodeId(n)));
        assert_eq!(NodeId::from_literal(&format!("{:05}", n)), Ok(NodeId(n)));
    }
}

#[test]
fn unicode_white_space_is_trimmed() {
    assert_eq!(NodeId::of_name("\u{3000}walk\u{a0}\u{2028}"), NodeId::of_name("walk"));
    assert_ne!(NodeId::of_name("wa lk"), NodeId::of_name("walk"));
}
