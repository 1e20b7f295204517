use rtosu_dataprovider::instr::{phase_from_index, phase_name, Phase, PhaseRegistry, Scope, PHASE_COUNT};

#[test]
fn scope_accumulates_on_drop() {
    let mut registry = PhaseRegistry::new();
    registry.reset();
    {
        let mut scope = Scope::new(Phase::ModsState);
        registry.add_bytes(7);
        scope.fail();
        registry.close(scope);
    }
    {
        let scope = Scope::new(Phase::ModsState);
        registry.close(scope);
    }
    let stats = registry.snapshot();
    let mods = stats
        .iter()
        .find(|s| s.phase == "ModsState")
        .expect("phase");
    assert_eq!(mods.count, 2);
    assert_eq!(mods.failures, 1);
    let reads = stats
        .iter()
        .find(|s| s.phase == "ReadBytes")
        .expect("phase");
    assert_eq!(reads.bytes, 7);
}

#[test]
fn names_match_phases() {
    for i in 0..PHASE_COUNT {
        let name = phase_name(i);
        assert_eq!(Phase::ModsState.name(), "ModsState");
        assert!(!name.is_empty());
        assert!(i < PHASE_COUNT);
    }
}

#[test]
fn snapshot_lists_active_phases_most_expensive_first() {
    let mut registry = PhaseRegistry::new();
    registry.record(Phase::SoloPoll, 50, false);
    registry.record(Phase::PpLive, 200, true);
    registry.record(Phase::JsonEncode, 50, false);
    registry.record(Phase::SoloPoll, 25, false);
    let stats = registry.snapshot();
    let names: Vec<&str> = stats.iter().map(|s| s.phase).collect();
    assert_eq!(names, vec!["PpLive", "SoloPoll", "JsonEncode"]);
    assert_eq!(stats[1].count, 2);
    assert_eq!(stats[1].total_ns, 75);
    assert_eq!(stats[1].max_ns, 50);
    assert_eq!(stats[0].failures, 1);
    registry.reset();
    assert!(registry.snapshot().is_empty());
}

#[test]
fn counters_wrap_like_the_atomics() {
    let mut registry = PhaseRegistry::new();
    registry.record(Phase::ReadBytes, u64::MAX, false);
    registry.record(Phase::ReadBytes, 2, false);
    registry.add_bytes(u64::MAX);
    registry.add_bytes(3);
    let stats = registry.snapshot();
    assert_eq!(stats[0].total_ns, 1);
    assert_eq!(stats[0].max_ns, u64::MAX);
    assert_eq!(stats[0].bytes, 2);
}

#[test]
fn phase_numbers_round_trip() {
    for i in 0..PHASE_COUNT {
        let phase = phase_from_index(i).expect("phase");
        assert_eq!(phase.index(), i);
        assert_eq!(phase.name(), phase_name(i));
    }
    assert!(phase_from_index(PHASE_COUNT).is_none());
    assert_eq!(phase_name(PHASE_COUNT), "");
    assert_eq!(Phase::PacketClone.index(), 28);
}

#[test]
fn phase_names_are_distinct_and_non_empty() {
    let names: Vec<&str> = (0..PHASE_COUNT).map(phase_name).collect();
    for (i, a) in names.iter().enumerate() {
        assert!(!a.is_empty());
        for b in &names[i + 1..] {
            assert_ne!(a, b);
        }
    }
}
