use llm_inference_service::ledger::{footprint_from_size, Admission, LedgerError, ModelManager};

fn manager(capacity: u64, names: &[&str]) -> ModelManager<u32> {
    let mut m = ModelManager::new(capacity);
    for n in names {
        m.register(n).unwrap();
    }
    m
}

fn load(m: &mut ModelManager<u32>, name: &str, mb: u64, instance: u32) -> Admission {
    let a = m.load_model(name, mb).unwrap();
    if let Admission::Reserved(_) = a {
        m.commit_load(name, instance).unwrap();
    }
    a
}

#[test]
fn eviction_makes_room_for_second_model() {
    let mut m = manager(6000, &["A", "B"]);
    assert_eq!(load(&mut m, "A", 4000, 1), Admission::Reserved(vec![]));
    assert_eq!(m.used_mb(), 4000);
    assert_eq!(load(&mut m, "B", 4000, 2), Admission::Reserved(vec!["A".to_string()]));
    assert!(!m.is_loaded("A"));
    assert!(m.is_loaded("B"));
    assert_eq!(m.get_active(), Some("B".to_string()));
    assert_eq!(m.used_mb(), 4000);
    assert_eq!(m.list_loaded(), vec!["B".to_string()]);
}

#[test]
fn too_large_model_is_refused_without_eviction() {
    let mut m = manager(6000, &["A", "C"]);
    load(&mut m, "A", 4000, 1);
    assert_eq!(m.load_model("C", 9000), Err(LedgerError::CapacityExceeded));
    assert!(m.is_loaded("A"));
    assert_eq!(m.list_loaded(), vec!["A".to_string()]);
    let mut empty = manager(6000, &["C"]);
    assert_eq!(empty.load_model("C", 9000), Err(LedgerError::CapacityExceeded));
    assert!(empty.list_loaded().is_empty());
    assert_eq!(empty.used_mb(), 0);
}

#[test]
fn loading_a_loaded_model_only_activates_it() {
    let mut m = manager(10000, &["A", "B"]);
    load(&mut m, "A", 3000, 1);
    load(&mut m, "B", 3000, 2);
    assert_eq!(m.get_active(), Some("B".to_string()));
    assert_eq!(m.load_model("A", 3000), Ok(Admission::AlreadyLoaded));
    assert_eq!(m.get_active(), Some("A".to_string()));
    assert!(m.is_loaded("A") && m.is_loaded("B"));
    assert_eq!(m.used_mb(), 6000);
    assert_eq!(m.get_model("A"), Ok(&1));
}

#[test]
fn eviction_takes_least_recently_used_and_no_more() {
    let mut m = manager(10000, &["A", "B", "C", "D"]);
    load(&mut m, "A", 3000, 1);
    load(&mut m, "B", 3000, 2);
    load(&mut m, "C", 3000, 3);
    assert_eq!(load(&mut m, "D", 4000, 4), Admission::Reserved(vec!["A".to_string()]));
    assert_eq!(m.used_mb(), 10000);
    assert!(m.is_loaded("B") && m.is_loaded("C") && m.is_loaded("D"));
}

#[test]
fn recent_use_protects_a_model_from_eviction() {
    let mut m = manager(10000, &["A", "B", "C", "D"]);
    load(&mut m, "A", 3000, 1);
    load(&mut m, "B", 3000, 2);
    load(&mut m, "C", 3000, 3);
    assert_eq!(m.load_model("A", 3000), Ok(Admission::AlreadyLoaded));
    assert_eq!(load(&mut m, "D", 7000, 4), Admission::Reserved(vec!["B".to_string(), "C".to_string()]));
    assert!(m.is_loaded("A") && m.is_loaded("D"));
    assert!(!m.is_loaded("B") && !m.is_loaded("C"));
    assert_eq!(m.used_mb(), 10000);
}

#[test]
fn unloading_the_active_model_clears_the_pointer() {
    let mut m = manager(10000, &["A", "B"]);
    load(&mut m, "A", 3000, 1);
    load(&mut m, "B", 3000, 2);
    m.set_active("A").unwrap();
    m.unload_model("B").unwrap();
    assert_eq!(m.get_active(), Some("A".to_string()));
    m.unload_model("A").unwrap();
    assert_eq!(m.get_active(), None);
    assert_eq!(m.used_mb(), 0);
    assert_eq!(m.unload_model("A"), Err(LedgerError::NotLoaded));
    assert_eq!(m.unload_model("Z"), Err(LedgerError::NotLoaded));
}

#[test]
fn evicting_the_active_model_clears_the_pointer() {
    let mut m = manager(5000, &["A", "B"]);
    load(&mut m, "A", 3000, 1);
    assert_eq!(m.get_active(), Some("A".to_string()));
    assert_eq!(m.load_model("B", 3000), Ok(Admission::Reserved(vec!["A".to_string()])));
    assert_eq!(m.get_active(), None);
    m.commit_load("B", 2).unwrap();
    assert_eq!(m.get_active(), Some("B".to_string()));
}

#[test]
fn budget_holds_over_a_sequence_of_operations() {
    let mut m = manager(8000, &["A", "B", "C"]);
    let steps: Vec<(&str, u64, bool)> = vec![
        ("A", 5000, true),
        ("B", 2000, true),
        ("C", 4000, true),
        ("A", 5000, false),
        ("B", 2000, true),
        ("A", 7000, true),
    ];
    for (name, mb, load_it) in steps {
        if load_it {
            if let Ok(Admission::Reserved(_)) = m.load_model(name, mb) {
                m.commit_load(name, 0).unwrap();
            }
        } else {
            let _ = m.unload_model(name);
        }
        assert!(m.used_mb() <= m.capacity_mb());
        let sum: u64 = m.list().iter().filter(|s| s.loaded).map(|s| s.footprint_mb).sum();
        assert_eq!(sum, m.used_mb());
    }
}

#[test]
fn failed_load_rolls_back_the_reservation() {
    let mut m = manager(6000, &["A"]);
    assert_eq!(m.load_model("A", 4000), Ok(Admission::Reserved(vec![])));
    assert_eq!(m.used_mb(), 4000);
    assert_eq!(m.load_model("A", 4000), Err(LedgerError::LoadInProgress));
    assert_eq!(m.abort_load("A"), Ok(()));
    assert_eq!(m.used_mb(), 0);
    assert!(!m.is_loaded("A"));
    assert_eq!(m.abort_load("A"), Err(LedgerError::NotReserved));
    assert_eq!(m.commit_load("A", 1), Err(LedgerError::NotReserved));
}

#[test]
fn reservations_are_not_evicted() {
    let mut m = manager(6000, &["A", "B"]);
    assert_eq!(m.load_model("A", 4000), Ok(Admission::Reserved(vec![])));
    assert_eq!(m.load_model("B", 4000), Err(LedgerError::CapacityExceeded));
    assert_eq!(m.used_mb(), 4000);
}

#[test]
fn unknown_and_duplicate_names() {
    let mut m = manager(6000, &["A"]);
    assert_eq!(m.register("A"), Err(LedgerError::AlreadyRegistered));
    assert_eq!(m.load_model("Z", 10), Err(LedgerError::NotFound));
    assert_eq!(m.commit_load("Z", 1), Err(LedgerError::NotFound));
    assert_eq!(m.abort_load("Z"), Err(LedgerError::NotFound));
    assert_eq!(m.set_active("Z"), Err(LedgerError::NotFound));
    assert_eq!(m.set_active("A"), Err(LedgerError::NotLoaded));
    assert_eq!(m.get_model("Z"), Err(LedgerError::NotFound));
    assert_eq!(m.get_model("A"), Err(LedgerError::NotLoaded));
}

#[test]
fn resolve_uses_the_named_or_the_active_model() {
    let mut m = manager(6000, &["A", "B"]);
    assert_eq!(m.resolve(None).err(), Some(LedgerError::NoActiveModel));
    load(&mut m, "A", 1000, 7);
    assert_eq!(m.resolve(None).ok(), Some(("A".to_string(), &7)));
    assert_eq!(m.resolve(Some("B")).err(), Some(LedgerError::NotLoaded));
    assert_eq!(m.resolve(Some("Q")).err(), Some(LedgerError::NotFound));
}

#[test]
fn status_snapshot_lists_every_model() {
    let mut m = manager(6000, &["A", "B"]);
    load(&mut m, "B", 1200, 1);
    let list = m.list();
    assert_eq!(list.len(), 2);
    assert_eq!(list[0].name, "A");
    assert!(!list[0].loaded);
    assert_eq!(list[0].footprint_mb, 0);
    assert_eq!(list[1].name, "B");
    assert!(list[1].loaded);
    assert_eq!(list[1].footprint_mb, 1200);
}

#[test]
fn footprint_adds_overhead_to_whole_megabytes() {
    assert_eq!(footprint_from_size(4000 * 1048576), 4500);
    assert_eq!(footprint_from_size(1048575), 500);
    assert_eq!(footprint_from_size(0), 500);
    assert_eq!(footprint_from_size(u64::MAX), u64::MAX / 1048576 + 500);
}
