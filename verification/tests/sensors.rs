use isis::sensors::{
    triggered_weapons, BoidStrategyIndex, CraftWeaponsIndex, CrossReferenceIndex,
    SteeringRoutinesIndex, WeaponDesc,
};

fn sorted(mut v: Vec<u64>) -> Vec<u64> {
    v.sort();
    v
}

#[test]
fn routines_index_files_by_kind() {
    let mut index = SteeringRoutinesIndex::new();
    assert_eq!(index.kind(7), None);
    index.insert(100, 7);
    index.insert(101, 7);
    index.insert(102, 9);
    assert_eq!(index.kind(7), Some(vec![100, 101]));
    assert_eq!(index.kind(9), Some(vec![102]));
    assert_eq!(index.entt_to_kind.get(101), Some(7));
    assert_eq!(sorted(index.entt_to_kind.keys()), vec![100, 101, 102]);
}

#[test]
fn routines_index_remove_swaps_last_in() {
    let mut index = SteeringRoutinesIndex::new();
    index.insert(1, 5);
    index.insert(2, 5);
    index.insert(3, 5);
    index.remove(1);
    assert_eq!(index.kind(5), Some(vec![3, 2]));
    assert_eq!(index.entt_to_kind.get(1), None);
}

#[test]
fn routines_index_drops_emptied_kind() {
    let mut index = SteeringRoutinesIndex::new();
    index.insert(1, 5);
    index.remove(1);
    assert_eq!(index.kind(5), None);
    assert_eq!(index.kind_to_entt.len(), 0);
    assert_eq!(index.entt_to_kind.len(), 0);
}

#[test]
fn routines_index_remove_unknown_is_noop() {
    let mut index = SteeringRoutinesIndex::new();
    index.insert(1, 5);
    index.remove(42);
    assert_eq!(index.kind(5), Some(vec![1]));
    assert_eq!(index.entt_to_kind.len(), 1);
}

#[test]
fn routines_remove_after_insert_restores() {
    let mut index = SteeringRoutinesIndex::new();
    index.insert(1, 5);
    index.insert(2, 6);
    index.insert(3, 5);
    index.remove(3);
    assert_eq!(index.kind(5), Some(vec![1]));
    assert_eq!(index.kind(6), Some(vec![2]));
    assert_eq!(index.entt_to_kind.len(), 2);
}

#[test]
fn strategy_index_keeps_emptied_kind() {
    let mut index = BoidStrategyIndex::new();
    index.insert(10, 3);
    assert_eq!(index.kind(3), Some(vec![10]));
    index.remove(10);
    assert_eq!(index.kind(3), Some(vec![]));
    assert_eq!(index.entt_to_class.get(10), None);
}

#[test]
fn weapons_index_files_by_kind_and_class() {
    let mut index = CraftWeaponsIndex::new();
    index.insert(20, WeaponDesc { kind: 1, class: 100 });
    index.insert(21, WeaponDesc { kind: 1, class: 200 });
    index.insert(22, WeaponDesc { kind: 2, class: 100 });
    assert_eq!(index.kind(1), Some(vec![20, 21]));
    assert_eq!(index.class_to_entt.get(100), Some(vec![20, 22]));
    assert_eq!(sorted(index.weapons()), vec![20, 21, 22]);
    index.remove(20);
    assert_eq!(index.kind(1), Some(vec![21]));
    assert_eq!(index.class_to_entt.get(100), Some(vec![22]));
    assert_eq!(sorted(index.weapons()), vec![21, 22]);
    index.remove(21);
    assert_eq!(index.kind(1), Some(vec![]));
}

#[test]
fn triggered_weapons_follow_trigger() {
    let mut index = CraftWeaponsIndex::new();
    index.insert(5, WeaponDesc { kind: 1, class: 1 });
    index.insert(6, WeaponDesc { kind: 1, class: 1 });
    assert_eq!(sorted(triggered_weapons(&index, true)), vec![5, 6]);
    assert!(triggered_weapons(&index, false).is_empty());
}

#[test]
fn cross_reference_index_insert_remove() {
    let mut cross = CrossReferenceIndex::new();
    cross.insert(1, 50);
    cross.insert(2, 60);
    cross.insert(1, 70);
    assert_eq!(cross.remove(1), Some(70));
    assert_eq!(cross.remove(1), None);
    assert_eq!(cross.remove(2), Some(60));
}

#[test]
fn weapons_remove_after_insert_restores() {
    let mut index = CraftWeaponsIndex::new();
    index.insert(20, WeaponDesc { kind: 1, class: 100 });
    index.insert(30, WeaponDesc { kind: 3, class: 300 });
    index.remove(30);
    assert_eq!(index.kind(1), Some(vec![20]));
    assert_eq!(index.class_to_entt.get(100), Some(vec![20]));
    assert_eq!(index.kind(3), Some(vec![]));
    assert_eq!(index.class_to_entt.get(300), Some(vec![]));
    assert_eq!(sorted(index.weapons()), vec![20]);
}
