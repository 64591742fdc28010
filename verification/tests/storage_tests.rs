use rustymon::components::{Transform, Velocity};
use rustymon::ecs::{Entity, Storage};
use rustymon::world::World;

#[test]
fn new_storage_holds_nothing() {
    let storage: Storage<Velocity> = Storage::new();
    assert_eq!(storage.len(), 0);
    assert_eq!(storage.get(Entity { index: 0 }), None);
    assert!(!storage.contains(Entity { index: 7 }));
}

#[test]
fn insert_attaches_and_returns_what_was_there() {
    let mut storage: Storage<Transform> = Storage::new();
    let entity = Entity { index: 3 };
    assert_eq!(storage.insert(entity, Transform::at(1, 2, 0)), None);
    assert_eq!(storage.len(), 4);
    assert_eq!(storage.get(entity), Some(Transform::at(1, 2, 0)));
    assert_eq!(storage.get(Entity { index: 2 }), None);
    assert_eq!(storage.insert(entity, Transform::at(5, 6, 7)), Some(Transform::at(1, 2, 0)));
    assert_eq!(storage.get(entity), Some(Transform::at(5, 6, 7)));
    assert_eq!(storage.len(), 4);
}

#[test]
fn insert_leaves_other_entities_alone() {
    let mut storage: Storage<Transform> = Storage::new();
    storage.insert(Entity { index: 0 }, Transform::at(1, 1, 0));
    storage.insert(Entity { index: 5 }, Transform::at(2, 2, 0));
    storage.insert(Entity { index: 2 }, Transform::at(3, 3, 0));
    assert_eq!(storage.get(Entity { index: 0 }), Some(Transform::at(1, 1, 0)));
    assert_eq!(storage.get(Entity { index: 5 }), Some(Transform::at(2, 2, 0)));
    assert_eq!(storage.get(Entity { index: 2 }), Some(Transform::at(3, 3, 0)));
    assert_eq!(storage.get(Entity { index: 1 }), None);
    assert_eq!(storage.len(), 6);
}

#[test]
fn remove_detaches() {
    let mut storage: Storage<Transform> = Storage::new();
    let entity = Entity { index: 1 };
    storage.insert(entity, Transform::at(1, 2, 3));
    assert_eq!(storage.remove(entity), Some(Transform::at(1, 2, 3)));
    assert_eq!(storage.get(entity), None);
    assert_eq!(storage.remove(entity), None);
    assert_eq!(storage.remove(Entity { index: 100 }), None);
}

#[test]
fn clear_detaches_everything() {
    let mut storage: Storage<Transform> = Storage::new();
    storage.insert(Entity { index: 0 }, Transform::new());
    storage.insert(Entity { index: 1 }, Transform::new());
    storage.clear();
    assert_eq!(storage.len(), 0);
    assert!(!storage.contains(Entity { index: 0 }));
    assert!(!storage.contains(Entity { index: 1 }));
}

#[test]
fn world_hands_out_entities_in_sequence() {
    let mut world = World::new();
    assert_eq!(world.create_entity(), Entity { index: 0 });
    assert_eq!(world.create_entity(), Entity { index: 1 });
    assert_eq!(world.next_entity, 2);
    assert!(world.bounds.is_none());
}

#[test]
fn entities_lists_what_has_a_component_in_ascending_order() {
    let mut storage: Storage<Velocity> = Storage::new();
    assert_eq!(storage.entities(), Vec::<Entity>::new());
    storage.insert(Entity { index: 4 }, Velocity::new());
    storage.insert(Entity { index: 1 }, Velocity::new());
    storage.insert(Entity { index: 6 }, Velocity::new());
    storage.remove(Entity { index: 6 });
    assert_eq!(storage.entities(), vec![Entity { index: 1 }, Entity { index: 4 }]);
}
