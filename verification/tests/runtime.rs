use tubereng::commands::{Command, CommandQueue};
use tubereng::math::{fp_mul, sat_add, sat_sub, Matrix4, Quaternion, Vector3, FP_ONE};
use tubereng::relationship::RelationshipGraph;
use tubereng::storage::{
    ComponentValue, EntityDefinition, ResourceValue, Storage, SPRITE_COMPONENT,
    TRANSFORM_COMPONENT,
};
use tubereng::sprite::Sprite;
use tubereng::system::{Stage, System};
use tubereng::transform::{Transform, TransformCache};

fn transform_with_translation(x: i64, y: i64, z: i64) -> Transform {
    Transform {
        translation: Vector3::new(x, y, z),
        scale: Vector3::one(),
        rotation: Quaternion::identity(),
    }
}

#[test]
fn fixed_point_multiplication_is_exact_on_unit_values() {
    assert_eq!(fp_mul(FP_ONE, FP_ONE), FP_ONE);
    assert_eq!(fp_mul(2 * FP_ONE, 512), 1024);
    assert_eq!(fp_mul(-2 * FP_ONE, 3 * FP_ONE), -6 * FP_ONE);
    assert_eq!(fp_mul(0, i64::MAX), 0);
}

#[test]
fn fixed_point_operations_saturate() {
    assert_eq!(fp_mul(i64::MAX, i64::MAX), i64::MAX);
    assert_eq!(fp_mul(i64::MAX, i64::MIN), i64::MIN);
    assert_eq!(sat_add(i64::MAX, 1), i64::MAX);
    assert_eq!(sat_add(i64::MIN, -1), i64::MIN);
    assert_eq!(sat_sub(i64::MIN, 1), i64::MIN);
    assert_eq!(sat_sub(3 * FP_ONE, FP_ONE), 2 * FP_ONE);
}

#[test]
fn identity_matrix_is_multiplicative_identity() {
    let t = Matrix4::new_translation(&Vector3::new(5 * FP_ONE, -3 * FP_ONE, 7));
    assert_eq!(Matrix4::identity().multiply(&t), t);
    assert_eq!(t.multiply(&Matrix4::identity()), t);
}

#[test]
fn translation_matrices_compose_by_adding_translations() {
    let a = Matrix4::new_translation(&Vector3::new(FP_ONE, 0, 0));
    let b = Matrix4::new_translation(&Vector3::new(0, FP_ONE, 0));
    let ab = a.multiply(&b);
    assert_eq!(ab.m03, FP_ONE);
    assert_eq!(ab.m13, FP_ONE);
    assert_eq!(ab.m23, 0);
    assert_eq!(ab.m00, FP_ONE);
    assert_eq!(ab.m33, FP_ONE);
}

#[test]
fn identity_transform_has_identity_local_matrix() {
    assert_eq!(Transform::identity().as_matrix4(), Matrix4::identity());
    assert_eq!(Transform::default().as_matrix4(), Matrix4::identity());
}

#[test]
fn transform_cache_defaults_to_identity() {
    let mut cache = TransformCache::new();
    assert_eq!(cache.get(42), Matrix4::identity());
    let m = Matrix4::new_translation(&Vector3::new(9, 9, 9));
    cache.set(2, m);
    assert_eq!(cache.get(2), m);
    assert_eq!(cache.get(1), Matrix4::identity());
    assert_eq!(cache.get(3), Matrix4::identity());
}

#[test]
fn insert_allocates_distinct_ids_even_after_delete() {
    let mut storage = Storage::new();
    let a = storage.insert(EntityDefinition::new());
    let b = storage.insert(EntityDefinition::new());
    storage.delete(a);
    let c = storage.insert(EntityDefinition::new());
    assert_eq!(a, 0);
    assert_eq!(b, 1);
    assert_eq!(c, 2);
    assert_eq!(storage.next_entity_id(), 3);
}

#[test]
fn insert_stores_bundle_and_marks_dirty() {
    let mut storage = Storage::new();
    let mut def = EntityDefinition::new();
    def.with(
        TRANSFORM_COMPONENT,
        ComponentValue::Transform(transform_with_translation(FP_ONE, 0, 0)),
    );
    def.with(7, ComponentValue::Scalar(99));
    let id = storage.insert(def);
    match storage.component(TRANSFORM_COMPONENT, id) {
        Some(ComponentValue::Transform(t)) => assert_eq!(t.translation.x, FP_ONE),
        _ => panic!("transform component missing"),
    }
    match storage.component(7, id) {
        Some(ComponentValue::Scalar(v)) => assert_eq!(*v, 99),
        _ => panic!("scalar component missing"),
    }
    assert!(storage.dirty_state(TRANSFORM_COMPONENT, id));
    assert!(storage.dirty_state(7, id));
    assert!(!storage.dirty_state(8, id));
}

#[test]
fn repeated_bundle_key_keeps_the_last_value() {
    let mut storage = Storage::new();
    let mut def = EntityDefinition::new();
    def.with(7, ComponentValue::Scalar(1));
    def.with(7, ComponentValue::Scalar(2));
    let id = storage.insert(def);
    match storage.component(7, id) {
        Some(ComponentValue::Scalar(v)) => assert_eq!(*v, 2),
        _ => panic!("scalar component missing"),
    }
}

#[test]
fn delete_removes_every_component_and_incident_edge() {
    let mut storage = Storage::new();
    let mut def = EntityDefinition::new();
    def.with(
        TRANSFORM_COMPONENT,
        ComponentValue::Transform(transform_with_translation(0, 0, 0)),
    );
    def.with(7, ComponentValue::Flag);
    let id = storage.insert(def);
    let other = storage.insert(EntityDefinition::new());
    storage.define_relationship(40);
    storage.define_relationship(41);
    assert!(storage.add_relationship_edge(40, id, other));
    assert!(storage.add_relationship_edge(41, other, id));
    storage.delete(id);
    assert!(storage.component(TRANSFORM_COMPONENT, id).is_none());
    assert!(storage.component(7, id).is_none());
    assert!(!storage.dirty_state(TRANSFORM_COMPONENT, id));
    for kind in [40, 41] {
        let graph = storage.relationship(kind).expect("relationship registered");
        assert!(graph.successors(id).is_empty());
        assert!(graph.sources(id).is_none());
    }
    // deleting again must not panic even though the entity is absent
    storage.delete(id);
}

#[test]
fn clear_dirty_flags_resets_every_flag() {
    let mut storage = Storage::new();
    let mut def = EntityDefinition::new();
    def.with(7, ComponentValue::Scalar(5));
    let id = storage.insert(def);
    assert!(storage.dirty_state(7, id));
    storage.clear_dirty_flags();
    assert!(!storage.dirty_state(7, id));
    // no mutation happened since, so the flag stays clear
    assert!(!storage.dirty_state(7, id));
}

#[test]
fn dirty_flag_holds_until_the_next_clear_and_not_longer() {
    let mut storage = Storage::new();
    let mut def = EntityDefinition::new();
    def.with(7, ComponentValue::Scalar(5));
    let id = storage.insert(def);
    // dirty in the frame of insertion, through unrelated reads
    assert!(storage.dirty_state(7, id));
    let _ = storage.component(7, id);
    assert!(storage.dirty_state(7, id));
    storage.clear_dirty_flags();
    assert!(!storage.dirty_state(7, id));
    // a replacement marks it dirty again
    assert!(storage.set_component(7, id, ComponentValue::Scalar(6)));
    assert!(storage.dirty_state(7, id));
    storage.clear_dirty_flags();
    assert!(!storage.dirty_state(7, id));
}

#[test]
fn set_component_fails_on_absent_slots() {
    let mut storage = Storage::new();
    let id = storage.insert(EntityDefinition::new());
    assert!(!storage.set_component(7, id, ComponentValue::Scalar(1)));
    assert!(storage.component(7, id).is_none());
}

#[test]
fn resources_are_singletons_per_key() {
    let mut storage = Storage::new();
    assert!(storage.resource(9).is_none());
    storage.insert_resource(9, ResourceValue::Scalar(1));
    storage.insert_resource(9, ResourceValue::Scalar(2));
    match storage.resource(9) {
        Some(ResourceValue::Scalar(v)) => assert_eq!(*v, 2),
        _ => panic!("resource missing"),
    }
    match storage.take_resource(9) {
        Some(ResourceValue::Scalar(v)) => assert_eq!(v, 2),
        _ => panic!("resource missing"),
    }
    assert!(storage.resource(9).is_none());
    assert!(storage.take_resource(9).is_none());
}

#[test]
fn define_relationship_is_idempotent() {
    let mut storage = Storage::new();
    storage.define_relationship(40);
    assert!(storage.add_relationship_edge(40, 1, 2));
    storage.define_relationship(40);
    let graph = storage.relationship(40).expect("relationship registered");
    assert_eq!(graph.successors(1), vec![2]);
    assert!(!storage.add_relationship_edge(99, 1, 2));
}

#[test]
fn leaves_are_exactly_the_ids_without_a_parent() {
    // A = 0, B = 1, C = 2, edges B -> A and C -> A
    let mut graph = RelationshipGraph::new();
    graph.add_edge(1, 0);
    graph.add_edge(2, 0);
    assert_eq!(graph.leaves(3), vec![0]);
    assert_eq!(graph.leaves(0), Vec::<usize>::new());
}

#[test]
fn graph_queries_follow_edge_order() {
    let mut graph = RelationshipGraph::new();
    graph.add_edge(1, 0);
    graph.add_edge(2, 0);
    graph.add_edge(2, 1);
    // adding a present edge keeps set semantics
    graph.add_edge(1, 0);
    assert_eq!(graph.sources(0), Some(vec![1, 2]));
    assert_eq!(graph.sources(2), None);
    assert_eq!(graph.successors(2), vec![0, 1]);
    assert_eq!(graph.successors(0), Vec::<usize>::new());
}

#[test]
fn ancestors_are_transitive_parents() {
    // chain: 2 -> 1 -> 0
    let mut graph = RelationshipGraph::new();
    graph.add_edge(1, 0);
    graph.add_edge(2, 1);
    let ancestors = graph.ancestors(2);
    assert_eq!(ancestors.len(), 2);
    assert!(ancestors.contains(&0));
    assert!(ancestors.contains(&1));
    assert_eq!(graph.ancestors(0), Vec::<usize>::new());
}

#[test]
fn command_queue_drains_in_issue_order() {
    let mut queue = CommandQueue::new();
    let mut def = EntityDefinition::new();
    def.with(7, ComponentValue::Scalar(1));
    queue.insert(def);
    queue.delete(4);
    queue.insert_resource(9, ResourceValue::Scalar(3));
    queue.register_system(Stage::Update, System::Noop);
    let drained = queue.drain();
    assert_eq!(drained.len(), 4);
    assert!(matches!(drained[0], Command::InsertEntity(_)));
    assert!(matches!(drained[1], Command::DeleteEntity(_)));
    assert!(matches!(drained[2], Command::InsertResource(_)));
    assert!(matches!(drained[3], Command::RegisterSystem(_)));
    assert!(queue.drain().is_empty());
}

#[test]
fn gather_sprites_lists_sprites_in_id_order() {
    let mut storage = Storage::new();
    let mut def_a = EntityDefinition::new();
    def_a.with(SPRITE_COMPONENT, ComponentValue::Sprite(Sprite::new(11)));
    let mut def_b = EntityDefinition::new();
    def_b.with(7, ComponentValue::Flag);
    let mut def_c = EntityDefinition::new();
    def_c.with(SPRITE_COMPONENT, ComponentValue::Sprite(Sprite::new(33)));
    storage.insert(def_a);
    storage.insert(def_b);
    storage.insert(def_c);
    assert_eq!(storage.gather_sprites(), vec![Sprite::new(11), Sprite::new(33)]);
}

#[test]
fn half_turn_quaternion_flips_x_and_y() {
    // w = 0, z = 1: a half turn around the z axis
    let q = Quaternion::new(0, Vector3::new(0, 0, FP_ONE));
    let m = q.rotation_matrix();
    assert_eq!(m.m00, -FP_ONE);
    assert_eq!(m.m11, -FP_ONE);
    assert_eq!(m.m22, FP_ONE);
    assert_eq!(m.m33, FP_ONE);
    assert_eq!((m.m01, m.m02, m.m10, m.m12, m.m20, m.m21), (0, 0, 0, 0, 0, 0));
}

#[test]
fn graph_queries_terminate_on_cycles() {
    let mut graph = RelationshipGraph::new();
    graph.add_edge(0, 1);
    graph.add_edge(1, 0);
    assert_eq!(graph.leaves(2), Vec::<usize>::new());
    let ancestors = graph.ancestors(0);
    assert!(ancestors.contains(&0));
    assert!(ancestors.contains(&1));
}
