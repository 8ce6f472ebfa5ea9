use tubereng::ecs::{Ecs, EcsError};
use tubereng::engine::Engine;
use tubereng::input::InputEvent;
use tubereng::math::{Matrix4, Quaternion, Vector3, FP_ONE};
use tubereng::relationship::CHILD_OF;
use tubereng::render_graph::{DrawCommand, RenderGraph, RenderPass};
use tubereng::sprite::Sprite;
use tubereng::storage::{
    ComponentValue, EntityDefinition, ResourceValue, INPUT_STATE_RESOURCE,
    RENDER_GRAPH_RESOURCE, TRANSFORM_CACHE_RESOURCE, TRANSFORM_COMPONENT,
};
use tubereng::system::{Stage, System};
use tubereng::transform::{Transform, TransformCache};

fn transform_with_translation(x: i64, y: i64, z: i64) -> Transform {
    Transform {
        translation: Vector3::new(x, y, z),
        scale: Vector3::one(),
        rotation: Quaternion::identity(),
    }
}

fn transform_entity(ecs: &mut Ecs, x: i64, y: i64, z: i64) -> usize {
    let mut def = EntityDefinition::new();
    def.with(
        TRANSFORM_COMPONENT,
        ComponentValue::Transform(transform_with_translation(x, y, z)),
    );
    ecs.insert(def)
}

fn cached_matrix(ecs: &Ecs, id: usize) -> Matrix4 {
    match ecs.storage.resource(TRANSFORM_CACHE_RESOURCE) {
        Some(ResourceValue::TransformCache(cache)) => cache.get(id),
        _ => panic!("transform cache missing"),
    }
}

fn wired_ecs() -> Ecs {
    let mut ecs = Ecs::new();
    ecs.insert_resource(
        TRANSFORM_CACHE_RESOURCE,
        ResourceValue::TransformCache(TransformCache::new()),
    );
    ecs.define_relationship(CHILD_OF);
    ecs
}

#[test]
fn hierarchy_propagates_parent_translations_to_children() {
    let mut ecs = wired_ecs();
    let a = transform_entity(&mut ecs, FP_ONE, 0, 0);
    let b = transform_entity(&mut ecs, 0, FP_ONE, 0);
    assert!(ecs.storage.add_relationship_edge(CHILD_OF, b, a));
    ecs.run_single_run_system(System::ComputeEffectiveTransforms)
        .expect("cache is wired");
    let world_a = cached_matrix(&ecs, a);
    assert_eq!((world_a.m03, world_a.m13, world_a.m23), (FP_ONE, 0, 0));
    let world_b = cached_matrix(&ecs, b);
    assert_eq!((world_b.m03, world_b.m13, world_b.m23), (FP_ONE, FP_ONE, 0));
}

#[test]
fn moving_a_parent_updates_the_child_without_touching_it() {
    let mut ecs = wired_ecs();
    let a = transform_entity(&mut ecs, FP_ONE, 0, 0);
    let b = transform_entity(&mut ecs, 0, FP_ONE, 0);
    assert!(ecs.storage.add_relationship_edge(CHILD_OF, b, a));
    ecs.run_single_run_system(System::ComputeEffectiveTransforms)
        .expect("cache is wired");
    ecs.clear_dirty_flags();
    // move only A; B's own transform stays untouched and clean
    assert!(ecs.storage.set_component(
        TRANSFORM_COMPONENT,
        a,
        ComponentValue::Transform(transform_with_translation(2 * FP_ONE, 0, 0)),
    ));
    ecs.run_single_run_system(System::ComputeEffectiveTransforms)
        .expect("cache is wired");
    let world_a = cached_matrix(&ecs, a);
    assert_eq!((world_a.m03, world_a.m13, world_a.m23), (2 * FP_ONE, 0, 0));
    let world_b = cached_matrix(&ecs, b);
    assert_eq!((world_b.m03, world_b.m13, world_b.m23), (2 * FP_ONE, FP_ONE, 0));
}

#[test]
fn propagation_twice_in_one_frame_caches_the_same_matrices() {
    let mut ecs = wired_ecs();
    let a = transform_entity(&mut ecs, FP_ONE, 0, 0);
    let b = transform_entity(&mut ecs, 0, FP_ONE, 0);
    let c = transform_entity(&mut ecs, 0, 0, FP_ONE);
    assert!(ecs.storage.add_relationship_edge(CHILD_OF, b, a));
    assert!(ecs.storage.add_relationship_edge(CHILD_OF, c, b));
    ecs.run_single_run_system(System::ComputeEffectiveTransforms)
        .expect("cache is wired");
    let first = [cached_matrix(&ecs, a), cached_matrix(&ecs, b), cached_matrix(&ecs, c)];
    ecs.run_single_run_system(System::ComputeEffectiveTransforms)
        .expect("cache is wired");
    let second = [cached_matrix(&ecs, a), cached_matrix(&ecs, b), cached_matrix(&ecs, c)];
    assert_eq!(first, second);
}

#[test]
fn an_entity_without_a_parent_is_its_own_root() {
    let mut ecs = wired_ecs();
    let a = transform_entity(&mut ecs, 3 * FP_ONE, 2 * FP_ONE, FP_ONE);
    ecs.run_single_run_system(System::ComputeEffectiveTransforms)
        .expect("cache is wired");
    assert_eq!(
        cached_matrix(&ecs, a),
        transform_with_translation(3 * FP_ONE, 2 * FP_ONE, FP_ONE).as_matrix4()
    );
}

#[test]
fn propagation_without_a_child_of_graph_is_a_no_op() {
    let mut ecs = Ecs::new();
    ecs.insert_resource(
        TRANSFORM_CACHE_RESOURCE,
        ResourceValue::TransformCache(TransformCache::new()),
    );
    let a = transform_entity(&mut ecs, FP_ONE, 0, 0);
    ecs.run_single_run_system(System::ComputeEffectiveTransforms)
        .expect("cache is wired");
    assert_eq!(cached_matrix(&ecs, a), Matrix4::identity());
}

#[test]
fn a_system_with_a_missing_resource_fails_the_frame_untouched() {
    let mut ecs = Ecs::new();
    ecs.register_system(Stage::Render, System::ComputeEffectiveTransforms);
    let before = ecs.clone();
    assert_eq!(
        ecs.run_systems(),
        Err(EcsError::MissingResource(TRANSFORM_CACHE_RESOURCE))
    );
    assert_eq!(ecs, before);
    assert_eq!(
        ecs.run_single_run_system(System::AddClearPass),
        Err(EcsError::MissingResource(RENDER_GRAPH_RESOURCE))
    );
}

#[test]
fn render_passes_execute_in_registration_order() {
    let mut graph = RenderGraph::new();
    graph.add_pass(RenderPass::Clear);
    graph.add_pass(RenderPass::DrawSprites);
    // however many times prepare runs beforehand, the order stands
    graph.prepare(vec![Sprite::new(1)]);
    graph.prepare(vec![Sprite::new(1), Sprite::new(2)]);
    graph.prepare(vec![Sprite::new(7), Sprite::new(8)]);
    let commands = graph.execute();
    assert_eq!(
        commands,
        vec![
            DrawCommand::ClearTarget,
            DrawCommand::DrawSprite(Sprite::new(7)),
            DrawCommand::DrawSprite(Sprite::new(8)),
        ]
    );
}

#[test]
fn render_graph_is_rebuilt_from_scratch_after_clear() {
    let mut graph = RenderGraph::new();
    graph.add_pass(RenderPass::Clear);
    graph.prepare(vec![Sprite::new(1)]);
    graph.clear();
    assert_eq!(graph.execute(), Vec::<DrawCommand>::new());
    graph.add_pass(RenderPass::DrawSprites);
    graph.prepare(vec![Sprite::new(5)]);
    assert_eq!(graph.execute(), vec![DrawCommand::DrawSprite(Sprite::new(5))]);
}

#[test]
fn render_systems_drive_the_graph_resource() {
    let mut ecs = Ecs::new();
    ecs.insert_resource(RENDER_GRAPH_RESOURCE, ResourceValue::RenderGraph(RenderGraph::new()));
    let mut def = EntityDefinition::new();
    def.with(
        tubereng::storage::SPRITE_COMPONENT,
        ComponentValue::Sprite(Sprite::new(21)),
    );
    ecs.insert(def);
    ecs.register_system(Stage::Render, System::ClearRenderGraph);
    ecs.register_system(Stage::Render, System::AddClearPass);
    ecs.register_system(Stage::Render, System::AddDrawSpritesPass);
    ecs.register_system(Stage::FinalizeRender, System::PreparePasses);
    ecs.run_systems().expect("graph is wired");
    match ecs.storage.resource(RENDER_GRAPH_RESOURCE) {
        Some(ResourceValue::RenderGraph(graph)) => {
            assert_eq!(
                graph.execute(),
                vec![DrawCommand::ClearTarget, DrawCommand::DrawSprite(Sprite::new(21))]
            );
        },
        _ => panic!("render graph missing"),
    }
}

#[test]
fn queued_commands_apply_in_issue_order_at_the_frame_boundary() {
    let mut builder = Engine::builder();
    builder.with_application_title("ordering");
    let mut engine = builder.build();
    // frame one allocates an entity to delete later
    let mut first = EntityDefinition::new();
    first.with(7, ComponentValue::Scalar(1));
    engine.queue.insert(first);
    engine.update(16).expect("frame runs");
    let prior = 0;
    match engine.ecs.storage.component(7, prior) {
        Some(ComponentValue::Scalar(v)) => assert_eq!(*v, 1),
        _ => panic!("first entity missing"),
    }
    // frame two queues an insert and then a delete of the prior id
    let mut second = EntityDefinition::new();
    second.with(7, ComponentValue::Scalar(2));
    engine.queue.insert(second);
    engine.queue.delete(prior);
    engine.update(16).expect("frame runs");
    assert!(engine.ecs.storage.component(7, prior).is_none());
    match engine.ecs.storage.component(7, 1) {
        Some(ComponentValue::Scalar(v)) => assert_eq!(*v, 2),
        _ => panic!("second entity missing"),
    }
    assert_eq!(engine.ecs.storage.next_entity_id(), 2);
}

#[test]
fn update_clears_dirty_flags_before_the_systems_run() {
    let mut builder = Engine::builder();
    let mut engine = builder.build();
    let mut def = EntityDefinition::new();
    def.with(7, ComponentValue::Scalar(1));
    let id = engine.ecs.insert(def);
    assert!(engine.ecs.storage.dirty_state(7, id));
    engine.update(16).expect("frame runs");
    assert!(!engine.ecs.storage.dirty_state(7, id));
}

#[test]
fn engine_wires_the_propagation_system_at_the_render_stage() {
    let mut builder = Engine::builder();
    let mut engine = builder.build();
    let mut def = EntityDefinition::new();
    def.with(
        TRANSFORM_COMPONENT,
        ComponentValue::Transform(transform_with_translation(FP_ONE, FP_ONE, 0)),
    );
    let id = engine.ecs.insert(def);
    // the frame prologue clears the dirty flags, so an entity never
    // dirtied inside a frame keeps its identity-default world matrix
    engine.update(16).expect("frame runs");
    assert_eq!(cached_matrix(&engine.ecs, id), Matrix4::identity());
    // a mid-frame mutation (as a gameplay system would make) is picked
    // up by the scheduled propagation pass
    assert!(engine.ecs.storage.set_component(
        TRANSFORM_COMPONENT,
        id,
        ComponentValue::Transform(transform_with_translation(FP_ONE, FP_ONE, 0)),
    ));
    engine.ecs.run_systems().expect("schedule is wired");
    let world = cached_matrix(&engine.ecs, id);
    assert_eq!((world.m03, world.m13, world.m23), (FP_ONE, FP_ONE, 0));
}

#[test]
fn engine_title_and_init_system_flag() {
    let mut builder = Engine::builder();
    builder.with_application_title("demo");
    builder.with_init_system(System::Noop);
    let mut engine = builder.build();
    assert_eq!(engine.application_title(), "demo");
    assert!(!engine.init_system_ran);
    engine.update(16).expect("frame runs");
    assert!(engine.init_system_ran);
}

#[test]
fn input_events_reach_the_input_state_resource() {
    let mut builder = Engine::builder();
    let mut engine = builder.build();
    engine.on_input(InputEvent::KeyDown(5)).expect("input state is wired");
    engine.on_input(InputEvent::CursorMoved(10, 20)).expect("input state is wired");
    match engine.ecs.storage.resource(INPUT_STATE_RESOURCE) {
        Some(ResourceValue::InputState(state)) => {
            assert!(state.is_key_down(5));
            assert!(!state.is_key_down(6));
            assert_eq!((state.cursor_x, state.cursor_y), (10, 20));
        },
        _ => panic!("input state missing"),
    }
    engine.on_input(InputEvent::KeyUp(5)).expect("input state is wired");
    engine.on_input(InputEvent::MouseButtonDown(1)).expect("input state is wired");
    match engine.ecs.storage.resource(INPUT_STATE_RESOURCE) {
        Some(ResourceValue::InputState(state)) => {
            assert!(!state.is_key_down(5));
            assert!(state.is_button_down(1));
            assert!(!state.is_button_down(0));
        },
        _ => panic!("input state missing"),
    }
}

#[test]
fn propagation_terminates_on_a_parent_cycle() {
    let mut ecs = wired_ecs();
    let a = transform_entity(&mut ecs, FP_ONE, 0, 0);
    let b = transform_entity(&mut ecs, 0, FP_ONE, 0);
    assert!(ecs.storage.add_relationship_edge(CHILD_OF, a, b));
    assert!(ecs.storage.add_relationship_edge(CHILD_OF, b, a));
    ecs.run_single_run_system(System::ComputeEffectiveTransforms)
        .expect("cache is wired");
    // run twice: the degenerate hierarchy still caches deterministically
    let first = [cached_matrix(&ecs, a), cached_matrix(&ecs, b)];
    ecs.run_single_run_system(System::ComputeEffectiveTransforms)
        .expect("cache is wired");
    assert_eq!(first, [cached_matrix(&ecs, a), cached_matrix(&ecs, b)]);
}
