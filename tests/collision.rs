use rhusics_ecs::collide::{
    tree_collide, BoxNarrowPhase, Contact, ContactEvent, IndexBroadPhase, NarrowPhase,
    SpatialCollisionData,
};
use rhusics_ecs::dirty::DirtySet;
use rhusics_ecs::frame::CurrentFrameUpdateSystem;
use rhusics_ecs::geometry::{compute_bound, Aabb, Pose, Shape, Velocity};
use rhusics_ecs::index::{IndexEntry, SpatialIndex};
use rhusics_ecs::system::SpatialCollisionSystem;

type System = SpatialCollisionSystem<BoxNarrowPhase, IndexBroadPhase>;

fn square(half: u32) -> Shape {
    Shape::new(half, half, 0)
}

fn sorted(mut v: Vec<u32>) -> Vec<u32> {
    v.sort();
    v
}

fn unordered(pairs: &[(u32, u32)]) -> Vec<(u32, u32)> {
    let mut v: Vec<(u32, u32)> = pairs
        .iter()
        .map(|&(a, b)| if a <= b { (a, b) } else { (b, a) })
        .collect();
    v.sort();
    v
}

#[test]
fn bound_of_box_at_pose() {
    let b = compute_bound(&Shape::new(2, 1, 0), &Pose::new(10, -5, 0));
    assert_eq!(b, Aabb { min_x: 8, min_y: -6, max_x: 12, max_y: -4 });
    let turned = compute_bound(&Shape::new(2, 1, 0), &Pose::new(10, -5, 1));
    assert_eq!(turned, Aabb { min_x: 9, min_y: -7, max_x: 11, max_y: -3 });
}

#[test]
fn bound_operations() {
    let a = Aabb { min_x: 0, min_y: 0, max_x: 4, max_y: 2 };
    let b = Aabb { min_x: 4, min_y: 1, max_x: 6, max_y: 5 };
    let c = Aabb { min_x: 5, min_y: 3, max_x: 6, max_y: 5 };
    assert!(a.overlaps(&b));
    assert!(!a.overlaps(&c));
    let u = a.union(&b);
    assert_eq!(u, Aabb { min_x: 0, min_y: 0, max_x: 6, max_y: 5 });
    assert!(u.contains(&a) && u.contains(&b) && !a.contains(&u));
    assert_eq!(a.surface_area(), 8);
    assert_eq!(u.surface_area(), 30);
}

#[test]
fn dirty_set_holds_each_changed_body_once() {
    let mut sys = System::new();
    sys.collect_dirty(&vec![3, 1], &vec![1, 7], &vec![7, 3, 9], &vec![]);
    let ids = sys.dirty.to_vec();
    assert_eq!(sorted(ids), vec![1, 3, 7, 9]);
    assert!(sys.dirty.contains(9) && !sys.dirty.contains(2));
    sys.collect_dirty(&vec![], &vec![], &vec![], &vec![]);
    assert!(sys.dirty.to_vec().is_empty());
    sys.collect_dirty(&vec![], &vec![4], &vec![], &vec![4, 4]);
    assert_eq!(sys.dirty.to_vec(), vec![4]);
}

#[test]
fn dirty_set_add_and_clear() {
    let mut d = DirtySet::new();
    d.add(5);
    d.add(5);
    d.populate(&vec![2, 5, 2]);
    assert_eq!(sorted(d.to_vec()), vec![2, 5]);
    d.clear();
    assert!(!d.contains(5));
}

#[test]
fn upsert_inserts_then_updates_in_place() {
    let mut index = SpatialIndex::new();
    let a = Aabb { min_x: 0, min_y: 0, max_x: 1, max_y: 1 };
    let b = Aabb { min_x: 5, min_y: 5, max_x: 6, max_y: 6 };
    index.upsert(4, a);
    index.upsert(2, a);
    index.upsert(4, b);
    assert_eq!(index.len(), 2);
    assert_eq!(
        index.entries(),
        vec![IndexEntry { id: 4, bound: b }, IndexEntry { id: 2, bound: a }]
    );
}

#[test]
fn refresh_twice_equals_once() {
    let shapes = vec![Some(square(1)), None, Some(square(2))];
    let poses = vec![Some(Pose::new(0, 0, 0)), Some(Pose::new(9, 9, 0)), Some(Pose::new(4, 0, 0))];
    let next_poses = vec![None, None, Some(Pose::new(7, 0, 0))];
    let mut dirty = DirtySet::new();
    dirty.populate(&vec![0, 1, 2]);
    let data = SpatialCollisionData { shapes: &shapes, poses: &poses, next_poses: &next_poses, dirty: &dirty };
    let mut index = SpatialIndex::new();
    rhusics_ecs::collide::refresh_bounds(&data, &mut index);
    let once = index.entries();
    rhusics_ecs::collide::refresh_bounds(&data, &mut index);
    assert_eq!(index.entries(), once);
    assert_eq!(once.len(), 2);
    // body 2's bound comes from its pending pose
    assert!(once.contains(&IndexEntry { id: 2, bound: Aabb { min_x: 5, min_y: -2, max_x: 9, max_y: 2 } }));
    assert!(once.contains(&IndexEntry { id: 0, bound: Aabb { min_x: -1, min_y: -1, max_x: 1, max_y: 1 } }));
}

#[test]
fn overlapping_pairs_each_once() {
    let mut index = SpatialIndex::new();
    index.upsert(0, Aabb { min_x: 0, min_y: 0, max_x: 2, max_y: 2 });
    index.upsert(1, Aabb { min_x: 1, min_y: 1, max_x: 3, max_y: 3 });
    index.upsert(2, Aabb { min_x: 2, min_y: 2, max_x: 4, max_y: 4 });
    index.upsert(3, Aabb { min_x: 10, min_y: 10, max_x: 11, max_y: 11 });
    assert_eq!(unordered(&index.overlapping_pairs()), vec![(0, 1), (0, 2), (1, 2)]);
    assert!(SpatialIndex::new().overlapping_pairs().is_empty());
}

fn two_overlapping() -> (Vec<Option<Shape>>, Vec<Option<Pose>>, Vec<Option<Pose>>) {
    (
        vec![Some(square(2)), Some(square(2))],
        vec![Some(Pose::new(0, 0, 0)), Some(Pose::new(3, 0, 0))],
        vec![None, None],
    )
}

#[test]
fn broad_phase_only_reports_candidates() {
    let (shapes, poses, next_poses) = two_overlapping();
    let mut sys = System::new().with_broad_phase(IndexBroadPhase);
    let mut index = SpatialIndex::new();
    let events = sys.run(&vec![0, 1], &vec![], &vec![], &vec![], &shapes, &poses, &next_poses, &mut index);
    assert_eq!(events.len(), 1);
    let e = events[0];
    assert_eq!(unordered(&[(e.a, e.b)]), vec![(0, 1)]);
    assert_eq!(e.contact, None);
}

#[test]
fn no_phase_configured_reports_nothing() {
    let (shapes, poses, next_poses) = two_overlapping();
    let mut sys = System::new();
    let mut index = SpatialIndex::new();
    let events = sys.run(&vec![0, 1], &vec![], &vec![], &vec![], &shapes, &poses, &next_poses, &mut index);
    assert!(events.is_empty());
    assert_eq!(index.len(), 2);
}

#[test]
fn narrow_phase_alone_is_not_run() {
    let (shapes, poses, next_poses) = two_overlapping();
    let mut sys = System::new().with_narrow_phase(BoxNarrowPhase);
    let mut index = SpatialIndex::new();
    let events = sys.run(&vec![0, 1], &vec![], &vec![], &vec![], &shapes, &poses, &next_poses, &mut index);
    assert!(events.is_empty());
}

#[test]
fn both_phases_refine_candidates() {
    let (shapes, poses, next_poses) = two_overlapping();
    let mut sys = System::new().with_broad_phase(IndexBroadPhase).with_narrow_phase(BoxNarrowPhase);
    let mut index = SpatialIndex::new();
    let events = sys.run(&vec![0, 1], &vec![], &vec![], &vec![], &shapes, &poses, &next_poses, &mut index);
    // boxes [-2,2] and [1,5] on x, [-2,2] on y: least penetration 1 along x
    assert_eq!(
        events,
        vec![ContactEvent { a: 0, b: 1, contact: Some(Contact { normal_x: 1, normal_y: 0, depth: 1 }) }]
    );
}

#[test]
fn box_narrow_phase_axis_and_miss() {
    let n = BoxNarrowPhase;
    let hit = n.collide(&square(2), &Pose::new(0, 3, 0), &square(2), &Pose::new(1, 0, 0));
    assert_eq!(hit, vec![Contact { normal_x: 0, normal_y: -1, depth: 1 }]);
    let miss = n.collide(&square(1), &Pose::new(0, 0, 0), &square(1), &Pose::new(5, 0, 0));
    assert!(miss.is_empty());
}

#[test]
fn narrow_phase_contacts_are_flattened_in_order() {
    let shapes = vec![Some(square(1)), Some(square(2)), Some(square(1))];
    let poses = vec![Some(Pose::new(0, 0, 0)), Some(Pose::new(1, 0, 0)), Some(Pose::new(9, 9, 0))];
    let next_poses = vec![None, None, Some(Pose::new(3, 0, 0))];
    let dirty = DirtySet::new();
    let data = SpatialCollisionData { shapes: &shapes, poses: &poses, next_poses: &next_poses, dirty: &dirty };
    // (0, 2) has no contact, (1, 0) and (2, 1) one each
    let candidates = vec![(1, 0), (0, 2), (2, 1)];
    let events = rhusics_ecs::collide::contact_events(&data, &candidates, &Some(BoxNarrowPhase));
    assert_eq!(
        events,
        vec![
            ContactEvent { a: 1, b: 0, contact: Some(Contact { normal_x: -1, normal_y: 0, depth: 2 }) },
            ContactEvent { a: 2, b: 1, contact: Some(Contact { normal_x: -1, normal_y: 0, depth: 1 }) },
        ]
    );
    let coarse = rhusics_ecs::collide::contact_events::<BoxNarrowPhase>(&data, &candidates, &None);
    assert_eq!(
        coarse,
        vec![
            ContactEvent { a: 1, b: 0, contact: None },
            ContactEvent { a: 0, b: 2, contact: None },
            ContactEvent { a: 2, b: 1, contact: None }
        ]
    );
}

#[test]
fn tree_collide_without_broad_phase_refreshes_only() {
    let (shapes, poses, next_poses) = two_overlapping();
    let mut dirty = DirtySet::new();
    dirty.add(1);
    let data = SpatialCollisionData { shapes: &shapes, poses: &poses, next_poses: &next_poses, dirty: &dirty };
    let mut index = SpatialIndex::new();
    let events = tree_collide::<BoxNarrowPhase, IndexBroadPhase>(&data, &mut index, &None, &Some(BoxNarrowPhase));
    assert!(events.is_empty());
    assert_eq!(index.entries(), vec![IndexEntry { id: 1, bound: Aabb { min_x: 1, min_y: -2, max_x: 5, max_y: 2 } }]);
}

#[test]
fn advance_moves_only_active_bodies() {
    let p = Pose::new(5, 5, 1);
    let q = Pose::new(-3, 8, 2);
    let start_a = Pose::new(0, 0, 0);
    let start_b = Pose::new(1, 1, 0);
    let entities = vec![Some(true), Some(false), None];
    let mut poses = vec![Some(start_a), Some(start_b), Some(start_a)];
    let next_poses = vec![Some(p), Some(q), Some(q)];
    let v = Velocity::new(2, 0, 1);
    let mut velocities = vec![Some(Velocity::new(0, 0, 0)), None, Some(Velocity::new(0, 0, 0))];
    let next_velocities = vec![Some(v), Some(v)];
    let system = CurrentFrameUpdateSystem::new();
    system.run(&entities, &mut velocities, &next_velocities, &mut poses, &next_poses);
    assert_eq!(poses, vec![Some(p), Some(start_b), Some(start_a)]);
    assert_eq!(velocities, vec![Some(v), None, Some(Velocity::new(0, 0, 0))]);
}

#[test]
fn advance_keeps_bodies_without_pending_pose() {
    let start = Pose::new(4, 4, 0);
    let entities = vec![Some(true)];
    let mut poses = vec![Some(start)];
    let mut velocities: Vec<Option<Velocity>> = vec![None];
    CurrentFrameUpdateSystem::new().run(&entities, &mut velocities, &vec![], &mut poses, &vec![None]);
    assert_eq!(poses, vec![Some(start)]);
}

#[test]
fn two_step_scenario() {
    let shapes = vec![Some(square(2)), Some(square(2))];
    let mut poses = vec![Some(Pose::new(0, 0, 0)), Some(Pose::new(3, 0, 0))];
    let mut next_poses: Vec<Option<Pose>> = vec![None, None];
    let mut index = SpatialIndex::new();
    let mut sys = System::new();

    // first sighting: insertion dirties both bodies, the index is built once
    let events = sys.run(&vec![0, 1], &vec![], &vec![], &vec![], &shapes, &poses, &next_poses, &mut index);
    assert!(events.is_empty());
    assert_eq!(index.len(), 2);
    assert_eq!(unordered(&index.overlapping_pairs()), vec![(0, 1)]);

    // no motion: empty dirty set, index unchanged
    let before = index.entries();
    sys.run(&vec![], &vec![], &vec![], &vec![], &shapes, &poses, &next_poses, &mut index);
    assert!(sys.dirty.to_vec().is_empty());
    assert_eq!(index.entries(), before);
    assert_eq!(unordered(&index.overlapping_pairs()), vec![(0, 1)]);

    // body 0's pending pose moves it away
    next_poses[0] = Some(Pose::new(-20, 0, 0));
    sys.run(&vec![], &vec![], &vec![0], &vec![], &shapes, &poses, &next_poses, &mut index);
    assert_eq!(sys.dirty.to_vec(), vec![0]);
    assert_eq!(index.len(), 2);
    assert!(index.overlapping_pairs().is_empty());

    // the advance makes the pending pose current
    let mut velocities: Vec<Option<Velocity>> = vec![None, None];
    CurrentFrameUpdateSystem::new().run(&vec![Some(true), Some(true)], &mut velocities, &vec![], &mut poses, &next_poses);
    assert_eq!(poses[0], Some(Pose::new(-20, 0, 0)));
}
