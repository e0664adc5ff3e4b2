use anima_linux::spawns::SpawnRegistry;
use anima_linux::startup::{plan_auto_spawns, AutoSpawn};
use anima_linux::store::InstanceSummary;

fn inst(id: i32, animation_id: i32, auto_spawn: bool) -> InstanceSummary {
    InstanceSummary { id, animation_id, auto_spawn }
}

#[test]
fn plans_auto_spawn_instances_with_existing_animation() {
    let mut r = SpawnRegistry::new();
    let instances = vec![inst(1, 100, true), inst(2, 200, false), inst(3, 300, true), inst(4, 100, true)];
    let anims = vec![300, 100];
    let plan = plan_auto_spawns(&mut r, &instances, &anims, 10);
    assert_eq!(
        plan,
        vec![
            AutoSpawn { spawn_id: 1, instance_index: 0, animation_index: 1 },
            AutoSpawn { spawn_id: 2, instance_index: 2, animation_index: 0 },
            AutoSpawn { spawn_id: 3, instance_index: 3, animation_index: 1 },
        ]
    );
    assert_eq!(r.instance_counter(), 3);
    assert_eq!(r.len(), 0);
}

#[test]
fn plan_stops_at_max() {
    let mut r = SpawnRegistry::new();
    r.next_spawn_id();
    let instances = vec![inst(1, 1, true), inst(2, 1, true), inst(3, 1, true)];
    let plan = plan_auto_spawns(&mut r, &instances, &vec![1], 2);
    assert_eq!(
        plan,
        vec![
            AutoSpawn { spawn_id: 2, instance_index: 0, animation_index: 0 },
            AutoSpawn { spawn_id: 3, instance_index: 1, animation_index: 0 },
        ]
    );
    assert_eq!(r.instance_counter(), 3);
}

#[test]
fn plan_skips_missing_animations_and_zero_max() {
    let mut r = SpawnRegistry::new();
    let instances = vec![inst(1, 9, true), inst(2, 1, true)];
    let plan = plan_auto_spawns(&mut r, &instances, &vec![1, 1], 1);
    assert_eq!(plan, vec![AutoSpawn { spawn_id: 1, instance_index: 1, animation_index: 0 }]);
    let plan = plan_auto_spawns(&mut r, &instances, &vec![1], 0);
    assert!(plan.is_empty());
    assert_eq!(r.instance_counter(), 1);
    let plan = plan_auto_spawns(&mut r, &vec![], &vec![1], 5);
    assert!(plan.is_empty());
}
