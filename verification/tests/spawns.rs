use anima_linux::spawns::{register_anima_window, SpawnRegistry, SpawnedAnima};

fn ids(r: &SpawnRegistry) -> Vec<(usize, i32)> {
    (0..r.len()).map(|i| {
        let a = r.get(i);
        (a.id, a.instance_db_id)
    }).collect()
}

#[test]
fn new_registry_is_empty() {
    let r = SpawnRegistry::new();
    assert_eq!(r.len(), 0);
    assert_eq!(r.instance_counter(), 0);
}

#[test]
fn spawn_ids_count_up() {
    let mut r = SpawnRegistry::new();
    assert_eq!(r.next_spawn_id(), 1);
    assert_eq!(r.next_spawn_id(), 2);
    assert_eq!(r.next_spawn_id(), 3);
    assert_eq!(r.instance_counter(), 3);
    assert_eq!(r.len(), 0);
}

#[test]
fn register_and_find() {
    let mut r = SpawnRegistry::new();
    let a = r.next_spawn_id();
    register_anima_window(&mut r, SpawnedAnima { id: a, instance_db_id: 10 });
    let b = r.next_spawn_id();
    register_anima_window(&mut r, SpawnedAnima { id: b, instance_db_id: 20 });
    assert_eq!(ids(&r), vec![(1, 10), (2, 20)]);
    assert_eq!(r.position_of_spawn(2), Some(1));
    assert_eq!(r.position_of_spawn(3), None);
    assert_eq!(r.position_of_instance(10), Some(0));
    assert_eq!(r.position_of_instance(30), None);
    assert_eq!(r.running_spawn_id(20), Some(2));
    assert_eq!(r.running_spawn_id(30), None);
}

#[test]
fn closing_a_fresh_window_undoes_its_registration() {
    let mut r = SpawnRegistry::new();
    for db in [5, 6, 7].iter() {
        let id = r.next_spawn_id();
        register_anima_window(&mut r, SpawnedAnima { id, instance_db_id: *db });
    }
    let before = ids(&r);
    let id = r.next_spawn_id();
    register_anima_window(&mut r, SpawnedAnima { id, instance_db_id: 99 });
    assert_eq!(r.remove_spawn(id), Some(3));
    assert_eq!(ids(&r), before);
    assert_eq!(r.remove_spawn(id), None);
    assert_eq!(ids(&r), before);
}

#[test]
fn remove_spawn_in_the_middle() {
    let mut r = SpawnRegistry::new();
    for db in [5, 6, 7].iter() {
        let id = r.next_spawn_id();
        register_anima_window(&mut r, SpawnedAnima { id, instance_db_id: *db });
    }
    assert_eq!(r.remove_spawn(2), Some(1));
    assert_eq!(ids(&r), vec![(1, 5), (3, 7)]);
    assert_eq!(r.instance_counter(), 3);
}

#[test]
fn take_for_instance_takes_the_first() {
    let mut r = SpawnRegistry::new();
    register_anima_window(&mut r, SpawnedAnima { id: 1, instance_db_id: 5 });
    register_anima_window(&mut r, SpawnedAnima { id: 2, instance_db_id: 6 });
    register_anima_window(&mut r, SpawnedAnima { id: 3, instance_db_id: 6 });
    assert_eq!(r.take_for_instance(6), Some((1, SpawnedAnima { id: 2, instance_db_id: 6 })));
    assert_eq!(ids(&r), vec![(1, 5), (3, 6)]);
    assert_eq!(r.take_for_instance(8), None);
    assert_eq!(ids(&r), vec![(1, 5), (3, 6)]);
    assert_eq!(r.remove_at(0), SpawnedAnima { id: 1, instance_db_id: 5 });
    assert_eq!(ids(&r), vec![(3, 6)]);
}

#[test]
fn spawn_window_draws_and_registers() {
    let mut r = SpawnRegistry::new();
    assert_eq!(r.spawn_window(4), SpawnedAnima { id: 1, instance_db_id: 4 });
    assert_eq!(r.spawn_window(5), SpawnedAnima { id: 2, instance_db_id: 5 });
    assert_eq!(ids(&r), vec![(1, 4), (2, 5)]);
    // Closing the last window opened restores the registry.
    assert_eq!(r.remove_spawn(2), Some(1));
    assert_eq!(ids(&r), vec![(1, 4)]);
}

#[test]
fn respawn_replaces_the_window() {
    let mut r = SpawnRegistry::new();
    r.spawn_window(4);
    r.spawn_window(5);
    let (old, new) = r.respawn_instance(4);
    assert_eq!(old, Some((0, SpawnedAnima { id: 1, instance_db_id: 4 })));
    assert_eq!(new, SpawnedAnima { id: 3, instance_db_id: 4 });
    assert_eq!(ids(&r), vec![(2, 5), (3, 4)]);
    let (old, new) = r.respawn_instance(6);
    assert_eq!(old, None);
    assert_eq!(new, SpawnedAnima { id: 4, instance_db_id: 6 });
    assert_eq!(ids(&r), vec![(2, 5), (3, 4), (4, 6)]);
}
