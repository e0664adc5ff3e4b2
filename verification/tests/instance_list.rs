use anima_linux::instance_list::{append_decimal, instance_rows, row_label, spawn_stored_instance, InstanceRow};
use anima_linux::spawns::{register_anima_window, SpawnRegistry, SpawnedAnima};
use anima_linux::store::InstanceSummary;

#[test]
fn decimal_forms() {
    for n in [0, 7, 10, 42, 1000, -1, -305, i32::MAX, i32::MIN].iter() {
        let mut s = String::from("x");
        append_decimal(&mut s, *n);
        assert_eq!(s, format!("x{}", n));
    }
}

#[test]
fn row_labels() {
    assert_eq!(row_label("Cat", 12, false), "Cat (ID:12)");
    assert_eq!(row_label("Cat", 12, true), "Cat (ID:12) [Running]");
    assert_eq!(row_label("", -3, false), " (ID:-3)");
}

#[test]
fn rows_of_instances() {
    let mut r = SpawnRegistry::new();
    register_anima_window(&mut r, SpawnedAnima { id: 7, instance_db_id: 3 });
    let instances = vec![
        InstanceSummary { id: 1, animation_id: 10, auto_spawn: false },
        InstanceSummary { id: 2, animation_id: 99, auto_spawn: true },
        InstanceSummary { id: 3, animation_id: 20, auto_spawn: false },
    ];
    let rows = instance_rows(&r, &instances, &vec![20, 10]);
    assert_eq!(
        rows,
        vec![
            InstanceRow { instance_index: 0, animation_index: 1, running_spawn: None },
            InstanceRow { instance_index: 2, animation_index: 0, running_spawn: Some(7) },
        ]
    );
    assert_eq!(r.running_spawn_id(3), Some(7));
    assert_eq!(r.running_spawn_id(1), None);
}

#[test]
fn spawn_button_opens_a_window() {
    let mut r = SpawnRegistry::new();
    let instances = vec![
        InstanceSummary { id: 1, animation_id: 10, auto_spawn: false },
        InstanceSummary { id: 2, animation_id: 99, auto_spawn: false },
    ];
    let anims = vec![20, 10];
    assert_eq!(
        spawn_stored_instance(&mut r, &instances, &anims, 1),
        Some((SpawnedAnima { id: 1, instance_db_id: 1 }, 0, 1))
    );
    assert_eq!(r.len(), 1);
    assert_eq!(r.instance_counter(), 1);
    // A missing animation or a deleted instance opens nothing.
    assert_eq!(spawn_stored_instance(&mut r, &instances, &anims, 2), None);
    assert_eq!(spawn_stored_instance(&mut r, &instances, &anims, 3), None);
    assert_eq!(r.len(), 1);
    assert_eq!(r.instance_counter(), 1);
}
