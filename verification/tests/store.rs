use anima_linux::store::{animation_in_use, find_animation, find_instance, is_large_import, InstanceSummary};

#[test]
fn animation_use() {
    let instances = vec![
        InstanceSummary { id: 1, animation_id: 10, auto_spawn: false },
        InstanceSummary { id: 2, animation_id: 20, auto_spawn: true },
    ];
    assert!(animation_in_use(&instances, 10));
    assert!(animation_in_use(&instances, 20));
    assert!(!animation_in_use(&instances, 30));
    assert!(!animation_in_use(&vec![], 10));
}

#[test]
fn find_first_animation() {
    assert_eq!(find_animation(&vec![4, 5, 4], 4), Some(0));
    assert_eq!(find_animation(&vec![4, 5, 4], 5), Some(1));
    assert_eq!(find_animation(&vec![4, 5, 4], 6), None);
}

#[test]
fn large_imports() {
    assert!(!is_large_import(0));
    assert!(!is_large_import(10 * 1024 * 1024));
    assert!(is_large_import(10 * 1024 * 1024 + 1));
}

#[test]
fn find_first_instance() {
    let instances = vec![
        InstanceSummary { id: 1, animation_id: 10, auto_spawn: false },
        InstanceSummary { id: 2, animation_id: 20, auto_spawn: true },
        InstanceSummary { id: 2, animation_id: 30, auto_spawn: true },
    ];
    assert_eq!(find_instance(&instances, 2), Some(1));
    assert_eq!(find_instance(&instances, 3), None);
}
