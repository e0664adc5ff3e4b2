use anima_linux::panel::{clears_panel, title_markup, ApplyStep, EditTarget};

#[test]
fn edit_target_equality() {
    assert!(EditTarget::Library(3) == EditTarget::Library(3));
    assert!(EditTarget::Instance(3) == EditTarget::Instance(3));
    assert!(EditTarget::Library(3) != EditTarget::Library(4));
    assert!(EditTarget::Library(3) != EditTarget::Instance(3));
    assert!(EditTarget::Instance(-1) != EditTarget::Library(-1));
}

#[test]
fn headings() {
    assert_eq!(EditTarget::Library(1).heading(), "Library Default");
    assert_eq!(EditTarget::Instance(1).heading(), "Active Instance");
}

#[test]
fn title_markup_for_targets() {
    assert_eq!(
        title_markup(&EditTarget::Library(7), "Cat"),
        "<span size='large' weight='bold'>Library Default - Cat</span>"
    );
    assert_eq!(
        title_markup(&EditTarget::Instance(2), "Dog"),
        "<span size='large' weight='bold'>Active Instance - Dog</span>"
    );
}

#[test]
fn apply_steps() {
    assert_eq!(EditTarget::Library(5).apply_step(), ApplyStep::Create(5));
    assert_eq!(EditTarget::Instance(9).apply_step(), ApplyStep::Update(9));
}

#[test]
fn promoted_target_updates_on_next_apply() {
    let t = EditTarget::Library(5);
    let p = t.promoted(42);
    assert!(p == EditTarget::Instance(42));
    assert_eq!(p.apply_step(), ApplyStep::Update(42));
    // Promoting again keeps the created instance.
    assert!(p.promoted(43) == EditTarget::Instance(42));
    assert!(EditTarget::Instance(8).promoted(1) == EditTarget::Instance(8));
}

#[test]
fn panel_cleared_only_for_edited_instance() {
    assert!(clears_panel(Some(EditTarget::Instance(4)), 4));
    assert!(!clears_panel(Some(EditTarget::Instance(4)), 5));
    assert!(!clears_panel(Some(EditTarget::Library(4)), 4));
    assert!(!clears_panel(None, 4));
}
