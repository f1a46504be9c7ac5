use widget_tree::actions::{ActionSlot, Actionable, SafeActionable, SafeToast, Toast};

#[test]
fn new_slot_is_empty() {
    let slot: ActionSlot<i32> = ActionSlot::new();
    assert_eq!(slot.action_name, None);
    assert_eq!(slot.action_target, None);
    let toast: Toast<i32> = Toast::new();
    assert_eq!(toast.action_name, None);
    assert_eq!(toast.action_target, None);
}

#[test]
fn name_and_target_are_set_apart() {
    let mut slot: ActionSlot<i32> = ActionSlot::new();
    slot.set_action_target_value(Some(4));
    assert_eq!(slot.action_name, None);
    assert_eq!(slot.action_target, Some(4));
    slot.set_action_name(Some("win.close"));
    assert_eq!(slot.action_name, Some("win.close".to_string()));
    assert_eq!(slot.action_target, Some(4));
    slot.set_action_name(None);
    assert_eq!(slot.action_name, None);
    assert_eq!(slot.action_target, Some(4));
    slot.set_action_target_value(None);
    assert_eq!(slot.action_target, None);
}

#[test]
fn action_without_value_clears_the_target() {
    let mut slot: ActionSlot<i32> = ActionSlot::new();
    slot.set_target_safe("win.zoom", 3);
    assert_eq!(slot.action_name, Some("win.zoom".to_string()));
    assert_eq!(slot.action_target, Some(3));
    slot.set_action_safe("app.quit", None);
    assert_eq!(slot.action_name, Some("app.quit".to_string()));
    assert_eq!(slot.action_target, None);
}

#[test]
fn action_with_variant_sets_its_target() {
    let mut slot: ActionSlot<String> = ActionSlot::new();
    slot.set_action_safe("app.theme", Some("dark".to_string()));
    assert_eq!(slot.action_name, Some("app.theme".to_string()));
    assert_eq!(slot.action_target, Some("dark".to_string()));
}

#[test]
fn toast_gets_name_and_target_together() {
    let mut toast: Toast<u8> = Toast::new();
    SafeToast::set_target_safe(&mut toast, "win.undo", 7);
    assert_eq!(toast.action_name, Some("win.undo".to_string()));
    assert_eq!(toast.action_target, Some(7));
    SafeToast::set_action_safe(&mut toast, "win.redo", None);
    assert_eq!(toast.action_name, Some("win.redo".to_string()));
    assert_eq!(toast.action_target, None);
}
