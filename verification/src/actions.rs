//! Actions: giving an element of a user interface the name of an action
//! and the value that the action is called with.
//!
//! An element that can trigger an action holds two things: the full name of
//! the action, and the target value that is handed to the action when it is
//! triggered. The two are always set together here, so that a name never
//! stays with the target of another action.

use vstd::prelude::*;

verus! {

/// The value of an optional text.
pub open spec fn name_view(name: Option<&str>) -> Option<Seq<char>> {
    match name {
        Some(n) => Some(n@),
        None => None,
    }
}

/// The label of a section of a menu: a section with an empty label has
/// none.
pub fn section_label(label: &str) -> (r: Option<&str>)
    ensures
        label@.len() == 0 ==> r is None,
        label@.len() > 0 ==> r == Some(label),
{
    if label.is_empty() {
        None
    } else {
        Some(label)
    }
}

/// What an element that triggers an action offers: its name and its target
/// can be set, each without touching the other.
pub trait Actionable<V>: Sized {
    /// The full name of the action, if one is set.
    spec fn action_name(&self) -> Option<Seq<char>>;

    /// The target value, if one is set.
    spec fn action_target(&self) -> Option<V>;

    /// Sets or clears the name of the action.
    fn set_action_name(&mut self, name: Option<&str>)
        ensures
            final(self).action_name() == name_view(name),
            final(self).action_target() == old(self).action_target(),
    ;

    /// Sets or clears the target value.
    fn set_action_target_value(&mut self, target: Option<V>)
        ensures
            final(self).action_name() == old(self).action_name(),
            final(self).action_target() == target,
    ;
}

/// Elements that trigger an action when they are activated: name and
/// target are set in one step.
pub trait SafeActionable<V>: Actionable<V> {
    /// Sets the action `full_name` with the target that the action has for
    /// itself: a value where the action has variants, none where it takes
    /// no value.
    fn set_action_safe(&mut self, full_name: &str, target: Option<V>)
        ensures
            final(self).action_name() == Some(full_name@),
            final(self).action_target() == target,
    {
        self.set_action_name(Some(full_name));
        self.set_action_target_value(target);
    }

    /// Sets the action `full_name`, which takes a value, with the value
    /// `target`.
    fn set_target_safe(&mut self, full_name: &str, target: V)
        ensures
            final(self).action_name() == Some(full_name@),
            final(self).action_target() == Some(target),
    {
        self.set_action_name(Some(full_name));
        self.set_action_target_value(Some(target));
    }
}

/// What an element holds of its action: the full name, and the target value.
pub struct ActionSlot<V> {
    pub action_name: Option<String>,
    pub action_target: Option<V>,
}

impl<V> ActionSlot<V> {
    /// The full name of the action, if one is set.
    pub open spec fn name(&self) -> Option<Seq<char>> {
        match self.action_name {
            Some(n) => Some(n@),
            None => None,
        }
    }

    /// An element without an action.
    pub fn new() -> (slot: ActionSlot<V>)
        ensures
            slot.name() is None,
            slot.action_target is None,
    {
        ActionSlot { action_name: None, action_target: None }
    }
}

impl<V> Actionable<V> for ActionSlot<V> {
    open spec fn action_name(&self) -> Option<Seq<char>> {
        self.name()
    }

    open spec fn action_target(&self) -> Option<V> {
        self.action_target
    }

    fn set_action_name(&mut self, name: Option<&str>) {
        self.action_name = match name {
            Some(n) => Some(String::from_str(n)),
            None => None,
        };
    }

    fn set_action_target_value(&mut self, target: Option<V>) {
        self.action_target = target;
    }
}

impl<V> SafeActionable<V> for ActionSlot<V> {

}

/// A notification with a button that triggers an action.
pub struct Toast<V> {
    pub action_name: Option<String>,
    pub action_target: Option<V>,
}

impl<V> Toast<V> {
    /// The full name of the action of the button, if one is set.
    pub open spec fn name(&self) -> Option<Seq<char>> {
        match self.action_name {
            Some(n) => Some(n@),
            None => None,
        }
    }

    /// A notification without a button.
    pub fn new() -> (toast: Toast<V>)
        ensures
            toast.name() is None,
            toast.action_target is None,
    {
        Toast { action_name: None, action_target: None }
    }
}

/// Notifications whose button gets its action in one step.
pub trait SafeToast<V>: Sized {
    /// The full name of the action of the button, if one is set.
    spec fn toast_action_name(&self) -> Option<Seq<char>>;

    /// The target value of the button, if one is set.
    spec fn toast_action_target(&self) -> Option<V>;

    /// Sets the action `full_name` with the target that the action has for
    /// itself: a value where the action has variants, none where it takes
    /// no value.
    fn set_action_safe(&mut self, full_name: &str, target: Option<V>)
        ensures
            final(self).toast_action_name() == Some(full_name@),
            final(self).toast_action_target() == target,
    ;

    /// Sets the action `full_name`, which takes a value, with the value
    /// `target`.
    fn set_target_safe(&mut self, full_name: &str, target: V)
        ensures
            final(self).toast_action_name() == Some(full_name@),
            final(self).toast_action_target() == Some(target),
    ;
}

impl<V> SafeToast<V> for Toast<V> {
    open spec fn toast_action_name(&self) -> Option<Seq<char>> {
        self.name()
    }

    open spec fn toast_action_target(&self) -> Option<V> {
        self.action_target
    }

    fn set_action_safe(&mut self, full_name: &str, target: Option<V>) {
        self.action_name = Some(String::from_str(full_name));
        self.action_target = target;
    }

    fn set_target_safe(&mut self, full_name: &str, target: V) {
        self.action_name = Some(String::from_str(full_name));
        self.action_target = Some(target);
    }
}

} // verus!
