//! The stack of containers the user has opened in the current view, and what changes
//! when one is opened or closed.
use vstd::prelude::*;
use crate::gui::instructions::get_instructions;
use crate::gui::RxViewMode;
use crate::rx::rx_container::{container_at, contained_ref_of, container_uuid, ref_name, ref_uuid, RxRoot};
use crate::rx::virtual_hierarchy::RxViewFeature;
use crate::text::{str_eq, to_owned_string};
use crate::uuid_text::{uuid_hyphenated, uuid_to_string};

verus! {

/// The containers opened in the current view, by UUID, with the name and instructions the
/// user interface shows.
pub struct RxUiContainerStack {
    pub container_stack: Vec<u128>,
    pub view_mode: RxViewMode,
    pub container_name: String,
    pub instructions: String,
}

/// What changed, for the user interface to be told.
pub struct StackEvents {
    /// The UUID of the container now shown, when it changed.
    pub container_changed: Option<u128>,
    pub name_changed: bool,
    pub instructions_changed: bool,
    pub at_root_changed: bool,
}

/// The stack is at the root of the view: empty, or starting at the root.
pub open spec fn at_root(stack: Seq<u128>, root_uuid: u128) -> bool {
    stack.len() == 0 || stack[0] == root_uuid
}

/// The reference of the container with the given UUID in a view.
pub open spec fn view_get(root: RxRoot, u: u128) -> Option<crate::rx::rx_container::RxContainedRef> {
    match container_at(*root.root_container, u) {
        Some(c) => contained_ref_of(c),
        None => None,
    }
}

/// The stack after opening the container with the given UUID: the container's UUID on top
/// when the view has it, the same stack otherwise.
pub open spec fn stack_after_push(stack: Seq<u128>, root: RxRoot, u: u128) -> Seq<u128> {
    match view_get(root, u) {
        Some(c) => stack.push(ref_uuid(c)),
        None => stack,
    }
}

/// The stack after closing the top container: without its top, or empty as it was.
pub open spec fn stack_after_pop(stack: Seq<u128>) -> Seq<u128> {
    if stack.len() == 0 {
        stack
    } else {
        stack.drop_last()
    }
}

impl RxUiContainerStack {
    /// An empty stack in the default view mode.
    pub fn new() -> (r: RxUiContainerStack)
        ensures
            r.container_stack@.len() == 0,
            r.view_mode == RxViewMode::All,
            r.container_name@.len() == 0,
            r.instructions@.len() == 0,
    {
        RxUiContainerStack {
            container_stack: Vec::new(),
            view_mode: RxViewMode::All,
            container_name: String::new(),
            instructions: String::new(),
        }
    }

    /// The stack is at the root of the view.
    pub fn is_at_root(&self, root_uuid: u128) -> (r: bool)
        ensures
            r == at_root(self.container_stack@, root_uuid),
    {
        self.container_stack.len() == 0 || self.container_stack[0] == root_uuid
    }

    /// The UUID of the container on top of the stack, as text; empty when the stack is.
    pub fn get_current_container(&self) -> (r: String)
        ensures
            r@ == if self.container_stack@.len() == 0 {
                Seq::empty()
            } else {
                uuid_hyphenated(self.container_stack@.last())
            },
    {
        let n = self.container_stack.len();
        if n == 0 {
            String::new()
        } else {
            uuid_to_string(self.container_stack[n - 1])
        }
    }

    /// The view mode.
    pub fn get_view_mode(&self) -> (r: RxViewMode)
        ensures
            r == self.view_mode,
    {
        self.view_mode
    }

    /// Changes the view mode; `true` when it changed.
    pub fn set_view_mode(&mut self, value: RxViewMode) -> (changed: bool)
        ensures
            final(self).view_mode == value,
            changed == (old(self).view_mode != value),
            final(self).container_stack == old(self).container_stack,
    {
        let changed = self.view_mode != value;
        self.view_mode = value;
        changed
    }

    /// Shows the root of a view: its name and its instructions.
    pub fn init_from_view(&mut self, root: &RxRoot, feature: RxViewFeature)
        ensures
            final(self).container_stack == old(self).container_stack,
            final(self).view_mode == old(self).view_mode,
            final(self).container_name@ == match contained_ref_of(*root.root_container) {
                Some(x) => ref_name(x),
                None => "No Name"@,
            },
            (feature == RxViewFeature::NoFeature) ==> final(self).instructions@.len() == 0,
    {
        self.container_name = root.root_name();
        self.instructions = match get_instructions(&feature) {
            Some(text) => text,
            None => String::new(),
        };
    }

    /// Shows the instructions of the view's feature, if it has any; `true` when they changed.
    fn update_instructions(&mut self, feature: RxViewFeature) -> (changed: bool)
        ensures
            final(self).container_stack == old(self).container_stack,
            final(self).container_name == old(self).container_name,
            final(self).view_mode == old(self).view_mode,
            !changed ==> final(self).instructions == old(self).instructions,
            changed ==> feature == RxViewFeature::DisplayTwoFactorAuth,
            changed == (final(self).instructions@ != old(self).instructions@),
    {
        match get_instructions(&feature) {
            Some(text) => {
                if !str_eq(text.as_str(), self.instructions.as_str()) {
                    self.instructions = text;
                    true
                } else {
                    false
                }
            },
            None => false,
        }
    }

    /// Opens the container with the given UUID, when the view has it: it goes on top of the
    /// stack and its name is shown.
    pub fn push_container(&mut self, root: &RxRoot, feature: RxViewFeature, container_uuid: u128) -> (ev: StackEvents)
        ensures
            final(self).container_stack@ == stack_after_push(old(self).container_stack@, *root, container_uuid),
            match view_get(*root, container_uuid) {
                Some(c) => {
                    &&& final(self).container_name@ == ref_name(c)
                    &&& ev.container_changed == Some(container_uuid)
                    &&& ev.name_changed == (old(self).container_name@ != ref_name(c))
                    &&& ev.at_root_changed == (at_root(old(self).container_stack@, root.root_container_uuid())
                        != at_root(final(self).container_stack@, root.root_container_uuid()))
                },
                None => {
                    &&& final(self).container_name == old(self).container_name
                    &&& final(self).instructions == old(self).instructions
                    &&& ev.container_changed is None
                    &&& !ev.name_changed && !ev.instructions_changed && !ev.at_root_changed
                },
            },
            final(self).view_mode == old(self).view_mode,
            !ev.instructions_changed ==> final(self).instructions == old(self).instructions,
            ev.instructions_changed ==> feature == RxViewFeature::DisplayTwoFactorAuth,
    {
        let root_uuid = root.uuid();
        let was_at_root = self.is_at_root(root_uuid);
        match root.get(container_uuid) {
            Some(container) => {
                self.container_stack.push(container.uuid());
                let name = container.name();
                let name_changed = !str_eq(name.as_str(), self.container_name.as_str());
                if name_changed {
                    self.container_name = name;
                }
                let at_root_changed = was_at_root != self.is_at_root(root_uuid);
                let instructions_changed = self.update_instructions(feature);
                StackEvents {
                    container_changed: Some(container_uuid),
                    name_changed,
                    instructions_changed,
                    at_root_changed,
                }
            },
            None => StackEvents {
                container_changed: None,
                name_changed: false,
                instructions_changed: false,
                at_root_changed: false,
            },
        }
    }

    /// Closes the container on top of the stack and shows its parent (the view's root when
    /// the stack empties); nothing happens on an empty stack.
    pub fn pop_container(&mut self, root: &RxRoot, feature: RxViewFeature) -> (ev: StackEvents)
        ensures
            old(self).container_stack@.len() == 0 ==> {
                &&& final(self).container_name == old(self).container_name
                &&& final(self).instructions == old(self).instructions
                &&& ev.container_changed is None
                &&& !ev.name_changed && !ev.instructions_changed && !ev.at_root_changed
            },
            final(self).container_stack@ == stack_after_pop(old(self).container_stack@),
            old(self).container_stack@.len() > 0 ==> {
                let prev = old(self).container_stack@.last();
                let rest = old(self).container_stack@.drop_last();
                let shown = if rest.len() > 0 {
                    rest.last()
                } else {
                    root.root_container_uuid()
                };
                let name = match view_get(*root, shown) {
                    Some(c) => ref_name(c),
                    None => "Unknown Container"@,
                };
                &&& final(self).container_name@ == name
                &&& ev.container_changed == if shown != prev {
                    Some(shown)
                } else {
                    None
                }
                &&& ev.name_changed == (old(self).container_name@ != name)
                &&& ev.at_root_changed == (at_root(old(self).container_stack@, root.root_container_uuid())
                    != at_root(rest, root.root_container_uuid()))
            },
            final(self).view_mode == old(self).view_mode,
            !ev.instructions_changed ==> final(self).instructions == old(self).instructions,
            ev.instructions_changed ==> feature == RxViewFeature::DisplayTwoFactorAuth,
    {
        let root_uuid = root.uuid();
        let was_at_root = self.is_at_root(root_uuid);
        match self.container_stack.pop() {
            Some(prev) => {
                let n = self.container_stack.len();
                let new_uuid = if n > 0 {
                    self.container_stack[n - 1]
                } else {
                    root_uuid
                };
                let container_changed = if new_uuid != prev {
                    Some(new_uuid)
                } else {
                    None
                };
                let name = match root.get(new_uuid) {
                    Some(c) => c.name(),
                    None => to_owned_string("Unknown Container"),
                };
                let name_changed = !str_eq(name.as_str(), self.container_name.as_str());
                if name_changed {
                    self.container_name = name;
                }
                let at_root_changed = was_at_root != self.is_at_root(root_uuid);
                let instructions_changed = self.update_instructions(feature);
                StackEvents { container_changed, name_changed, instructions_changed, at_root_changed }
            },
            None => StackEvents {
                container_changed: None,
                name_changed: false,
                instructions_changed: false,
                at_root_changed: false,
            },
        }
    }
}

impl RxRoot {
    /// The UUID of the view's root container.
    pub open spec fn root_container_uuid(&self) -> u128 {
        container_uuid(*self.root_container)
    }
}

/// Opening a container the view has and closing it again leaves the stack as it was.
pub proof fn lemma_push_then_pop_restores_stack(stack: Seq<u128>, root: RxRoot, u: u128)
    requires
        view_get(root, u) is Some,
    ensures
        stack_after_pop(stack_after_push(stack, root, u)) == stack,
{
    assert(stack_after_push(stack, root, u).drop_last() =~= stack);
}

/// Closing the top container never adds to the stack, and opening one adds at most one.
pub proof fn lemma_stack_sizes(stack: Seq<u128>, root: RxRoot, u: u128)
    ensures
        stack_after_pop(stack).len() <= stack.len(),
        stack.len() <= stack_after_push(stack, root, u).len() <= stack.len() + 1,
{
}

} // verus!
