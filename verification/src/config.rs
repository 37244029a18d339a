//! The server's global configuration, and the wrappers that components use to
//! nest their configuration under a key.
use vstd::prelude::*;
use crate::strutil::str_eq;

verus! {

/// Ignored values.
#[derive(Debug, PartialEq)]
pub struct Ignored {
    /// Ids of the components that the server ignores.
    pub components: Vec<String>,
}

/// The global configuration for the server.
#[derive(Debug, PartialEq)]
pub struct Global {
    /// The things that the server ignores completely.
    pub ignored: Ignored,
}

impl Default for Ignored {
    fn default() -> (r: Self)
        ensures
            r.components@.len() == 0,
    {
        Ignored { components: Vec::new() }
    }
}

impl Default for Global {
    fn default() -> (r: Self)
        ensures
            r.ignored.components@.len() == 0,
    {
        Global { ignored: Ignored::default() }
    }
}

impl Global {
    /// Whether the component with id `component_id` is ignored.
    pub open spec fn ignores_spec(&self, component_id: Seq<char>) -> bool {
        exists|i: int| 0 <= i < self.ignored.components@.len() && #[trigger] self.ignored.components@[i]@ == component_id
    }

    /// Checks whether the component with id `component_id` is ignored.
    pub fn is_ignored(&self, component_id: &str) -> (r: bool)
        ensures
            r == self.ignores_spec(component_id@),
    {
        let mut i: usize = 0;
        while i < self.ignored.components.len()
            invariant
                i <= self.ignored.components@.len(),
                forall|j: int| 0 <= j < i ==> self.ignored.components@[j]@ != component_id@,
            decreases self.ignored.components@.len() - i,
        {
            if str_eq(self.ignored.components[i].as_str(), component_id) {
                return true;
            }
            i = i + 1;
        }
        false
    }
}

/// Whether a configuration check passes, given the ids of the components whose
/// configuration is present but invalid: it does when each of them is ignored.
pub fn check_passes(global: &Global, invalid: &Vec<String>) -> (r: bool)
    ensures
        r == forall|i: int| 0 <= i < invalid@.len() ==> global.ignores_spec(#[trigger] invalid@[i]@),
{
    let mut i: usize = 0;
    while i < invalid.len()
        invariant
            i <= invalid@.len(),
            forall|j: int| 0 <= j < i ==> global.ignores_spec(#[trigger] invalid@[j]@),
        decreases invalid@.len() - i,
    {
        if !global.is_ignored(invalid[i].as_str()) {
            return false;
        }
        i = i + 1;
    }
    true
}

/// A configuration nested under the key `status`.
#[derive(Clone, Copy, Debug, Default, PartialEq, Eq)]
pub struct Status<T> {
    /// The nested configuration.
    pub status: T,
}

impl<T> Status<T> {
    /// Wraps `val`.
    pub fn new(val: T) -> (r: Self)
        ensures
            r.status == val,
    {
        Status { status: val }
    }
}

/// A configuration nested under the key `notification` (or `notifications`, `notify`).
#[derive(Clone, Copy, Debug, Default, PartialEq, Eq)]
pub struct Notification<T> {
    /// The nested configuration.
    pub notification: T,
}

impl<T> Notification<T> {
    /// Wraps `val`.
    pub fn new(val: T) -> (r: Self)
        ensures
            r.notification == val,
    {
        Notification { notification: val }
    }
}

} // verus!
