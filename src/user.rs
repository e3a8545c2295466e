//! Users and what they are permitted to do.
use vstd::prelude::*;

use std::collections::HashSet;

verus! {

/// What a user is permitted to do.
#[derive(Debug, Clone, Copy, PartialEq, Eq, Structural, Hash)]
pub struct Permissions {
    pub edit_kb: bool,
    pub receive_service_notifications: bool,
    pub receive_feedback: bool,
    pub admin: bool,
    pub manage_events: bool,
    pub send_global_notifications: bool,
}

impl Permissions {
    /// No permission at all.
    pub open spec fn none_spec() -> Permissions {
        Permissions {
            edit_kb: false,
            receive_service_notifications: false,
            receive_feedback: false,
            admin: false,
            manage_events: false,
            send_global_notifications: false,
        }
    }

    /// Every permission.
    pub open spec fn all_spec() -> Permissions {
        Permissions {
            edit_kb: true,
            receive_service_notifications: true,
            receive_feedback: true,
            admin: true,
            manage_events: true,
            send_global_notifications: true,
        }
    }

    pub fn all() -> (r: Self)
        ensures
            r == Self::all_spec(),
    {
        Permissions {
            edit_kb: true,
            receive_service_notifications: true,
            receive_feedback: true,
            admin: true,
            manage_events: true,
            send_global_notifications: true,
        }
    }

    /// Whether every permission that `required` holds is held here too.
    pub open spec fn covers_spec(self, required: Permissions) -> bool {
        &&& required.edit_kb ==> self.edit_kb
        &&& required.receive_service_notifications ==> self.receive_service_notifications
        &&& required.receive_feedback ==> self.receive_feedback
        &&& required.admin ==> self.admin
        &&& required.manage_events ==> self.manage_events
        &&& required.send_global_notifications ==> self.send_global_notifications
    }

    pub fn covers(&self, required: &Permissions) -> (r: bool)
        ensures
            r == self.covers_spec(*required),
    {
        (!required.edit_kb || self.edit_kb) && (!required.receive_service_notifications
            || self.receive_service_notifications) && (!required.receive_feedback
            || self.receive_feedback) && (!required.admin || self.admin) && (
        !required.manage_events || self.manage_events) && (!required.send_global_notifications
            || self.send_global_notifications)
    }
}

impl Default for Permissions {
    fn default() -> (r: Self)
        ensures
            r == Self::none_spec(),
    {
        Permissions {
            edit_kb: false,
            receive_service_notifications: false,
            receive_feedback: false,
            admin: false,
            manage_events: false,
            send_global_notifications: false,
        }
    }
}

/// A user: permissions and the names of the newsletters subscribed to.
#[derive(Debug)]
pub struct User {
    permissions: Permissions,
    subscriptions: HashSet<String>,
}

impl User {
    pub closed spec fn permissions_spec(&self) -> Permissions {
        self.permissions
    }

    pub closed spec fn subscriptions_spec(&self) -> HashSet<String> {
        self.subscriptions
    }

    /// A user without permissions or subscriptions.
    pub fn new() -> (r: Self)
        ensures
            r.permissions_spec() == Permissions::none_spec(),
            r.subscriptions_spec()@.len() == 0,
    {
        User {
            permissions: Permissions {
                edit_kb: false,
                receive_service_notifications: false,
                receive_feedback: false,
                admin: false,
                manage_events: false,
                send_global_notifications: false,
            },
            subscriptions: HashSet::new(),
        }
    }

    pub fn permissions(&self) -> (r: &Permissions)
        ensures
            *r == self.permissions_spec(),
    {
        &self.permissions
    }

    pub fn permissions_mut(&mut self) -> (r: &mut Permissions)
        ensures
            *r == old(self).permissions_spec(),
            final(self).permissions_spec() == *final(r),
            final(self).subscriptions_spec() == old(self).subscriptions_spec(),
    {
        &mut self.permissions
    }

    pub fn subscriptions(&self) -> (r: &HashSet<String>)
        ensures
            *r == self.subscriptions_spec(),
    {
        &self.subscriptions
    }

    pub fn subscriptions_mut(&mut self) -> (r: &mut HashSet<String>)
        ensures
            *r == old(self).subscriptions_spec(),
            final(self).subscriptions_spec() == *final(r),
            final(self).permissions_spec() == old(self).permissions_spec(),
    {
        &mut self.subscriptions
    }
}

} // verus!
