//! The users who have a multi-step action running (such as a submission
//! waiting for its text): a user may run one such action at a time.

use vstd::prelude::*;
use std::collections::HashSet;

verus! {

broadcast use vstd::std_specs::hash::group_hash_axioms;

/// The set of users with an action running.
pub struct RunningActions {
    users: HashSet<u64>,
}

impl View for RunningActions {
    type V = Set<u64>;

    closed spec fn view(&self) -> Set<u64> {
        self.users@
    }
}

impl RunningActions {
    /// Nobody has an action running.
    pub fn new() -> (r: RunningActions)
        ensures
            r@ == Set::<u64>::empty(),
    {
        RunningActions { users: HashSet::new() }
    }

    /// Starts an action for a user: refused (`false`) when the user has one
    /// running already; afterwards the user has one running either way.
    pub fn try_begin(&mut self, user_id: u64) -> (started: bool)
        ensures
            started == !old(self)@.contains(user_id),
            final(self)@ == old(self)@.insert(user_id),
    {
        self.users.insert(user_id)
    }

    /// Ends a user's action.
    pub fn finish(&mut self, user_id: u64)
        ensures
            final(self)@ == old(self)@.remove(user_id),
    {
        self.users.remove(&user_id);
    }

    /// Whether a user has an action running.
    pub fn is_running(&self, user_id: u64) -> (r: bool)
        ensures
            r == self@.contains(user_id),
    {
        self.users.contains(&user_id)
    }
}

/// A user whose action started is refused a second one until it finishes,
/// and may start again once it has.
pub proof fn lemma_one_action_at_a_time(running: Set<u64>, user_id: u64)
    ensures
        running.insert(user_id).contains(user_id),
        !running.insert(user_id).remove(user_id).contains(user_id),
{
}

} // verus!
