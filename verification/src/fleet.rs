//! The fleet: one worker per account, each started at its own place in the
//! alphabet and stepped on its own.

use crate::model::{Account, Group};
use crate::partition::{initial_offset, start_offset};
use crate::worker::{
    fresh_worker, next_state, reaction_to, rejection, Event, Phase, Reaction, StepError, User,
    UserView,
};
use vstd::prelude::*;

verus! {

/// The workers of all configured accounts, in the order of the accounts.
pub struct Fleet {
    workers: Vec<User>,
}

impl View for Fleet {
    type V = Seq<UserView>;

    closed spec fn view(&self) -> Seq<UserView> {
        self.workers@.map_values(|w: User| w@)
    }
}

impl Fleet {
    /// Every worker is in a state that its own steps can lead to.
    pub open spec fn wf(&self) -> bool {
        forall|i: int| 0 <= i < self@.len() ==> (#[trigger] self@[i]).wf()
    }

    /// One worker per account, for the same group, none of them started:
    /// worker `i` of `n` acts for account `i` and has its cursor at the
    /// starting symbol of worker `i` of `n`.
    pub fn new(accounts: &Vec<Account>, group: &Group) -> (fleet: Fleet)
        ensures
            fleet.wf(),
            fleet@.len() == accounts.len(),
            forall|i: int|
                0 <= i < accounts.len() ==> #[trigger] fleet@[i] == fresh_worker(
                    accounts[i]@,
                    group@,
                    start_offset(i as nat, accounts.len() as nat),
                ),
    {
        let n: usize = accounts.len();
        let mut workers: Vec<User> = Vec::new();
        let mut i: usize = 0;
        while i < n
            invariant
                n == accounts.len(),
                i <= n,
                workers.len() == i,
                forall|k: int|
                    0 <= k < i ==> (#[trigger] workers[k])@ == fresh_worker(
                        accounts[k]@,
                        group@,
                        start_offset(k as nat, n as nat),
                    ),
                forall|k: int| 0 <= k < i ==> (#[trigger] workers[k]).wf(),
            decreases n - i,
        {
            let worker = User::new(accounts[i].clone(), group.clone(), initial_offset(i, n));
            workers.push(worker);
            i += 1;
        }
        Fleet { workers }
    }

    /// Number of workers.
    pub fn len(&self) -> (n: usize)
        ensures
            n == self@.len(),
    {
        self.workers.len()
    }

    /// Worker `i`.
    pub fn worker(&self, i: usize) -> (worker: &User)
        requires
            i < self@.len(),
        ensures
            worker@ == self@[i as int],
    {
        &self.workers[i]
    }

    /// Hands `event` to worker `i`, which takes one step as `User::step`
    /// describes. No other worker changes, whatever the event: a worker that
    /// stops, stops alone.
    pub fn deliver(&mut self, i: usize, event: Event) -> (result: Result<Reaction, StepError>)
        requires
            old(self).wf(),
            i < old(self)@.len(),
            old(self)@[i as int].phase == Phase::Inviting ==> old(self)@[i as int].sent < u64::MAX,
        ensures
            final(self).wf(),
            final(self)@.len() == old(self)@.len(),
            forall|j: int|
                0 <= j < old(self)@.len() && j != i ==> #[trigger] final(self)@[j] == old(self)@[j],
            result is Ok <==> rejection(old(self)@[i as int], event@) is None,
            result matches Ok(reaction) ==> final(self)@[i as int] == next_state(
                old(self)@[i as int],
                event@,
            ) && reaction@ == reaction_to(old(self)@[i as int], event@),
            result matches Err(error) ==> rejection(old(self)@[i as int], event@) == Some(error)
                && final(self)@[i as int] == old(self)@[i as int],
    {
        let ghost before = self@;
        assert(before[i as int].wf());
        let result = self.workers[i].step(event);
        proof {
            assert forall|j: int| 0 <= j < self@.len() implies (#[trigger] self@[j]).wf() by {
                if j != i {
                    assert(self@[j] == before[j]);
                    assert(before[j].wf());
                }
            }
        }
        result
    }

    /// The first worker, in the order of the accounts, that has stopped; or
    /// `None` while every worker is still running.
    pub fn first_stopped(&self) -> (found: Option<usize>)
        ensures
            match found {
                Some(i) => i < self@.len() && self@[i as int].phase == Phase::Stopped && forall|
                    j: int,
                | 0 <= j < i ==> (#[trigger] self@[j]).phase != Phase::Stopped,
                None => forall|j: int|
                    0 <= j < self@.len() ==> (#[trigger] self@[j]).phase != Phase::Stopped,
            },
    {
        let mut i: usize = 0;
        while i < self.workers.len()
            invariant
                i <= self.workers.len(),
                self@.len() == self.workers.len(),
                forall|j: int| 0 <= j < i ==> (#[trigger] self@[j]).phase != Phase::Stopped,
            decreases self.workers.len() - i,
        {
            if self.workers[i].phase() == Phase::Stopped {
                return Some(i);
            }
            i += 1;
        }
        None
    }
}

} // verus!
