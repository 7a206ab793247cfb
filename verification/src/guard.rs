//! Locks: one per periodic task, so that no task runs twice at a time, and
//! one per principal, so that no principal withdraws twice at a time.

use vstd::prelude::*;

use crate::keyed::views;
use crate::principal::Principal;
use crate::state::{State, StateView, TaskType};

verus! {

proof fn lemma_push_to_set<T>(s: Seq<T>, x: T)
    ensures
        s.push(x).to_set() =~= s.to_set().insert(x),
{
    assert forall|y: T| s.push(x).to_set().contains(y) <==> s.to_set().insert(x).contains(y) by {
        if s.push(x).to_set().contains(y) {
            let i = choose|i: int| 0 <= i < s.push(x).len() && s.push(x)[i] == y;
            if i < s.len() {
                assert(s[i] == y);
            }
        }
        if s.to_set().contains(y) {
            let i = choose|i: int| 0 <= i < s.len() && s[i] == y;
            assert(s.push(x)[i] == y);
        }
        if y == x {
            assert(s.push(x)[s.len() as int] == y);
        }
    }
}

proof fn lemma_remove_to_set<T>(s: Seq<T>, at: int)
    requires
        s.no_duplicates(),
        0 <= at < s.len(),
    ensures
        s.remove(at).to_set() =~= s.to_set().remove(s[at]),
        s.remove(at).no_duplicates(),
{
    let t = s.remove(at);
    assert forall|y: T| t.to_set().contains(y) <==> s.to_set().remove(s[at]).contains(y) by {
        if t.to_set().contains(y) {
            let i = choose|i: int| 0 <= i < t.len() && t[i] == y;
            let j = if i < at {
                i
            } else {
                i + 1
            };
            assert(s[j] == y);
        }
        if s.to_set().remove(s[at]).contains(y) {
            let i = choose|i: int| 0 <= i < s.len() && s[i] == y;
            let j = if i < at {
                i
            } else {
                i - 1
            };
            assert(t[j] == y);
        }
    }
    assert forall|i: int, j: int| 0 <= i < t.len() && 0 <= j < t.len() && i != j implies t[i]
        != t[j] by {
        let i2 = if i < at {
            i
        } else {
            i + 1
        };
        let j2 = if j < at {
            j
        } else {
            j + 1
        };
        assert(s[i2] != s[j2]);
    }
}

fn find_task(list: &Vec<TaskType>, task: TaskType) -> (at: Option<usize>)
    ensures
        at matches Some(i) ==> i < list.len() && list@[i as int] == task,
        at is None ==> !list@.to_set().contains(task),
        at is Some ==> list@.to_set().contains(task),
{
    let mut i: usize = 0;
    while i < list.len()
        invariant
            i <= list.len(),
            forall|j: int| 0 <= j < i ==> list@[j] != task,
        decreases list.len() - i,
    {
        if list[i] == task {
            return Some(i);
        }
        i = i + 1;
    }
    None
}

fn find_principal(list: &Vec<Principal>, principal: &Principal) -> (at: Option<usize>)
    ensures
        at matches Some(i) ==> i < list.len() && list@[i as int]@ == principal@,
        at is None ==> !views(list@).to_set().contains(principal@),
        at is Some ==> views(list@).to_set().contains(principal@),
{
    let mut i: usize = 0;
    while i < list.len()
        invariant
            i <= list.len(),
            forall|j: int| 0 <= j < i ==> views(list@)[j] != principal@,
        decreases list.len() - i,
    {
        if list[i].same(principal) {
            assert(views(list@)[i as int] == principal@);
            return Some(i);
        }
        i = i + 1;
    }
    None
}

impl State {
    /// Takes the lock of a task, unless the task is running.
    pub fn lock_task(&mut self, task: TaskType) -> (locked: bool)
        requires
            old(self).wf(),
        ensures
            final(self).wf(),
            locked == !old(self)@.active_tasks.contains(task),
            final(self)@ == (StateView {
                active_tasks: old(self)@.active_tasks.insert(task),
                ..old(self)@
            }),
    {
        match find_task(&self.active_tasks, task) {
            Some(_) => {
                assert(old(self)@.active_tasks.insert(task) =~= old(self)@.active_tasks);
                false
            },
            None => {
                proof {
                    lemma_push_to_set(self.active_tasks@, task);
                }
                self.active_tasks.push(task);
                true
            },
        }
    }

    /// Gives the lock of a task back.
    pub fn unlock_task(&mut self, task: TaskType)
        requires
            old(self).wf(),
        ensures
            final(self).wf(),
            final(self)@ == (StateView {
                active_tasks: old(self)@.active_tasks.remove(task),
                ..old(self)@
            }),
    {
        match find_task(&self.active_tasks, task) {
            Some(at) => {
                proof {
                    lemma_remove_to_set(self.active_tasks@, at as int);
                }
                let _ = self.active_tasks.remove(at);
            },
            None => {
                assert(old(self)@.active_tasks.remove(task) =~= old(self)@.active_tasks);
            },
        }
    }

    /// Takes the withdrawal lock of a principal, unless a withdrawal of the
    /// principal is in flight.
    pub fn lock_withdrawal(&mut self, principal: &Principal) -> (locked: bool)
        requires
            old(self).wf(),
        ensures
            final(self).wf(),
            locked == !old(self)@.withdrawing.contains(principal@),
            final(self)@ == (StateView {
                withdrawing: old(self)@.withdrawing.insert(principal@),
                ..old(self)@
            }),
    {
        match find_principal(&self.withdrawing_principals, principal) {
            Some(_) => {
                assert(old(self)@.withdrawing.insert(principal@) =~= old(self)@.withdrawing);
                false
            },
            None => {
                let copy = principal.clone();
                proof {
                    crate::keyed::lemma_views_push(self.withdrawing_principals@, copy);
                    lemma_push_to_set(views(self.withdrawing_principals@), copy@);
                }
                self.withdrawing_principals.push(copy);
                true
            },
        }
    }

    /// Gives the withdrawal lock of a principal back.
    pub fn unlock_withdrawal(&mut self, principal: &Principal)
        requires
            old(self).wf(),
        ensures
            final(self).wf(),
            final(self)@ == (StateView {
                withdrawing: old(self)@.withdrawing.remove(principal@),
                ..old(self)@
            }),
    {
        match find_principal(&self.withdrawing_principals, principal) {
            Some(at) => {
                proof {
                    crate::keyed::lemma_views_remove(self.withdrawing_principals@, at as int);
                    lemma_remove_to_set(views(self.withdrawing_principals@), at as int);
                }
                let _ = self.withdrawing_principals.remove(at);
            },
            None => {
                assert(old(self)@.withdrawing.remove(principal@) =~= old(self)@.withdrawing);
            },
        }
    }
}

} // verus!
