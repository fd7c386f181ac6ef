//! Dependencies between the tasks of a flow: which task is the parent of
//! which, and whether the chain of parents of some task leads back to it.

use crate::model::runer::{Task, TaskView};
use vstd::prelude::*;
use vstd::set_lib::{lemma_int_range, lemma_len_subset, set_int_range};

verus! {

/// Index of the first task with the id `id`, if there is one.
pub open spec fn position(tasks: Seq<TaskView>, id: u32) -> Option<int>
    decreases tasks.len(),
{
    if tasks.len() == 0 {
        None
    } else {
        match position(tasks.drop_last(), id) {
            Some(i) => Some(i),
            None => if tasks.last().id == id {
                Some(tasks.len() - 1)
            } else {
                None
            },
        }
    }
}

/// `position` finds a task with the id such that no task before it has the
/// id, and finds none only where no task has it.
pub proof fn lemma_position(tasks: Seq<TaskView>, id: u32)
    ensures
        match position(tasks, id) {
            Some(i) => 0 <= i < tasks.len() && tasks[i].id == id && forall|j: int|
                0 <= j < i ==> (#[trigger] tasks[j]).id != id,
            None => forall|j: int| 0 <= j < tasks.len() ==> (#[trigger] tasks[j]).id != id,
        },
    decreases tasks.len(),
{
    if tasks.len() > 0 {
        let front = tasks.drop_last();
        lemma_position(front, id);
        assert(forall|j: int| 0 <= j < front.len() ==> front[j] == tasks[j]);
        match position(front, id) {
            Some(i) => {
                assert(tasks[i] == front[i]);
                assert forall|j: int| 0 <= j < i implies (#[trigger] tasks[j]).id != id by {
                    assert(front[j].id != id);
                }
            },
            None => {
                assert forall|j: int| 0 <= j < tasks.len() - 1 implies (#[trigger] tasks[j]).id
                    != id by {
                    assert(front[j].id != id);
                }
            },
        }
    }
}

/// Whether no two tasks have the same id.
pub open spec fn distinct_ids(tasks: Seq<TaskView>) -> bool {
    forall|i: int, j: int|
        0 <= i < j < tasks.len() ==> (#[trigger] tasks[i]).id != (#[trigger] tasks[j]).id
}

/// Whether the task at `j` is the first one whose id an earlier task has
/// too.
pub open spec fn first_repeat(tasks: Seq<TaskView>, j: int) -> bool {
    &&& 0 <= j < tasks.len()
    &&& distinct_ids(tasks.take(j))
    &&& exists|i: int| 0 <= i < j && (#[trigger] tasks[i]).id == tasks[j].id
}

/// Index of the parent of the task at `i`: the first task whose id is the
/// one that the task depends on. A task without `depends`, or one that
/// depends on an id that no task has, has no parent.
pub open spec fn parent(tasks: Seq<TaskView>, i: int) -> Option<int> {
    match tasks[i].depends {
        Some(id) => position(tasks, id),
        None => None,
    }
}

/// Index of the task that is reached from the task at `i` by going to the
/// parent `k` times, if the chain of parents is that long.
pub open spec fn ancestor(tasks: Seq<TaskView>, i: int, k: nat) -> Option<int>
    decreases k,
{
    if k == 0 {
        Some(i)
    } else {
        match ancestor(tasks, i, (k - 1) as nat) {
            Some(j) => parent(tasks, j),
            None => None,
        }
    }
}

/// Whether some task is its own ancestor.
pub open spec fn cyclic(tasks: Seq<TaskView>) -> bool {
    exists|i: int, k: nat| 0 <= i < tasks.len() && k > 0 && ancestor(tasks, i, k) == Some(i)
}

/// An ancestor of a task of the flow is a task of the flow.
pub proof fn lemma_ancestor_in_range(tasks: Seq<TaskView>, i: int, k: nat)
    requires
        0 <= i < tasks.len(),
    ensures
        ancestor(tasks, i, k) matches Some(j) ==> 0 <= j < tasks.len(),
    decreases k,
{
    if k > 0 {
        lemma_ancestor_in_range(tasks, i, (k - 1) as nat);
        if let Some(j) = ancestor(tasks, i, (k - 1) as nat) {
            if let Some(id) = tasks[j].depends {
                lemma_position(tasks, id);
            }
        }
    }
}

/// Going up `a + b` times is going up `a` times and then `b` times.
pub proof fn lemma_ancestor_split(tasks: Seq<TaskView>, i: int, a: nat, b: nat)
    ensures
        ancestor(tasks, i, a + b) == match ancestor(tasks, i, a) {
            Some(j) => ancestor(tasks, j, b),
            None => None,
        },
    decreases b,
{
    if b > 0 {
        lemma_ancestor_split(tasks, i, a, (b - 1) as nat);
        assert(a + b - 1 == a + (b - 1) as nat);
    }
}

/// A chain of parents that has ended does not go on.
pub proof fn lemma_chain_stays_ended(tasks: Seq<TaskView>, i: int, a: nat, b: nat)
    requires
        a <= b,
        ancestor(tasks, i, a) is None,
    ensures
        ancestor(tasks, i, b) is None,
{
    lemma_ancestor_split(tasks, i, a, (b - a) as nat);
    assert(a + (b - a) as nat == b);
}

/// The chain of parents of a task that is its own ancestor never ends.
pub proof fn lemma_cycle_goes_on(tasks: Seq<TaskView>, i: int, k: nat, m: nat)
    requires
        k > 0,
        ancestor(tasks, i, k) == Some(i),
    ensures
        ancestor(tasks, i, m) is Some,
    decreases m,
{
    if m < k {
        if ancestor(tasks, i, m) is None {
            lemma_chain_stays_ended(tasks, i, m, k);
        }
    } else {
        lemma_cycle_goes_on(tasks, i, k, (m - k) as nat);
        lemma_ancestor_split(tasks, i, k, (m - k) as nat);
        assert(k + (m - k) as nat == m);
    }
}

/// Among more indices than there are tasks, one occurs twice.
proof fn lemma_one_occurs_twice(chain: Seq<int>, n: nat)
    requires
        chain.len() > n,
        forall|p: int| 0 <= p < chain.len() ==> 0 <= #[trigger] chain[p] < n,
    ensures
        exists|p: int, q: int| 0 <= p < q < chain.len() && chain[p] == chain[q],
{
    if chain.no_duplicates() {
        chain.unique_seq_to_set();
        lemma_int_range(0, n as int);
        assert(chain.to_set().subset_of(set_int_range(0, n as int))) by {
            assert forall|x: int| chain.to_set().contains(x) implies set_int_range(
                0,
                n as int,
            ).contains(x) by {
                let p = choose|p: int| 0 <= p < chain.len() && chain[p] == x;
                assert(0 <= chain[p] < n);
            }
        }
        lemma_len_subset(chain.to_set(), set_int_range(0, n as int));
        assert(false);
    } else {
        let (p, q) = choose|p: int, q: int|
            0 <= p < chain.len() && 0 <= q < chain.len() && p != q && chain[p] == chain[q];
        if p < q {
            assert(0 <= p < q < chain.len() && chain[p] == chain[q]);
        } else {
            assert(0 <= q < p < chain.len() && chain[q] == chain[p]);
        }
    }
}

/// A chain of parents as long as the flow passes some task twice.
pub proof fn lemma_long_chain_is_cyclic(tasks: Seq<TaskView>, i: int)
    requires
        0 <= i < tasks.len(),
        ancestor(tasks, i, tasks.len()) is Some,
    ensures
        cyclic(tasks),
{
    let n = tasks.len();
    let chain = Seq::new(n + 1, |k: int| ancestor(tasks, i, k as nat).unwrap());
    assert forall|k: int| 0 <= k < chain.len() implies ancestor(tasks, i, k as nat) is Some && 0
        <= #[trigger] chain[k] < n by {
        if ancestor(tasks, i, k as nat) is None {
            lemma_chain_stays_ended(tasks, i, k as nat, n);
        }
        lemma_ancestor_in_range(tasks, i, k as nat);
    }
    lemma_one_occurs_twice(chain, n);
    let (p, q) = choose|p: int, q: int| 0 <= p < q < chain.len() && chain[p] == chain[q];
    lemma_ancestor_split(tasks, i, p as nat, (q - p) as nat);
    assert(p as nat + (q - p) as nat == q as nat);
    assert(0 <= chain[p] < n);
    assert(ancestor(tasks, i, p as nat) == Some(chain[p]));
    assert(ancestor(tasks, i, q as nat) == Some(chain[q]));
    assert(ancestor(tasks, chain[p], (q - p) as nat) == Some(chain[p]));
}

/// A flow is free of cycles exactly if the chain of parents of each task
/// ends before it is as long as the flow.
pub proof fn lemma_acyclic_chains_end(tasks: Seq<TaskView>)
    ensures
        !cyclic(tasks) <==> forall|i: int|
            0 <= i < tasks.len() ==> ancestor(tasks, i, tasks.len()) is None,
{
    if cyclic(tasks) {
        let (i, k) = choose|i: int, k: nat|
            0 <= i < tasks.len() && k > 0 && ancestor(tasks, i, k) == Some(i);
        lemma_cycle_goes_on(tasks, i, k, tasks.len());
    } else {
        assert forall|i: int| 0 <= i < tasks.len() implies ancestor(tasks, i, tasks.len())
            is None by {
            if ancestor(tasks, i, tasks.len()) is Some {
                lemma_long_chain_is_cyclic(tasks, i);
            }
        }
    }
}

/// Finds the first task with the id `id`.
pub fn find_task(tasks: &Vec<Task>, id: u32) -> (found: Option<usize>)
    ensures
        match found {
            Some(i) => position(tasks.deep_view(), id) == Some(i as int),
            None => position(tasks.deep_view(), id) is None,
        },
{
    let ghost views = tasks.deep_view();
    let mut i: usize = 0;
    while i < tasks.len()
        invariant
            i <= tasks.len(),
            views == tasks.deep_view(),
            forall|j: int| 0 <= j < i ==> (#[trigger] views[j]).id != id,
        decreases tasks.len() - i,
    {
        if tasks[i].id == id {
            proof {
                assert(views[i as int].id == id);
                lemma_position(views, id);
                match position(views, id) {
                    Some(p) => {
                        if p < i {
                            assert(views[p].id != id);
                        } else if p > i {
                            assert(views[i as int].id != id);
                        }
                    },
                    None => {
                        assert(views[i as int].id != id);
                    },
                }
            }
            return Some(i);
        }
        assert(views[i as int].id != id);
        i += 1;
    }
    proof {
        lemma_position(views, id);
        if let Some(p) = position(views, id) {
            assert(views[p].id != id);
        }
    }
    None
}

/// Finds the parent of the task at `i`.
pub fn parent_of(tasks: &Vec<Task>, i: usize) -> (found: Option<usize>)
    requires
        i < tasks.len(),
    ensures
        match found {
            Some(j) => parent(tasks.deep_view(), i as int) == Some(j as int) && j < tasks.len(),
            None => parent(tasks.deep_view(), i as int) is None,
        },
{
    assert(tasks.deep_view()[i as int] == tasks[i as int]@);
    match tasks[i].depends {
        Some(id) => {
            proof {
                lemma_position(tasks.deep_view(), id);
            }
            find_task(tasks, id)
        },
        None => None,
    }
}

/// Walks up the chain of parents of every task. A chain that has not ended
/// after as many steps as the flow has tasks has passed some task twice.
pub fn has_cycle(tasks: &Vec<Task>) -> (found: bool)
    ensures
        found == cyclic(tasks.deep_view()),
{
    let ghost views = tasks.deep_view();
    let n = tasks.len();
    let mut i: usize = 0;
    while i < n
        invariant
            i <= n,
            n == tasks.len(),
            views == tasks.deep_view(),
            forall|s: int| 0 <= s < i ==> ancestor(views, s, n as nat) is None,
        decreases n - i,
    {
        let mut current = i;
        let mut steps: usize = 0;
        let mut ended = false;
        while steps < n && !ended
            invariant
                steps <= n,
                current < n,
                i < n,
                n == tasks.len(),
                views == tasks.deep_view(),
                !ended ==> ancestor(views, i as int, steps as nat) == Some(current as int),
                ended ==> ancestor(views, i as int, n as nat) is None,
            decreases n - steps + (if ended { 0int } else { 1int }),
        {
            match parent_of(tasks, current) {
                Some(next) => {
                    assert(ancestor(views, i as int, (steps + 1) as nat) == Some(next as int));
                    current = next;
                    steps += 1;
                },
                None => {
                    assert(ancestor(views, i as int, (steps + 1) as nat) is None);
                    proof {
                        lemma_chain_stays_ended(views, i as int, (steps + 1) as nat, n as nat);
                    }
                    ended = true;
                },
            }
        }
        if !ended {
            proof {
                lemma_long_chain_is_cyclic(views, i as int);
            }
            return true;
        }
        i += 1;
    }
    proof {
        lemma_acyclic_chains_end(views);
    }
    false
}

/// Finds the first task whose id an earlier task has too.
pub fn find_repeat(tasks: &Vec<Task>) -> (found: Option<usize>)
    ensures
        match found {
            Some(j) => first_repeat(tasks.deep_view(), j as int),
            None => distinct_ids(tasks.deep_view()),
        },
{
    let ghost views = tasks.deep_view();
    let mut j: usize = 0;
    while j < tasks.len()
        invariant
            j <= tasks.len(),
            views == tasks.deep_view(),
            distinct_ids(views.take(j as int)),
        decreases tasks.len() - j,
    {
        let first = find_task(tasks, tasks[j].id);
        proof {
            lemma_position(views, tasks[j as int].id);
            assert(views[j as int].id == tasks[j as int].id);
        }
        match first {
            Some(i) => {
                if i != j {
                    assert(i < j);
                    assert(views[i as int].id == views[j as int].id);
                    return Some(j);
                }
            },
            None => {
                assert(false);
            },
        }
        assert forall|a: int, b: int| 0 <= a < b < j + 1 implies (#[trigger] views.take(
            j + 1,
        )[a]).id != (#[trigger] views.take(j + 1)[b]).id by {
            if b < j {
                assert(views.take(j as int)[a].id != views.take(j as int)[b].id);
            } else {
                assert(views[a].id != views[j as int].id);
            }
        }
        j += 1;
    }
    assert(views.take(j as int) =~= views);
    None
}

} // verus!
