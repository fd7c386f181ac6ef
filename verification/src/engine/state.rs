//! What a run shares: the fragments of the rune, and the registry of the
//! processes that the tasks of a flow have started.

use crate::engine::error::{flow_result, FlowError, FlowErrorView};
use crate::engine::text::{join, joined, listed};
use crate::model::runer::{Blueprints, EnvBundles, Flow, Rune};
use std::collections::HashMap;
use vstd::prelude::*;

verus! {

/// What is known of the process of a task.
#[derive(Clone, Copy, Debug, PartialEq, Eq, Structural)]
pub enum HandleState {
    /// The process was started and has not been seen to end.
    Running,
    /// The process ended with success.
    Succeeded,
    /// The process ended without success, or its end could not be observed.
    Failed,
}

/// The handle registry: for each task that has started a process, what is
/// known of that process. A task has at most one entry. An entry is never
/// taken out, and only an entry that is `Running` ever changes.
#[derive(Debug)]
pub struct Registry {
    handles: HashMap<u32, HandleState>,
}

impl View for Registry {
    type V = Map<u32, HandleState>;

    closed spec fn view(&self) -> Map<u32, HandleState> {
        self.handles@
    }
}

impl Registry {
    /// A registry without entries.
    pub fn new() -> (registry: Registry)
        ensures
            registry@ == Map::<u32, HandleState>::empty(),
    {
        Registry { handles: HashMap::new() }
    }

    /// The number of entries.
    pub fn len(&self) -> (len: usize)
        ensures
            len == self@.len(),
            self@.dom().finite(),
    {
        broadcast use vstd::std_specs::hash::group_hash_axioms;

        self.handles.len()
    }

    /// What is known of the process of the task `task_id`; nothing if the
    /// task has no entry.
    pub fn status(&self, task_id: u32) -> (state: Option<HandleState>)
        ensures
            state == (if self@.contains_key(task_id) {
                Some(self@[task_id])
            } else {
                None
            }),
    {
        broadcast use vstd::std_specs::hash::group_hash_axioms;

        match self.handles.get(&task_id) {
            Some(state) => Some(*state),
            None => None,
        }
    }

    /// Enters the process of the task `task_id`. A task that has an entry
    /// keeps it, and the second entry is refused as a duplicate.
    pub fn insert(&mut self, task_id: u32, handle: HandleState) -> (result: Result<(), FlowError>)
        ensures
            old(self)@.contains_key(task_id) ==> flow_result(result) == Err::<(), FlowErrorView>(
                FlowErrorView::Duplicate(task_id),
            ) && final(self)@ == old(self)@,
            !old(self)@.contains_key(task_id) ==> result is Ok && final(self)@ == old(self)@.insert(
                task_id,
                handle,
            ),
    {
        broadcast use vstd::std_specs::hash::group_hash_axioms;

        if self.handles.contains_key(&task_id) {
            Err(FlowError::Duplicate(task_id))
        } else {
            self.handles.insert(task_id, handle);
            Ok(())
        }
    }

    /// Records that the process of the task `task_id` has ended. Only a
    /// running process can end: any other call changes nothing and says so.
    pub fn settle(&mut self, task_id: u32, succeeded: bool) -> (changed: bool)
        ensures
            changed == (old(self)@.contains_key(task_id) && old(self)@[task_id]
                == HandleState::Running),
            changed ==> final(self)@ == old(self)@.insert(
                task_id,
                if succeeded {
                    HandleState::Succeeded
                } else {
                    HandleState::Failed
                },
            ),
            !changed ==> final(self)@ == old(self)@,
    {
        broadcast use vstd::std_specs::hash::group_hash_axioms;

        match self.status(task_id) {
            Some(HandleState::Running) => {
                let state = if succeeded {
                    HandleState::Succeeded
                } else {
                    HandleState::Failed
                };
                self.handles.insert(task_id, state);
                true
            },
            _ => false,
        }
    }
}

/// The entry of the first pair of `entries` whose name is `name`.
pub open spec fn named<T>(entries: Seq<(Seq<char>, T)>, name: Seq<char>) -> Option<T>
    decreases entries.len(),
{
    if entries.len() == 0 {
        None
    } else if entries[0].0 == name {
        Some(entries[0].1)
    } else {
        named(entries.skip(1), name)
    }
}

/// Finds the entry of the first pair of `entries` whose name is `name`.
pub fn find_named<'a, T: DeepView>(entries: &'a Vec<(String, T)>, name: &String) -> (found: Option<
    &'a T,
>)
    ensures
        match found {
            Some(entry) => named(entries.deep_view(), name@) == Some(entry.deep_view()),
            None => named(entries.deep_view(), name@) is None,
        },
{
    let ghost views = entries.deep_view();
    let mut i: usize = 0;
    assert(views.skip(0) =~= views);
    while i < entries.len()
        invariant
            i <= entries.len(),
            views == entries.deep_view(),
            named(views, name@) == named(views.skip(i as int), name@),
        decreases entries.len() - i,
    {
        assert(views.skip(i as int)[0] == views[i as int]);
        assert(views[i as int] == entries[i as int].deep_view());
        if entries[i].0 == *name {
            return Some(&entries[i].1);
        }
        assert(views.skip(i as int).skip(1) =~= views.skip(i + 1));
        i += 1;
    }
    None
}

/// The names of `entries`, in order.
pub open spec fn names<T>(entries: Seq<(Seq<char>, T)>) -> Seq<Seq<char>> {
    entries.map_values(|entry: (Seq<char>, T)| entry.0)
}

/// The application state: the fragments of a rune, each of which may be
/// missing, and the handle registry.
#[derive(Debug)]
pub struct State {
    pub blueprints: Option<Blueprints>,
    pub env: Option<EnvBundles>,
    pub flows: Option<Vec<Flow>>,
    pub handles: Option<Registry>,
}

impl Default for State {
    /// The state without any fragment and without a registry.
    fn default() -> (state: State)
        ensures
            state.blueprints is None,
            state.env is None,
            state.flows is None,
            state.handles is None,
    {
        State { blueprints: None, env: None, flows: None, handles: None }
    }
}

impl State {
    /// Takes over the fragments that `rune` holds and keeps its own where
    /// `rune` holds none. With flows comes an empty handle registry.
    pub fn from_rune(self, rune: Rune) -> (state: State)
        ensures
            state.blueprints == (if rune.blueprints is Some {
                rune.blueprints
            } else {
                self.blueprints
            }),
            state.env == (if rune.env is Some {
                rune.env
            } else {
                self.env
            }),
            state.flows == (if rune.flows is Some {
                rune.flows
            } else {
                self.flows
            }),
            rune.flows is Some ==> (state.handles matches Some(registry) && registry@ == Map::<
                u32,
                HandleState,
            >::empty()),
            rune.flows is None ==> state.handles == self.handles,
    {
        let mut state = self;
        if let Some(blueprints) = rune.blueprints {
            state.blueprints = Some(blueprints);
        }
        if let Some(env) = rune.env {
            state.env = Some(env);
        }
        if let Some(flows) = rune.flows {
            state.flows = Some(flows);
            state.handles = Some(Registry::new());
        }
        state
    }

    /// The names of the blueprints, in order, one on each line.
    pub fn serialize_blueprints(self) -> (text: String)
        ensures
            text@ == joined(names(listed(self.blueprints.deep_view())), "\n"@),
    {
        let mut result: Vec<String> = Vec::new();
        assert(result.deep_view() =~= Seq::<Seq<char>>::empty());
        if let Some(blueprints) = &self.blueprints {
            let ghost views = blueprints.deep_view();
            let mut i: usize = 0;
            while i < blueprints.len()
                invariant
                    i <= blueprints.len(),
                    views == blueprints.deep_view(),
                    result.deep_view() == names(views.take(i as int)),
                decreases blueprints.len() - i,
            {
                let ghost before = result.deep_view();
                let name = blueprints[i].0.clone();
                assert(views[i as int] == blueprints[i as int].deep_view());
                result.push(name);
                assert(result.deep_view() =~= before.push(name@));
                assert(result.deep_view() =~= names(views.take(i + 1)));
                i += 1;
            }
            assert(views.take(i as int) =~= views);
        } else {
            assert(result.deep_view() =~= names(listed(self.blueprints.deep_view())));
        }
        join(&result, "\n")
    }
}

} // verus!
