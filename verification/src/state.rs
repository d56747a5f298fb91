//! The merged state graph that a job runs on.

use crate::action::{actions_view, Action, ActionView};
use crate::data_structure::{
    clone_transitions, names_hold, transitions_view, StateMachineMergeMode, StateMachineState,
    StateMachineTransition, StateMachineTrigger, StateMap, StateView, TransitionView, TriggerView,
};
use crate::error::{EngineError, EngineErrorView};
use vstd::prelude::*;
use vstd::string::*;

verus! {

/// A graph as a mathematical value: its states by name.
pub type Graph = Map<Seq<char>, StateView>;

/// A state with the one transition given, which replaces earlier definitions.
pub open spec fn lone_transition(
    target: Seq<char>,
    trigger: TriggerView,
    actions: Seq<ActionView>,
) -> StateView {
    StateView {
        merge: StateMachineMergeMode::Replace,
        transitions: seq![TransitionView { target, trigger, actions }],
    }
}

/// The states that every graph starts from, before any fragment is merged.
pub open spec fn builtin_states() -> Graph {
    Map::<Seq<char>, StateView>::empty().insert(
        "Init"@,
        lone_transition("SwitchDetect"@, TriggerView::Immediate, seq![ActionView::SetupJob]),
    ).insert(
        "SwitchDetect"@,
        lone_transition(
            "SwitchDetect"@,
            TriggerView::String { string: "A non-empty Data Buffering File was found."@ },
            seq![ActionView::SendLine { line: "E"@ }],
        ),
    ).insert(
        "EndJob"@,
        lone_transition("JobFinished"@, TriggerView::Immediate, seq![ActionView::FinishJob]),
    ).insert(
        "JobFinished"@,
        lone_transition(
            "JobFinished"@,
            TriggerView::String { string: "AAAAAAAAAAAAAAAAAAAAAAAAAAA"@ },
            Seq::empty(),
        ),
    )
}

/// What merging the state `incoming` under the name `key` makes of `dst`.
pub open spec fn merge_state(dst: Graph, key: Seq<char>, incoming: StateView) -> Graph {
    if dst.contains_key(key) && incoming.merge == StateMachineMergeMode::Append {
        dst.insert(
            key,
            StateView {
                merge: dst[key].merge,
                transitions: dst[key].transitions + incoming.transitions,
            },
        )
    } else {
        dst.insert(key, incoming)
    }
}

/// What merging all the states of `src` makes of `dst`: a state that only one
/// of them has is kept as it is; of a state that both have, `src` decides
/// whether its definition replaces that of `dst` or follows it.
pub open spec fn merged(dst: Graph, src: Graph) -> Graph {
    Map::new(
        |k: Seq<char>| dst.contains_key(k) || src.contains_key(k),
        |k: Seq<char>|
            if src.contains_key(k) {
                merge_state(dst, k, src[k])[k]
            } else {
                dst[k]
            },
    )
}

/// The edges that a list of transitions stands for: for each, the trigger
/// in words and the target.
pub open spec fn edges_of(ts: Seq<TransitionView>) -> Seq<(Seq<char>, Seq<char>)> {
    Seq::new(ts.len(), |i: int| (ts[i].trigger.description(), ts[i].target))
}

/// The values of a list of edges, in order.
pub open spec fn edges_view(es: Seq<(String, String)>) -> Seq<(Seq<char>, Seq<char>)> {
    Seq::new(es.len(), |i: int| (es[i].0@, es[i].1@))
}

/// Every transition of the graph leads to a state of the graph.
pub open spec fn graph_closed(g: Graph) -> bool {
    forall|k: Seq<char>, i: int|
        g.contains_key(k) && 0 <= i < g[k].transitions.len() ==> g.contains_key(
            #[trigger] g[k].transitions[i].target,
        )
}

/// What merging the states of `src` named by `keys`, one after the other,
/// makes of `dst`.
spec fn merged_upto(dst: Graph, src: Graph, keys: Seq<Seq<char>>) -> Graph
    decreases keys.len(),
{
    if keys.len() == 0 {
        dst
    } else {
        merge_state(merged_upto(dst, src, keys.drop_last()), keys.last(), src[keys.last()])
    }
}

proof fn lemma_merged_upto(dst: Graph, src: Graph, keys: Seq<Seq<char>>, k: Seq<char>)
    requires
        forall|i: int, j: int| 0 <= i < j < keys.len() ==> keys[i] != keys[j],
    ensures
        merged_upto(dst, src, keys).contains_key(k) <==> dst.contains_key(k) || keys.contains(k),
        keys.contains(k) ==> merged_upto(dst, src, keys)[k] == merge_state(dst, k, src[k])[k],
        !keys.contains(k) ==> merged_upto(dst, src, keys)[k] == dst[k],
    decreases keys.len(),
{
    if keys.len() > 0 {
        let front = keys.drop_last();
        lemma_merged_upto(dst, src, front, k);
        lemma_merged_upto(dst, src, front, keys.last());
        assert(!front.contains(keys.last())) by {
            if front.contains(keys.last()) {
                let i = choose|i: int| 0 <= i < front.len() && front[i] == keys.last();
                assert(keys[i] == keys[keys.len() - 1]);
            }
        }
        if keys.last() == k {
            assert(keys[keys.len() - 1] == k);
        } else {
            if front.contains(k) {
                let i = choose|i: int| 0 <= i < front.len() && front[i] == k;
                assert(keys[i] == k);
            }
            if keys.contains(k) {
                let i = choose|i: int| 0 <= i < keys.len() && keys[i] == k;
                assert(front[i] == k);
            }
        }
    }
}

/// The state graph of a job: states by name.
#[derive(Debug)]
pub struct StateMachine {
    pub(crate) states: StateMap,
}

impl View for StateMachine {
    type V = Graph;

    closed spec fn view(&self) -> Graph {
        self.states@
    }
}

/// A transition from its parts.
fn make_transition(target: &str, trigger: StateMachineTrigger, actions: Vec<Action>) -> (r:
    StateMachineTransition)
    ensures
        r@ == (TransitionView {
            target: target@,
            trigger: trigger@,
            actions: actions_view(actions@),
        }),
{
    StateMachineTransition { target: String::from_str(target), trigger, actions }
}

/// A state with the one transition given, which replaces earlier definitions.
fn make_lone_state(t: StateMachineTransition) -> (r: StateMachineState)
    ensures
        r@ == lone_transition(t@.target, t@.trigger, t@.actions),
{
    let mut transitions: Vec<StateMachineTransition> = Vec::new();
    transitions.push(t);
    let r = StateMachineState { merge: StateMachineMergeMode::Replace, transitions };
    assert(r@.transitions =~= seq![t@]);
    r
}

/// A list with the one action given.
fn one_action(a: Action) -> (r: Vec<Action>)
    ensures
        actions_view(r@) == seq![a@],
{
    let mut v: Vec<Action> = Vec::new();
    v.push(a);
    assert(actions_view(v@) =~= seq![a@]);
    v
}

impl Default for StateMachine {
    /// The graph that holds the built-in states and no others.
    fn default() -> (r: Self)
        ensures
            r@ == builtin_states(),
    {
        let mut states = StateMap::new();
        states.insert(
            String::from_str("Init"),
            make_lone_state(
                make_transition(
                    "SwitchDetect",
                    StateMachineTrigger::Immediate,
                    one_action(Action::SetupJob),
                ),
            ),
        );
        states.insert(
            String::from_str("SwitchDetect"),
            make_lone_state(
                make_transition(
                    "SwitchDetect",
                    StateMachineTrigger::String {
                        string: String::from_str("A non-empty Data Buffering File was found."),
                    },
                    one_action(Action::SendLine { line: String::from_str("E") }),
                ),
            ),
        );
        states.insert(
            String::from_str("EndJob"),
            make_lone_state(
                make_transition(
                    "JobFinished",
                    StateMachineTrigger::Immediate,
                    one_action(Action::FinishJob),
                ),
            ),
        );
        let none: Vec<Action> = Vec::new();
        assert(actions_view(none@) =~= Seq::<ActionView>::empty());
        states.insert(
            String::from_str("JobFinished"),
            make_lone_state(
                make_transition(
                    "JobFinished",
                    StateMachineTrigger::String {
                        string: String::from_str("AAAAAAAAAAAAAAAAAAAAAAAAAAA"),
                    },
                    none,
                ),
            ),
        );
        StateMachine { states }
    }
}

impl StateMachine {
    /// Merges the states of a fragment into the graph.
    pub fn merge_states(&mut self, states: StateMap)
        ensures
            final(self)@ == merged(old(self)@, states@),
    {
        let keys = states.keys();
        let ghost names = Seq::new(keys@.len(), |i: int| keys@[i]@);
        let mut i: usize = 0;
        while i < keys.len()
            invariant
                i <= keys.len(),
                names == Seq::new(keys@.len(), |i: int| keys@[i]@),
                forall|a: int| 0 <= a < keys@.len() ==> states@.contains_key(#[trigger] keys@[a]@),
                self@ == merged_upto(old(self)@, states@, names.take(i as int)),
            decreases keys.len() - i,
        {
            let key = keys[i].clone();
            proof {
                assert(names.take(i as int + 1).drop_last() =~= names.take(i as int));
                assert(names.take(i as int + 1).last() == key@);
                assert(states@.contains_key(keys@[i as int]@));
            }
            let incoming = states.state_or_empty(key.as_str());
            let appended = match self.states.get(key.as_str()) {
                Some(existing) => {
                    match incoming.merge {
                        StateMachineMergeMode::Append => {
                            let mut transitions = clone_transitions(&existing.transitions);
                            let mut extra = incoming.transitions;
                            let ghost before = transitions@;
                            transitions.append(&mut extra);
                            let s = StateMachineState { merge: existing.merge, transitions };
                            assert(s@.transitions =~= existing@.transitions
                                + incoming@.transitions) by {
                                assert(transitions_view(before).len() == transitions_view(
                                    existing.transitions@,
                                ).len());
                                assert forall|j: int| 0 <= j < before.len() implies before[j]@
                                    == existing.transitions@[j]@ by {
                                    assert(transitions_view(before)[j] == transitions_view(
                                        existing.transitions@,
                                    )[j]);
                                }
                            }
                            s
                        },
                        StateMachineMergeMode::Replace => incoming,
                    }
                },
                None => incoming,
            };
            self.states.insert(key, appended);
            i += 1;
        }
        proof {
            assert(names.take(keys.len() as int) =~= names);
            assert forall|a: int, b: int| 0 <= a < b < names.len() implies names[a]
                != names[b] by {}
            let got = self@;
            let want = merged(old(self)@, states@);
            assert forall|k: Seq<char>| #[trigger]
                got.dom().contains(k) == want.dom().contains(k) && (got.dom().contains(k)
                    ==> got[k] == want[k]) by {
                lemma_merged_upto(old(self)@, states@, names, k);
                if states@.contains_key(k) {
                    assert(names_hold(keys@, k));
                    let a = choose|a: int| 0 <= a < keys@.len() && keys@[a]@ == k;
                    assert(names[a] == k);
                }
                if names.contains(k) {
                    let a = choose|a: int| 0 <= a < names.len() && names[a] == k;
                    assert(states@.contains_key(keys@[a]@));
                }
            }
            assert(got.dom() =~= want.dom());
            assert(got =~= want);
        }
    }

    /// The names of the states, each once.
    pub fn states(&self) -> (r: Vec<String>)
        ensures
            forall|i: int, j: int| 0 <= i < j < r@.len() ==> r@[i]@ != r@[j]@,
            forall|i: int| 0 <= i < r@.len() ==> self@.contains_key(#[trigger] r@[i]@),
            forall|k: Seq<char>| self@.contains_key(k) ==> names_hold(r@, k),
    {
        self.states.keys()
    }

    /// Whether the graph has a state of the name `key`.
    pub fn has_state(&self, key: &str) -> (b: bool)
        ensures
            b == self@.contains_key(key@),
    {
        self.states.contains_key(key)
    }

    /// The transitions of the state of the name `key`, in the order in which
    /// they are tried; none where the graph has no such state.
    pub fn transitions_of(&self, key: &str) -> (r: Vec<StateMachineTransition>)
        ensures
            transitions_view(r@) == if self@.contains_key(key@) {
                self@[key@].transitions
            } else {
                Seq::empty()
            },
    {
        match self.states.get(key) {
            Some(s) => clone_transitions(&s.transitions),
            None => {
                let none: Vec<StateMachineTransition> = Vec::new();
                assert(transitions_view(none@) =~= Seq::<TransitionView>::empty());
                none
            },
        }
    }

    /// The edges that leave the state of the name `key`: for each of its
    /// transitions, in their order, the trigger in words and the target.
    pub fn edges(&self, key: &str) -> (r: Vec<(String, String)>)
        ensures
            edges_view(r@) == if self@.contains_key(key@) {
                edges_of(self@[key@].transitions)
            } else {
                Seq::empty()
            },
    {
        let ts = self.transitions_of(key);
        let mut out: Vec<(String, String)> = Vec::new();
        let mut i: usize = 0;
        while i < ts.len()
            invariant
                i <= ts.len(),
                out.len() == i,
                forall|j: int|
                    0 <= j < i ==> out@[j].0@ == ts@[j]@.trigger.description() && out@[j].1@
                        == ts@[j]@.target,
            decreases ts.len() - i,
        {
            out.push((ts[i].trigger.describe(), ts[i].target.clone()));
            i += 1;
        }
        assert(edges_view(out@) =~= edges_of(transitions_view(ts@)));
        out
    }

    /// The state of the name `key`, if the graph has one.
    pub fn get_state(&self, key: &str) -> (r: Option<StateMachineState>)
        ensures
            match r {
                Some(s) => self@.contains_key(key@) && s@ == self@[key@],
                None => !self@.contains_key(key@),
            },
    {
        match self.states.get(key) {
            Some(s) => Some(s.clone()),
            None => None,
        }
    }

    /// The state of the name `key`, or the error that the graph has none.
    pub fn state(&self, key: &str) -> (r: Result<StateMachineState, EngineError>)
        ensures
            match r {
                Ok(s) => self@.contains_key(key@) && s@ == self@[key@],
                Err(e) => !self@.contains_key(key@) && e@ == (EngineErrorView::UnknownState {
                    state: key@,
                }),
            },
    {
        match self.states.get(key) {
            Some(s) => Ok(s.clone()),
            None => Err(EngineError::UnknownState { state: String::from_str(key) }),
        }
    }
}

} // verus!
