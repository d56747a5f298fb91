//! The declarative form of a state graph: triggers, transitions, states, and
//! the fragments that bundle them.

use crate::action::{actions_view, clone_actions, Action, ActionView};
use vstd::prelude::*;

verus! {

/// The name of a state.
pub type State = String;

/// What a fragment does to a state that an earlier fragment already defined.
#[derive(Copy, Clone, Debug, PartialEq, Eq, PartialOrd, Structural)]
pub enum StateMachineMergeMode {
    /// The later definition takes the place of the earlier one.
    Replace,
    /// The later transitions are added behind the earlier ones.
    Append,
}

impl Default for StateMachineMergeMode {
    fn default() -> (r: Self)
        ensures
            r == StateMachineMergeMode::Replace,
    {
        StateMachineMergeMode::Replace
    }
}

/// The condition under which a transition fires.
#[derive(Debug, PartialEq, Eq, PartialOrd, Ord, Hash)]
pub enum StateMachineTrigger {
    /// The reported match is exactly this text.
    String { string: String },
    /// The reported match satisfies this regular expression.
    Regex { regex: String },
    /// Fires at once, without waiting for output.
    Immediate,
}

/// The mathematical value of a `StateMachineTrigger`.
pub enum TriggerView {
    String { string: Seq<char> },
    Regex { regex: Seq<char> },
    Immediate,
}

impl View for StateMachineTrigger {
    type V = TriggerView;

    open spec fn view(&self) -> TriggerView {
        match self {
            StateMachineTrigger::String { string } => TriggerView::String { string: string@ },
            StateMachineTrigger::Regex { regex } => TriggerView::Regex { regex: regex@ },
            StateMachineTrigger::Immediate => TriggerView::Immediate,
        }
    }
}

impl Clone for StateMachineTrigger {
    fn clone(&self) -> (r: Self)
        ensures
            r@ == self@,
    {
        match self {
            StateMachineTrigger::String { string } => StateMachineTrigger::String {
                string: string.clone(),
            },
            StateMachineTrigger::Regex { regex } => StateMachineTrigger::Regex {
                regex: regex.clone(),
            },
            StateMachineTrigger::Immediate => StateMachineTrigger::Immediate,
        }
    }
}

/// One edge of the graph: when `trigger` holds, perform `actions` and go to
/// `target`.
#[derive(Debug, PartialEq)]
pub struct StateMachineTransition {
    pub target: State,
    pub trigger: StateMachineTrigger,
    pub actions: Vec<Action>,
}

/// The mathematical value of a `StateMachineTransition`.
pub struct TransitionView {
    pub target: Seq<char>,
    pub trigger: TriggerView,
    pub actions: Seq<ActionView>,
}

impl View for StateMachineTransition {
    type V = TransitionView;

    open spec fn view(&self) -> TransitionView {
        TransitionView {
            target: self.target@,
            trigger: self.trigger@,
            actions: actions_view(self.actions@),
        }
    }
}

impl Clone for StateMachineTransition {
    fn clone(&self) -> (r: Self)
        ensures
            r@ == self@,
    {
        StateMachineTransition {
            target: self.target.clone(),
            trigger: self.trigger.clone(),
            actions: clone_actions(&self.actions),
        }
    }
}

/// The values of a list of transitions, in order.
pub open spec fn transitions_view(ts: Seq<StateMachineTransition>) -> Seq<TransitionView> {
    Seq::new(ts.len(), |i: int| ts[i]@)
}

/// A copy of a list of transitions.
pub fn clone_transitions(ts: &Vec<StateMachineTransition>) -> (r: Vec<StateMachineTransition>)
    ensures
        transitions_view(r@) == transitions_view(ts@),
{
    let mut out: Vec<StateMachineTransition> = Vec::new();
    let mut i: usize = 0;
    while i < ts.len()
        invariant
            i <= ts.len(),
            out.len() == i,
            forall|j: int| 0 <= j < i ==> out@[j]@ == ts@[j]@,
        decreases ts.len() - i,
    {
        out.push(ts[i].clone());
        i += 1;
    }
    assert(transitions_view(out@) =~= transitions_view(ts@));
    out
}

/// A state: its transitions in the order in which they are tried, and how it
/// merges into an earlier definition of the same state.
#[derive(Debug, PartialEq)]
pub struct StateMachineState {
    pub merge: StateMachineMergeMode,
    pub transitions: Vec<StateMachineTransition>,
}

/// The mathematical value of a `StateMachineState`.
pub struct StateView {
    pub merge: StateMachineMergeMode,
    pub transitions: Seq<TransitionView>,
}

impl View for StateMachineState {
    type V = StateView;

    open spec fn view(&self) -> StateView {
        StateView { merge: self.merge, transitions: transitions_view(self.transitions@) }
    }
}

impl Clone for StateMachineState {
    fn clone(&self) -> (r: Self)
        ensures
            r@ == self@,
    {
        StateMachineState { merge: self.merge, transitions: clone_transitions(&self.transitions) }
    }
}

/// The values of a list of strings, in order.
pub open spec fn strings_view(ss: Seq<String>) -> Seq<Seq<char>> {
    Seq::new(ss.len(), |i: int| ss[i]@)
}

/// A copy of a list of strings.
pub fn clone_strings(ss: &Vec<String>) -> (r: Vec<String>)
    ensures
        strings_view(r@) == strings_view(ss@),
{
    let mut out: Vec<String> = Vec::new();
    let mut i: usize = 0;
    while i < ss.len()
        invariant
            i <= ss.len(),
            out.len() == i,
            forall|j: int| 0 <= j < i ==> out@[j]@ == ss@[j]@,
        decreases ss.len() - i,
    {
        out.push(ss[i].clone());
        i += 1;
    }
    assert(strings_view(out@) =~= strings_view(ss@));
    out
}

/// The map that a list of bindings stands for: a later binding of a name
/// hides an earlier one.
pub closed spec fn entries_map(s: Seq<(String, StateMachineState)>) -> Map<Seq<char>, StateView>
    decreases s.len(),
{
    if s.len() == 0 {
        Map::empty()
    } else {
        entries_map(s.drop_last()).insert(s.last().0@, s.last().1@)
    }
}

proof fn lemma_entries_absent(s: Seq<(String, StateMachineState)>, k: Seq<char>)
    requires
        forall|i: int| 0 <= i < s.len() ==> s[i].0@ != k,
    ensures
        !entries_map(s).contains_key(k),
    decreases s.len(),
{
    if s.len() > 0 {
        lemma_entries_absent(s.drop_last(), k);
    }
}

proof fn lemma_entries_last_binding(s: Seq<(String, StateMachineState)>, i: int)
    requires
        0 <= i < s.len(),
        forall|j: int| i < j < s.len() ==> s[j].0@ != s[i].0@,
    ensures
        entries_map(s).contains_key(s[i].0@),
        entries_map(s)[s[i].0@] == s[i].1@,
    decreases s.len(),
{
    if i < s.len() - 1 {
        lemma_entries_last_binding(s.drop_last(), i);
    }
}

proof fn lemma_entries_present(s: Seq<(String, StateMachineState)>, k: Seq<char>)
    requires
        entries_map(s).contains_key(k),
    ensures
        exists|i: int| 0 <= i < s.len() && s[i].0@ == k,
    decreases s.len(),
{
    if s.len() > 0 {
        if s.last().0@ == k {
            assert(s[s.len() - 1].0@ == k);
        } else {
            lemma_entries_present(s.drop_last(), k);
            let i = choose|i: int| 0 <= i < s.drop_last().len() && s.drop_last()[i].0@ == k;
            assert(s[i].0@ == k);
        }
    }
}

proof fn lemma_entries_replace(
    s: Seq<(String, StateMachineState)>,
    i: int,
    e: (String, StateMachineState),
)
    requires
        0 <= i < s.len(),
        e.0@ == s[i].0@,
        forall|j: int| i < j < s.len() ==> s[j].0@ != s[i].0@,
    ensures
        entries_map(s.update(i, e)) == entries_map(s).insert(e.0@, e.1@),
    decreases s.len(),
{
    let t = s.update(i, e);
    if i == s.len() - 1 {
        assert(t.drop_last() =~= s.drop_last());
        assert(entries_map(t) =~= entries_map(s).insert(e.0@, e.1@));
    } else {
        lemma_entries_replace(s.drop_last(), i, e);
        assert(t.drop_last() =~= s.drop_last().update(i, e));
        assert(t.last() == s.last());
        assert(entries_map(t) =~= entries_map(s).insert(e.0@, e.1@));
    }
}

/// The states of a graph or of a fragment, by name.
#[derive(Debug, PartialEq)]
pub struct StateMap {
    entries: Vec<(String, StateMachineState)>,
}

impl View for StateMap {
    type V = Map<Seq<char>, StateView>;

    closed spec fn view(&self) -> Map<Seq<char>, StateView> {
        entries_map(self.entries@)
    }
}

impl Clone for StateMap {
    fn clone(&self) -> (r: Self)
        ensures
            r@ == self@,
    {
        let mut out: Vec<(String, StateMachineState)> = Vec::new();
        let mut i: usize = 0;
        while i < self.entries.len()
            invariant
                i <= self.entries.len(),
                out.len() == i,
                entries_map(out@) == entries_map(self.entries@.take(i as int)),
            decreases self.entries.len() - i,
        {
            let k = self.entries[i].0.clone();
            let v = self.entries[i].1.clone();
            proof {
                let next = self.entries@.take(i as int + 1);
                assert(next.drop_last() =~= self.entries@.take(i as int));
                assert(out@.push((k, v)).drop_last() =~= out@);
            }
            out.push((k, v));
            i += 1;
        }
        proof {
            assert(self.entries@.take(self.entries.len() as int) =~= self.entries@);
        }
        StateMap { entries: out }
    }
}

impl StateMap {
    /// A map without states.
    pub fn new() -> (r: Self)
        ensures
            r@ == Map::<Seq<char>, StateView>::empty(),
    {
        StateMap { entries: Vec::new() }
    }

    /// Where the binding of `key` stands that the map shows, if it has one.
    fn position(&self, key: &String) -> (r: Option<usize>)
        ensures
            match r {
                Some(i) => {
                    &&& i < self.entries@.len()
                    &&& self.entries@[i as int].0@ == key@
                    &&& forall|j: int| i < j < self.entries@.len() ==> self.entries@[j].0@ != key@
                    &&& self@.contains_key(key@)
                    &&& self@[key@] == self.entries@[i as int].1@
                },
                None => !self@.contains_key(key@),
            },
    {
        let mut i: usize = self.entries.len();
        while i > 0
            invariant
                i <= self.entries.len(),
                forall|j: int| i <= j < self.entries@.len() ==> self.entries@[j].0@ != key@,
            decreases i,
        {
            i -= 1;
            if self.entries[i].0 == *key {
                proof {
                    lemma_entries_last_binding(self.entries@, i as int);
                }
                return Some(i);
            }
        }
        proof {
            lemma_entries_absent(self.entries@, key@);
        }
        None
    }

    /// The state of the name `key`, if the map has one.
    pub fn get(&self, key: &str) -> (r: Option<&StateMachineState>)
        ensures
            match r {
                Some(v) => self@.contains_key(key@) && v@ == self@[key@],
                None => !self@.contains_key(key@),
            },
    {
        let owned = key.to_owned();
        match self.position(&owned) {
            Some(i) => Some(&self.entries[i].1),
            None => None,
        }
    }

    /// A copy of the state of the name `key`; a state without transitions
    /// where the map has none.
    pub fn state_or_empty(&self, key: &str) -> (r: StateMachineState)
        ensures
            r@ == if self@.contains_key(key@) {
                self@[key@]
            } else {
                StateView { merge: StateMachineMergeMode::Replace, transitions: Seq::empty() }
            },
    {
        match self.get(key) {
            Some(s) => s.clone(),
            None => {
                let r = StateMachineState {
                    merge: StateMachineMergeMode::Replace,
                    transitions: Vec::new(),
                };
                assert(r@.transitions =~= Seq::<TransitionView>::empty());
                r
            },
        }
    }

    /// Whether the map has a state of the name `key`.
    pub fn contains_key(&self, key: &str) -> (b: bool)
        ensures
            b == self@.contains_key(key@),
    {
        let owned = key.to_owned();
        self.position(&owned).is_some()
    }

    /// Binds `key` to `value`, in place of what it was bound to before.
    pub fn insert(&mut self, key: String, value: StateMachineState)
        ensures
            final(self)@ == old(self)@.insert(key@, value@),
    {
        match self.position(&key) {
            Some(i) => {
                proof {
                    lemma_entries_replace(self.entries@, i as int, (key, value));
                }
                self.entries[i] = (key, value);
            },
            None => {
                proof {
                    assert(self.entries@.push((key, value)).drop_last() =~= self.entries@);
                }
                self.entries.push((key, value));
            },
        }
    }

    /// The names of the states, each once.
    pub fn keys(&self) -> (r: Vec<String>)
        ensures
            forall|i: int, j: int| 0 <= i < j < r@.len() ==> r@[i]@ != r@[j]@,
            forall|i: int| 0 <= i < r@.len() ==> self@.contains_key(#[trigger] r@[i]@),
            forall|k: Seq<char>| self@.contains_key(k) ==> names_hold(r@, k),
    {
        let mut out: Vec<String> = Vec::new();
        let mut i: usize = 0;
        while i < self.entries.len()
            invariant
                i <= self.entries.len(),
                forall|a: int, b: int| 0 <= a < b < out@.len() ==> out@[a]@ != out@[b]@,
                forall|a: int|
                    0 <= a < out@.len() ==> bound_before(self.entries@, i as int, #[trigger] out@[a]@),
                forall|p: int| 0 <= p < i ==> names_hold(out@, #[trigger] self.entries@[p].0@),
            decreases self.entries.len() - i,
        {
            let mut seen = false;
            let mut j: usize = 0;
            while j < out.len()
                invariant
                    j <= out.len(),
                    i < self.entries.len(),
                    seen <==> names_hold(out@.take(j as int), self.entries@[i as int].0@),
                decreases out.len() - j,
            {
                let ghost k = self.entries@[i as int].0@;
                if out[j] == self.entries[i].0 {
                    seen = true;
                    assert(out@.take(j as int + 1)[j as int]@ == k);
                } else {
                    proof {
                        let t0 = out@.take(j as int);
                        let t1 = out@.take(j as int + 1);
                        if names_hold(t1, k) {
                            let a = choose|a: int| 0 <= a < t1.len() && t1[a]@ == k;
                            assert(t0[a]@ == k);
                        }
                        if names_hold(t0, k) {
                            let a = choose|a: int| 0 <= a < t0.len() && t0[a]@ == k;
                            assert(t1[a]@ == k);
                        }
                    }
                }
                j += 1;
            }
            assert(out@.take(out@.len() as int) =~= out@);
            let ghost prev = out@;
            if !seen {
                out.push(self.entries[i].0.clone());
                assert(out@[prev.len() as int]@ == self.entries@[i as int].0@);
                assert forall|a: int, b: int| 0 <= a < b < out@.len() implies out@[a]@
                    != out@[b]@ by {
                    if b == prev.len() {
                        assert(prev[a]@ == out@[a]@);
                    } else {
                        assert(prev[a]@ == out@[a]@ && prev[b]@ == out@[b]@);
                    }
                }
            }
            proof {
                assert forall|a: int| 0 <= a < out@.len() implies bound_before(
                    self.entries@,
                    i as int + 1,
                    #[trigger] out@[a]@,
                ) by {
                    if a < prev.len() {
                        assert(bound_before(self.entries@, i as int, prev[a]@));
                        let p = choose|p: int| 0 <= p < i && self.entries@[p].0@ == prev[a]@;
                        assert(self.entries@[p].0@ == out@[a]@);
                    } else {
                        assert(self.entries@[i as int].0@ == out@[a]@);
                    }
                }
                assert forall|p: int| 0 <= p < i + 1 implies names_hold(
                    out@,
                    #[trigger] self.entries@[p].0@,
                ) by {
                    let k = self.entries@[p].0@;
                    assert(names_hold(prev, k) || (p == i && !seen));
                    if names_hold(prev, k) {
                        let a = choose|a: int| 0 <= a < prev.len() && prev[a]@ == k;
                        assert(out@[a]@ == k);
                    } else {
                        assert(out@[prev.len() as int]@ == k);
                    }
                }
            }
            i += 1;
        }
        proof {
            assert forall|a: int| 0 <= a < out@.len() implies self@.contains_key(
                #[trigger] out@[a]@,
            ) by {
                assert(bound_before(self.entries@, i as int, out@[a]@));
                let p = choose|p: int| 0 <= p < i && self.entries@[p].0@ == out@[a]@;
                lemma_entries_present_conv(self.entries@, p);
            }
            assert forall|k: Seq<char>| self@.contains_key(k) implies names_hold(out@, k) by {
                lemma_entries_present(self.entries@, k);
                let p = choose|p: int| 0 <= p < self.entries@.len() && self.entries@[p].0@ == k;
                assert(names_hold(out@, self.entries@[p].0@));
            }
        }
        out
    }
}

/// One of the first `n` bindings is a binding of `k`.
spec fn bound_before(s: Seq<(String, StateMachineState)>, n: int, k: Seq<char>) -> bool {
    exists|p: int| 0 <= p < n && s[p].0@ == k
}

/// The list of names holds the name `k`.
pub open spec fn names_hold(names: Seq<String>, k: Seq<char>) -> bool {
    exists|a: int| 0 <= a < names.len() && names[a]@ == k
}

proof fn lemma_entries_present_conv(s: Seq<(String, StateMachineState)>, i: int)
    requires
        0 <= i < s.len(),
    ensures
        entries_map(s).contains_key(s[i].0@),
    decreases s.len(),
{
    if i < s.len() - 1 {
        lemma_entries_present_conv(s.drop_last(), i);
    }
}

/// A fragment: some states under a name, and the names of the fragments that
/// it builds on.
#[derive(Debug, PartialEq)]
pub struct StateMachineFile {
    pub id: String,
    pub depends: Vec<String>,
    pub states: StateMap,
}

/// The mathematical value of a `StateMachineFile`.
pub struct FileView {
    pub id: Seq<char>,
    pub depends: Seq<Seq<char>>,
    pub states: Map<Seq<char>, StateView>,
}

impl View for StateMachineFile {
    type V = FileView;

    open spec fn view(&self) -> FileView {
        FileView { id: self.id@, depends: strings_view(self.depends@), states: self.states@ }
    }
}

impl Clone for StateMachineFile {
    fn clone(&self) -> (r: Self)
        ensures
            r@ == self@,
    {
        StateMachineFile {
            id: self.id.clone(),
            depends: clone_strings(&self.depends),
            states: self.states.clone(),
        }
    }
}

/// The values of a list of fragments, in order.
pub open spec fn files_view(fs: Seq<StateMachineFile>) -> Seq<FileView> {
    Seq::new(fs.len(), |i: int| fs[i]@)
}

} // verus!
