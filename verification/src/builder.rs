//! Builds one state graph out of fragments: load them, activate the wanted
//! ones with all that they depend on, order them by their dependencies, and
//! merge them onto the built-in states.

use crate::data_structure::{
    clone_strings, files_view, names_hold, strings_view, transitions_view, FileView,
    StateMachineFile,
};
use crate::error::{EngineError, EngineErrorView};
use crate::ordering::{
    dependencies_first, dependencies_first_in, law_order_lists_every_fragment_once,
    law_order_puts_dependencies_first, lists_each_once,
};
use crate::process::{procedure_graph, procedure_states};
use crate::state::{builtin_states, graph_closed, merged, Graph, StateMachine};
use vstd::prelude::*;
use vstd::string::*;

verus! {

/// A fragment of the name `id` is among `files`.
pub open spec fn is_active(files: Seq<FileView>, id: Seq<char>) -> bool {
    exists|i: int| 0 <= i < files.len() && files[i].id == id
}

/// Where the fragment of the name `id` stands in `loaded`: the one loaded
/// last, where several have that name.
pub open spec fn find_loaded(loaded: Seq<FileView>, id: Seq<char>) -> Option<int>
    decreases loaded.len(),
{
    if loaded.len() == 0 {
        None
    } else if loaded.last().id == id {
        Some(loaded.len() - 1)
    } else {
        find_loaded(loaded.drop_last(), id)
    }
}

/// How many of the loaded fragments have a name that is not active.
pub open spec fn unactivated(loaded: Seq<FileView>, active: Seq<FileView>) -> nat
    decreases loaded.len(),
{
    if loaded.len() == 0 {
        0
    } else {
        unactivated(loaded.drop_last(), active) + if is_active(active, loaded.last().id) {
            0nat
        } else {
            1nat
        }
    }
}

/// What `find_loaded` finds is a fragment of that name.
pub proof fn lemma_find_loaded(loaded: Seq<FileView>, id: Seq<char>)
    ensures
        match find_loaded(loaded, id) {
            Some(j) => 0 <= j < loaded.len() && loaded[j].id == id,
            None => !is_active(loaded, id),
        },
    decreases loaded.len(),
{
    if loaded.len() > 0 && loaded.last().id != id {
        lemma_find_loaded(loaded.drop_last(), id);
        if is_active(loaded, id) {
            let i = choose|i: int| 0 <= i < loaded.len() && loaded[i].id == id;
            assert(loaded.drop_last()[i].id == id);
        }
    }
}

/// Activating one more fragment never makes a name inactive, and it leaves
/// fewer loaded fragments unactivated where its own name was not active.
pub proof fn lemma_unactivated_push(loaded: Seq<FileView>, active: Seq<FileView>, f: FileView)
    ensures
        unactivated(loaded, active.push(f)) <= unactivated(loaded, active),
        is_active(loaded, f.id) && !is_active(active, f.id) ==> unactivated(
            loaded,
            active.push(f),
        ) < unactivated(loaded, active),
    decreases loaded.len(),
{
    let more = active.push(f);
    assert(more[active.len() as int].id == f.id);
    assert forall|id: Seq<char>| is_active(active, id) implies is_active(more, id) by {
        let i = choose|i: int| 0 <= i < active.len() && active[i].id == id;
        assert(more[i].id == id);
    }
    if loaded.len() > 0 {
        lemma_unactivated_push(loaded.drop_last(), active, f);
        if is_active(loaded, f.id) && !is_active(active, f.id) {
            if loaded.last().id == f.id {
                assert(is_active(more, loaded.last().id));
            } else {
                let i = choose|i: int| 0 <= i < loaded.len() && loaded[i].id == f.id;
                assert(loaded.drop_last()[i].id == f.id);
            }
        }
    }
}

/// What activating the names in `pending`, the first of them first, makes of
/// the active fragments, and the name that stopped it, if one did. A name that
/// is active already is passed over. Any other is looked up among the loaded
/// fragments: where none has it, the activation stops there; else that
/// fragment becomes active, and the names that it depends on are activated
/// before the rest of `pending`.
pub open spec fn activate_run(
    loaded: Seq<FileView>,
    active: Seq<FileView>,
    pending: Seq<Seq<char>>,
) -> (Seq<FileView>, Option<Seq<char>>)
    decreases unactivated(loaded, active), pending.len(),
{
    if pending.len() == 0 {
        (active, None)
    } else {
        let id = pending[0];
        let rest = pending.drop_first();
        if is_active(active, id) {
            activate_run(loaded, active, rest)
        } else {
            match find_loaded(loaded, id) {
                None => (active, Some(id)),
                Some(j) => {
                    proof {
                        lemma_find_loaded(loaded, id);
                        assert(is_active(loaded, loaded[j].id));
                        lemma_unactivated_push(loaded, active, loaded[j]);
                    }
                    activate_run(loaded, active.push(loaded[j]), loaded[j].depends + rest)
                },
            }
        }
    }
}

/// No two of the fragments have the same name.
pub open spec fn names_distinct(files: Seq<FileView>) -> bool {
    forall|i: int, j: int| 0 <= i < j < files.len() ==> files[i].id != files[j].id
}

/// Activation never makes two fragments of one name active, and it keeps the
/// fragments that were active, in their order, before those that it adds.
pub proof fn lemma_activation_keeps_names_distinct(
    loaded: Seq<FileView>,
    active: Seq<FileView>,
    pending: Seq<Seq<char>>,
)
    requires
        names_distinct(active),
    ensures
        names_distinct(activate_run(loaded, active, pending).0),
        active.len() <= activate_run(loaded, active, pending).0.len(),
        activate_run(loaded, active, pending).0.take(active.len() as int) == active,
    decreases unactivated(loaded, active), pending.len(),
{
    if pending.len() == 0 {
        assert(active.take(active.len() as int) =~= active);
    } else {
        let id = pending[0];
        let rest = pending.drop_first();
        if is_active(active, id) {
            lemma_activation_keeps_names_distinct(loaded, active, rest);
        } else {
            match find_loaded(loaded, id) {
                None => {
                    assert(active.take(active.len() as int) =~= active);
                },
                Some(j) => {
                    let f = loaded[j];
                    let more = active.push(f);
                    lemma_find_loaded(loaded, id);
                    assert(is_active(loaded, f.id));
                    lemma_unactivated_push(loaded, active, f);
                    assert(names_distinct(more)) by {
                        assert forall|a: int, b: int| 0 <= a < b < more.len() implies more[a].id
                            != more[b].id by {
                            if b == active.len() {
                                assert(more[a] == active[a]);
                            }
                        }
                    }
                    lemma_activation_keeps_names_distinct(loaded, more, f.depends + rest);
                    let out = activate_run(loaded, more, f.depends + rest).0;
                    assert(out.take(active.len() as int) =~= out.take(more.len() as int).take(
                        active.len() as int,
                    ));
                    assert(more.take(active.len() as int) =~= active);
                },
            }
        }
    }
}

/// The fragment at the index `i` is in the ready list or in the output.
pub open spec fn placed(ready: Seq<int>, done: Seq<int>, i: int) -> bool {
    ready.contains(i) || done.contains(i)
}

/// A fragment of the name `id` is in the ready list or in the output.
pub open spec fn id_placed(files: Seq<FileView>, ready: Seq<int>, done: Seq<int>, id: Seq<char>) -> bool {
    exists|j: int| 0 <= j < files.len() && files[j].id == id && placed(ready, done, j)
}

/// Every fragment that `f` depends on is in the ready list or in the output.
pub open spec fn deps_placed(files: Seq<FileView>, ready: Seq<int>, done: Seq<int>, f: FileView) -> bool {
    forall|d: int|
        0 <= d < f.depends.len() ==> id_placed(files, ready, done, #[trigger] f.depends[d])
}

/// The fragment at the index `i` can join the ready list: it is in neither
/// list, and all that it depends on is in one of them.
pub open spec fn eligible(files: Seq<FileView>, ready: Seq<int>, done: Seq<int>, i: int) -> bool {
    !placed(ready, done, i) && deps_placed(files, ready, done, files[i])
}

/// The indices below `n` of the fragments that depend on nothing, ascending.
pub open spec fn roots(files: Seq<FileView>, n: int) -> Seq<int>
    decreases n,
{
    if n <= 0 {
        Seq::empty()
    } else if files[n - 1].depends.len() == 0 {
        roots(files, n - 1).push(n - 1)
    } else {
        roots(files, n - 1)
    }
}

/// The ready list after one pass over the fragments from the index `i` on:
/// each one that is eligible when the pass reaches it joins the list.
pub open spec fn kahn_scan(files: Seq<FileView>, ready: Seq<int>, done: Seq<int>, i: int) -> Seq<
    int,
>
    decreases files.len() - i,
{
    if i < 0 || i >= files.len() {
        ready
    } else if eligible(files, ready, done, i) {
        kahn_scan(files, ready.push(i), done, i + 1)
    } else {
        kahn_scan(files, ready, done, i + 1)
    }
}

/// The output once the ready list has run empty: the fragment that joined the
/// list first leaves it first, goes to the end of the output, and one pass
/// over the fragments follows.
pub open spec fn kahn_run(files: Seq<FileView>, ready: Seq<int>, done: Seq<int>) -> Seq<int>
    decreases files.len() - done.len(),
{
    if ready.len() == 0 || done.len() >= files.len() {
        done
    } else {
        let next = done.push(ready[0]);
        kahn_run(files, kahn_scan(files, ready.drop_first(), next, 0), next)
    }
}

/// The order in which the fragments are merged, as indices into `files`, or
/// the reason why there is none.
pub open spec fn kahn_order(files: Seq<FileView>) -> Result<Seq<int>, EngineErrorView> {
    if files.len() == 0 {
        Ok(Seq::empty())
    } else if roots(files, files.len() as int).len() == 0 {
        Err(EngineErrorView::NoRootFragment)
    } else {
        let done = kahn_run(files, roots(files, files.len() as int), Seq::empty());
        if done.len() == files.len() {
            Ok(done)
        } else {
            Err(EngineErrorView::UnsortableFragments)
        }
    }
}

/// The fragments at the indices that `order` lists, in that order.
pub open spec fn arranged(files: Seq<FileView>, order: Seq<int>) -> Seq<FileView> {
    Seq::new(order.len(), |k: int| files[order[k]])
}

/// The graph after the fragments are merged onto `base`, the first of them
/// first.
pub open spec fn fold_fragments(base: Graph, files: Seq<FileView>) -> Graph
    decreases files.len(),
{
    if files.len() == 0 {
        base
    } else {
        merged(fold_fragments(base, files.drop_last()), files.last().states)
    }
}

/// A transition of the state `state` leads to `target`, which the graph lacks.
pub open spec fn dangling(g: Graph, state: Seq<char>, target: Seq<char>) -> bool {
    &&& g.contains_key(state)
    &&& !g.contains_key(target)
    &&& exists|i: int|
        0 <= i < g[state].transitions.len() && g[state].transitions[i].target == target
}

/// The indices that a list holds, as integers.
pub open spec fn ints(s: Seq<usize>) -> Seq<int> {
    Seq::new(s.len(), |k: int| s[k] as int)
}

/// Whether the list holds the index `i`.
fn holds_index(v: &Vec<usize>, i: usize) -> (b: bool)
    ensures
        b == ints(v@).contains(i as int),
{
    let mut k: usize = 0;
    while k < v.len()
        invariant
            k <= v.len(),
            forall|j: int| 0 <= j < k ==> ints(v@)[j] != i as int,
        decreases v.len() - k,
    {
        if v[k] == i {
            assert(ints(v@)[k as int] == i as int);
            return true;
        }
        k += 1;
    }
    false
}

/// Whether a fragment of the name `id` is in the ready list or in the output.
fn name_placed(files: &Vec<StateMachineFile>, ready: &Vec<usize>, done: &Vec<usize>, id: &String) -> (b:
    bool)
    ensures
        b == id_placed(files_view(files@), ints(ready@), ints(done@), id@),
{
    let mut j: usize = 0;
    while j < files.len()
        invariant
            j <= files.len(),
            forall|k: int|
                0 <= k < j ==> !(files_view(files@)[k].id == id@ && placed(
                    ints(ready@),
                    ints(done@),
                    k,
                )),
        decreases files.len() - j,
    {
        if files[j].id == *id && (holds_index(ready, j) || holds_index(done, j)) {
            assert(files_view(files@)[j as int].id == id@);
            assert(placed(ints(ready@), ints(done@), j as int));
            return true;
        }
        j += 1;
    }
    false
}

/// Whether the fragment at the index `i` can join the ready list.
fn can_join(files: &Vec<StateMachineFile>, ready: &Vec<usize>, done: &Vec<usize>, i: usize) -> (b:
    bool)
    requires
        i < files@.len(),
    ensures
        b == eligible(files_view(files@), ints(ready@), ints(done@), i as int),
{
    if holds_index(ready, i) || holds_index(done, i) {
        return false;
    }
    let ghost f = files_view(files@)[i as int];
    let mut d: usize = 0;
    while d < files[i].depends.len()
        invariant
            i < files@.len(),
            d <= files@[i as int].depends@.len(),
            f == files@[i as int]@,
            forall|k: int|
                0 <= k < d ==> id_placed(
                    files_view(files@),
                    ints(ready@),
                    ints(done@),
                    #[trigger] f.depends[k],
                ),
        decreases files@[i as int].depends@.len() - d,
    {
        if !name_placed(files, ready, done, &files[i].depends[d]) {
            assert(f.depends[d as int] == files@[i as int].depends@[d as int]@);
            return false;
        }
        assert(f.depends[d as int] == files@[i as int].depends@[d as int]@);
        d += 1;
    }
    true
}

/// The order in which the fragments are merged: it lists every fragment once,
/// each behind all that it depends on.
fn order_of(files: &Vec<StateMachineFile>) -> (r: Result<Vec<usize>, EngineError>)
    ensures
        match r {
            Ok(order) => kahn_order(files_view(files@)) == Ok::<Seq<int>, EngineErrorView>(
                ints(order@),
            ) && (forall|k: int| 0 <= k < order@.len() ==> order@[k] < files@.len())
                && lists_each_once(ints(order@), files@.len() as int) && dependencies_first_in(
                files_view(files@),
                ints(order@),
            ) && dependencies_first(arranged(files_view(files@), ints(order@))),
            Err(e) => kahn_order(files_view(files@)) == Err::<Seq<int>, EngineErrorView>(e@),
        },
{
    let ghost fv = files_view(files@);
    let n = files.len();
    let mut done: Vec<usize> = Vec::new();
    if n == 0 {
        assert(ints(done@) =~= Seq::<int>::empty());
        proof {
            law_order_lists_every_fragment_once(fv);
            law_order_puts_dependencies_first(fv);
        }
        return Ok(done);
    }
    let mut ready: Vec<usize> = Vec::new();
    let mut i: usize = 0;
    assert(ints(ready@) =~= roots(fv, 0));
    while i < n
        invariant
            n == files@.len(),
            fv == files_view(files@),
            i <= n,
            ints(ready@) == roots(fv, i as int),
            forall|k: int| 0 <= k < ready@.len() ==> ready@[k] < n,
        decreases n - i,
    {
        if files[i].depends.len() == 0 {
            let ghost before = ready@;
            ready.push(i);
            assert(ints(ready@) =~= ints(before).push(i as int));
        }
        assert(fv[i as int].depends.len() == files@[i as int].depends@.len());
        i += 1;
    }
    if ready.len() == 0 {
        return Err(EngineError::NoRootFragment);
    }
    let ghost start = ints(ready@);
    assert(ints(done@) =~= Seq::<int>::empty());
    while ready.len() > 0 && done.len() < n
        invariant
            n == files@.len(),
            fv == files_view(files@),
            kahn_run(fv, ints(ready@), ints(done@)) == kahn_run(fv, start, Seq::<int>::empty()),
            forall|k: int| 0 <= k < ready@.len() ==> ready@[k] < n,
            forall|k: int| 0 <= k < done@.len() ==> done@[k] < n,
        decreases n - done.len(),
    {
        let ghost ready0 = ints(ready@);
        let ghost done0 = ints(done@);
        let next = ready.remove(0);
        done.push(next);
        assert(ints(ready@) =~= ready0.drop_first());
        assert(ints(done@) =~= done0.push(ready0[0]));
        let ghost done1 = ints(done@);
        let mut j: usize = 0;
        while j < n
            invariant
                n == files@.len(),
                fv == files_view(files@),
                j <= n,
                done1 == ints(done@),
                kahn_scan(fv, ints(ready@), done1, j as int) == kahn_scan(
                    fv,
                    ready0.drop_first(),
                    done1,
                    0,
                ),
                forall|k: int| 0 <= k < ready@.len() ==> ready@[k] < n,
            decreases n - j,
        {
            if can_join(files, &ready, &done, j) {
                let ghost before = ready@;
                ready.push(j);
                assert(ints(ready@) =~= ints(before).push(j as int));
            }
            j += 1;
        }
    }
    assert(ints(done@).len() == done@.len());
    if done.len() == n {
        proof {
            law_order_lists_every_fragment_once(fv);
            law_order_puts_dependencies_first(fv);
        }
        Ok(done)
    } else {
        Err(EngineError::UnsortableFragments)
    }
}

/// The built-in fragment: the wipe procedure, under the name `wipe`.
pub open spec fn builtin_fragment() -> FileView {
    FileView { id: "wipe"@, depends: Seq::empty(), states: procedure_graph() }
}

/// Collects fragments and builds the graph of those that were activated.
pub struct StateMachineBuilder {
    active_state_files: Vec<StateMachineFile>,
    loaded_state_files: Vec<StateMachineFile>,
}

impl StateMachineBuilder {
    /// The fragments that were loaded, in the order of loading.
    pub closed spec fn loaded(&self) -> Seq<FileView> {
        files_view(self.loaded_state_files@)
    }

    /// The fragments that are active, in the order of activation.
    pub closed spec fn active(&self) -> Seq<FileView> {
        files_view(self.active_state_files@)
    }

    /// A builder without fragments.
    pub fn new() -> (r: Self)
        ensures
            r.loaded() == Seq::<FileView>::empty(),
            r.active() == Seq::<FileView>::empty(),
            names_distinct(r.active()),
    {
        let r = StateMachineBuilder {
            active_state_files: Vec::new(),
            loaded_state_files: Vec::new(),
        };
        assert(r.loaded() =~= Seq::<FileView>::empty());
        assert(r.active() =~= Seq::<FileView>::empty());
        r
    }

    /// Makes a fragment known. It takes no part in the graph until it is
    /// activated.
    pub fn load_state_file(&mut self, state_file: StateMachineFile)
        ensures
            final(self).loaded() == old(self).loaded().push(state_file@),
            final(self).active() == old(self).active(),
    {
        self.loaded_state_files.push(state_file);
        assert(self.loaded() =~= old(self).loaded().push(state_file@));
    }

    /// Makes the built-in fragment known: the wipe procedure, under the name
    /// `wipe`, which depends on nothing.
    pub fn load_builtin_state_files(&mut self) -> (r: Result<(), EngineError>)
        ensures
            r is Ok,
            final(self).loaded() == old(self).loaded().push(builtin_fragment()),
            final(self).active() == old(self).active(),
    {
        let file = StateMachineFile {
            id: String::from_str("wipe"),
            depends: Vec::new(),
            states: procedure_states(),
        };
        assert(file@.depends =~= Seq::<Seq<char>>::empty());
        self.load_state_file(file);
        Ok(())
    }

    /// Whether a fragment of the name `id` is active.
    pub fn is_state_file_active(&self, id: &str) -> (b: bool)
        ensures
            b == is_active(self.active(), id@),
    {
        let wanted = id.to_owned();
        let mut i: usize = 0;
        while i < self.active_state_files.len()
            invariant
                i <= self.active_state_files.len(),
                wanted@ == id@,
                forall|j: int| 0 <= j < i ==> self.active()[j].id != id@,
            decreases self.active_state_files.len() - i,
        {
            if self.active_state_files[i].id == wanted {
                assert(self.active()[i as int].id == id@);
                return true;
            }
            i += 1;
        }
        false
    }

    /// The names of the loaded fragments, in the order of loading.
    pub fn loaded_state_file_ids(&self) -> (r: Vec<String>)
        ensures
            strings_view(r@) == Seq::new(self.loaded().len(), |i: int| self.loaded()[i].id),
    {
        let mut out: Vec<String> = Vec::new();
        let mut i: usize = 0;
        while i < self.loaded_state_files.len()
            invariant
                i <= self.loaded_state_files.len(),
                out.len() == i,
                forall|j: int| 0 <= j < i ==> out@[j]@ == self.loaded()[j].id,
            decreases self.loaded_state_files.len() - i,
        {
            out.push(self.loaded_state_files[i].id.clone());
            i += 1;
        }
        assert(strings_view(out@) =~= Seq::new(
            self.loaded().len(),
            |i: int| self.loaded()[i].id,
        ));
        out
    }

    /// The names of the active fragments, in the order in which they will be
    /// merged.
    pub fn active_state_file_ids(&self) -> (r: Vec<String>)
        ensures
            strings_view(r@) == Seq::new(self.active().len(), |i: int| self.active()[i].id),
    {
        let mut out: Vec<String> = Vec::new();
        let mut i: usize = 0;
        while i < self.active_state_files.len()
            invariant
                i <= self.active_state_files.len(),
                out.len() == i,
                forall|j: int| 0 <= j < i ==> out@[j]@ == self.active()[j].id,
            decreases self.active_state_files.len() - i,
        {
            out.push(self.active_state_files[i].id.clone());
            i += 1;
        }
        assert(strings_view(out@) =~= Seq::new(
            self.active().len(),
            |i: int| self.active()[i].id,
        ));
        out
    }

    /// Where the fragment of the name `id` stands among the loaded ones.
    fn position_loaded(&self, id: &String) -> (r: Option<usize>)
        ensures
            match r {
                Some(j) => find_loaded(self.loaded(), id@) == Some(j as int) && j
                    < self.loaded_state_files@.len(),
                None => find_loaded(self.loaded(), id@) is None,
            },
    {
        let mut i: usize = self.loaded_state_files.len();
        assert(self.loaded().take(i as int) =~= self.loaded());
        while i > 0
            invariant
                i <= self.loaded_state_files.len(),
                find_loaded(self.loaded(), id@) == find_loaded(self.loaded().take(i as int), id@),
            decreases i,
        {
            i -= 1;
            assert(self.loaded().take(i as int + 1).drop_last() =~= self.loaded().take(i as int));
            if self.loaded_state_files[i].id == *id {
                return Some(i);
            }
        }
        None
    }

    /// Activates the names in `pending`, the first of them first.
    fn activate_pending(&mut self, pending: Vec<String>) -> (r: Result<(), EngineError>)
        ensures
            final(self).loaded() == old(self).loaded(),
            names_distinct(old(self).active()) ==> names_distinct(final(self).active()),
            final(self).active() == activate_run(
                old(self).loaded(),
                old(self).active(),
                strings_view(pending@),
            ).0,
            match r {
                Ok(()) => activate_run(
                    old(self).loaded(),
                    old(self).active(),
                    strings_view(pending@),
                ).1 is None,
                Err(e) => activate_run(
                    old(self).loaded(),
                    old(self).active(),
                    strings_view(pending@),
                ).1 matches Some(id) && e@ == (EngineErrorView::FragmentNotFound { id }),
            },
    {
        let ghost goal = activate_run(
            old(self).loaded(),
            old(self).active(),
            strings_view(pending@),
        );
        proof {
            if names_distinct(self.active()) {
                lemma_activation_keeps_names_distinct(
                    self.loaded(),
                    self.active(),
                    strings_view(pending@),
                );
            }
        }
        let mut queue = pending;
        while queue.len() > 0
            invariant
                self.loaded() == old(self).loaded(),
                goal == activate_run(
                    old(self).loaded(),
                    old(self).active(),
                    strings_view(pending@),
                ),
                activate_run(self.loaded(), self.active(), strings_view(queue@)) == goal,
                names_distinct(old(self).active()) ==> names_distinct(goal.0),
            decreases unactivated(self.loaded(), self.active()), queue.len(),
        {
            let ghost before = strings_view(queue@);
            let id = queue.remove(0);
            assert(strings_view(queue@) =~= before.drop_first());
            assert(id@ == before[0]);
            if !self.is_state_file_active(id.as_str()) {
                match self.position_loaded(&id) {
                    None => {
                        assert(activate_run(self.loaded(), self.active(), before) == (
                            self.active(),
                            Some(id@),
                        ));
                        return Err(EngineError::FragmentNotFound { id });
                    },
                    Some(j) => {
                        let file = self.loaded_state_files[j].clone();
                        let mut next = clone_strings(&file.depends);
                        let ghost deps = next@;
                        let ghost rest = queue@;
                        next.append(&mut queue);
                        queue = next;
                        proof {
                            assert(file@ == self.loaded()[j as int]);
                            assert(strings_view(deps).len() == strings_view(file.depends@).len());
                            assert(strings_view(queue@) =~= file@.depends + strings_view(rest));
                            lemma_find_loaded(self.loaded(), id@);
                            assert(is_active(self.loaded(), file@.id));
                            lemma_unactivated_push(self.loaded(), self.active(), file@);
                        }
                        let ghost was = self.active();
                        self.active_state_files.push(file);
                        assert(self.active() =~= was.push(file@));
                    },
                }
            }
        }
        Ok(())
    }

    /// Activates the fragment of the name `id` and, before anything else, all
    /// that it depends on, directly or through others. A name that is active
    /// already is left alone. Fails on the first name met that no loaded
    /// fragment has; what was activated until then stays active.
    pub fn activate_state_file(&mut self, id: &str) -> (r: Result<(), EngineError>)
        ensures
            final(self).loaded() == old(self).loaded(),
            names_distinct(old(self).active()) ==> names_distinct(final(self).active()),
            final(self).active() == activate_run(
                old(self).loaded(),
                old(self).active(),
                seq![id@],
            ).0,
            match r {
                Ok(()) => activate_run(old(self).loaded(), old(self).active(), seq![id@]).1 is None,
                Err(e) => activate_run(old(self).loaded(), old(self).active(), seq![id@]).1
                    matches Some(missing) && e@ == (EngineErrorView::FragmentNotFound {
                    id: missing,
                }),
            },
    {
        let mut pending: Vec<String> = Vec::new();
        pending.push(id.to_owned());
        assert(strings_view(pending@) =~= seq![id@]);
        self.activate_pending(pending)
    }

    /// Activates the fragments of the names `ids`, the first of them first,
    /// each with all that it depends on.
    pub fn activate_state_files(&mut self, ids: &Vec<String>) -> (r: Result<(), EngineError>)
        ensures
            final(self).loaded() == old(self).loaded(),
            names_distinct(old(self).active()) ==> names_distinct(final(self).active()),
            final(self).active() == activate_run(
                old(self).loaded(),
                old(self).active(),
                strings_view(ids@),
            ).0,
            match r {
                Ok(()) => activate_run(old(self).loaded(), old(self).active(), strings_view(ids@)).1
                    is None,
                Err(e) => activate_run(old(self).loaded(), old(self).active(), strings_view(ids@)).1
                    matches Some(missing) && e@ == (EngineErrorView::FragmentNotFound {
                    id: missing,
                }),
            },
    {
        self.activate_pending(clone_strings(ids))
    }

    /// Activates every loaded fragment, in the order of loading.
    pub fn active_all_state_files(&mut self) -> (r: Result<(), EngineError>)
        ensures
            final(self).loaded() == old(self).loaded(),
            names_distinct(old(self).active()) ==> names_distinct(final(self).active()),
            final(self).active() == activate_run(
                old(self).loaded(),
                old(self).active(),
                Seq::new(old(self).loaded().len(), |i: int| old(self).loaded()[i].id),
            ).0,
            match r {
                Ok(()) => activate_run(
                    old(self).loaded(),
                    old(self).active(),
                    Seq::new(old(self).loaded().len(), |i: int| old(self).loaded()[i].id),
                ).1 is None,
                Err(e) => activate_run(
                    old(self).loaded(),
                    old(self).active(),
                    Seq::new(old(self).loaded().len(), |i: int| old(self).loaded()[i].id),
                ).1 matches Some(missing) && e@ == (EngineErrorView::FragmentNotFound {
                    id: missing,
                }),
            },
    {
        let pending = self.loaded_state_file_ids();
        self.activate_pending(pending)
    }
    /// The names of the active fragments in the order in which `build` merges
    /// them, or the reason why it cannot. The order lists every active
    /// fragment once, each behind all that it depends on.
    pub fn merge_order(&self) -> (r: Result<Vec<String>, EngineError>)
        ensures
            match r {
                Ok(ids) => kahn_order(self.active()) matches Ok(order) && strings_view(ids@)
                    == Seq::new(order.len(), |k: int| self.active()[order[k]].id)
                    && lists_each_once(order, self.active().len() as int)
                    && dependencies_first_in(self.active(), order),
                Err(e) => kahn_order(self.active()) == Err::<Seq<int>, EngineErrorView>(e@),
            },
    {
        let order = match order_of(&self.active_state_files) {
            Ok(order) => order,
            Err(e) => { return Err(e); },
        };
        let mut ids: Vec<String> = Vec::new();
        let mut k: usize = 0;
        while k < order.len()
            invariant
                k <= order.len(),
                ids.len() == k,
                forall|j: int| 0 <= j < order@.len() ==> order@[j] < self.active_state_files@.len(),
                forall|j: int|
                    0 <= j < k ==> ids@[j]@ == self.active_state_files@[order@[j] as int].id@,
            decreases order.len() - k,
        {
            ids.push(self.active_state_files[order[k]].id.clone());
            k += 1;
        }
        assert(strings_view(ids@) =~= Seq::new(
            ints(order@).len(),
            |k: int| self.active()[ints(order@)[k]].id,
        ));
        Ok(ids)
    }

    /// Puts the active fragments in the order in which they are merged: the
    /// same fragments, each once, and each behind all that it depends on. A
    /// fragment is ready once all that it depends on is ready or merged, and
    /// of the ready ones the one that became ready first is merged first.
    /// Fails, and changes nothing, where no fragment is without dependencies
    /// or where the order does not reach every fragment.
    fn sort_state_files(&mut self) -> (r: Result<(), EngineError>)
        ensures
            final(self).loaded() == old(self).loaded(),
            match r {
                Ok(()) => kahn_order(old(self).active()) matches Ok(order) && final(self).active()
                    == arranged(old(self).active(), order) && lists_each_once(
                    order,
                    old(self).active().len() as int,
                ) && dependencies_first(final(self).active()),
                Err(e) => kahn_order(old(self).active()) == Err::<Seq<int>, EngineErrorView>(e@)
                    && final(self).active() == old(self).active(),
            },
    {
        let order = match order_of(&self.active_state_files) {
            Ok(order) => order,
            Err(e) => { return Err(e); },
        };
        let mut sorted: Vec<StateMachineFile> = Vec::new();
        let mut k: usize = 0;
        while k < order.len()
            invariant
                k <= order.len(),
                sorted.len() == k,
                forall|j: int| 0 <= j < order@.len() ==> order@[j] < self.active_state_files@.len(),
                forall|j: int|
                    0 <= j < k ==> sorted@[j]@ == self.active_state_files@[order@[j] as int]@,
            decreases order.len() - k,
        {
            sorted.push(self.active_state_files[order[k]].clone());
            k += 1;
        }
        assert(files_view(sorted@) =~= arranged(old(self).active(), ints(order@)));
        self.active_state_files = sorted;
        Ok(())
    }

    /// Builds the graph: orders the active fragments so that each stands
    /// behind all that it depends on, merges them in that order onto the
    /// built-in states, and checks that every transition leads to a state
    /// that the graph has.
    pub fn build(self) -> (r: Result<StateMachine, EngineError>)
        ensures
            match kahn_order(self.active()) {
                Err(reason) => r matches Err(e) && e@ == reason,
                Ok(order) => {
                    let g = fold_fragments(builtin_states(), arranged(self.active(), order));
                    &&& lists_each_once(order, self.active().len() as int)
                    &&& dependencies_first(arranged(self.active(), order))
                    &&& r is Ok <==> graph_closed(g)
                    &&& match r {
                        Ok(sm) => sm@ == g && graph_closed(g),
                        Err(e) => e@ matches EngineErrorView::DanglingTarget { state, target }
                            && dangling(g, state, target),
                    }
                },
            },
    {
        let mut builder = self;
        match builder.sort_state_files() {
            Ok(()) => {},
            Err(e) => { return Err(e); },
        }
        let ghost files = builder.active();
        let mut sm = StateMachine::default();
        let mut i: usize = 0;
        assert(files.take(0) =~= Seq::<FileView>::empty());
        while i < builder.active_state_files.len()
            invariant
                i <= builder.active_state_files.len(),
                files == builder.active(),
                sm@ == fold_fragments(builtin_states(), files.take(i as int)),
            decreases builder.active_state_files.len() - i,
        {
            assert(files.take(i as int + 1).drop_last() =~= files.take(i as int));
            assert(files.take(i as int + 1).last() == builder.active_state_files@[i as int]@);
            sm.merge_states(builder.active_state_files[i].states.clone());
            i += 1;
        }
        assert(files.take(files.len() as int) =~= files);
        let ghost g = sm@;
        let names = sm.states();
        let mut s: usize = 0;
        while s < names.len()
            invariant
                s <= names.len(),
                g == sm@,
                kahn_order(self.active()) matches Ok(o) && g == fold_fragments(
                    builtin_states(),
                    arranged(self.active(), o),
                ) && lists_each_once(o, self.active().len() as int) && dependencies_first(
                    arranged(self.active(), o),
                ),
                forall|a: int| 0 <= a < names@.len() ==> g.contains_key(#[trigger] names@[a]@),
                forall|a: int, t: int|
                    0 <= a < s && 0 <= t < g[names@[a]@].transitions.len() ==> g.contains_key(
                        #[trigger] g[names@[a]@].transitions[t].target,
                    ),
            decreases names.len() - s,
        {
            assert(g.contains_key(names@[s as int]@));
            let state = sm.transitions_of(names[s].as_str());
            let mut t: usize = 0;
            while t < state.len()
                invariant
                    t <= state.len(),
                    s < names.len(),
                    g == sm@,
                    kahn_order(self.active()) matches Ok(o) && g == fold_fragments(
                        builtin_states(),
                        arranged(self.active(), o),
                    ) && lists_each_once(o, self.active().len() as int) && dependencies_first(
                        arranged(self.active(), o),
                    ),
                    g.contains_key(names@[s as int]@),
                    transitions_view(state@) == g[names@[s as int]@].transitions,
                    forall|u: int|
                        0 <= u < t ==> g.contains_key(
                            #[trigger] g[names@[s as int]@].transitions[u].target,
                        ),
                decreases state.len() - t,
            {
                assert(transitions_view(state@)[t as int] == state@[t as int]@);
                if !sm.has_state(state[t].target.as_str()) {
                    assert(!graph_closed(g)) by {
                        let k = names@[s as int]@;
                        assert(g[k].transitions.len() == state@.len());
                        assert(!g.contains_key(g[k].transitions[t as int].target));
                    }
                    return Err(
                        EngineError::DanglingTarget {
                            state: names[s].clone(),
                            target: state[t].target.clone(),
                        },
                    );
                }
                t += 1;
            }
            s += 1;
        }
        proof {
            assert forall|k: Seq<char>, t: int|
                g.contains_key(k) && 0 <= t < g[k].transitions.len() implies g.contains_key(
                #[trigger] g[k].transitions[t].target,
            ) by {
                assert(names_hold(names@, k));
                let a = choose|a: int| 0 <= a < names@.len() && names@[a]@ == k;
                assert(g.contains_key(g[names@[a]@].transitions[t].target));
            }
        }
        Ok(sm)
    }
}

} // verus!
