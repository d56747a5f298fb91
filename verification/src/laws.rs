//! What holds of the engine whatever the fragments and whatever the console
//! shows. Each law is proved from the definitions that the contracts of the
//! library are stated over.

use crate::action::{run_actions, run_repeat, ActionView};
use crate::active_job::{first_immediate, first_match, JobView, StepPlanView};
use crate::builder::{
    activate_run, arranged, find_loaded, fold_fragments, is_active, kahn_order, lemma_find_loaded,
    lemma_unactivated_push, unactivated,
};
use crate::ordering::{
    dependencies_present, law_order_exists, law_order_lists_every_fragment_once, lists_each_once,
    ranked,
};
use crate::data_structure::{FileView, StateMachineMergeMode, TransitionView};
use crate::devinfo::{facts_distinct, DeviceFact};
use crate::effect::{Context, EffectView, Progress};
use crate::error::EngineErrorView;
use crate::state::{builtin_states, graph_closed, merged, Graph};
use vstd::prelude::*;

verus! {

/// A state that a later fragment defines with `Replace` is, after the merge,
/// as that fragment defines it.
pub proof fn law_replace_takes_over(dst: Graph, src: Graph, name: Seq<char>)
    requires
        src.contains_key(name),
        src[name].merge == StateMachineMergeMode::Replace,
    ensures
        merged(dst, src).contains_key(name),
        merged(dst, src)[name] == src[name],
{
}

/// A state that a later fragment defines with `Append` keeps, after the
/// merge, the transitions it had, in their order, and the new ones follow.
pub proof fn law_append_follows(dst: Graph, src: Graph, name: Seq<char>)
    requires
        dst.contains_key(name),
        src.contains_key(name),
        src[name].merge == StateMachineMergeMode::Append,
    ensures
        merged(dst, src).contains_key(name),
        merged(dst, src)[name].transitions == dst[name].transitions + src[name].transitions,
        merged(dst, src)[name].merge == dst[name].merge,
{
}

/// A merge leaves alone every state that the merged fragment does not define.
pub proof fn law_merge_keeps_the_rest(dst: Graph, src: Graph, name: Seq<char>)
    requires
        !src.contains_key(name),
    ensures
        merged(dst, src).contains_key(name) == dst.contains_key(name),
        dst.contains_key(name) ==> merged(dst, src)[name] == dst[name],
{
}

/// Every fragment that one of `files` depends on is among `files`.
pub open spec fn dependencies_active(files: Seq<FileView>) -> bool {
    forall|i: int, d: int|
        0 <= i < files.len() && 0 <= d < files[i].depends.len() ==> is_active(
            files,
            #[trigger] files[i].depends[d],
        )
}

/// Every fragment that one of `files` depends on is among `files` or named in
/// `pending`.
pub open spec fn dependencies_active_or_pending(files: Seq<FileView>, pending: Seq<Seq<char>>) -> bool {
    forall|i: int, d: int|
        0 <= i < files.len() && 0 <= d < files[i].depends.len() ==> is_active(
            files,
            #[trigger] files[i].depends[d],
        ) || pending.contains(files[i].depends[d])
}

/// An activation that succeeds leaves every pending name active and every
/// dependency of an active fragment active, and it deactivates nothing.
pub proof fn law_activation_run(
    loaded: Seq<FileView>,
    active: Seq<FileView>,
    pending: Seq<Seq<char>>,
)
    requires
        dependencies_active_or_pending(active, pending),
    ensures
        forall|id: Seq<char>|
            is_active(active, id) ==> is_active(activate_run(loaded, active, pending).0, id),
        activate_run(loaded, active, pending).1 is None ==> dependencies_active(
            activate_run(loaded, active, pending).0,
        ),
        activate_run(loaded, active, pending).1 is None ==> forall|k: int|
            0 <= k < pending.len() ==> is_active(
                activate_run(loaded, active, pending).0,
                #[trigger] pending[k],
            ),
    decreases unactivated(loaded, active), pending.len(),
{
    let r = activate_run(loaded, active, pending);
    if pending.len() == 0 {
    } else {
        let id = pending[0];
        let rest = pending.drop_first();
        if is_active(active, id) {
            assert(dependencies_active_or_pending(active, rest)) by {
                assert forall|i: int, d: int|
                    0 <= i < active.len() && 0 <= d < active[i].depends.len() implies is_active(
                    active,
                    #[trigger] active[i].depends[d],
                ) || rest.contains(active[i].depends[d]) by {
                    let dep = active[i].depends[d];
                    if !is_active(active, dep) {
                        let k = choose|k: int| 0 <= k < pending.len() && pending[k] == dep;
                        assert(k > 0);
                        assert(rest[k - 1] == dep);
                    }
                }
            }
            law_activation_run(loaded, active, rest);
            if r.1 is None {
                assert forall|k: int| 0 <= k < pending.len() implies is_active(
                    r.0,
                    #[trigger] pending[k],
                ) by {
                    if k > 0 {
                        assert(rest[k - 1] == pending[k]);
                    }
                }
            }
        } else {
            match find_loaded(loaded, id) {
                None => {},
                Some(j) => {
                    let f = loaded[j];
                    let more = active.push(f);
                    let next = f.depends + rest;
                    lemma_find_loaded(loaded, id);
                    assert(is_active(loaded, f.id));
                    lemma_unactivated_push(loaded, active, f);
                    assert(more[active.len() as int].id == id);
                    assert forall|x: Seq<char>| is_active(active, x) implies is_active(
                        more,
                        x,
                    ) by {
                        let i = choose|i: int| 0 <= i < active.len() && active[i].id == x;
                        assert(more[i].id == x);
                    }
                    assert(dependencies_active_or_pending(more, next)) by {
                        assert forall|i: int, d: int|
                            0 <= i < more.len() && 0 <= d < more[i].depends.len() implies is_active(
                            more,
                            #[trigger] more[i].depends[d],
                        ) || next.contains(more[i].depends[d]) by {
                            let dep = more[i].depends[d];
                            if i < active.len() {
                                assert(more[i] == active[i]);
                                if !is_active(active, dep) {
                                    let k = choose|k: int|
                                        0 <= k < pending.len() && pending[k] == dep;
                                    if k > 0 {
                                        assert(next[f.depends.len() + k - 1] == dep);
                                    }
                                }
                            } else {
                                assert(next[d] == dep);
                            }
                        }
                    }
                    law_activation_run(loaded, more, next);
                    if r.1 is None {
                        assert forall|k: int| 0 <= k < pending.len() implies is_active(
                            r.0,
                            #[trigger] pending[k],
                        ) by {
                            if k > 0 {
                                assert(next[f.depends.len() + k - 1] == pending[k]);
                            } else {
                                assert(is_active(more, id));
                            }
                        }
                    }
                },
            }
        }
    }
}

/// Activating a fragment activates with it all that it depends on, directly
/// or through others: where the dependencies of the active fragments were
/// active before, and the activation succeeds, the fragment is active and the
/// dependencies of the active fragments are active again.
pub proof fn law_activation_closes_dependencies(
    loaded: Seq<FileView>,
    active: Seq<FileView>,
    id: Seq<char>,
)
    requires
        dependencies_active(active),
        activate_run(loaded, active, seq![id]).1 is None,
    ensures
        is_active(activate_run(loaded, active, seq![id]).0, id),
        dependencies_active(activate_run(loaded, active, seq![id]).0),
{
    law_activation_run(loaded, active, seq![id]);
    assert(seq![id][0] == id);
}

/// The loaded fragment of the name `a` depends on the name `b`.
pub open spec fn leads_to(loaded: Seq<FileView>, a: Seq<char>, b: Seq<char>) -> bool {
    match find_loaded(loaded, a) {
        Some(j) => loaded[j].depends.contains(b),
        None => false,
    }
}

/// Each name of the path but the last is the name of a loaded fragment that
/// depends on the next name.
pub open spec fn is_path(loaded: Seq<FileView>, path: Seq<Seq<char>>) -> bool {
    &&& path.len() > 0
    &&& forall|k: int| 0 <= k < path.len() - 1 ==> leads_to(loaded, #[trigger] path[k], path[k + 1])
}

/// The name `to` is `from` itself or is reached from it through the
/// dependencies of loaded fragments.
pub open spec fn reachable(loaded: Seq<FileView>, from: Seq<char>, to: Seq<char>) -> bool {
    exists|path: Seq<Seq<char>>| #[trigger]
        is_path(loaded, path) && path[0] == from && path.last() == to
}

/// The name `to` is reachable from one of the names in `pending`.
pub open spec fn reachable_from(loaded: Seq<FileView>, pending: Seq<Seq<char>>, to: Seq<char>) -> bool {
    exists|k: int| 0 <= k < pending.len() && reachable(loaded, #[trigger] pending[k], to)
}

/// The fragment is the loaded fragment of its name.
pub open spec fn loaded_as(loaded: Seq<FileView>, f: FileView) -> bool {
    match find_loaded(loaded, f.id) {
        Some(j) => loaded[j] == f,
        None => false,
    }
}

/// Each of the fragments is the loaded fragment of its name.
pub open spec fn taken_from_loaded(loaded: Seq<FileView>, active: Seq<FileView>) -> bool {
    forall|i: int| 0 <= i < active.len() ==> loaded_as(loaded, #[trigger] active[i])
}

proof fn lemma_reach_self(loaded: Seq<FileView>, a: Seq<char>)
    ensures
        reachable(loaded, a, a),
{
    let path = seq![a];
    assert(is_path(loaded, path) && path[0] == a && path.last() == a);
}

proof fn lemma_reach_step(loaded: Seq<FileView>, a: Seq<char>, b: Seq<char>, c: Seq<char>)
    requires
        leads_to(loaded, a, b),
        reachable(loaded, b, c),
    ensures
        reachable(loaded, a, c),
{
    let path = choose|path: Seq<Seq<char>>| #[trigger]
        is_path(loaded, path) && path[0] == b && path.last() == c;
    let longer = seq![a] + path;
    assert forall|k: int| 0 <= k < longer.len() - 1 implies leads_to(
        loaded,
        #[trigger] longer[k],
        longer[k + 1],
    ) by {
        if k > 0 {
            assert(longer[k] == path[k - 1] && longer[k + 1] == path[k]);
        } else {
            assert(longer[0] == a && longer[1] == path[0]);
        }
    }
    assert(longer.last() == path.last());
    assert(is_path(loaded, longer) && longer[0] == a && longer.last() == c);
}

/// Activation stays within reach of the names it is asked for: every
/// fragment that it makes active is the loaded fragment of a name that is
/// reachable from one of them, the fragments that were active stay where
/// they were, and a name that stops it is reachable and not loaded.
pub proof fn law_activation_stays_within_reach(
    loaded: Seq<FileView>,
    active: Seq<FileView>,
    pending: Seq<Seq<char>>,
)
    ensures
        active.is_prefix_of(activate_run(loaded, active, pending).0),
        activate_run(loaded, active, pending).1 matches Some(m) ==> !is_active(loaded, m)
            && reachable_from(loaded, pending, m),
        forall|i: int|
            active.len() <= i < activate_run(loaded, active, pending).0.len() ==> reachable_from(
                loaded,
                pending,
                (#[trigger] activate_run(loaded, active, pending).0[i]).id,
            ) && loaded_as(loaded, activate_run(loaded, active, pending).0[i]),
    decreases unactivated(loaded, active), pending.len(),
{
    let r = activate_run(loaded, active, pending);
    if pending.len() > 0 {
        let id = pending[0];
        let rest = pending.drop_first();
        if is_active(active, id) {
            law_activation_stays_within_reach(loaded, active, rest);
            assert forall|x: Seq<char>| reachable_from(loaded, rest, x) implies reachable_from(
                loaded,
                pending,
                x,
            ) by {
                let k = choose|k: int| 0 <= k < rest.len() && reachable(loaded, #[trigger] rest[k], x);
                assert(pending[k + 1] == rest[k]);
            }
        } else {
            lemma_find_loaded(loaded, id);
            lemma_reach_self(loaded, id);
            match find_loaded(loaded, id) {
                None => {
                    assert(reachable(loaded, pending[0], id));
                },
                Some(j) => {
                    let f = loaded[j];
                    let more = active.push(f);
                    let next = f.depends + rest;
                    assert(is_active(loaded, f.id));
                    lemma_unactivated_push(loaded, active, f);
                    law_activation_stays_within_reach(loaded, more, next);
                    assert(active.is_prefix_of(r.0)) by {
                        assert(active =~= more.take(active.len() as int));
                    }
                    assert forall|x: Seq<char>| reachable_from(
                        loaded,
                        next,
                        x,
                    ) implies reachable_from(loaded, pending, x) by {
                        let k = choose|k: int|
                            0 <= k < next.len() && reachable(loaded, #[trigger] next[k], x);
                        if k < f.depends.len() {
                            assert(next[k] == f.depends[k]);
                            assert(f.depends.contains(f.depends[k]));
                            lemma_reach_step(loaded, id, f.depends[k], x);
                            assert(reachable(loaded, pending[0], x));
                        } else {
                            assert(next[k] == rest[k - f.depends.len()]);
                            assert(pending[k - f.depends.len() + 1] == next[k]);
                        }
                    }
                    assert forall|i: int| active.len() <= i < r.0.len() implies reachable_from(
                        loaded,
                        pending,
                        (#[trigger] r.0[i]).id,
                    ) && loaded_as(loaded, r.0[i]) by {
                        if i == active.len() {
                            assert(r.0[i] == more[i]);
                            assert(reachable(loaded, pending[0], f.id));
                        } else {
                            assert(reachable_from(loaded, next, r.0[i].id));
                        }
                    }
                },
            }
        }
    }
}

/// Activation succeeds where every name within reach is the name of a loaded
/// fragment.
pub proof fn law_activation_succeeds(
    loaded: Seq<FileView>,
    active: Seq<FileView>,
    pending: Seq<Seq<char>>,
)
    requires
        forall|x: Seq<char>| #[trigger] reachable_from(loaded, pending, x) ==> is_active(loaded, x),
    ensures
        activate_run(loaded, active, pending).1 is None,
{
    law_activation_stays_within_reach(loaded, active, pending);
}

/// An activation that succeeds makes every name within reach active, where
/// the active fragments were loaded fragments with their dependencies
/// active before.
pub proof fn law_activation_reaches_all(
    loaded: Seq<FileView>,
    active: Seq<FileView>,
    pending: Seq<Seq<char>>,
    x: Seq<char>,
)
    requires
        dependencies_active(active),
        taken_from_loaded(loaded, active),
        activate_run(loaded, active, pending).1 is None,
        reachable_from(loaded, pending, x),
    ensures
        is_active(activate_run(loaded, active, pending).0, x),
{
    let k = choose|k: int| 0 <= k < pending.len() && reachable(loaded, #[trigger] pending[k], x);
    let path = choose|path: Seq<Seq<char>>| #[trigger]
        is_path(loaded, path) && path[0] == pending[k] && path.last() == x;
    law_activation_run(loaded, active, pending);
    lemma_along_path(loaded, active, pending, path, path.len() - 1);
}

proof fn lemma_along_path(
    loaded: Seq<FileView>,
    active: Seq<FileView>,
    pending: Seq<Seq<char>>,
    path: Seq<Seq<char>>,
    t: int,
)
    requires
        dependencies_active(active),
        taken_from_loaded(loaded, active),
        activate_run(loaded, active, pending).1 is None,
        is_path(loaded, path),
        is_active(activate_run(loaded, active, pending).0, path[0]),
        0 <= t < path.len(),
    ensures
        is_active(activate_run(loaded, active, pending).0, path[t]),
    decreases t,
{
    if t > 0 {
        lemma_along_path(loaded, active, pending, path, t - 1);
        let out = activate_run(loaded, active, pending).0;
        law_activation_run(loaded, active, pending);
        law_activation_stays_within_reach(loaded, active, pending);
        let i = choose|i: int| 0 <= i < out.len() && out[i].id == path[t - 1];
        if i < active.len() {
            assert(out[i] == active[i]);
            assert(loaded_as(loaded, active[i]));
        }
        assert(loaded_as(loaded, out[i]));
        assert(leads_to(loaded, path[t - 1], path[t]));
        let j = find_loaded(loaded, out[i].id)->Some_0;
        assert(loaded[j] == out[i]);
        let d = choose|d: int| 0 <= d < out[i].depends.len() && out[i].depends[d] == path[t];
        assert(is_active(out, out[i].depends[d]));
    }
}

/// What `first_immediate` finds fires at once, and no transition before it
/// does.
pub proof fn law_first_immediate(ts: Seq<TransitionView>, from: int)
    requires
        0 <= from,
    ensures
        match first_immediate(ts, from) {
            Some(i) => from <= i < ts.len() && ts[i].trigger is Immediate && forall|j: int|
                from <= j < i ==> !((#[trigger] ts[j]).trigger is Immediate),
            None => forall|j: int|
                from <= j < ts.len() ==> !((#[trigger] ts[j]).trigger is Immediate),
        },
    decreases ts.len() - from,
{
    if from < ts.len() && !(ts[from].trigger is Immediate) {
        law_first_immediate(ts, from + 1);
    }
}

/// A transition that fires at once wins over every other transition of its
/// state, wherever it stands: the job does not wait, and whatever a wait
/// reports, the first such transition is taken.
pub proof fn law_immediate_wins(
    job: JobView,
    k: int,
    data: Seq<char>,
    m: Seq<char>,
    now: i64,
    sent: Seq<EffectView>,
)
    requires
        job.graph.contains_key(job.current_state),
        0 <= k < job.graph[job.current_state].transitions.len(),
        job.graph[job.current_state].transitions[k].trigger is Immediate,
    ensures
        job.plan() == Ok::<StepPlanView, EngineErrorView>(StepPlanView::Fire),
        first_immediate(job.graph[job.current_state].transitions, 0) matches Some(i) && i <= k
            && job.graph[job.current_state].transitions[i].trigger is Immediate
            && job.tick_outcome(now, sent) == job.transition_outcome(
            job.graph[job.current_state].transitions[i],
            Seq::empty(),
            Seq::empty(),
            now,
            sent,
        ),
        job.match_outcome(data, m, now, sent) == job.tick_outcome(now, sent),
{
    law_first_immediate(job.graph[job.current_state].transitions, 0);
}

/// What `first_match` finds is satisfied by the text, and every transition
/// before it was judged and found not satisfied; where it ends on an error,
/// the error is that of the first trigger that could not be judged.
pub proof fn law_first_match(ts: Seq<TransitionView>, m: Seq<char>, from: int)
    requires
        0 <= from,
    ensures
        match first_match(ts, m, from) {
            Ok(Some(i)) => from <= i < ts.len() && ts[i].trigger.satisfied_by(m) == Ok::<
                bool,
                EngineErrorView,
            >(true) && forall|j: int|
                from <= j < i ==> (#[trigger] ts[j]).trigger.satisfied_by(m) == Ok::<
                    bool,
                    EngineErrorView,
                >(false),
            Ok(None) => forall|j: int|
                from <= j < ts.len() ==> (#[trigger] ts[j]).trigger.satisfied_by(m) == Ok::<
                    bool,
                    EngineErrorView,
                >(false),
            Err(e) => exists|i: int|
                from <= i < ts.len() && (#[trigger] ts[i]).trigger.satisfied_by(m) == Err::<
                    bool,
                    EngineErrorView,
                >(e) && forall|j: int|
                    from <= j < i ==> (#[trigger] ts[j]).trigger.satisfied_by(m) == Ok::<
                        bool,
                        EngineErrorView,
                    >(false),
        },
    decreases ts.len() - from,
{
    if from < ts.len() {
        match ts[from].trigger.satisfied_by(m) {
            Err(e) => {
                assert(ts[from].trigger.satisfied_by(m) == Err::<bool, EngineErrorView>(e));
            },
            Ok(true) => {},
            Ok(false) => {
                law_first_match(ts, m, from + 1);
                match first_match(ts, m, from + 1) {
                    Err(e) => {
                        let i = choose|i: int|
                            from + 1 <= i < ts.len() && (#[trigger] ts[i]).trigger.satisfied_by(m)
                                == Err::<bool, EngineErrorView>(e) && forall|j: int|
                                from + 1 <= j < i ==> (#[trigger] ts[j]).trigger.satisfied_by(m)
                                    == Ok::<bool, EngineErrorView>(false);
                        assert(from <= i < ts.len() && ts[i].trigger.satisfied_by(m) == Err::<
                            bool,
                            EngineErrorView,
                        >(e));
                        assert forall|j: int| from <= j < i implies (
                        #[trigger] ts[j]).trigger.satisfied_by(m) == Ok::<bool, EngineErrorView>(
                            false,
                        ) by {}
                    },
                    _ => {},
                }
            },
        }
    }
}

/// Of two transitions whose triggers the reported match satisfies, the one
/// listed first is taken: where the transition `i` is the first that is
/// satisfied and none fires at once, the job takes it, however many later
/// ones are satisfied too.
pub proof fn law_first_match_wins(
    job: JobView,
    i: int,
    data: Seq<char>,
    m: Seq<char>,
    now: i64,
    sent: Seq<EffectView>,
)
    requires
        job.graph.contains_key(job.current_state),
        0 <= i < job.graph[job.current_state].transitions.len(),
        forall|j: int|
            0 <= j < job.graph[job.current_state].transitions.len() ==> !((
            #[trigger] job.graph[job.current_state].transitions[j]).trigger is Immediate),
        job.graph[job.current_state].transitions[i].trigger.satisfied_by(m) == Ok::<
            bool,
            EngineErrorView,
        >(true),
        forall|j: int|
            0 <= j < i ==> (
            #[trigger] job.graph[job.current_state].transitions[j]).trigger.satisfied_by(m) == Ok::<
                bool,
                EngineErrorView,
            >(false),
    ensures
        job.match_outcome(data, m, now, sent) == job.transition_outcome(
            job.graph[job.current_state].transitions[i],
            data,
            m,
            now,
            sent,
        ),
{
    let ts = job.graph[job.current_state].transitions;
    law_first_immediate(ts, 0);
    law_first_match(ts, m, 0);
    match first_match(ts, m, 0) {
        Ok(Some(a)) => {
            if a < i {
                assert(ts[a].trigger.satisfied_by(m) == Ok::<bool, EngineErrorView>(false));
            }
            if i < a {
                assert(ts[i].trigger.satisfied_by(m) == Ok::<bool, EngineErrorView>(false));
            }
        },
        Ok(None) => {
            assert(ts[i].trigger.satisfied_by(m) == Ok::<bool, EngineErrorView>(false));
        },
        Err(e) => {
            let a = choose|a: int|
                0 <= a < ts.len() && (#[trigger] ts[a]).trigger.satisfied_by(m) == Err::<
                    bool,
                    EngineErrorView,
                >(e) && forall|j: int|
                    0 <= j < a ==> (#[trigger] ts[j]).trigger.satisfied_by(m) == Ok::<
                        bool,
                        EngineErrorView,
                    >(false);
            if a < i {
                assert(ts[a].trigger.satisfied_by(m) == Ok::<bool, EngineErrorView>(false));
            }
            if i < a {
                assert(ts[i].trigger.satisfied_by(m) == Ok::<bool, EngineErrorView>(false));
            }
        },
    }
}

/// Repeating actions once more is working through them once more, after all
/// the repetitions before: the repetitions follow each other in sequence.
pub proof fn law_repeat_unrolls(
    actions: Seq<ActionView>,
    times: nat,
    ctx: Context,
    acc: Progress,
)
    ensures
        run_repeat(actions, times + 1, ctx, acc) == run_actions(
            actions,
            0,
            ctx,
            run_repeat(actions, times, ctx, acc),
        ),
    decreases times,
{
    let once = run_actions(actions, 0, ctx, acc);
    assert(run_repeat(actions, times + 1, ctx, acc) == run_repeat(actions, times, ctx, once));
    if times == 0 {
        assert(run_repeat(actions, 0, ctx, once) == once);
        assert(run_repeat(actions, 0, ctx, acc) == acc);
    } else {
        law_repeat_unrolls(actions, (times - 1) as nat, ctx, once);
        assert(run_repeat(actions, times, ctx, acc) == run_repeat(
            actions,
            (times - 1) as nat,
            ctx,
            once,
        ));
    }
}

/// Repeating no times does nothing, and repeating once is working through
/// the actions once.
pub proof fn law_repeat_base(actions: Seq<ActionView>, ctx: Context, acc: Progress)
    ensures
        run_repeat(actions, 0, ctx, acc) == acc,
        run_repeat(actions, 1, ctx, acc) == run_actions(actions, 0, ctx, acc),
{
    law_repeat_unrolls(actions, 0, ctx, acc);
}

/// A job never holds a fact twice: recording a fact keeps the recorded facts
/// distinct, keeps every earlier fact in its place, and the fact recorded is
/// then among them.
pub proof fn law_record_keeps_facts_distinct(acc: Progress, fact: DeviceFact)
    requires
        facts_distinct(acc.information),
    ensures
        facts_distinct(acc.record(fact).information),
        acc.record(fact).information.contains(fact),
        acc.information.is_prefix_of(acc.record(fact).information),
{
    let after = acc.record(fact).information;
    if !acc.information.contains(fact) {
        assert(after[after.len() - 1] == fact);
        assert forall|i: int, j: int| 0 <= i < j < after.len() implies after[i] != after[j] by {
            if j == acc.information.len() {
                assert(acc.information[i] == after[i]);
            }
        }
    }
}

/// One of the fragments defines a state of the name `name`.
pub open spec fn defined_in(list: Seq<FileView>, name: Seq<char>) -> bool {
    exists|i: int| 0 <= i < list.len() && (#[trigger] list[i]).states.contains_key(name)
}

/// The base or one of the fragments gives the state `name` the transition
/// `t`.
pub open spec fn transition_given(
    base: Graph,
    list: Seq<FileView>,
    name: Seq<char>,
    t: TransitionView,
) -> bool {
    ||| base.contains_key(name) && base[name].transitions.contains(t)
    ||| exists|i: int|
        0 <= i < list.len() && (#[trigger] list[i]).states.contains_key(name)
            && list[i].states[name].transitions.contains(t)
}

/// Every transition that the base or a fragment gives leads to a state that
/// the base has or that a fragment defines.
pub open spec fn targets_defined(base: Graph, list: Seq<FileView>) -> bool {
    forall|name: Seq<char>, t: TransitionView| #[trigger]
        transition_given(base, list, name, t) ==> base.contains_key(t.target) || defined_in(
            list,
            t.target,
        )
}

/// The states of the merged graph are those of the base together with those
/// that the fragments define.
pub proof fn law_merged_states(base: Graph, list: Seq<FileView>, name: Seq<char>)
    ensures
        fold_fragments(base, list).contains_key(name) <==> base.contains_key(name) || defined_in(
            list,
            name,
        ),
    decreases list.len(),
{
    if list.len() > 0 {
        let front = list.drop_last();
        law_merged_states(base, front, name);
        if defined_in(front, name) {
            let i = choose|i: int|
                0 <= i < front.len() && (#[trigger] front[i]).states.contains_key(name);
            assert(list[i].states.contains_key(name));
        }
        if list.last().states.contains_key(name) {
            assert(list[list.len() - 1].states.contains_key(name));
        }
        if defined_in(list, name) {
            let i = choose|i: int|
                0 <= i < list.len() && (#[trigger] list[i]).states.contains_key(name);
            if i < front.len() {
                assert(front[i].states.contains_key(name));
            }
        }
    }
}

/// Every transition of the merged graph is one that the base or a fragment
/// gives to that state.
pub proof fn law_merged_transitions(
    base: Graph,
    list: Seq<FileView>,
    name: Seq<char>,
    t: TransitionView,
)
    requires
        fold_fragments(base, list).contains_key(name),
        fold_fragments(base, list)[name].transitions.contains(t),
    ensures
        transition_given(base, list, name, t),
    decreases list.len(),
{
    if list.len() > 0 {
        let front = list.drop_last();
        let before = fold_fragments(base, front);
        let last = list.last();
        let n = list.len() - 1;
        assert(list[n] == last);
        if last.states.contains_key(name) {
            let own = last.states[name].transitions;
            if before.contains_key(name) && last.states[name].merge
                == StateMachineMergeMode::Append {
                let old = before[name].transitions;
                let both = old + own;
                let k = choose|k: int| 0 <= k < both.len() && both[k] == t;
                if k < old.len() {
                    assert(old[k] == t);
                    law_merged_transitions(base, front, name, t);
                    lemma_given_in_longer(base, list, name, t);
                } else {
                    assert(own[k - old.len()] == t);
                }
            }
        } else {
            law_merged_transitions(base, front, name, t);
            lemma_given_in_longer(base, list, name, t);
        }
    }
}

proof fn lemma_given_in_longer(base: Graph, list: Seq<FileView>, name: Seq<char>, t: TransitionView)
    requires
        list.len() > 0,
        transition_given(base, list.drop_last(), name, t),
    ensures
        transition_given(base, list, name, t),
{
    let front = list.drop_last();
    if !(base.contains_key(name) && base[name].transitions.contains(t)) {
        let i = choose|i: int|
            0 <= i < front.len() && (#[trigger] front[i]).states.contains_key(name)
                && front[i].states[name].transitions.contains(t);
        assert(list[i] == front[i]);
    }
}

/// Where every transition leads to a state that the base has or a fragment
/// defines, every transition of the merged graph leads to a state of it.
pub proof fn law_merged_graph_is_closed(base: Graph, list: Seq<FileView>)
    requires
        targets_defined(base, list),
    ensures
        graph_closed(fold_fragments(base, list)),
{
    let g = fold_fragments(base, list);
    assert forall|k: Seq<char>, i: int|
        g.contains_key(k) && 0 <= i < g[k].transitions.len() implies g.contains_key(
        #[trigger] g[k].transitions[i].target,
    ) by {
        let t = g[k].transitions[i];
        assert(g[k].transitions.contains(t));
        law_merged_transitions(base, list, k, t);
        law_merged_states(base, list, t.target);
    }
}

/// Putting the fragments in another order changes neither which states they
/// define nor which transitions they give.
proof fn lemma_arranged(files: Seq<FileView>, order: Seq<int>, base: Graph)
    requires
        lists_each_once(order, files.len() as int),
    ensures
        forall|name: Seq<char>| #[trigger]
            defined_in(arranged(files, order), name) <==> defined_in(files, name),
        forall|name: Seq<char>, t: TransitionView| #[trigger]
            transition_given(base, arranged(files, order), name, t) <==> transition_given(
                base,
                files,
                name,
                t,
            ),
{
    let list = arranged(files, order);
    assert forall|name: Seq<char>| #[trigger]
        defined_in(list, name) <==> defined_in(files, name) by {
        if defined_in(list, name) {
            let i = choose|i: int|
                0 <= i < list.len() && (#[trigger] list[i]).states.contains_key(name);
            assert(files[order[i]].states.contains_key(name));
        }
        if defined_in(files, name) {
            let j = choose|j: int|
                0 <= j < files.len() && (#[trigger] files[j]).states.contains_key(name);
            assert(order.contains(j));
            let i = choose|i: int| 0 <= i < order.len() && order[i] == j;
            assert(list[i].states.contains_key(name));
        }
    }
    assert forall|name: Seq<char>, t: TransitionView| #[trigger]
        transition_given(base, list, name, t) <==> transition_given(base, files, name, t) by {
        let in_base = base.contains_key(name) && base[name].transitions.contains(t);
        if transition_given(base, list, name, t) && !in_base {
            let i = choose|i: int|
                0 <= i < list.len() && (#[trigger] list[i]).states.contains_key(name)
                    && list[i].states[name].transitions.contains(t);
            assert(files[order[i]].states.contains_key(name));
        }
        if transition_given(base, files, name, t) && !in_base {
            let j = choose|j: int|
                0 <= j < files.len() && (#[trigger] files[j]).states.contains_key(name)
                    && files[j].states[name].transitions.contains(t);
            assert(order.contains(j));
            let i = choose|i: int| 0 <= i < order.len() && order[i] == j;
            assert(list[i].states.contains_key(name));
        }
    }
}

/// Fragments always build where every name that one of them depends on is
/// the name of one of them, none of them depend on each other in a circle,
/// and every transition leads to a state that is built in or that one of
/// them defines. The graph then has the built-in states and the states that
/// the fragments define, and no others.
pub proof fn law_build_succeeds(files: Seq<FileView>, rank: Seq<nat>)
    requires
        dependencies_present(files),
        ranked(files, rank),
        targets_defined(builtin_states(), files),
    ensures
        kahn_order(files) matches Ok(order) && graph_closed(
            fold_fragments(builtin_states(), arranged(files, order)),
        ) && forall|name: Seq<char>| #[trigger]
            fold_fragments(builtin_states(), arranged(files, order)).contains_key(name)
                <==> builtin_states().contains_key(name) || defined_in(files, name),
{
    law_order_exists(files, rank);
    law_order_lists_every_fragment_once(files);
    let order = kahn_order(files)->Ok_0;
    let base = builtin_states();
    let list = arranged(files, order);
    lemma_arranged(files, order, base);
    assert(targets_defined(base, list)) by {
        assert forall|name: Seq<char>, t: TransitionView| #[trigger]
            transition_given(base, list, name, t) implies base.contains_key(t.target)
            || defined_in(list, t.target) by {
            assert(transition_given(base, files, name, t));
            assert(defined_in(list, t.target) <==> defined_in(files, t.target));
        }
    }
    law_merged_graph_is_closed(base, list);
    assert forall|name: Seq<char>| #[trigger]
        fold_fragments(base, list).contains_key(name) <==> base.contains_key(name) || defined_in(
            files,
            name,
        ) by {
        law_merged_states(base, list, name);
        assert(defined_in(list, name) <==> defined_in(files, name));
    }
}

} // verus!
