//! What holds of the order in which fragments are merged: it lists every
//! fragment once, a fragment stands behind all that it depends on, fragments
//! that wait for each other have no order, and all others have one.

use crate::builder::{
    arranged, eligible, fold_fragments, id_placed, is_active, kahn_order, kahn_run, kahn_scan,
    names_distinct, placed, roots,
};
use crate::data_structure::{FileView, StateMachineMergeMode};
use crate::error::EngineErrorView;
use crate::state::Graph;
use vstd::prelude::*;
use vstd::set_lib::{lemma_int_range, lemma_len_subset, lemma_subset_equality, set_int_range};

verus! {

/// A fragment of the name `id` stands in `order` before the position `p`.
pub open spec fn stands_before(files: Seq<FileView>, order: Seq<int>, p: int, id: Seq<char>) -> bool {
    exists|q: int| 0 <= q < p && q < order.len() && files[#[trigger] order[q]].id == id
}

/// In `order`, which lists fragments by their indices, each fragment stands
/// behind every fragment that it depends on.
pub open spec fn dependencies_first_in(files: Seq<FileView>, order: Seq<int>) -> bool {
    forall|p: int, d: int|
        0 <= p < order.len() && 0 <= d < files[order[p]].depends.len() ==> stands_before(
            files,
            order,
            p,
            #[trigger] files[order[p]].depends[d],
        )
}

/// A fragment of the name `id` stands in the list before the position `i`.
pub open spec fn named_before(list: Seq<FileView>, i: int, id: Seq<char>) -> bool {
    exists|j: int| 0 <= j < i && j < list.len() && (#[trigger] list[j]).id == id
}

/// In the list, each fragment stands behind every fragment that it depends
/// on.
pub open spec fn dependencies_first(list: Seq<FileView>) -> bool {
    forall|i: int, d: int|
        0 <= i < list.len() && 0 <= d < list[i].depends.len() ==> named_before(
            list,
            i,
            #[trigger] list[i].depends[d],
        )
}

/// `order` lists each index below `n` once.
pub open spec fn lists_each_once(order: Seq<int>, n: int) -> bool {
    &&& order.len() == n
    &&& order.no_duplicates()
    &&& forall|k: int| 0 <= k < order.len() ==> 0 <= #[trigger] order[k] < n
    &&& forall|i: int| 0 <= i < n ==> order.contains(i)
}

/// Every fragment of the name `id` has its index in `s`.
pub open spec fn named_within(files: Seq<FileView>, s: Set<int>, id: Seq<char>) -> bool {
    forall|j: int| 0 <= j < files.len() && (#[trigger] files[j]).id == id ==> s.contains(j)
}

/// The fragment at the index `i` depends on a name that only fragments in `s`
/// have, if any has it.
pub open spec fn held_back(files: Seq<FileView>, s: Set<int>, i: int) -> bool {
    exists|d: int|
        0 <= d < files[i].depends.len() && named_within(files, s, #[trigger] files[i].depends[d])
}

/// Each fragment in `s` waits for a fragment in `s`, or for a name that no
/// fragment has: the fragments of a dependency cycle are such a set, and so
/// is a fragment that depends on a name that is not active.
pub open spec fn blocked(files: Seq<FileView>, s: Set<int>) -> bool {
    forall|i: int| 0 <= i < files.len() && s.contains(i) ==> held_back(files, s, i)
}

/// The line holds indices of fragments, none twice and none in `s`, each
/// behind all that it depends on.
pub open spec fn in_order(files: Seq<FileView>, s: Set<int>, line: Seq<int>) -> bool {
    &&& forall|k: int|
        0 <= k < line.len() ==> 0 <= #[trigger] line[k] < files.len() && !s.contains(line[k])
    &&& line.no_duplicates()
    &&& dependencies_first_in(files, line)
}

proof fn lemma_placed_is_in_line(ready: Seq<int>, done: Seq<int>, j: int)
    ensures
        placed(ready, done, j) <==> (done + ready).contains(j),
{
    let line = done + ready;
    if ready.contains(j) {
        let k = choose|k: int| 0 <= k < ready.len() && ready[k] == j;
        assert(line[done.len() + k] == j);
    }
    if done.contains(j) {
        let k = choose|k: int| 0 <= k < done.len() && done[k] == j;
        assert(line[k] == j);
    }
    if line.contains(j) {
        let k = choose|k: int| 0 <= k < line.len() && line[k] == j;
        if k < done.len() {
            assert(done[k] == j);
        } else {
            assert(ready[k - done.len()] == j);
        }
    }
}

proof fn lemma_prefix_in_order(files: Seq<FileView>, s: Set<int>, line: Seq<int>, n: int)
    requires
        in_order(files, s, line),
        0 <= n <= line.len(),
    ensures
        in_order(files, s, line.take(n)),
{
    let front = line.take(n);
    assert forall|p: int, d: int|
        0 <= p < front.len() && 0 <= d < files[front[p]].depends.len() implies stands_before(
        files,
        front,
        p,
        #[trigger] files[front[p]].depends[d],
    ) by {
        assert(front[p] == line[p]);
        assert(stands_before(files, line, p, files[line[p]].depends[d]));
        let q = choose|q: int|
            0 <= q < p && q < line.len() && files[#[trigger] line[q]].id == files[line[p]].depends[d];
        assert(front[q] == line[q]);
    }
}

proof fn lemma_push_in_order(
    files: Seq<FileView>,
    s: Set<int>,
    ready: Seq<int>,
    done: Seq<int>,
    i: int,
)
    requires
        blocked(files, s),
        in_order(files, s, done + ready),
        0 <= i < files.len(),
        eligible(files, ready, done, i),
    ensures
        in_order(files, s, done + ready.push(i)),
{
    let line = done + ready;
    let more = done + ready.push(i);
    assert(more =~= line.push(i));
    lemma_placed_is_in_line(ready, done, i);
    assert forall|d: int| 0 <= d < files[i].depends.len() implies stands_before(
        files,
        more,
        line.len() as int,
        #[trigger] files[i].depends[d],
    ) by {
        assert(id_placed(files, ready, done, files[i].depends[d]));
        let j = choose|j: int|
            0 <= j < files.len() && files[j].id == files[i].depends[d] && placed(ready, done, j);
        lemma_placed_is_in_line(ready, done, j);
        let q = choose|q: int| 0 <= q < line.len() && line[q] == j;
        assert(more[q] == j);
    }
    if s.contains(i) {
        assert(held_back(files, s, i));
        let d = choose|d: int|
            0 <= d < files[i].depends.len() && named_within(
                files,
                s,
                #[trigger] files[i].depends[d],
            );
        assert(id_placed(files, ready, done, files[i].depends[d]));
        let j = choose|j: int|
            0 <= j < files.len() && files[j].id == files[i].depends[d] && placed(ready, done, j);
        assert(s.contains(j));
        lemma_placed_is_in_line(ready, done, j);
        let q = choose|q: int| 0 <= q < line.len() && line[q] == j;
        assert(!s.contains(line[q]));
    }
    assert forall|k: int| 0 <= k < more.len() implies 0 <= #[trigger] more[k] < files.len()
        && !s.contains(more[k]) by {
        if k < line.len() {
            assert(more[k] == line[k]);
        }
    }
    assert forall|a: int, b: int|
        0 <= a < more.len() && 0 <= b < more.len() && a != b implies more[a] != more[b] by {
        if a < line.len() && b < line.len() {
            assert(more[a] == line[a] && more[b] == line[b]);
        } else if a < line.len() {
            assert(more[a] == line[a]);
        } else {
            assert(more[b] == line[b]);
        }
    }
    assert forall|p: int, d: int|
        0 <= p < more.len() && 0 <= d < files[more[p]].depends.len() implies stands_before(
        files,
        more,
        p,
        #[trigger] files[more[p]].depends[d],
    ) by {
        if p < line.len() {
            assert(more[p] == line[p]);
            assert(stands_before(files, line, p, files[line[p]].depends[d]));
            let q = choose|q: int|
                0 <= q < p && q < line.len() && files[#[trigger] line[q]].id
                    == files[line[p]].depends[d];
            assert(more[q] == line[q]);
        }
    }
}

/// A pass keeps the line in order, adds to the ready list only behind what
/// it held, and where it adds nothing, no fragment from `i` on could join.
proof fn lemma_scan(files: Seq<FileView>, s: Set<int>, ready: Seq<int>, done: Seq<int>, i: int)
    requires
        blocked(files, s),
        in_order(files, s, done + ready),
        0 <= i,
    ensures
        in_order(files, s, done + kahn_scan(files, ready, done, i)),
        ready.is_prefix_of(kahn_scan(files, ready, done, i)),
        kahn_scan(files, ready, done, i) == ready ==> forall|k: int|
            i <= k < files.len() ==> !eligible(files, ready, done, k),
    decreases files.len() - i,
{
    if i < files.len() {
        if eligible(files, ready, done, i) {
            lemma_push_in_order(files, s, ready, done, i);
            lemma_scan(files, s, ready.push(i), done, i + 1);
            let out = kahn_scan(files, ready.push(i), done, i + 1);
            assert(ready.is_prefix_of(out)) by {
                assert(ready =~= ready.push(i).take(ready.len() as int));
            }
        } else {
            lemma_scan(files, s, ready, done, i + 1);
        }
    }
}

/// The output is in order where the line was.
proof fn lemma_run(files: Seq<FileView>, s: Set<int>, ready: Seq<int>, done: Seq<int>)
    requires
        blocked(files, s),
        in_order(files, s, done + ready),
    ensures
        in_order(files, s, kahn_run(files, ready, done)),
    decreases files.len() - done.len(),
{
    let line = done + ready;
    if ready.len() == 0 || done.len() >= files.len() {
        assert(line.take(done.len() as int) =~= done);
        lemma_prefix_in_order(files, s, line, done.len() as int);
    } else {
        let next = done.push(ready[0]);
        let rest = ready.drop_first();
        assert(next + rest =~= line);
        lemma_scan(files, s, rest, next, 0);
        lemma_run(files, s, kahn_scan(files, rest, next, 0), next);
    }
}

proof fn lemma_roots(files: Seq<FileView>, s: Set<int>, n: int)
    requires
        blocked(files, s),
        0 <= n <= files.len(),
    ensures
        in_order(files, s, roots(files, n)),
        forall|k: int| 0 <= k < roots(files, n).len() ==> #[trigger] roots(files, n)[k] < n,
        forall|i: int|
            0 <= i < n && files[i].depends.len() == 0 ==> roots(files, n).contains(i),
    decreases n,
{
    if n > 0 {
        lemma_roots(files, s, n - 1);
        let before = roots(files, n - 1);
        let now = roots(files, n);
        if files[n - 1].depends.len() == 0 {
            if s.contains(n - 1) {
                assert(held_back(files, s, n - 1));
            }
            assert(now[now.len() - 1] == n - 1);
            assert forall|p: int, d: int|
                0 <= p < now.len() && 0 <= d < files[now[p]].depends.len() implies stands_before(
                files,
                now,
                p,
                #[trigger] files[now[p]].depends[d],
            ) by {
                if p < before.len() {
                    assert(now[p] == before[p]);
                    assert(stands_before(files, before, p, files[before[p]].depends[d]));
                    let q = choose|q: int|
                        0 <= q < p && q < before.len() && files[#[trigger] before[q]].id
                            == files[before[p]].depends[d];
                    assert(now[q] == before[q]);
                }
            }
        }
        assert forall|i: int| 0 <= i < n && files[i].depends.len() == 0 implies now.contains(
            i,
        ) by {
            if i < n - 1 {
                assert(before.contains(i));
                let k = choose|k: int| 0 <= k < before.len() && before[k] == i;
                assert(now[k] == i);
            } else {
                assert(now[now.len() - 1] == i);
            }
        }
    }
}

/// A list of indices below `n`, none twice, is no longer than `n`; one of
/// the length `n` holds every index below `n`, and a shorter one lacks one.
proof fn lemma_indices(line: Seq<int>, n: int)
    requires
        0 <= n,
        line.no_duplicates(),
        forall|k: int| 0 <= k < line.len() ==> 0 <= #[trigger] line[k] < n,
    ensures
        line.len() <= n,
        line.len() == n ==> forall|i: int| 0 <= i < n ==> line.contains(i),
        line.len() < n ==> exists|i: int| 0 <= i < n && !line.contains(i),
{
    let have = line.to_set();
    let all = set_int_range(0, n);
    lemma_int_range(0, n);
    assert(have.subset_of(all)) by {
        assert forall|i: int| have.contains(i) implies all.contains(i) by {
            let k = choose|k: int| 0 <= k < line.len() && line[k] == i;
            assert(0 <= line[k] < n);
        }
    }
    lemma_len_subset(have, all);
    line.unique_seq_to_set();
    if line.len() == n {
        lemma_subset_equality(have, all);
        assert forall|i: int| 0 <= i < n implies line.contains(i) by {
            assert(all.contains(i));
            assert(have.contains(i));
        }
    }
    if line.len() < n {
        if forall|i: int| 0 <= i < n ==> line.contains(i) {
            assert(all.subset_of(have)) by {
                assert forall|i: int| all.contains(i) implies have.contains(i) by {
                    assert(line.contains(i));
                }
            }
            lemma_len_subset(all, have);
        }
    }
}

/// The order in which fragments are merged lists every fragment once.
pub proof fn law_order_lists_every_fragment_once(files: Seq<FileView>)
    requires
        kahn_order(files) is Ok,
    ensures
        kahn_order(files) matches Ok(order) && lists_each_once(order, files.len() as int),
{
    let order = kahn_order(files)->Ok_0;
    let n = files.len() as int;
    if n > 0 {
        let s = Set::<int>::empty();
        let start = roots(files, n);
        lemma_roots(files, s, n);
        assert(Seq::<int>::empty() + start =~= start);
        lemma_run(files, s, start, Seq::empty());
        lemma_indices(order, n);
    } else {
        assert(order.no_duplicates());
    }
}

/// In the order in which fragments are merged, each fragment stands behind
/// every fragment that it depends on.
pub proof fn law_order_puts_dependencies_first(files: Seq<FileView>)
    requires
        kahn_order(files) is Ok,
    ensures
        kahn_order(files) matches Ok(order) && dependencies_first_in(files, order)
            && dependencies_first(arranged(files, order)),
{
    let order = kahn_order(files)->Ok_0;
    let n = files.len() as int;
    if n > 0 {
        let s = Set::<int>::empty();
        let start = roots(files, n);
        lemma_roots(files, s, n);
        assert(Seq::<int>::empty() + start =~= start);
        lemma_run(files, s, start, Seq::empty());
    }
    let list = arranged(files, order);
    assert forall|i: int, d: int|
        0 <= i < list.len() && 0 <= d < list[i].depends.len() implies named_before(
        list,
        i,
        #[trigger] list[i].depends[d],
    ) by {
        assert(list[i] == files[order[i]]);
        assert(stands_before(files, order, i, files[order[i]].depends[d]));
        let q = choose|q: int|
            0 <= q < i && q < order.len() && files[#[trigger] order[q]].id
                == files[order[i]].depends[d];
        assert(list[q].id == list[i].depends[d]);
    }
}

/// Fragments that wait for each other are never merged, and the build fails
/// rather than leave them out: where each fragment of a set depends on a
/// name that only fragments of the set have, and the set holds a fragment,
/// there is no order.
pub proof fn law_blocked_fragments_fail(files: Seq<FileView>, s: Set<int>, i: int)
    requires
        blocked(files, s),
        0 <= i < files.len(),
        s.contains(i),
    ensures
        kahn_order(files) is Err,
{
    let n = files.len() as int;
    let start = roots(files, n);
    if start.len() > 0 {
        let order = kahn_run(files, start, Seq::empty());
        lemma_roots(files, s, n);
        assert(Seq::<int>::empty() + start =~= start);
        lemma_run(files, s, start, Seq::empty());
        if order.len() == n {
            lemma_indices(order, n);
            assert(order.contains(i));
            let k = choose|k: int| 0 <= k < order.len() && order[k] == i;
            assert(!s.contains(order[k]));
        }
    }
}

/// The fragments at the indices in `cycle` depend on each other in a circle:
/// each on the next, and the last on the first.
pub open spec fn depends_in_circle(files: Seq<FileView>, cycle: Seq<int>) -> bool {
    &&& cycle.len() > 0
    &&& forall|k: int| 0 <= k < cycle.len() ==> 0 <= #[trigger] cycle[k] < files.len()
    &&& forall|k: int|
        0 <= k < cycle.len() - 1 ==> files[#[trigger] cycle[k]].depends.contains(
            files[cycle[k + 1]].id,
        )
    &&& files[cycle.last()].depends.contains(files[cycle[0]].id)
}

/// A fragment that depends on a name that only one fragment has, which is in
/// the set, is held back.
proof fn lemma_held_back_by(files: Seq<FileView>, s: Set<int>, i: int, next: int)
    requires
        names_distinct(files),
        0 <= i < files.len(),
        0 <= next < files.len(),
        s.contains(next),
        files[i].depends.contains(files[next].id),
    ensures
        held_back(files, s, i),
{
    let d = choose|d: int| 0 <= d < files[i].depends.len() && files[i].depends[d] == files[next].id;
    assert forall|j: int|
        0 <= j < files.len() && (#[trigger] files[j]).id == files[i].depends[d] implies s.contains(
        j,
    ) by {
        if j < next {
            assert(files[j].id != files[next].id);
        }
        if next < j {
            assert(files[next].id != files[j].id);
        }
    }
    assert(named_within(files, s, files[i].depends[d]));
}

/// Cyclic dependencies fail the build: where no two fragments have the same
/// name and some of them depend on each other in a circle, there is no order
/// in which to merge them.
pub proof fn law_cycle_fails(files: Seq<FileView>, cycle: Seq<int>)
    requires
        names_distinct(files),
        depends_in_circle(files, cycle),
    ensures
        kahn_order(files) is Err,
{
    let s = cycle.to_set();
    assert forall|i: int| 0 <= i < files.len() && s.contains(i) implies held_back(
        files,
        s,
        i,
    ) by {
        let k = choose|k: int| 0 <= k < cycle.len() && cycle[k] == i;
        if k < cycle.len() - 1 {
            assert(files[cycle[k]].depends.contains(files[cycle[k + 1]].id));
            assert(cycle.contains(cycle[k + 1]));
            lemma_held_back_by(files, s, i, cycle[k + 1]);
        } else {
            assert(cycle.contains(cycle[0]));
            lemma_held_back_by(files, s, i, cycle[0]);
        }
    }
    assert(cycle.contains(cycle[0]));
    law_blocked_fragments_fail(files, s, cycle[0]);
}

/// Two fragments that depend on each other fail the build.
pub proof fn law_mutual_dependency_fails(files: Seq<FileView>, a: int, b: int)
    requires
        names_distinct(files),
        0 <= a < files.len(),
        0 <= b < files.len(),
        files[a].depends.contains(files[b].id),
        files[b].depends.contains(files[a].id),
    ensures
        kahn_order(files) is Err,
{
    let cycle = seq![a, b];
    assert(cycle[0] == a && cycle[1] == b && cycle.last() == b);
    law_cycle_fails(files, cycle);
}

/// A fragment that depends on a name that no fragment has fails the build.
pub proof fn law_missing_dependency_fails(files: Seq<FileView>, i: int, d: int)
    requires
        0 <= i < files.len(),
        0 <= d < files[i].depends.len(),
        !is_active(files, files[i].depends[d]),
    ensures
        kahn_order(files) is Err,
{
    let s = set![i];
    assert(named_within(files, s, files[i].depends[d]));
    assert(held_back(files, s, i));
    law_blocked_fragments_fail(files, s, i);
}

/// Every name that a fragment depends on is the name of a fragment.
pub open spec fn dependencies_present(files: Seq<FileView>) -> bool {
    forall|i: int, d: int|
        0 <= i < files.len() && 0 <= d < files[i].depends.len() ==> is_active(
            files,
            #[trigger] files[i].depends[d],
        )
}

/// The ranks show that no fragments depend on each other in a circle: each
/// fragment has a higher rank than every fragment that it depends on.
pub open spec fn ranked(files: Seq<FileView>, rank: Seq<nat>) -> bool {
    &&& rank.len() == files.len()
    &&& forall|i: int, j: int|
        0 <= i < files.len() && 0 <= j < files.len() && #[trigger] files[i].depends.contains(
            files[j].id,
        ) ==> rank[j] < rank[i]
}

/// No fragment outside the output can join an empty ready list.
spec fn stuck(files: Seq<FileView>, done: Seq<int>) -> bool {
    forall|k: int|
        0 <= k < files.len() && !done.contains(k) ==> !#[trigger] eligible(
            files,
            Seq::empty(),
            done,
            k,
        )
}

/// Where the order is stuck, every fragment is in the output: one that is
/// not would wait for another that is not, and so on without end, which the
/// ranks exclude.
proof fn lemma_stuck(files: Seq<FileView>, rank: Seq<nat>, done: Seq<int>, i: int)
    requires
        dependencies_present(files),
        ranked(files, rank),
        stuck(files, done),
        0 <= i < files.len(),
    ensures
        done.contains(i),
    decreases rank[i],
{
    if !done.contains(i) {
        let none = Seq::<int>::empty();
        assert(!eligible(files, none, done, i));
        assert(!placed(none, done, i));
        let f = files[i];
        let d = choose|d: int|
            0 <= d < f.depends.len() && !id_placed(files, none, done, #[trigger] f.depends[d]);
        assert(is_active(files, files[i].depends[d]));
        let j = choose|j: int| 0 <= j < files.len() && files[j].id == f.depends[d];
        assert(!placed(none, done, j));
        assert(files[i].depends.contains(files[j].id));
        lemma_stuck(files, rank, done, j);
    }
}

proof fn lemma_run_reaches_all(
    files: Seq<FileView>,
    rank: Seq<nat>,
    ready: Seq<int>,
    done: Seq<int>,
)
    requires
        dependencies_present(files),
        ranked(files, rank),
        in_order(files, Set::empty(), done + ready),
        ready.len() == 0 ==> stuck(files, done),
    ensures
        kahn_run(files, ready, done).len() == files.len(),
    decreases files.len() - done.len(),
{
    let s = Set::<int>::empty();
    let n = files.len() as int;
    let line = done + ready;
    if ready.len() == 0 || done.len() >= files.len() {
        assert(line.take(done.len() as int) =~= done);
        lemma_prefix_in_order(files, s, line, done.len() as int);
        lemma_indices(done, n);
        if done.len() < n {
            let i = choose|i: int| 0 <= i < n && !done.contains(i);
            lemma_stuck(files, rank, done, i);
        }
    } else {
        let next = done.push(ready[0]);
        let rest = ready.drop_first();
        assert(next + rest =~= line);
        lemma_scan(files, s, rest, next, 0);
        let after = kahn_scan(files, rest, next, 0);
        if after.len() == 0 {
            assert(rest =~= after);
            assert(rest =~= Seq::<int>::empty());
            assert forall|k: int| 0 <= k < files.len() && !next.contains(k) implies !#[trigger] eligible(
                files,
                Seq::empty(),
                next,
                k,
            ) by {
                assert(!eligible(files, rest, next, k));
            }
        }
        lemma_run_reaches_all(files, rank, after, next);
    }
}

/// Fragments that do not depend on each other in a circle, and that depend
/// only on names that fragments have, can always be put in order.
pub proof fn law_order_exists(files: Seq<FileView>, rank: Seq<nat>)
    requires
        dependencies_present(files),
        ranked(files, rank),
    ensures
        kahn_order(files) is Ok,
{
    let n = files.len() as int;
    let s = Set::<int>::empty();
    if n > 0 {
        let start = roots(files, n);
        lemma_roots(files, s, n);
        assert(Seq::<int>::empty() + start =~= start);
        if start.len() == 0 {
            let none = Seq::<int>::empty();
            assert forall|k: int| 0 <= k < files.len() && !none.contains(k) implies !#[trigger] eligible(
                files,
                none,
                none,
                k,
            ) by {
                if files[k].depends.len() == 0 {
                    assert(start.contains(k));
                } else {
                    assert(!id_placed(files, none, none, files[k].depends[0]));
                }
            }
            lemma_stuck(files, rank, none, 0);
        }
        lemma_run_reaches_all(files, rank, start, Seq::empty());
    }
}

/// The ranks of the fragments of a circle fall along it.
proof fn lemma_ranks_fall(files: Seq<FileView>, rank: Seq<nat>, cycle: Seq<int>, k: int)
    requires
        ranked(files, rank),
        depends_in_circle(files, cycle),
        0 <= k < cycle.len(),
    ensures
        rank[cycle[k]] + k <= rank[cycle[0]],
    decreases k,
{
    if k > 0 {
        lemma_ranks_fall(files, rank, cycle, k - 1);
        assert(files[cycle[k - 1]].depends.contains(files[cycle[k]].id));
    }
}

/// Fragments that have ranks do not depend on each other in a circle.
pub proof fn law_ranked_has_no_circle(files: Seq<FileView>, rank: Seq<nat>, cycle: Seq<int>)
    requires
        ranked(files, rank),
    ensures
        !depends_in_circle(files, cycle),
{
    if depends_in_circle(files, cycle) {
        lemma_ranks_fall(files, rank, cycle, cycle.len() - 1);
        assert(files[cycle.last()].depends.contains(files[cycle[0]].id));
    }
}

/// Where there is an order and no two fragments have the same name, every
/// name that a fragment depends on is the name of a fragment, and the places
/// in the order are ranks: no fragments depend on each other in a circle.
pub proof fn law_order_gives_ranks(files: Seq<FileView>) -> (rank: Seq<nat>)
    requires
        names_distinct(files),
        kahn_order(files) is Ok,
    ensures
        dependencies_present(files),
        ranked(files, rank),
{
    law_order_lists_every_fragment_once(files);
    law_order_puts_dependencies_first(files);
    let order = kahn_order(files)->Ok_0;
    let n = files.len() as int;
    let rank = Seq::new(files.len(), |i: int| place_of(order, i) as nat);
    assert forall|i: int, d: int|
        0 <= i < files.len() && 0 <= d < files[i].depends.len() implies is_active(
        files,
        #[trigger] files[i].depends[d],
    ) by {
        lemma_place(order, n, i);
        let p = place_of(order, i);
        assert(stands_before(files, order, p, files[order[p]].depends[d]));
        let q = choose|q: int|
            0 <= q < p && q < order.len() && files[#[trigger] order[q]].id
                == files[order[p]].depends[d];
        assert(files[order[q]].id == files[i].depends[d]);
    }
    assert forall|i: int, j: int|
        0 <= i < files.len() && 0 <= j < files.len() && #[trigger] files[i].depends.contains(
            files[j].id,
        ) implies rank[j] < rank[i] by {
        lemma_place(order, n, i);
        lemma_place(order, n, j);
        let p = place_of(order, i);
        let d = choose|d: int| 0 <= d < files[i].depends.len() && files[i].depends[d] == files[j].id;
        assert(stands_before(files, order, p, files[order[p]].depends[d]));
        let q = choose|q: int|
            0 <= q < p && q < order.len() && files[#[trigger] order[q]].id
                == files[order[p]].depends[d];
        let a = order[q];
        if a < j {
            assert(files[a].id != files[j].id);
        }
        if j < a {
            assert(files[j].id != files[a].id);
        }
        if q != place_of(order, j) {
            assert(order[q] == order[place_of(order, j)]);
        }
    }
    rank
}

/// Fragments with distinct names have an order exactly where every name
/// that one of them depends on is the name of one of them and none of them
/// depend on each other in a circle.
pub proof fn law_order_exists_exactly(files: Seq<FileView>)
    requires
        names_distinct(files),
    ensures
        kahn_order(files) is Ok <==> dependencies_present(files) && exists|rank: Seq<nat>|
            ranked(files, rank),
{
    if kahn_order(files) is Ok {
        let rank = law_order_gives_ranks(files);
        assert(ranked(files, rank));
    }
    if dependencies_present(files) && exists|rank: Seq<nat>| ranked(files, rank) {
        let rank = choose|rank: Seq<nat>| ranked(files, rank);
        law_order_exists(files, rank);
    }
}

/// What the fragment merged last defines with `Replace` is what the graph
/// holds, and so is what any fragment defines so, where no fragment merged
/// behind it defines that state.
pub proof fn law_last_definition_decides(
    base: Graph,
    list: Seq<FileView>,
    k: int,
    name: Seq<char>,
)
    requires
        0 <= k < list.len(),
        list[k].states.contains_key(name),
        list[k].states[name].merge == StateMachineMergeMode::Replace,
        forall|j: int| k < j < list.len() ==> !(#[trigger] list[j]).states.contains_key(name),
    ensures
        fold_fragments(base, list).contains_key(name),
        fold_fragments(base, list)[name] == list[k].states[name],
    decreases list.len(),
{
    let front = list.drop_last();
    if k < list.len() - 1 {
        assert forall|j: int| k < j < front.len() implies !(#[trigger] front[j]).states.contains_key(
            name,
        ) by {
            assert(front[j] == list[j]);
        }
        law_last_definition_decides(base, front, k, name);
        assert(!list[list.len() - 1].states.contains_key(name));
    }
}

/// The fragments at the indices in `chain`, which are all the fragments,
/// form a chain from its root to its head: the first depends on nothing, and
/// each other one on the one before it and on nothing else.
pub open spec fn chain_of(files: Seq<FileView>, chain: Seq<int>) -> bool {
    &&& files.len() > 0
    &&& names_distinct(files)
    &&& lists_each_once(chain, files.len() as int)
    &&& files[chain[0]].depends.len() == 0
    &&& forall|k: int|
        1 <= k < chain.len() ==> files[#[trigger] chain[k]].depends == seq![files[chain[k - 1]].id]
}

/// Where the index `i` stands in `order`.
spec fn place_of(order: Seq<int>, i: int) -> int {
    choose|p: int| 0 <= p < order.len() && order[p] == i
}

proof fn lemma_place(order: Seq<int>, n: int, i: int)
    requires
        lists_each_once(order, n),
        0 <= i < n,
    ensures
        0 <= place_of(order, i) < order.len(),
        order[place_of(order, i)] == i,
{
    assert(order.contains(i));
}

/// In an order that puts dependencies first, a fragment of a chain stands
/// behind the one before it in the chain.
proof fn lemma_chain_step(files: Seq<FileView>, chain: Seq<int>, order: Seq<int>, k: int)
    requires
        chain_of(files, chain),
        lists_each_once(order, files.len() as int),
        dependencies_first_in(files, order),
        1 <= k < chain.len(),
    ensures
        place_of(order, chain[k - 1]) < place_of(order, chain[k]),
{
    let n = files.len() as int;
    lemma_place(order, n, chain[k]);
    lemma_place(order, n, chain[k - 1]);
    let p = place_of(order, chain[k]);
    let before = place_of(order, chain[k - 1]);
    let f = files[chain[k]];
    assert(f.depends == seq![files[chain[k - 1]].id]);
    assert(f.depends[0] == files[chain[k - 1]].id);
    assert(stands_before(files, order, p, files[order[p]].depends[0]));
    let q = choose|q: int|
        0 <= q < p && q < order.len() && files[#[trigger] order[q]].id == files[order[p]].depends[0];
    let a = order[q];
    let b = chain[k - 1];
    if a < b {
        assert(files[a].id != files[b].id);
    }
    if b < a {
        assert(files[b].id != files[a].id);
    }
    if q != before {
        assert(order[q] == order[before]);
    }
}

proof fn lemma_chain_low(files: Seq<FileView>, chain: Seq<int>, order: Seq<int>, k: int)
    requires
        chain_of(files, chain),
        lists_each_once(order, files.len() as int),
        dependencies_first_in(files, order),
        0 <= k < chain.len(),
    ensures
        k <= place_of(order, chain[k]),
    decreases k,
{
    lemma_place(order, files.len() as int, chain[k]);
    if k > 0 {
        lemma_chain_low(files, chain, order, k - 1);
        lemma_chain_step(files, chain, order, k);
    }
}

proof fn lemma_chain_high(files: Seq<FileView>, chain: Seq<int>, order: Seq<int>, k: int)
    requires
        chain_of(files, chain),
        lists_each_once(order, files.len() as int),
        dependencies_first_in(files, order),
        0 <= k < chain.len(),
    ensures
        place_of(order, chain[k]) <= k,
    decreases chain.len() - k,
{
    lemma_place(order, files.len() as int, chain[k]);
    if k + 1 < chain.len() {
        lemma_chain_high(files, chain, order, k + 1);
        lemma_chain_step(files, chain, order, k + 1);
    }
}

proof fn lemma_chain_ranks(files: Seq<FileView>, chain: Seq<int>) -> (rank: Seq<nat>)
    requires
        chain_of(files, chain),
    ensures
        dependencies_present(files),
        ranked(files, rank),
{
    let n = files.len() as int;
    let rank = Seq::new(files.len(), |i: int| place_of(chain, i) as nat);
    assert forall|i: int| 0 <= i < n implies 0 <= #[trigger] place_of(chain, i) < n && chain[place_of(
        chain,
        i,
    )] == i by {
        lemma_place(chain, n, i);
    }
    assert forall|i: int, d: int|
        0 <= i < files.len() && 0 <= d < files[i].depends.len() implies is_active(
        files,
        #[trigger] files[i].depends[d],
    ) by {
        let k = place_of(chain, i);
        assert(k >= 1);
        assert(files[chain[k]].depends == seq![files[chain[k - 1]].id]);
        assert(files[chain[k - 1]].id == files[i].depends[d]);
    }
    assert forall|i: int, j: int|
        0 <= i < files.len() && 0 <= j < files.len() && #[trigger] files[i].depends.contains(
            files[j].id,
        ) implies rank[j] < rank[i] by {
        let k = place_of(chain, i);
        let d = choose|d: int| 0 <= d < files[i].depends.len() && files[i].depends[d] == files[j].id;
        assert(k >= 1);
        assert(files[chain[k]].depends == seq![files[chain[k - 1]].id]);
        let b = chain[k - 1];
        assert(files[b].id == files[j].id);
        if b < j {
            assert(files[b].id != files[j].id);
        }
        if j < b {
            assert(files[j].id != files[b].id);
        }
        assert(chain[place_of(chain, j)] == chain[k - 1]);
    }
    rank
}

/// The fragments of a chain are merged from its root to its head, in
/// whatever order they were activated.
pub proof fn law_chain_is_merged_from_its_root(files: Seq<FileView>, chain: Seq<int>)
    requires
        chain_of(files, chain),
    ensures
        kahn_order(files) == Ok::<Seq<int>, EngineErrorView>(chain),
{
    let rank = lemma_chain_ranks(files, chain);
    law_order_exists(files, rank);
    law_order_lists_every_fragment_once(files);
    law_order_puts_dependencies_first(files);
    let order = kahn_order(files)->Ok_0;
    assert forall|k: int| 0 <= k < chain.len() implies order[k] == chain[k] by {
        lemma_chain_low(files, chain, order, k);
        lemma_chain_high(files, chain, order, k);
        lemma_place(order, files.len() as int, chain[k]);
    }
    assert(order =~= chain);
}

/// What the head of a chain defines with `Replace` is what the graph holds,
/// in whatever order the fragments of the chain were activated and whatever
/// the fragments below the head say of that state.
pub proof fn law_head_of_chain_decides(
    files: Seq<FileView>,
    chain: Seq<int>,
    base: Graph,
    name: Seq<char>,
)
    requires
        chain_of(files, chain),
        files[chain.last()].states.contains_key(name),
        files[chain.last()].states[name].merge == StateMachineMergeMode::Replace,
    ensures
        kahn_order(files) == Ok::<Seq<int>, EngineErrorView>(chain),
        fold_fragments(base, arranged(files, chain)).contains_key(name),
        fold_fragments(base, arranged(files, chain))[name] == files[chain.last()].states[name],
{
    law_chain_is_merged_from_its_root(files, chain);
    let list = arranged(files, chain);
    assert(list.last() == files[chain.last()]);
    law_last_definition_decides(base, list, list.len() - 1, name);
}

} // verus!
