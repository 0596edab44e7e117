//! A model of files and of work on them, for stating what a plan does.
//!
//! The files are a map from paths to contents. A file step has its effect
//! written out here; what a tool does is left open, as a function that the
//! laws quantify over. The laws say when work that runs side by side ends in
//! the same files whatever the order in which its steps take their turns.

use crate::plan::{InvocationView, StepView};
use vstd::prelude::*;

verus! {

/// The files: what lies at each path that holds a file.
pub type Files = Map<Seq<char>, Seq<u8>>;

/// What a tool call makes of the files.
pub type Tools = spec_fn(InvocationView, Files) -> Files;

/// What one step makes of the files.
pub type Effect = spec_fn(Files) -> Files;

/// `a` and `b` hold the same at `p`: both nothing, or both the same bytes.
pub open spec fn same_at(a: Files, b: Files, p: Seq<char>) -> bool {
    a.dom().contains(p) == b.dom().contains(p) && (a.dom().contains(p) ==> a[p] == b[p])
}

/// `a` and `b` hold the same at every path of `paths`.
pub open spec fn agree_on(a: Files, b: Files, paths: Set<Seq<char>>) -> bool {
    forall|p: Seq<char>| paths.contains(p) ==> #[trigger] same_at(a, b, p)
}

/// Whether `p` lies under the directory `dir`.
pub open spec fn is_under(dir: Seq<char>, p: Seq<char>) -> bool {
    (dir + seq!['/']).is_prefix_of(p)
}

/// What a step makes of the files. A copy or a move of a file that is not
/// there changes nothing; directories themselves hold no bytes and are not
/// kept in the map.
pub open spec fn carry_out(tools: Tools, step: StepView, fs: Files) -> Files {
    match step {
        StepView::CreateDir { path, all } => fs,
        StepView::WriteFile { path, contents } => fs.insert(path, contents),
        StepView::Copy { from, to } => if fs.dom().contains(from) {
            fs.insert(to, fs[from])
        } else {
            fs
        },
        StepView::CopyIfPresent { from, to } => if fs.dom().contains(from) {
            fs.insert(to, fs[from])
        } else {
            fs
        },
        StepView::Rename { from, to } => if fs.dom().contains(from) {
            fs.remove(from).insert(to, fs[from])
        } else {
            fs
        },
        StepView::RemoveFile { path } => fs.remove(path),
        StepView::RemoveDirAll { path } => fs.restrict(Set::new(|p: Seq<char>| !is_under(path, p))),
        StepView::Run(inv) => tools(inv, fs),
    }
}

/// What a step makes of the files, as an effect.
pub open spec fn effect_of(tools: Tools, step: StepView) -> Effect {
    |fs: Files| carry_out(tools, step, fs)
}

/// An effect that writes only within `writes`, and whose result there hangs
/// only on what lies within `reads` and `writes`.
pub open spec fn confined(f: Effect, reads: Set<Seq<char>>, writes: Set<Seq<char>>) -> bool {
    &&& forall|fs: Files, p: Seq<char>| !writes.contains(p) ==> #[trigger] same_at(f(fs), fs, p)
    &&& forall|a: Files, b: Files|
        agree_on(a, b, reads.union(writes)) ==> #[trigger] agree_on(f(a), f(b), writes)
}

/// One worker: the steps it takes in order, and the paths it reads and
/// writes.
pub struct Worker {
    pub reads: Set<Seq<char>>,
    pub writes: Set<Seq<char>>,
    pub steps: Seq<Effect>,
}

/// Every step of the worker keeps to the worker's paths.
pub open spec fn keeps_to_itself(w: Worker) -> bool {
    forall|k: int| 0 <= k < w.steps.len() ==> confined(#[trigger] w.steps[k], w.reads, w.writes)
}

/// Every worker keeps to its own paths.
pub open spec fn all_keep_to_themselves(ws: Seq<Worker>) -> bool {
    forall|i: int| 0 <= i < ws.len() ==> keeps_to_itself(#[trigger] ws[i])
}

/// No worker writes what another reads or writes.
pub open spec fn independent(ws: Seq<Worker>) -> bool {
    forall|i: int, j: int|
        0 <= i < ws.len() && 0 <= j < ws.len() && i != j ==> (#[trigger] ws[i]).writes.disjoint(
            (#[trigger] ws[j]).reads.union(ws[j].writes),
        )
}

/// How often worker `i` stands in the schedule.
pub open spec fn turns(schedule: Seq<int>, i: int) -> nat
    decreases schedule.len(),
{
    if schedule.len() == 0 {
        0
    } else {
        turns(schedule.drop_last(), i) + if schedule.last() == i {
            1nat
        } else {
            0nat
        }
    }
}

/// A schedule names, turn by turn, the worker that takes its next step. It is
/// valid where every turn names a worker that has a step left.
pub open spec fn valid_schedule(ws: Seq<Worker>, schedule: Seq<int>) -> bool {
    forall|n: int|
        0 <= n < schedule.len() ==> 0 <= #[trigger] schedule[n] < ws.len() && turns(
            schedule.take(n),
            schedule[n],
        ) < ws[schedule[n]].steps.len()
}

/// A valid schedule in which every worker takes all its steps.
pub open spec fn complete_schedule(ws: Seq<Worker>, schedule: Seq<int>) -> bool {
    &&& valid_schedule(ws, schedule)
    &&& forall|i: int| 0 <= i < ws.len() ==> #[trigger] turns(schedule, i) == ws[i].steps.len()
}

/// The files after the workers have taken their steps as the schedule says.
pub open spec fn run_schedule(ws: Seq<Worker>, schedule: Seq<int>, fs: Files) -> Files
    decreases schedule.len(),
{
    if schedule.len() == 0 {
        fs
    } else {
        let earlier = schedule.drop_last();
        let w = schedule.last();
        (ws[w].steps[turns(earlier, w) as int])(run_schedule(ws, earlier, fs))
    }
}

/// The files after a worker has taken its first `k` steps with nobody else at
/// work.
pub open spec fn run_alone(w: Worker, k: nat, fs: Files) -> Files
    decreases k,
{
    if k == 0 {
        fs
    } else {
        (w.steps[k - 1])(run_alone(w, (k - 1) as nat, fs))
    }
}

/// Whether some worker writes `p`.
pub open spec fn written(ws: Seq<Worker>, p: Seq<char>) -> bool {
    exists|i: int| 0 <= i < ws.len() && (#[trigger] ws[i]).writes.contains(p)
}

/// A prefix of a valid schedule is valid.
proof fn lemma_valid_prefix(ws: Seq<Worker>, schedule: Seq<int>)
    requires
        valid_schedule(ws, schedule),
        schedule.len() > 0,
    ensures
        valid_schedule(ws, schedule.drop_last()),
{
    let earlier = schedule.drop_last();
    assert forall|n: int| 0 <= n < earlier.len() implies 0 <= #[trigger] earlier[n] < ws.len()
        && turns(earlier.take(n), earlier[n]) < ws[earlier[n]].steps.len() by {
        assert(earlier[n] == schedule[n]);
        assert(earlier.take(n) =~= schedule.take(n));
    }
}

/// While independent workers that keep to themselves take their turns, each
/// finds on its own paths what it would find with nobody else at work, and
/// what no worker writes stays as it was.
pub proof fn lemma_workers_do_not_meet(ws: Seq<Worker>, schedule: Seq<int>, fs: Files)
    requires
        all_keep_to_themselves(ws),
        independent(ws),
        valid_schedule(ws, schedule),
    ensures
        forall|i: int|
            0 <= i < ws.len() ==> agree_on(
                run_schedule(ws, schedule, fs),
                run_alone(#[trigger] ws[i], turns(schedule, i), fs),
                ws[i].reads.union(ws[i].writes),
            ),
        forall|p: Seq<char>|
            !written(ws, p) ==> #[trigger] same_at(run_schedule(ws, schedule, fs), fs, p),
    decreases schedule.len(),
{
    if schedule.len() == 0 {
    } else {
        let earlier = schedule.drop_last();
        let w = schedule.last();
        lemma_valid_prefix(ws, schedule);
        lemma_workers_do_not_meet(ws, earlier, fs);
        let before = run_schedule(ws, earlier, fs);
        let k = turns(earlier, w);
        assert(schedule[schedule.len() - 1] == w);
        assert(schedule.take(schedule.len() - 1) =~= earlier);
        assert(0 <= w < ws.len() && k < ws[w].steps.len());
        let f = ws[w].steps[k as int];
        let after = f(before);
        assert(after == run_schedule(ws, schedule, fs));
        assert(keeps_to_itself(ws[w]));
        assert(confined(f, ws[w].reads, ws[w].writes));
        assert forall|i: int| 0 <= i < ws.len() implies agree_on(
            after,
            run_alone(#[trigger] ws[i], turns(schedule, i), fs),
            ws[i].reads.union(ws[i].writes),
        ) by {
            let mine = ws[i].reads.union(ws[i].writes);
            let solo = run_alone(ws[i], turns(earlier, i), fs);
            assert(agree_on(before, solo, mine));
            if i == w {
                let next = f(solo);
                assert(turns(schedule, i) == k + 1);
                assert(run_alone(ws[i], k + 1, fs) == next);
                assert(agree_on(f(before), f(solo), ws[w].writes));
                assert forall|p: Seq<char>| mine.contains(p) implies #[trigger] same_at(
                    after,
                    next,
                    p,
                ) by {
                    if ws[w].writes.contains(p) {
                        assert(same_at(f(before), f(solo), p));
                    } else {
                        assert(same_at(f(before), before, p));
                        assert(same_at(f(solo), solo, p));
                        assert(same_at(before, solo, p));
                    }
                }
            } else {
                assert(turns(schedule, i) == turns(earlier, i));
                assert(ws[w].writes.disjoint(ws[i].reads.union(ws[i].writes)));
                assert forall|p: Seq<char>| mine.contains(p) implies #[trigger] same_at(
                    after,
                    solo,
                    p,
                ) by {
                    assert(!ws[w].writes.contains(p));
                    assert(same_at(f(before), before, p));
                    assert(same_at(before, solo, p));
                }
            }
        }
        assert forall|p: Seq<char>| !written(ws, p) implies #[trigger] same_at(after, fs, p) by {
            assert(!ws[w].writes.contains(p));
            assert(same_at(f(before), before, p));
            assert(same_at(before, fs, p));
        }
    }
}

/// The files that independent workers leave do not hang on the order in
/// which their steps took their turns: any two schedules in which every
/// worker takes all its steps end in the same files.
pub proof fn lemma_order_does_not_matter(
    ws: Seq<Worker>,
    first: Seq<int>,
    second: Seq<int>,
    fs: Files,
)
    requires
        all_keep_to_themselves(ws),
        independent(ws),
        complete_schedule(ws, first),
        complete_schedule(ws, second),
    ensures
        run_schedule(ws, first, fs) == run_schedule(ws, second, fs),
{
    lemma_workers_do_not_meet(ws, first, fs);
    lemma_workers_do_not_meet(ws, second, fs);
    let a = run_schedule(ws, first, fs);
    let b = run_schedule(ws, second, fs);
    assert forall|p: Seq<char>| same_at(a, b, p) by {
        if written(ws, p) {
            let i = choose|i: int| 0 <= i < ws.len() && (#[trigger] ws[i]).writes.contains(p);
            let done = run_alone(ws[i], ws[i].steps.len(), fs);
            assert(turns(first, i) == ws[i].steps.len());
            assert(turns(second, i) == ws[i].steps.len());
            assert(ws[i].reads.union(ws[i].writes).contains(p));
            assert(same_at(a, done, p));
            assert(same_at(b, done, p));
        } else {
            assert(same_at(a, fs, p));
            assert(same_at(b, fs, p));
        }
    }
    assert forall|p: Seq<char>| a.dom().contains(p) == b.dom().contains(p) by {
        assert(same_at(a, b, p));
    }
    assert(a.dom() =~= b.dom());
    assert forall|p: Seq<char>| a.dom().contains(p) implies a[p] == b[p] by {
        assert(same_at(a, b, p));
    }
    assert(a =~= b);
}

/// The schedule in which the first `n` workers take all their steps one
/// after the other, each worker all of its own before the next begins.
pub open spec fn one_by_one(ws: Seq<Worker>, n: int) -> Seq<int>
    decreases n,
{
    if n <= 0 {
        Seq::empty()
    } else {
        one_by_one(ws, n - 1) + Seq::new(ws[n - 1].steps.len(), |k: int| n - 1)
    }
}

/// The turns in two schedules put one after the other add up.
proof fn lemma_turns_add(a: Seq<int>, b: Seq<int>, i: int)
    ensures
        turns(a + b, i) == turns(a, i) + turns(b, i),
    decreases b.len(),
{
    if b.len() == 0 {
        assert(a + b =~= a);
    } else {
        lemma_turns_add(a, b.drop_last(), i);
        assert((a + b).drop_last() =~= a + b.drop_last());
        assert((a + b).last() == b.last());
    }
}

/// In `m` turns of one worker, that worker has `m` turns and no other has
/// any.
proof fn lemma_turns_of_one(w: int, m: nat, i: int)
    ensures
        turns(Seq::new(m, |k: int| w), i) == if i == w {
            m
        } else {
            0
        },
    decreases m,
{
    let block = Seq::new(m, |k: int| w);
    if m > 0 {
        lemma_turns_of_one(w, (m - 1) as nat, i);
        assert(block.drop_last() =~= Seq::new((m - 1) as nat, |k: int| w));
        assert(block.last() == w);
    }
}

/// One by one, each of the first `n` workers has as many turns as it has
/// steps, and no other worker has any.
proof fn lemma_turns_one_by_one(ws: Seq<Worker>, n: int, i: int)
    requires
        0 <= n <= ws.len(),
    ensures
        turns(one_by_one(ws, n), i) == if 0 <= i < n {
            ws[i].steps.len()
        } else {
            0
        },
    decreases n,
{
    if n > 0 {
        lemma_turns_one_by_one(ws, n - 1, i);
        lemma_turns_add(
            one_by_one(ws, n - 1),
            Seq::new(ws[n - 1].steps.len(), |k: int| n - 1),
            i,
        );
        lemma_turns_of_one(n - 1, ws[n - 1].steps.len(), i);
    }
}

/// One by one is a valid way for the first `n` workers to take their turns.
proof fn lemma_one_by_one_valid(ws: Seq<Worker>, n: int)
    requires
        0 <= n <= ws.len(),
    ensures
        valid_schedule(ws, one_by_one(ws, n)),
    decreases n,
{
    if n > 0 {
        let earlier = one_by_one(ws, n - 1);
        let m = ws[n - 1].steps.len();
        let block = Seq::new(m, |k: int| n - 1);
        let schedule = earlier + block;
        lemma_one_by_one_valid(ws, n - 1);
        assert forall|at: int| 0 <= at < schedule.len() implies 0 <= #[trigger] schedule[at]
            < ws.len() && turns(schedule.take(at), schedule[at]) < ws[schedule[at]].steps.len() by {
            if at < earlier.len() {
                assert(schedule[at] == earlier[at]);
                assert(schedule.take(at) =~= earlier.take(at));
            } else {
                let k = at - earlier.len();
                assert(schedule[at] == n - 1);
                assert(schedule.take(at) =~= earlier + Seq::new(k as nat, |j: int| n - 1));
                lemma_turns_add(earlier, Seq::new(k as nat, |j: int| n - 1), n - 1);
                lemma_turns_one_by_one(ws, n - 1, n - 1);
                lemma_turns_of_one(n - 1, k as nat, n - 1);
            }
        }
    }
}

/// One by one, in the order in which the workers are listed, is one of the
/// ways in which every worker takes all its steps.
pub proof fn lemma_one_by_one_is_complete(ws: Seq<Worker>)
    ensures
        complete_schedule(ws, one_by_one(ws, ws.len() as int)),
{
    lemma_one_by_one_valid(ws, ws.len() as int);
    assert forall|i: int| 0 <= i < ws.len() implies #[trigger] turns(
        one_by_one(ws, ws.len() as int),
        i,
    ) == ws[i].steps.len() by {
        lemma_turns_one_by_one(ws, ws.len() as int, i);
    }
}

/// The files that independent workers leave when they work side by side are
/// the files that they leave when they work one by one, in the order in
/// which they are listed.
pub proof fn lemma_side_by_side_is_one_by_one(ws: Seq<Worker>, schedule: Seq<int>, fs: Files)
    requires
        all_keep_to_themselves(ws),
        independent(ws),
        complete_schedule(ws, schedule),
    ensures
        run_schedule(ws, schedule, fs) == run_schedule(ws, one_by_one(ws, ws.len() as int), fs),
{
    lemma_one_by_one_is_complete(ws);
    lemma_order_does_not_matter(ws, schedule, one_by_one(ws, ws.len() as int), fs);
}

/// A move keeps to any paths that hold both its ends among those written.
pub proof fn lemma_rename_confined(
    tools: Tools,
    from: Seq<char>,
    to: Seq<char>,
    reads: Set<Seq<char>>,
    writes: Set<Seq<char>>,
)
    requires
        writes.contains(from),
        writes.contains(to),
    ensures
        confined(effect_of(tools, StepView::Rename { from, to }), reads, writes),
{
    let f = effect_of(tools, StepView::Rename { from, to });
    assert forall|fs: Files, p: Seq<char>| !writes.contains(p) implies #[trigger] same_at(
        f(fs),
        fs,
        p,
    ) by {}
    assert forall|a: Files, b: Files| agree_on(a, b, reads.union(writes)) implies #[trigger] agree_on(
        f(a),
        f(b),
        writes,
    ) by {
        assert(same_at(a, b, from));
        assert forall|p: Seq<char>| writes.contains(p) implies #[trigger] same_at(f(a), f(b), p) by {
            assert(reads.union(writes).contains(p));
            assert(same_at(a, b, p));
        }
    }
}

/// A copy keeps to any paths that hold its target among those written and its
/// source among those read or written.
pub proof fn lemma_copy_confined(
    tools: Tools,
    from: Seq<char>,
    to: Seq<char>,
    reads: Set<Seq<char>>,
    writes: Set<Seq<char>>,
)
    requires
        reads.union(writes).contains(from),
        writes.contains(to),
    ensures
        confined(effect_of(tools, StepView::Copy { from, to }), reads, writes),
        confined(effect_of(tools, StepView::CopyIfPresent { from, to }), reads, writes),
{
    let f = effect_of(tools, StepView::Copy { from, to });
    let g = effect_of(tools, StepView::CopyIfPresent { from, to });
    assert forall|fs: Files, p: Seq<char>| !writes.contains(p) implies #[trigger] same_at(
        f(fs),
        fs,
        p,
    ) by {}
    assert forall|fs: Files, p: Seq<char>| !writes.contains(p) implies #[trigger] same_at(
        g(fs),
        fs,
        p,
    ) by {}
    assert forall|a: Files, b: Files| agree_on(a, b, reads.union(writes)) implies #[trigger] agree_on(
        f(a),
        f(b),
        writes,
    ) by {
        assert(same_at(a, b, from));
        assert forall|p: Seq<char>| writes.contains(p) implies #[trigger] same_at(f(a), f(b), p) by {
            assert(reads.union(writes).contains(p));
            assert(same_at(a, b, p));
        }
    }
    assert forall|a: Files, b: Files| agree_on(a, b, reads.union(writes)) implies #[trigger] agree_on(
        g(a),
        g(b),
        writes,
    ) by {
        assert(same_at(a, b, from));
        assert forall|p: Seq<char>| writes.contains(p) implies #[trigger] same_at(g(a), g(b), p) by {
            assert(reads.union(writes).contains(p));
            assert(same_at(a, b, p));
        }
    }
}

} // verus!
