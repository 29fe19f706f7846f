//! The search engine: bound computation, iterative deepening over candidate
//! lengths, depth-first backtracking with pruning, and the partitioning of a
//! length-bounded search into independent subtree tasks.

use vstd::prelude::*;

use rayon::iter::IntoParallelRefIterator;
use rayon::iter::ParallelIterator;

use crate::lut;
use crate::ruler::GolombRuler;
use crate::ruler::complete_ruler;
use crate::ruler::golomb;
use crate::ruler::lemma_golomb_prefix;
use crate::ruler::lemma_increasing_gap;
use crate::ruler::strictly_increasing;
use crate::tracker::DistanceSet;
use crate::tracker::tracks;

verus! {

/// Configuration for the solver.
#[derive(Debug, Clone, Copy, PartialEq, Eq, Structural)]
pub struct SolverConfig {
    /// Number of marks to find.
    pub marks: usize,
    /// Enable verbose reporting by the caller.
    pub verbose: bool,
    /// Partition each length attempt into parallel subtree tasks.
    pub multi_processing: bool,
    /// Attempt the known optimal length directly before iterative deepening.
    pub best_length: bool,
}

/// Result from the solver.
#[derive(Debug)]
pub struct SolverResult {
    /// The found ruler, if any.
    pub ruler: Option<GolombRuler>,
    /// Whether the ruler is known optimal; `None` when no lookup entry exists.
    pub optimal: Option<bool>,
    /// Number of states examined during the search.
    pub states_examined: usize,
}

/// `e` extends the partial ruler `s` into a finished Golomb ruler of `m`
/// marks that fits within length `max_len`.
pub open spec fn is_completion(e: Seq<usize>, s: Seq<usize>, m: nat, max_len: int) -> bool {
    &&& e.len() == m
    &&& m >= 1
    &&& s.is_prefix_of(e)
    &&& strictly_increasing(e)
    &&& golomb(e)
    &&& e.last() <= max_len
}

/// The option tag that names a configuration in report file names: the
/// enabled flags in the order multi-processing, best-length, verbose, joined
/// by underscores, or "std" when none is enabled.
pub open spec fn option_string_spec(mp: bool, b: bool, v: bool) -> Seq<char> {
    if mp && b && v {
        "mp_b_v"@
    } else if mp && b {
        "mp_b"@
    } else if mp && v {
        "mp_v"@
    } else if mp {
        "mp"@
    } else if b && v {
        "b_v"@
    } else if b {
        "b"@
    } else if v {
        "v"@
    } else {
        "std"@
    }
}

/// Builds the option tag for a report file name from the configured flags.
pub fn generate_option_string(multi_processing: bool, best_length: bool, verbose: bool) -> (r:
    String)
    ensures
        r@ == option_string_spec(multi_processing, best_length, verbose),
{
    broadcast use vstd::string::to_string_from_display_ensures_for_str;

    if multi_processing && best_length && verbose {
        "mp_b_v".to_string()
    } else if multi_processing && best_length {
        "mp_b".to_string()
    } else if multi_processing && verbose {
        "mp_v".to_string()
    } else if multi_processing {
        "mp".to_string()
    } else if best_length && verbose {
        "b_v".to_string()
    } else if best_length {
        "b".to_string()
    } else if verbose {
        "v".to_string()
    } else {
        "std".to_string()
    }
}

/// One independent subtree of a length-bounded search: marks 0, `mark1` and
/// `mark2` fixed, the remaining marks left to backtracking.
struct Task {
    mark1: usize,
    mark2: usize,
    max_length: usize,
}

/// The fixed marks of a task fit inside its length bound.
spec fn task_wf(task: Task, max_length: usize) -> bool {
    &&& 1 <= task.mark1
    &&& task.mark1 < task.mark2
    &&& task.mark2 <= max_length
    &&& task.max_length == max_length
}

/// Some task in the list fixes exactly the given first two non-zero marks.
spec fn task_in(tasks: Seq<Task>, m1: usize, m2: usize, max_length: usize) -> bool {
    exists|i: int|
        0 <= i < tasks.len() && tasks[i].mark1 == m1 && tasks[i].mark2 == m2
            && tasks[i].max_length == max_length
}

/// What one subtree task may report: a found ruler is complete and fits the
/// bound; an empty outcome means the fixed prefix admits no complete ruler.
spec fn task_outcome_ok(marks: usize, task: Task, outcome: (Option<GolombRuler>, usize)) -> bool {
    match outcome.0 {
        Some(ru) => {
            &&& ru.marks == marks
            &&& complete_ruler(ru@, marks as nat)
            &&& ru@.last() <= task.max_length
        },
        None => forall|e: Seq<usize>|
            !(complete_ruler(e, marks as nat) && e.last() <= task.max_length && e.len() > 2 && e[1]
                == task.mark1 && e[2] == task.mark2),
    }
}

/// The largest length the search will try for the given mark count: the
/// known optimal length where one exists, else the always-achievable
/// pessimistic bound marks squared.
pub open spec fn search_upper_bound(marks: usize) -> int {
    match lut::optimal_length_spec(marks) {
        Some(l) => l as int,
        None => (marks as int) * (marks as int),
    }
}

/// The least integer whose square reaches `x`.
#[verifier::loop_isolation(false)]
fn ceil_sqrt(x: usize) -> (r: usize)
    ensures
        (r as int) * (r as int) >= x,
        r >= 1 ==> ((r - 1) as int) * ((r - 1) as int) < x,
        r <= x,
{
    if x == 0 {
        return 0;
    }
    let mut r: usize = 1;
    while r <= (x - 1) / r
        invariant
            1 <= r <= x,
            ((r - 1) as int) * ((r - 1) as int) < x,
        decreases x - r,
    {
        proof {
            vstd::arithmetic::div_mod::lemma_fundamental_div_mod((x - 1) as int, r as int);
            let q = (x - 1) as int / r as int;
            let rem = (x - 1) as int % r as int;
            assert((r as int) * (r as int) < x && r < x) by (nonlinear_arith)
                requires
                    (x - 1) as int == (r as int) * q + rem,
                    0 <= rem < r as int,
                    r as int <= q,
                    1 <= r as int,
                    x >= 1,
            {}
        }
        r = r + 1;
    }
    proof {
        vstd::arithmetic::div_mod::lemma_fundamental_div_mod((x - 1) as int, r as int);
        let q = (x - 1) as int / r as int;
        let rem = (x - 1) as int % r as int;
        assert((r as int) * (r as int) >= x) by (nonlinear_arith)
            requires
                (x - 1) as int == (r as int) * q + rem,
                0 <= rem < r as int,
                q < r as int,
                1 <= r as int,
        {}
    }
    r
}

/// Main solver for finding Golomb rulers.
pub struct GolombSolver {
    /// The configuration the solver was created with.
    pub config: SolverConfig,
}

/// Advances the state counter, holding at the maximum rather than wrapping.
fn bump(c: &mut usize)
    ensures
        *old(c) < usize::MAX ==> *final(c) == *old(c) + 1,
        *old(c) == usize::MAX ==> *final(c) == *old(c),
{
    if *c < usize::MAX {
        *c = *c + 1;
    }
}

impl GolombSolver {
    /// Creates a new solver with the given configuration.
    pub fn new(config: SolverConfig) -> (r: Self)
        ensures
            r.config == config,
    {
        GolombSolver { config }
    }

    /// Depth-first backtracking: tries every position for the next mark in
    /// ascending order, pruning candidates that repeat a pairwise distance.
    /// Returns true exactly when the partial ruler can be completed within
    /// `max_length`; on failure the ruler is left as it was.
    #[verifier::loop_isolation(false)]
    fn backtrack(
        &self,
        ruler: &mut GolombRuler,
        ds: &DistanceSet,
        max_length: usize,
        states: &mut usize,
    ) -> (found: bool)
        requires
            old(ruler).marks == self.config.marks,
            1 <= old(ruler)@.len() <= old(ruler).marks,
            old(ruler)@[0] == 0,
            strictly_increasing(old(ruler)@),
            golomb(old(ruler)@),
            tracks(ds@, old(ruler)@),
            old(ruler)@.last() <= max_length,
            old(ruler).marks <= max_length + 1,
            max_length < usize::MAX,
        ensures
            final(ruler).marks == old(ruler).marks,
            found ==> is_completion(
                final(ruler)@,
                old(ruler)@,
                old(ruler).marks as nat,
                max_length as int,
            ),
            !found ==> final(ruler)@ == old(ruler)@,
            !found ==> forall|e: Seq<usize>|
                !is_completion(e, old(ruler)@, old(ruler).marks as nat, max_length as int),
        decreases old(ruler).marks - old(ruler)@.len(),
    {
        bump(states);
        let marks = self.config.marks;
        let current = ruler.current_marks();
        if current == marks {
            return true;
        }
        let ghost orig = ruler@;
        let current_pos = ruler.length();
        let remaining = marks - current;
        let max_pos = max_length - (remaining - 1);
        let mut pos = current_pos + 1;
        proof {
            assert forall|e: Seq<usize>|
                is_completion(e, orig, marks as nat, max_length as int) implies e[current as int]
                >= pos by {
                assert(e[current as int - 1] == orig[current as int - 1]);
                assert(e[current as int - 1] < e[current as int]);
            }
        }
        while pos <= max_pos
            invariant
                ruler.marks == marks,
                marks == self.config.marks,
                ruler@ == orig,
                1 <= orig.len() < marks,
                orig[0] == 0,
                strictly_increasing(orig),
                golomb(orig),
                tracks(ds@, orig),
                orig.last() <= max_length,
                marks <= max_length + 1,
                max_length < usize::MAX,
                current == orig.len(),
                current_pos == orig.last(),
                remaining == marks - current,
                max_pos == max_length - (remaining - 1),
                current_pos < pos,
                pos <= max_length + 1,
                forall|e: Seq<usize>|
                    is_completion(e, orig, marks as nat, max_length as int) ==> e[current as int]
                        >= pos,
            decreases max_pos + 1 - pos,
        {
            proof {
                assert forall|t: int| 0 <= t < orig.len() implies orig[t] < pos by {
                    if t < orig.len() - 1 {
                        assert(orig[t] < orig[orig.len() - 1]);
                    }
                }
            }
            let mut local = ds.duplicate();
            let ok = local.add_distances(ruler.positions(), pos);
            let ghost grown = orig.push(pos);
            proof {
                assert forall|e: Seq<usize>|
                    is_completion(e, orig, marks as nat, max_length as int) && e[current as int]
                        == pos implies is_completion(
                    e,
                    grown,
                    marks as nat,
                    max_length as int,
                ) by {
                    assert(grown.len() == current + 1 <= e.len());
                    assert forall|t: int| 0 <= t < grown.len() implies e[t] == grown[t] by {
                        if t < current {
                            assert(e[t] == orig[t]);
                        }
                    }
                    assert(grown =~= e.take(grown.len() as int));
                    assert(grown.is_prefix_of(e));
                }
            }
            if ok {
                ruler.add_mark(pos);
                let found = self.backtrack(ruler, &local, max_length, states);
                if found {
                    proof {
                        assert(orig.is_prefix_of(grown));
                        assert(grown.is_prefix_of(ruler@));
                        assert forall|t: int| 0 <= t < orig.len() implies ruler@[t] == orig[t] by {
                            assert(grown[t] == orig[t]);
                        }
                        assert(orig =~= ruler@.take(orig.len() as int));
                    }
                    return true;
                }
                ruler.remove_last_mark();
                proof {
                    assert(ruler@ =~= orig);
                }
            } else {
                bump(states);
                proof {
                    assert forall|e: Seq<usize>|
                        is_completion(e, orig, marks as nat, max_length as int) implies e[current as int]
                        != pos by {
                        if e[current as int] == pos {
                            lemma_golomb_prefix(grown, e);
                        }
                    }
                }
            }
            proof {
                assert forall|e: Seq<usize>|
                    is_completion(e, orig, marks as nat, max_length as int) implies e[current as int]
                    >= pos + 1 by {
                    assert(e[current as int] >= pos);
                    assert(e[current as int] != pos);
                }
            }
            pos = pos + 1;
        }
        proof {
            assert forall|e: Seq<usize>|
                !is_completion(e, orig, marks as nat, max_length as int) by {
                if is_completion(e, orig, marks as nat, max_length as int) {
                    lemma_increasing_gap(e, current as int, e.len() - 1);
                    assert(e[current as int] <= e.last() - (marks - 1 - current));
                    assert(e[current as int] >= pos);
                    assert(false);
                }
            }
        }
        false
    }

    /// Single-threaded search for a complete ruler within the given length.
    fn search_length_single(&self, max_length: usize) -> (r: SolverResult)
        requires
            3 <= self.config.marks,
            self.config.marks <= max_length + 1,
            max_length < usize::MAX,
        ensures
            r.optimal is None,
            match r.ruler {
                Some(ru) => {
                    &&& ru.marks == self.config.marks
                    &&& complete_ruler(ru@, self.config.marks as nat)
                    &&& ru@.last() <= max_length
                },
                None => forall|e: Seq<usize>|
                    !(complete_ruler(e, self.config.marks as nat) && e.last() <= max_length),
            },
    {
        let mut ruler = GolombRuler::empty(self.config.marks);
        let distance_set = DistanceSet::new();
        let mut states_examined: usize = 0;
        proof {
            assert(ruler@.last() == 0);
            assert(forall|d: usize| !Seq::<usize>::empty().contains(d));
            assert(forall|d: usize| !crate::ruler::is_dist_of(ruler@, d as int));
        }
        let found = self.backtrack(&mut ruler, &distance_set, max_length, &mut states_examined);
        proof {
            assert forall|e: Seq<usize>|
                is_completion(e, seq![0usize], self.config.marks as nat, max_length as int)
                    <==> (complete_ruler(e, self.config.marks as nat) && e.last()
                    <= max_length) by {
                if complete_ruler(e, self.config.marks as nat) && e.last() <= max_length {
                    assert(seq![0usize] =~= e.take(1));
                }
            }
        }
        if found {
            SolverResult { ruler: Some(ruler), optimal: None, states_examined }
        } else {
            SolverResult { ruler: None, optimal: None, states_examined }
        }
    }

    /// Partitions a length-bounded search exhaustively over the first two
    /// non-zero marks, so that no subtree of the search space is lost.
    #[verifier::loop_isolation(false)]
    fn generate_tasks(&self, max_length: usize) -> (tasks: Vec<Task>)
        requires
            3 <= self.config.marks,
            self.config.marks <= max_length + 1,
            max_length < usize::MAX,
        ensures
            forall|i: int| 0 <= i < tasks@.len() ==> task_wf(#[trigger] tasks@[i], max_length),
            forall|e: Seq<usize>|
                complete_ruler(e, self.config.marks as nat) && e.last() <= max_length
                    ==> task_in(tasks@, e[1], e[2], max_length),
            tasks@.len() >= 1,
    {
        let marks = self.config.marks;
        let limit2 = max_length - (marks - 3);
        let mut tasks: Vec<Task> = Vec::new();
        let mut mark1: usize = 1;
        while mark1 < limit2
            invariant
                1 <= mark1 <= limit2,
                forall|i: int| 0 <= i < tasks@.len() ==> task_wf(#[trigger] tasks@[i], max_length),
                forall|m1: usize, m2: usize|
                    1 <= m1 < mark1 && m1 < m2 <= limit2 ==> task_in(
                        tasks@,
                        m1,
                        m2,
                        max_length,
                    ),
            decreases limit2 - mark1,
        {
            let mut mark2: usize = mark1 + 1;
            while mark2 <= limit2
                invariant
                    1 <= mark1 < mark2 <= limit2 + 1,
                    forall|i: int|
                        0 <= i < tasks@.len() ==> task_wf(#[trigger] tasks@[i], max_length),
                    forall|m1: usize, m2: usize|
                        1 <= m1 < mark1 && m1 < m2 <= limit2 ==> task_in(
                            tasks@,
                            m1,
                            m2,
                            max_length,
                        ),
                    forall|m2: usize|
                        mark1 < m2 < mark2 ==> task_in(tasks@, mark1, m2, max_length),
                decreases limit2 + 1 - mark2,
            {
                let ghost pre = tasks@;
                tasks.push(Task { mark1, mark2, max_length });
                proof {
                    assert(tasks@[tasks@.len() - 1] == Task { mark1, mark2, max_length });
                    assert forall|m1: usize, m2: usize|
                        (1 <= m1 < mark1 && m1 < m2 <= limit2) || (m1 == mark1 && mark1 < m2
                            < mark2 + 1) implies task_in(tasks@, m1, m2, max_length) by {
                        if m1 == mark1 && m2 == mark2 {
                            assert(tasks@[tasks@.len() - 1].mark1 == m1);
                        } else {
                            assert(task_in(pre, m1, m2, max_length));
                            let i = choose|i: int|
                                0 <= i < pre.len() && pre[i].mark1 == m1 && pre[i].mark2 == m2
                                    && pre[i].max_length == max_length;
                            assert(tasks@[i] == pre[i]);
                        }
                    }
                }
                mark2 = mark2 + 1;
            }
            mark1 = mark1 + 1;
        }
        proof {
            assert(limit2 >= 2);
            assert(task_in(tasks@, 1, 2, max_length));
            assert(tasks@.len() >= 1);
            assert forall|e: Seq<usize>|
                complete_ruler(e, self.config.marks as nat) && e.last()
                    <= max_length implies task_in(tasks@, e[1], e[2], max_length) by {
                lemma_increasing_gap(e, 2, e.len() - 1);
                assert(e[2] + (marks - 3) <= e.last());
                assert(e[0] < e[1] && e[1] < e[2]);
                let m1: usize = e[1];
                let m2: usize = e[2];
                assert(1 <= m1 && m1 < m2 && m2 <= limit2);
                assert(m1 < mark1);
            }
        }
        tasks
    }

    /// Runs one subtree task to completion: fixes marks 0, `mark1`, `mark2`
    /// and backtracks over the remaining marks, reporting the states it
    /// examined. A task whose fixed prefix already repeats a distance yields
    /// nothing, as no ruler can extend it.
    fn run_task(&self, task: &Task) -> (r: (Option<GolombRuler>, usize))
        requires
            3 <= self.config.marks,
            self.config.marks <= task.max_length + 1,
            task.max_length < usize::MAX,
            task_wf(*task, task.max_length),
        ensures
            task_outcome_ok(self.config.marks, *task, r),
    {
        let marks = self.config.marks;
        let mut ruler = GolombRuler::empty(marks);
        let mut ds = DistanceSet::new();
        let mut states: usize = 0;
        proof {
            assert(forall|d: usize| !Seq::<usize>::empty().contains(d));
            assert(forall|d: usize| !crate::ruler::is_dist_of(ruler@, d as int));
        }
        let ok1 = ds.add_distances(ruler.positions(), task.mark1);
        proof {
            assert(golomb(ruler@.push(task.mark1)));
        }
        assert(ok1);
        ruler.add_mark(task.mark1);
        let ok2 = ds.add_distances(ruler.positions(), task.mark2);
        ruler.add_mark(task.mark2);
        let ghost prefix = ruler@;
        proof {
            assert(prefix =~= seq![0usize, task.mark1, task.mark2]);
            assert forall|e: Seq<usize>|
                complete_ruler(e, marks as nat) && e.len() > 2 && e[1] == task.mark1 && e[2]
                    == task.mark2 implies prefix.is_prefix_of(e) by {
                assert(prefix =~= e.take(3));
            }
        }
        if !ok2 {
            proof {
                assert forall|e: Seq<usize>|
                    !(complete_ruler(e, marks as nat) && e.last() <= task.max_length && e.len() > 2
                        && e[1] == task.mark1 && e[2] == task.mark2) by {
                    if complete_ruler(e, marks as nat) && e.len() > 2 && e[1] == task.mark1 && e[2]
                        == task.mark2 {
                        lemma_golomb_prefix(prefix, e);
                    }
                }
            }
            return (None, states);
        }
        let found = self.backtrack(&mut ruler, &ds, task.max_length, &mut states);
        if found {
            (Some(ruler), states)
        } else {
            proof {
                assert forall|e: Seq<usize>|
                    !(complete_ruler(e, marks as nat) && e.last() <= task.max_length && e.len() > 2
                        && e[1] == task.mark1 && e[2] == task.mark2) by {
                    if complete_ruler(e, marks as nat) && e.last() <= task.max_length && e.len() > 2
                        && e[1] == task.mark1 && e[2] == task.mark2 {
                        assert(is_completion(e, prefix, marks as nat, task.max_length as int));
                    }
                }
            }
            (None, states)
        }
    }

    /// Relies on rayon's parallel iterator: `par_iter().map(f).collect()`
    /// applies `f` to every element, in parallel, and collects one result per
    /// element in the input's order. The closure only calls the verified
    /// `run_task`, whose contract each outcome therefore meets.
    #[verifier::external_body]
    fn run_tasks_parallel(&self, tasks: &Vec<Task>) -> (outcomes: Vec<(Option<GolombRuler>, usize)>)
        requires
            3 <= self.config.marks,
            forall|i: int|
                0 <= i < tasks@.len() ==> {
                    &&& task_wf(#[trigger] tasks@[i], tasks@[i].max_length)
                    &&& self.config.marks <= tasks@[i].max_length + 1
                    &&& tasks@[i].max_length < usize::MAX
                },
        ensures
            outcomes@.len() == tasks@.len(),
            forall|i: int|
                0 <= i < outcomes@.len() ==> task_outcome_ok(
                    self.config.marks,
                    tasks@[i],
                    #[trigger] outcomes@[i],
                ),
    {
        tasks.par_iter().map(|t| self.run_task(t)).collect()
    }

    /// Parallel search for a complete ruler within the given length: the
    /// exhaustive subtree tasks run on a worker pool, their state counts are
    /// summed, and any task's ruler is accepted.
    #[verifier::loop_isolation(false)]
    fn search_length_parallel(&self, max_length: usize) -> (r: SolverResult)
        requires
            3 <= self.config.marks,
            self.config.marks <= max_length + 1,
            max_length < usize::MAX,
        ensures
            r.optimal is None,
            match r.ruler {
                Some(ru) => {
                    &&& ru.marks == self.config.marks
                    &&& complete_ruler(ru@, self.config.marks as nat)
                    &&& ru@.last() <= max_length
                },
                None => forall|e: Seq<usize>|
                    !(complete_ruler(e, self.config.marks as nat) && e.last() <= max_length),
            },
    {
        let tasks = self.generate_tasks(max_length);
        let mut outcomes = self.run_tasks_parallel(&tasks);
        let ghost all = outcomes@;
        let mut total: usize = 0;
        let mut chosen: Option<GolombRuler> = None;
        while outcomes.len() > 0
            invariant
                outcomes@.len() <= all.len(),
                outcomes@ == all.take(outcomes@.len() as int),
                match chosen {
                    Some(ru) => {
                        &&& ru.marks == self.config.marks
                        &&& complete_ruler(ru@, self.config.marks as nat)
                        &&& ru@.last() <= max_length
                    },
                    None => forall|j: int| outcomes@.len() <= j < all.len() ==> all[j].0 is None,
                },
            decreases outcomes@.len(),
        {
            let ghost k = outcomes@.len() - 1;
            let item = outcomes.pop();
            match item {
                Some((opt, n)) => {
                    proof {
                        assert(all.take(k + 1)[k] == all[k]);
                        assert(outcomes@ =~= all.take(k));
                    }
                    total = if total <= usize::MAX - n {
                        total + n
                    } else {
                        usize::MAX
                    };
                    if chosen.is_none() {
                        proof {
                            assert(task_outcome_ok(self.config.marks, tasks@[k], all[k]));
                        }
                        chosen = opt;
                    }
                }
                None => {},
            }
        }
        match chosen {
            Some(ru) => SolverResult { ruler: Some(ru), optimal: None, states_examined: total },
            None => {
                proof {
                    assert forall|e: Seq<usize>|
                        !(complete_ruler(e, self.config.marks as nat) && e.last()
                            <= max_length) by {
                        if complete_ruler(e, self.config.marks as nat) && e.last() <= max_length {
                            assert(task_in(tasks@, e[1], e[2], max_length));
                            let i = choose|i: int|
                                0 <= i < tasks@.len() && tasks@[i].mark1 == e[1] && tasks@[i].mark2
                                    == e[2] && tasks@[i].max_length == max_length;
                            assert(task_outcome_ok(self.config.marks, tasks@[i], all[i]));
                            assert(all[i].0 is None);
                        }
                    }
                }
                SolverResult { ruler: None, optimal: None, states_examined: total }
            },
        }
    }

    /// Searches for a complete ruler within the given length, sequentially or
    /// in parallel as configured.
    fn search_length(&self, max_length: usize) -> (r: SolverResult)
        requires
            3 <= self.config.marks,
            self.config.marks <= max_length + 1,
            max_length < usize::MAX,
        ensures
            r.optimal is None,
            match r.ruler {
                Some(ru) => {
                    &&& ru.marks == self.config.marks
                    &&& complete_ruler(ru@, self.config.marks as nat)
                    &&& ru@.last() <= max_length
                },
                None => forall|e: Seq<usize>|
                    !(complete_ruler(e, self.config.marks as nat) && e.last() <= max_length),
            },
    {
        if self.config.multi_processing {
            self.search_length_parallel(max_length)
        } else {
            self.search_length_single(max_length)
        }
    }

    /// The canonical published ruler for the given mark count, verified at
    /// runtime to be a complete Golomb ruler of exactly the expected length;
    /// `None` if no table entry exists or the entry fails the check.
    fn canonical_checked(&self, marks: usize, expected_len: usize) -> (r: Option<GolombRuler>)
        ensures
            match r {
                Some(ru) => {
                    &&& ru.marks == marks
                    &&& complete_ruler(ru@, marks as nat)
                    &&& ru@.last() == expected_len
                },
                None => true,
            },
    {
        match lut::get_optimal_ruler(marks) {
            Some(cv) => {
                if cv.len() != marks || cv.len() == 0 {
                    return None;
                }
                if cv[0] != 0 {
                    return None;
                }
                if cv[cv.len() - 1] != expected_len {
                    return None;
                }
                if !crate::ruler::is_increasing(&cv) {
                    return None;
                }
                if !crate::tracker::distinct_distances(&cv) {
                    return None;
                }
                Some(GolombRuler::new(cv, marks))
            },
            None => None,
        }
    }

    /// Solves for a Golomb ruler with the configured number of marks: the
    /// returned ruler, if any, is a complete Golomb ruler; a ruler found by
    /// iterative deepening is of minimal length, and one found through the
    /// best-length fast path has exactly the published optimal length. The
    /// optimality flag is `Some(true)` exactly when the returned length
    /// equals the published optimal length, and `None` when no table entry
    /// exists for this mark count.
    #[verifier::loop_isolation(false)]
    pub fn solve(&self) -> (r: SolverResult)
        requires
            self.config.marks <= 65535,
        ensures
            self.config.marks <= 1 ==> {
                &&& r.ruler matches Some(ru) && ru.marks == self.config.marks && ru@ == seq![
                    0usize,
                ]
                &&& r.optimal == Some(true)
                &&& r.states_examined == 0
            },
            self.config.marks == 2 ==> {
                &&& r.ruler matches Some(ru) && ru.marks == self.config.marks && ru@ == seq![
                    0usize,
                    1usize,
                ]
                &&& r.optimal == Some(true)
                &&& r.states_examined == 0
            },
            self.config.marks >= 3 ==> match r.ruler {
                Some(ru) => {
                    &&& ru.marks == self.config.marks
                    &&& complete_ruler(ru@, self.config.marks as nat)
                    &&& ru@.last() <= search_upper_bound(self.config.marks)
                    &&& match lut::optimal_length_spec(self.config.marks) {
                        Some(l) => r.optimal == Some(ru@.last() == l),
                        None => r.optimal is None,
                    }
                    &&& ((forall|e: Seq<usize>|
                        complete_ruler(e, self.config.marks as nat) ==> e.last() >= ru@.last())
                        || lut::optimal_length_spec(self.config.marks) == Some(ru@.last()))
                    &&& (!self.config.best_length ==> forall|e: Seq<usize>|
                        complete_ruler(e, self.config.marks as nat) ==> e.last() >= ru@.last())
                },
                None => {
                    &&& r.optimal is None
                    &&& r.states_examined == 0
                    &&& forall|e: Seq<usize>|
                        complete_ruler(e, self.config.marks as nat) ==> e.last()
                            > search_upper_bound(self.config.marks)
                },
            },
    {
        let marks = self.config.marks;
        if marks <= 1 {
            let positions: Vec<usize> = vec![0];
            proof {
                assert(positions@ =~= seq![0usize]);
            }
            let ruler = GolombRuler::new(positions, marks);
            return SolverResult { ruler: Some(ruler), optimal: Some(true), states_examined: 0 };
        }
        if marks == 2 {
            let positions: Vec<usize> = vec![0, 1];
            proof {
                assert(positions@ =~= seq![0usize, 1usize]);
            }
            let ruler = GolombRuler::new(positions, marks);
            return SolverResult { ruler: Some(ruler), optimal: Some(true), states_examined: 0 };
        }
        let ghost m = marks as nat;
        let optimal_length = lut::get_optimal_length(marks);

        proof {
            assert((marks as int) * (marks as int - 1) <= 65535 * 65535 && 6 <= (marks as int) * (
            marks as int - 1) && (marks as int) * (marks as int - 1) < (marks as int) * (
            marks as int) && (marks as int) * (marks as int) <= 65535 * 65535) by (nonlinear_arith)
                requires
                    3 <= marks <= 65535,
            {}
        }
        let prod = marks * (marks - 1);
        let c = ceil_sqrt(prod);
        let lower_bound = if c > marks - 1 {
            c
        } else {
            marks - 1
        };
        let upper_bound = match optimal_length {
            Some(l) => l,
            None => marks * marks,
        };
        proof {
            assert(c >= 1);
            assert(c <= marks) by (nonlinear_arith)
                requires
                    ((c - 1) as int) * ((c - 1) as int) < (marks as int) * (marks as int - 1),
                    (marks as int) * (marks as int - 1) < (marks as int) * (marks as int),
                    1 <= c,
                    1 <= marks,
            {}
            assert(2 * (marks as int) <= prod && 2 * (marks as int - 1) <= prod)
                by (nonlinear_arith)
                requires
                    prod == (marks as int) * (marks as int - 1),
                    3 <= marks,
            {}
            assert(2 * (lower_bound as int) <= prod);
            assert forall|e: Seq<usize>| complete_ruler(e, m) implies e.last() as int
                >= lower_bound as int by {
                crate::counting::lemma_min_length(e, m);
                assert(2 * (e.last() as int) >= (marks as int) * (marks as int - 1));
            }
            assert(upper_bound == search_upper_bound(marks));
            assert(upper_bound < usize::MAX);
            assert(marks <= lower_bound + 1);
        }

        let mut best_failed = false;
        if self.config.best_length {
            if let Some(l) = optimal_length {
                proof {
                    assert(marks <= l + 1 && l < usize::MAX);
                }
                let res = self.search_length(l);
                match res.ruler {
                    Some(_found_ruler) => {
                        match self.canonical_checked(marks, l) {
                            Some(cru) => {
                                return SolverResult {
                                    ruler: Some(cru),
                                    optimal: Some(true),
                                    states_examined: res.states_examined,
                                };
                            },
                            None => {},
                        }
                    },
                    None => {
                        best_failed = true;
                    },
                }
            }
        }

        let mut length = lower_bound;
        while length <= upper_bound
            invariant
                lower_bound <= length <= upper_bound + 1,
                forall|e: Seq<usize>| complete_ruler(e, m) ==> e.last() as int >= length as int,
                best_failed ==> match optimal_length {
                    Some(l) => forall|e: Seq<usize>|
                        complete_ruler(e, m) ==> e.last() as int > l as int,
                    None => false,
                },
            decreases upper_bound + 1 - length,
        {
            let skip = best_failed && match optimal_length {
                Some(l) => l == length,
                None => false,
            };
            if !skip {
                let res = self.search_length(length);
                if let Some(found) = res.ruler {
                    proof {
                        assert(found@.last() >= length);
                        assert(found@.last() == length);
                    }
                    let is_opt = match optimal_length {
                        Some(l) => l == length,
                        None => false,
                    };
                    if is_opt {
                        match self.canonical_checked(marks, length) {
                            Some(cru) => {
                                return SolverResult {
                                    ruler: Some(cru),
                                    optimal: Some(true),
                                    states_examined: res.states_examined,
                                };
                            },
                            None => {},
                        }
                    }
                    let optimal = match optimal_length {
                        Some(l) => Some(l == length),
                        None => None,
                    };
                    return SolverResult {
                        ruler: Some(found),
                        optimal,
                        states_examined: res.states_examined,
                    };
                }
            }
            length = length + 1;
        }
        SolverResult { ruler: None, optimal: None, states_examined: 0 }
    }
}

} // verus!
