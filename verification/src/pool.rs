//! The concurrency pool's admission gate and usage accounting.
//!
//! The pool bounds simultaneous executions by `max_concurrent` and
//! keeps global and per-function statistics. The embedding program
//! supplies the waiting (a semaphore) and the execution unit; every
//! counter change is decided here: `try_begin_execution` admits a run
//! when a permit is free, `finish_execution` books its outcome.
//!
//! Laws at the bottom of the module state the accounting guarantees
//! over abstract models: the admission gate never exceeds its bound,
//! completed runs are counted exactly, and each function's invocation
//! count depends only on its own runs.

use vstd::prelude::*;
use vstd::pervasive::VecAdditionalExecFns;
use crate::isolate::{ExecutionResult, IsolateConfig};
use crate::strutil::str_eq;

verus! {

/// Process-wide pool statistics.
#[derive(Clone, Copy, Debug, PartialEq, Eq, Structural)]
pub struct PoolStats {
    pub total_executions: u64,
    pub successful_executions: u64,
    pub failed_executions: u64,
    pub total_execution_time_ms: u64,
    pub avg_execution_time_ms: u64,
    pub current_concurrent: usize,
    pub max_concurrent: usize,
    pub total_memory_used_bytes: u64,
}

/// Statistics of one function, created on its first completed run.
#[derive(Clone, Copy, Debug, PartialEq, Eq, Structural)]
pub struct FunctionStats {
    pub invocations: u64,
    pub successful: u64,
    pub failed: u64,
    pub total_time_ms: u64,
    pub avg_time_ms: u64,
    pub last_execution_ms: u64,
}

/// Every completion keeps the totals consistent: executions split into
/// successes and failures, and the average is the integer quotient of
/// total time by total executions (zero before the first run).
pub open spec fn stats_consistent(s: PoolStats) -> bool {
    &&& s.total_executions == s.successful_executions + s.failed_executions
    &&& s.avg_execution_time_ms == if s.total_executions > 0 {
        s.total_execution_time_ms as int / s.total_executions as int
    } else {
        0int
    }
    &&& s.current_concurrent <= s.max_concurrent
}

/// Per-function totals are consistent in the same way; an entry exists
/// only once it has been invoked.
pub open spec fn fstats_consistent(s: FunctionStats) -> bool {
    &&& s.invocations == s.successful + s.failed
    &&& s.invocations > 0
    &&& s.avg_time_ms == s.total_time_ms as int / s.invocations as int
}

/// Fresh per-function statistics, before any run is booked.
pub open spec fn fstats_zero() -> FunctionStats {
    FunctionStats {
        invocations: 0,
        successful: 0,
        failed: 0,
        total_time_ms: 0,
        avg_time_ms: 0,
        last_execution_ms: 0,
    }
}

/// Global statistics after booking one completed run (the concurrency
/// counter drops by the one slot the run held).
pub open spec fn stats_after_completion(
    s: PoolStats,
    success: bool,
    time_ms: u64,
    memory_bytes: u64,
) -> PoolStats {
    PoolStats {
        total_executions: (s.total_executions + 1) as u64,
        successful_executions: if success {
            (s.successful_executions + 1) as u64
        } else {
            s.successful_executions
        },
        failed_executions: if success {
            s.failed_executions
        } else {
            (s.failed_executions + 1) as u64
        },
        total_execution_time_ms: (s.total_execution_time_ms + time_ms) as u64,
        avg_execution_time_ms: ((s.total_execution_time_ms + time_ms) as int / (
        s.total_executions + 1) as int) as u64,
        current_concurrent: (s.current_concurrent - 1) as usize,
        max_concurrent: s.max_concurrent,
        total_memory_used_bytes: (s.total_memory_used_bytes + memory_bytes) as u64,
    }
}

/// One function's statistics after booking one completed run.
pub open spec fn fstats_after(s: FunctionStats, success: bool, time_ms: u64) -> FunctionStats {
    FunctionStats {
        invocations: (s.invocations + 1) as u64,
        successful: if success {
            (s.successful + 1) as u64
        } else {
            s.successful
        },
        failed: if success {
            s.failed
        } else {
            (s.failed + 1) as u64
        },
        total_time_ms: (s.total_time_ms + time_ms) as u64,
        avg_time_ms: ((s.total_time_ms + time_ms) as int / (s.invocations + 1) as int) as u64,
        last_execution_ms: time_ms,
    }
}

/// The statistics a completion starts from: the function's entry if it
/// has one, fresh statistics otherwise.
pub open spec fn fstats_or_zero(m: Map<Seq<char>, FunctionStats>, id: Seq<char>) -> FunctionStats {
    if m.contains_key(id) {
        m[id]
    } else {
        fstats_zero()
    }
}

/// One entry of the per-function statistics table.
#[derive(Debug)]
pub struct FnStatsEntry {
    pub id: String,
    pub stats: FunctionStats,
}

impl Clone for FnStatsEntry {
    /// A clone keeps the id and the statistics.
    fn clone(&self) -> (res: Self)
        ensures
            res.id@ == self.id@,
            res.stats == self.stats,
    {
        FnStatsEntry { id: self.id.clone(), stats: self.stats }
    }
}

/// No two entries book the same function.
pub open spec fn unique_ids(s: Seq<FnStatsEntry>) -> bool {
    forall|i: int, j: int| 0 <= i < j < s.len() ==> s[i].id@ != s[j].id@
}

/// The per-function table described by an entry list.
pub open spec fn fmap_of(s: Seq<FnStatsEntry>) -> Map<Seq<char>, FunctionStats>
    decreases s.len(),
{
    if s.len() == 0 {
        Map::empty()
    } else {
        fmap_of(s.drop_last()).insert(s.last().id@, s.last().stats)
    }
}

proof fn lemma_fmap_contains(s: Seq<FnStatsEntry>, k: Seq<char>)
    ensures
        fmap_of(s).contains_key(k) <==> (exists|i: int| 0 <= i < s.len() && s[i].id@ == k),
    decreases s.len(),
{
    if s.len() > 0 {
        lemma_fmap_contains(s.drop_last(), k);
        if fmap_of(s).contains_key(k) {
            if s.last().id@ == k {
                assert(s[s.len() - 1].id@ == k);
            } else {
                let i = choose|i: int| 0 <= i < s.drop_last().len() && s.drop_last()[i].id@ == k;
                assert(s[i].id@ == k);
            }
        }
        if exists|i: int| 0 <= i < s.len() && s[i].id@ == k {
            let i = choose|i: int| 0 <= i < s.len() && s[i].id@ == k;
            if i < s.len() - 1 {
                assert(s.drop_last()[i].id@ == k);
            }
        }
    }
}

proof fn lemma_fmap_value(s: Seq<FnStatsEntry>, i: int)
    requires
        unique_ids(s),
        0 <= i < s.len(),
    ensures
        fmap_of(s).contains_key(s[i].id@),
        fmap_of(s)[s[i].id@] == s[i].stats,
    decreases s.len(),
{
    if i < s.len() - 1 {
        assert(s.drop_last()[i] == s[i]);
        lemma_fmap_value(s.drop_last(), i);
        assert(s.last().id@ != s[i].id@);
    }
}

proof fn lemma_fmap_update(s: Seq<FnStatsEntry>, i: int, p: FnStatsEntry)
    requires
        unique_ids(s),
        0 <= i < s.len(),
        s[i].id@ == p.id@,
    ensures
        fmap_of(s.update(i, p)) =~= fmap_of(s).insert(p.id@, p.stats),
    decreases s.len(),
{
    let t = s.update(i, p);
    if i == s.len() - 1 {
        assert(t.drop_last() =~= s.drop_last());
        assert(t.last() == p);
    } else {
        assert(t.drop_last() =~= s.drop_last().update(i, p));
        assert(s.drop_last()[i] == s[i]);
        lemma_fmap_update(s.drop_last(), i, p);
        assert(t.last() == s.last());
        assert(s.last().id@ != p.id@);
    }
}

proof fn lemma_fmap_len(s: Seq<FnStatsEntry>)
    requires
        unique_ids(s),
    ensures
        fmap_of(s).dom().finite(),
        fmap_of(s).dom().len() == s.len(),
    decreases s.len(),
{
    if s.len() > 0 {
        lemma_fmap_len(s.drop_last());
        lemma_fmap_contains(s.drop_last(), s.last().id@);
        assert(!fmap_of(s.drop_last()).contains_key(s.last().id@));
        assert(fmap_of(s).dom() =~= fmap_of(s.drop_last()).dom().insert(s.last().id@));
        vstd::set::axiom_set_insert_len(fmap_of(s.drop_last()).dom(), s.last().id@);
    }
}

/// The effective sandbox configuration of one run: the caller's, or
/// the default limits bound to the function being run.
pub fn resolve_config(function_id: &str, config: Option<IsolateConfig>) -> (r: IsolateConfig)
    ensures
        config matches Some(c) ==> r == c,
        config is None ==> r.max_execution_time_ms == 50 && r.max_heap_size_bytes == 134217728
            && r.function_id@ == function_id@,
{
    match config {
        Some(c) => c,
        None => {
            let mut r = IsolateConfig::default();
            r.function_id = function_id.to_owned();
            r
        },
    }
}

/// Index of the entry booking `id`, if one exists.
fn find_entry(entries: &Vec<FnStatsEntry>, id: &str) -> (r: Option<usize>)
    requires
        unique_ids(entries@),
    ensures
        match r {
            Some(i) => i < entries@.len() && entries@[i as int].id@ == id@,
            None => !fmap_of(entries@).contains_key(id@),
        },
{
    let mut i: usize = 0;
    while i < entries.len()
        invariant
            i <= entries@.len(),
            forall|j: int| 0 <= j < i ==> entries@[j].id@ != id@,
        decreases entries@.len() - i,
    {
        if str_eq(entries[i].id.as_str(), id) {
            return Some(i);
        }
        i += 1;
    }
    proof {
        lemma_fmap_contains(entries@, id@);
    }
    None
}

/// The pool: the admission gate's counters and the statistics tables.
/// The abstract value is a [`PoolView`].
pub struct IsolatePool {
    stats: PoolStats,
    entries: Vec<FnStatsEntry>,
}

/// Abstract pool state: the global statistics and the per-function
/// statistics table.
pub struct PoolView {
    pub stats: PoolStats,
    pub functions: Map<Seq<char>, FunctionStats>,
}

impl View for IsolatePool {
    type V = PoolView;

    closed spec fn view(&self) -> PoolView {
        PoolView { stats: self.stats, functions: fmap_of(self.entries@) }
    }
}

impl IsolatePool {
    #[verifier::type_invariant]
    spec fn wf(self) -> bool {
        &&& stats_consistent(self.stats)
        &&& unique_ids(self.entries@)
        &&& forall|i: int| 0 <= i < self.entries@.len() ==> fstats_consistent(
            #[trigger] self.entries@[i].stats,
        )
    }

    /// A pool admitting at most `max_concurrent` simultaneous runs,
    /// with all counters at zero.
    pub fn new(max_concurrent: usize) -> (r: Self)
        ensures
            r@.stats == (PoolStats {
                total_executions: 0,
                successful_executions: 0,
                failed_executions: 0,
                total_execution_time_ms: 0,
                avg_execution_time_ms: 0,
                current_concurrent: 0,
                max_concurrent: max_concurrent,
                total_memory_used_bytes: 0,
            }),
            r@.functions == Map::<Seq<char>, FunctionStats>::empty(),
    {
        IsolatePool {
            stats: PoolStats {
                total_executions: 0,
                successful_executions: 0,
                failed_executions: 0,
                total_execution_time_ms: 0,
                avg_execution_time_ms: 0,
                current_concurrent: 0,
                max_concurrent,
                total_memory_used_bytes: 0,
            },
            entries: Vec::new(),
        }
    }

    /// Admits one run when a permit is free: the concurrency counter
    /// rises by one and stays within the bound. With no permit free,
    /// nothing changes and the caller must wait.
    pub fn try_begin_execution(&mut self) -> (admitted: bool)
        ensures
            admitted == (old(self)@.stats.current_concurrent < old(self)@.stats.max_concurrent),
            final(self)@.functions == old(self)@.functions,
            final(self)@.stats == if admitted {
                PoolStats {
                    current_concurrent: (old(self)@.stats.current_concurrent + 1) as usize,
                    ..old(self)@.stats
                }
            } else {
                old(self)@.stats
            },
            final(self)@.stats.current_concurrent <= final(self)@.stats.max_concurrent,
            gate_of(final(self)@.stats) == gate_step(gate_of(old(self)@.stats), true),
    {
        proof {
            use_type_invariant(&*self);
        }
        if self.stats.current_concurrent < self.stats.max_concurrent {
            self.stats = PoolStats {
                current_concurrent: self.stats.current_concurrent + 1,
                ..self.stats
            };
            true
        } else {
            false
        }
    }

    /// Books one completed run: the run's permit is released and both
    /// the global and the function's statistics reflect the outcome as
    /// one unit. The bounds keep the u64 counters exact.
    pub fn finish_execution(&mut self, function_id: &str, result: &ExecutionResult)
        requires
            old(self)@.stats.current_concurrent > 0,
            old(self)@.stats.total_executions < u64::MAX,
            old(self)@.stats.total_execution_time_ms + result.execution_time_ms <= u64::MAX,
            old(self)@.stats.total_memory_used_bytes + result.memory_used_bytes <= u64::MAX,
            fstats_or_zero(old(self)@.functions, function_id@).invocations < u64::MAX,
            fstats_or_zero(old(self)@.functions, function_id@).total_time_ms
                + result.execution_time_ms <= u64::MAX,
        ensures
            final(self)@.stats == stats_after_completion(
                old(self)@.stats,
                result.success,
                result.execution_time_ms,
                result.memory_used_bytes as u64,
            ),
            final(self)@.functions == old(self)@.functions.insert(
                function_id@,
                fstats_after(
                    fstats_or_zero(old(self)@.functions, function_id@),
                    result.success,
                    result.execution_time_ms,
                ),
            ),
            gate_of(final(self)@.stats) == gate_step(gate_of(old(self)@.stats), false),
            pool_model_of(final(self)@.stats) == pool_model_step(
                pool_model_of(old(self)@.stats),
                run_record_of(function_id@, result),
            ),
            fn_table_of(final(self)@.functions) == fn_table_step(
                fn_table_of(old(self)@.functions),
                run_record_of(function_id@, result),
            ),
    {
        proof {
            use_type_invariant(&*self);
        }
        let s = self.stats;
        let new_total = s.total_executions + 1;
        let new_time = s.total_execution_time_ms + result.execution_time_ms;
        self.stats = PoolStats {
            total_executions: new_total,
            successful_executions: if result.success {
                s.successful_executions + 1
            } else {
                s.successful_executions
            },
            failed_executions: if result.success {
                s.failed_executions
            } else {
                s.failed_executions + 1
            },
            total_execution_time_ms: new_time,
            avg_execution_time_ms: new_time / new_total,
            current_concurrent: s.current_concurrent - 1,
            max_concurrent: s.max_concurrent,
            total_memory_used_bytes: s.total_memory_used_bytes + result.memory_used_bytes as u64,
        };
        self.book_function(function_id, result.success, result.execution_time_ms);
        proof {
            let rec = run_record_of(function_id@, result);
            let pre = fmap_of(old(self).entries@);
            let post = self@.functions;
            let stepped = fn_table_step(fn_table_of(pre), rec);
            assert(fn_table_of(post).dom() =~= stepped.dom());
            assert forall|k: Seq<char>| fn_table_of(post).contains_key(k) implies fn_table_of(
                post,
            )[k] == stepped[k] by {
                if k == function_id@ {
                    if pre.contains_key(k) {
                        lemma_fmap_contains(old(self).entries@, k);
                        let i = choose|i: int|
                            0 <= i < old(self).entries@.len() && old(self).entries@[i].id@ == k;
                        lemma_fmap_value(old(self).entries@, i);
                        assert(fstats_consistent(pre[k]));
                    }
                    assert(post[k] == fstats_after(fstats_or_zero(pre, k), result.success,
                        result.execution_time_ms));
                } else {
                    assert(post[k] == pre[k]);
                }
            }
            assert(fn_table_of(post) =~= stepped);
        }
    }

    /// Books one completed run against `function_id`'s entry, creating
    /// the entry on the first run.
    fn book_function(&mut self, function_id: &str, success: bool, time_ms: u64)
        requires
            unique_ids(old(self).entries@),
            forall|i: int| 0 <= i < old(self).entries@.len() ==> fstats_consistent(
                #[trigger] old(self).entries@[i].stats,
            ),
            stats_consistent(old(self).stats),
            fstats_or_zero(fmap_of(old(self).entries@), function_id@).invocations < u64::MAX,
            fstats_or_zero(fmap_of(old(self).entries@), function_id@).total_time_ms + time_ms
                <= u64::MAX,
        ensures
            final(self).stats == old(self).stats,
            final(self)@.functions == old(self)@.functions.insert(
                function_id@,
                fstats_after(
                    fstats_or_zero(fmap_of(old(self).entries@), function_id@),
                    success,
                    time_ms,
                ),
            ),
    {
        let ghost s0 = self.entries@;
        let mut entries = Vec::new();
        core::mem::swap(&mut entries, &mut self.entries);
        if let Some(i) = find_entry(&entries, function_id) {
            proof {
                lemma_fmap_value(s0, i as int);
            }
            let prev = entries[i].stats;
            let next = FnStatsEntry {
                id: function_id.to_owned(),
                stats: FunctionStats {
                    invocations: prev.invocations + 1,
                    successful: if success {
                        prev.successful + 1
                    } else {
                        prev.successful
                    },
                    failed: if success {
                        prev.failed
                    } else {
                        prev.failed + 1
                    },
                    total_time_ms: prev.total_time_ms + time_ms,
                    avg_time_ms: (prev.total_time_ms + time_ms) / (prev.invocations + 1),
                    last_execution_ms: time_ms,
                },
            };
            proof {
                lemma_fmap_update(s0, i as int, next);
            }
            entries.set(i, next);
            proof {
                assert(forall|a: int, b: int|
                    0 <= a < b < entries@.len() ==> entries@[a].id@ != entries@[b].id@) by {
                    assert(forall|a: int| 0 <= a < entries@.len() && a != i
                        ==> entries@[a] == s0[a]);
                }
            }
        } else {
            proof {
                lemma_fmap_contains(s0, function_id@);
            }
            let next = FnStatsEntry {
                id: function_id.to_owned(),
                stats: FunctionStats {
                    invocations: 1,
                    successful: if success {
                        1
                    } else {
                        0
                    },
                    failed: if success {
                        0
                    } else {
                        1
                    },
                    total_time_ms: time_ms,
                    avg_time_ms: time_ms,
                    last_execution_ms: time_ms,
                },
            };
            entries.push(next);
            proof {
                assert(forall|a: int, b: int|
                    0 <= a < b < entries@.len() ==> entries@[a].id@ != entries@[b].id@) by {
                    assert(forall|a: int| 0 <= a < s0.len() ==> entries@[a] == s0[a]);
                    assert(entries@[entries@.len() - 1].id@ == function_id@);
                }
                assert(entries@.drop_last() =~= s0);
                assert(time_ms as int / 1int == time_ms as int);
                assert(next.stats == fstats_after(fstats_zero(), success, time_ms));
                assert(fmap_of(entries@) =~= fmap_of(s0).insert(
                    function_id@,
                    fstats_after(fstats_zero(), success, time_ms),
                ));
            }
        }
        core::mem::swap(&mut entries, &mut self.entries);
    }

    /// A snapshot of the global statistics. The snapshot is always
    /// consistent: executions split into successes and failures, the
    /// average is total time over total executions, and the concurrency
    /// counter never exceeds its bound.
    pub fn get_stats(&self) -> (r: PoolStats)
        ensures
            r == self@.stats,
            stats_consistent(r),
    {
        proof {
            use_type_invariant(self);
        }
        self.stats
    }

    /// The statistics of one function, if it has completed a run.
    pub fn get_function_stats(&self, function_id: &str) -> (r: Option<FunctionStats>)
        ensures
            r == if self@.functions.contains_key(function_id@) {
                Some(self@.functions[function_id@])
            } else {
                None::<FunctionStats>
            },
            r matches Some(s) ==> fstats_consistent(s),
    {
        proof {
            use_type_invariant(self);
        }
        let mut i: usize = 0;
        while i < self.entries.len()
            invariant
                i <= self.entries@.len(),
                unique_ids(self.entries@),
                forall|j: int| 0 <= j < self.entries@.len() ==> fstats_consistent(
                    #[trigger] self.entries@[j].stats,
                ),
                forall|j: int| 0 <= j < i ==> self.entries@[j].id@ != function_id@,
            decreases self.entries@.len() - i,
        {
            if str_eq(self.entries[i].id.as_str(), function_id) {
                proof {
                    lemma_fmap_value(self.entries@, i as int);
                }
                return Some(self.entries[i].stats);
            }
            i += 1;
        }
        proof {
            lemma_fmap_contains(self.entries@, function_id@);
        }
        None
    }

    /// All per-function statistics entries: one for each booked
    /// function.
    pub fn get_all_function_stats(&self) -> (r: Vec<FnStatsEntry>)
        ensures
            self@.functions.dom().finite(),
            r@.len() == self@.functions.dom().len(),
            forall|j: int| 0 <= j < r@.len() ==> self@.functions.contains_key(
                #[trigger] r@[j].id@,
            ) && self@.functions[r@[j].id@] == r@[j].stats,
    {
        proof {
            use_type_invariant(self);
        }
        let mut out: Vec<FnStatsEntry> = Vec::new();
        let mut i: usize = 0;
        while i < self.entries.len()
            invariant
                i <= self.entries@.len(),
                unique_ids(self.entries@),
                out@.len() == i as nat,
                forall|j: int| 0 <= j < i
                    ==> #[trigger] out@[j].id@ == self.entries@[j].id@
                        && out@[j].stats == self.entries@[j].stats,
            decreases self.entries@.len() - i,
        {
            let e = self.entries[i].clone();
            out.push(e);
            proof {
                assert(out@[i as int].id@ == self.entries@[i as int].id@);
            }
            i += 1;
        }
        proof {
            lemma_fmap_len(self.entries@);
            assert forall|j: int| 0 <= j < out@.len() implies self@.functions.contains_key(
                #[trigger] out@[j].id@,
            ) && self@.functions[out@[j].id@] == out@[j].stats by {
                lemma_fmap_value(self.entries@, j);
            }
        }
        out
    }

    /// The number of currently admitted runs; never above the bound.
    pub fn current_concurrent(&self) -> (r: usize)
        ensures
            r == self@.stats.current_concurrent,
            r <= self@.stats.max_concurrent,
    {
        proof {
            use_type_invariant(self);
        }
        self.stats.current_concurrent
    }

    /// The number of free permits.
    pub fn available_permits(&self) -> (r: usize)
        ensures
            r == self@.stats.max_concurrent - self@.stats.current_concurrent,
    {
        proof {
            use_type_invariant(self);
        }
        self.stats.max_concurrent - self.stats.current_concurrent
    }
}

impl Default for IsolatePool {
    /// A pool admitting at most 100 simultaneous runs.
    fn default() -> (r: Self)
        ensures
            r@.stats.max_concurrent == 100,
            r@.stats.total_executions == 0,
            r@.stats.current_concurrent == 0,
            r@.functions == Map::<Seq<char>, FunctionStats>::empty(),
    {
        IsolatePool::new(100)
    }
}

// ------------------------------------------------------------------
// Accounting laws, over abstract models of the counters.
// ------------------------------------------------------------------

/// Abstract admission gate: the number of admitted runs and the bound.
pub struct GateModel {
    pub current: nat,
    pub bound: nat,
}

/// One gate event: `true` tries to admit a run (succeeding only below
/// the bound, as `try_begin_execution` does), `false` releases one.
pub open spec fn gate_step(g: GateModel, acquire: bool) -> GateModel {
    if acquire {
        if g.current < g.bound {
            GateModel { current: g.current + 1, ..g }
        } else {
            g
        }
    } else {
        GateModel { current: if g.current > 0 { (g.current - 1) as nat } else { 0 }, ..g }
    }
}

/// Result of booking each admission or release in order.
pub open spec fn gate_after(g: GateModel, events: Seq<bool>) -> GateModel
    decreases events.len(),
{
    if events.len() == 0 {
        g
    } else {
        gate_step(gate_after(g, events.drop_last()), events.last())
    }
}

/// However executions are begun and finished, the number of admitted
/// runs never exceeds the bound the pool was created with.
pub proof fn lemma_gate_never_exceeds_bound(g: GateModel, events: Seq<bool>)
    requires
        g.current <= g.bound,
    ensures
        gate_after(g, events).current <= g.bound,
        gate_after(g, events).bound == g.bound,
    decreases events.len(),
{
    if events.len() > 0 {
        lemma_gate_never_exceeds_bound(g, events.drop_last());
    }
}

/// The admission gate of a statistics snapshot.
pub open spec fn gate_of(s: PoolStats) -> GateModel {
    GateModel { current: s.current_concurrent as nat, bound: s.max_concurrent as nat }
}

/// Abstract global counters of completed runs.
pub struct PoolModel {
    pub total: nat,
    pub succeeded: nat,
    pub failed: nat,
    pub time_ms: nat,
    pub memory_bytes: nat,
}

/// The counters before any run completes.
pub open spec fn pool_model_zero() -> PoolModel {
    PoolModel { total: 0, succeeded: 0, failed: 0, time_ms: 0, memory_bytes: 0 }
}

/// One completed run, as the accounting sees it.
pub struct RunRecord {
    pub function_id: Seq<char>,
    pub success: bool,
    pub time_ms: nat,
    pub memory_bytes: nat,
}

/// The record of one completed run, as handed to the accounting.
pub open spec fn run_record_of(function_id: Seq<char>, result: &ExecutionResult) -> RunRecord {
    RunRecord {
        function_id: function_id,
        success: result.success,
        time_ms: result.execution_time_ms as nat,
        memory_bytes: result.memory_used_bytes as nat,
    }
}

/// Global counters after booking one completed run.
pub open spec fn pool_model_step(m: PoolModel, r: RunRecord) -> PoolModel {
    PoolModel {
        total: m.total + 1,
        succeeded: m.succeeded + if r.success {
            1nat
        } else {
            0nat
        },
        failed: m.failed + if r.success {
            0nat
        } else {
            1nat
        },
        time_ms: m.time_ms + r.time_ms,
        memory_bytes: m.memory_bytes + r.memory_bytes,
    }
}

/// Global counters after a sequence of completed runs.
pub open spec fn pool_model_after(m: PoolModel, runs: Seq<RunRecord>) -> PoolModel
    decreases runs.len(),
{
    if runs.len() == 0 {
        m
    } else {
        pool_model_step(pool_model_after(m, runs.drop_last()), runs.last())
    }
}

/// The abstract counters of a statistics snapshot.
pub open spec fn pool_model_of(s: PoolStats) -> PoolModel {
    PoolModel {
        total: s.total_executions as nat,
        succeeded: s.successful_executions as nat,
        failed: s.failed_executions as nat,
        time_ms: s.total_execution_time_ms as nat,
        memory_bytes: s.total_memory_used_bytes as nat,
    }
}

/// After M completed executions, success or failure, the pool has
/// counted exactly M executions, and they split into successes and
/// failures without loss.
pub proof fn lemma_completions_are_counted(runs: Seq<RunRecord>)
    ensures
        pool_model_after(pool_model_zero(), runs).total == runs.len(),
        pool_model_after(pool_model_zero(), runs).succeeded + pool_model_after(
            pool_model_zero(),
            runs,
        ).failed == runs.len(),
    decreases runs.len(),
{
    if runs.len() > 0 {
        lemma_completions_are_counted(runs.drop_last());
    }
}

/// How many of `runs` belong to function `f`.
pub open spec fn runs_of(runs: Seq<RunRecord>, f: Seq<char>) -> nat
    decreases runs.len(),
{
    if runs.len() == 0 {
        0nat
    } else {
        runs_of(runs.drop_last(), f) + if runs.last().function_id == f {
            1nat
        } else {
            0nat
        }
    }
}

/// Abstract per-function invocation counts.
pub struct FnModel {
    pub invocations: nat,
    pub succeeded: nat,
    pub failed: nat,
    pub time_ms: nat,
}

/// The abstract counters of one function's statistics.
pub open spec fn fn_model_of(s: FunctionStats) -> FnModel {
    FnModel {
        invocations: s.invocations as nat,
        succeeded: s.successful as nat,
        failed: s.failed as nat,
        time_ms: s.total_time_ms as nat,
    }
}

/// The abstract per-function table of a statistics table.
pub open spec fn fn_table_of(m: Map<Seq<char>, FunctionStats>) -> Map<Seq<char>, FnModel> {
    m.map_values(|s: FunctionStats| fn_model_of(s))
}

/// The per-function table after booking one completed run: only the
/// run's own function changes.
pub open spec fn fn_table_step(
    m: Map<Seq<char>, FnModel>,
    r: RunRecord,
) -> Map<Seq<char>, FnModel> {
    let prev = if m.contains_key(r.function_id) {
        m[r.function_id]
    } else {
        FnModel { invocations: 0, succeeded: 0, failed: 0, time_ms: 0 }
    };
    m.insert(
        r.function_id,
        FnModel {
            invocations: prev.invocations + 1,
            succeeded: prev.succeeded + if r.success {
                1nat
            } else {
                0nat
            },
            failed: prev.failed + if r.success {
                0nat
            } else {
                1nat
            },
            time_ms: prev.time_ms + r.time_ms,
        },
    )
}

/// The per-function table after a sequence of completed runs.
pub open spec fn fn_table_after(
    m: Map<Seq<char>, FnModel>,
    runs: Seq<RunRecord>,
) -> Map<Seq<char>, FnModel>
    decreases runs.len(),
{
    if runs.len() == 0 {
        m
    } else {
        fn_table_step(fn_table_after(m, runs.drop_last()), runs.last())
    }
}

/// Invoking a function M times books M invocations against it, however
/// many other functions run in between: its count equals the number of
/// its own runs in the sequence, and it has an entry exactly when that
/// number is positive.
pub proof fn lemma_function_invocations_counted(runs: Seq<RunRecord>, f: Seq<char>)
    ensures
        runs_of(runs, f) > 0 ==> fn_table_after(Map::empty(), runs).contains_key(f)
            && fn_table_after(Map::empty(), runs)[f].invocations == runs_of(runs, f),
        runs_of(runs, f) == 0 ==> !fn_table_after(Map::empty(), runs).contains_key(f),
    decreases runs.len(),
{
    if runs.len() > 0 {
        lemma_function_invocations_counted(runs.drop_last(), f);
    }
}

} // verus!
