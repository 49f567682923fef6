use vstd::prelude::*;
use crate::error::ContractError;
use crate::execute_trigger::spec_time_target;
use crate::state::{DcaState, EscrowTask, StateView, spec_find_order_from, spec_find_task_from};
use crate::trigger::TriggerConfiguration;

verus! {

/// Whether vault slot `i` carries a time trigger that is due at `as_of`.
pub open spec fn spec_due_time_trigger(s: StateView, i: int, as_of: u64) -> bool {
    s.triggers[i] matches Some(t) && t.configuration matches TriggerConfiguration::Time {
        target_time,
    } && target_time <= as_of
}

/// The scheduling key of the trigger at slot `i`: its target time, with the
/// vault identifier breaking ties.
pub open spec fn spec_trigger_key(s: StateView, i: int) -> (u64, u64) {
    (spec_time_target(s, i), (i + 1) as u64)
}

/// Strict lexicographic order on scheduling keys.
pub open spec fn spec_key_lt(a: (u64, u64), b: (u64, u64)) -> bool {
    a.0 < b.0 || (a.0 == b.0 && a.1 < b.1)
}

/// Whether the trigger at slot `i` lies strictly past the continuation
/// cursor: the `(target time, vault identifier)` key of the last trigger of
/// the previous page, or nothing for the first page.
pub open spec fn spec_past_cursor(s: StateView, i: int, start_after: Option<(u64, u64)>) -> bool {
    match start_after {
        Some(c) => spec_key_lt(c, spec_trigger_key(s, i)),
        None => true,
    }
}

/// The scheduling key of the escrow task for vault `id`: the task's due
/// time, with the vault identifier breaking ties.
pub open spec fn spec_task_key(s: StateView, id: u64) -> (u64, u64) {
    match spec_find_task_from(s.escrow_tasks, id, 0) {
        Some(m) => (s.escrow_tasks[m].due, id),
        None => (0, 0),
    }
}

/// In a well-formed task list the search for a task's own vault identifier
/// finds exactly that task.
proof fn lemma_task_found_at(tasks: Seq<crate::state::EscrowTask>, m: int, j: int)
    requires
        0 <= j <= m < tasks.len(),
        forall|k1: int, k2: int|
            0 <= k1 < k2 < tasks.len() ==> (#[trigger] tasks[k1]).vault_id != (
            #[trigger] tasks[k2]).vault_id,
    ensures
        spec_find_task_from(tasks, tasks[m].vault_id, j) == Some(m),
    decreases m - j,
{
    if j < m {
        assert(tasks[j].vault_id != tasks[m].vault_id);
        lemma_task_found_at(tasks, m, j + 1);
    }
}

impl DcaState {
    /// Reverse lookup during confirmation callbacks: the vault owning the
    /// venue order with the given index.  Fails with `NotFound` when no
    /// pending order matches — in particular after the order's settlement
    /// has deleted the entry, which is what makes replayed confirmations
    /// harmless.
    pub fn get_trigger_id_by_fin_limit_order_idx(&self, order_idx: u128) -> (r: Result<
        u64,
        ContractError,
    >)
        ensures
            match r {
                Ok(id) => spec_find_order_from(self@.limit_orders, order_idx, 0) matches Some(k)
                    && id == self@.limit_orders[k].vault_id,
                Err(e) => e == ContractError::NotFound && spec_find_order_from(
                    self@.limit_orders,
                    order_idx,
                    0,
                ) is None,
            },
    {
        match self.find_order_index(order_idx) {
            Some(k) => Ok(self.limit_orders[k].vault_id),
            None => Err(ContractError::NotFound),
        }
    }

    /// The vaults whose time triggers are due at `as_of`, oldest target time
    /// first (vault identifier breaking ties), capped at `limit`.  When the
    /// cap cuts the list, everything left out is due strictly later than
    /// everything returned, so a paged walk restarts by passing the key of
    /// the last returned trigger as `start_after`.
    #[verifier::rlimit(60)]
    pub fn get_time_trigger_ids(
        &self,
        as_of: u64,
        start_after: Option<(u64, u64)>,
        limit: Option<u64>,
    ) -> (r: Vec<u64>)
        requires
            self@.wf(),
        ensures
            ({
                let s = self@;
                &&& forall|k: int|
                    0 <= k < r@.len() ==> s.valid_vault_id(#[trigger] r@[k])
                        && spec_due_time_trigger(s, r@[k] - 1, as_of) && spec_past_cursor(
                        s,
                        r@[k] - 1,
                        start_after,
                    )
                &&& forall|a: int, b: int|
                    0 <= a < b < r@.len() ==> spec_key_lt(
                        spec_trigger_key(s, #[trigger] r@[a] - 1),
                        spec_trigger_key(s, #[trigger] r@[b] - 1),
                    )
                &&& (limit matches Some(l) ==> r@.len() <= l)
                &&& forall|i: int|
                    0 <= i < s.vaults.len() && spec_due_time_trigger(s, i, as_of)
                        && spec_past_cursor(s, i, start_after) && !r@.contains(
                        ((i + 1) as u64),
                    ) ==> (limit matches Some(l) && r@.len() == l && (r@.len() == 0 || spec_key_lt(
                        spec_trigger_key(s, r@[r@.len() - 1] - 1),
                        spec_trigger_key(s, i),
                    )))
            }),
    {
        let ghost s = self@;
        let mut result: Vec<u64> = Vec::new();
        let n = self.vaults.len();
        let mut j: usize = 0;
        while j < n
            invariant
                self@ == s,
                self@.wf(),
                n == s.vaults.len(),
                j <= n,
                forall|k: int|
                    0 <= k < result@.len() ==> 1 <= #[trigger] result@[k] <= j
                        && spec_due_time_trigger(s, result@[k] - 1, as_of) && spec_past_cursor(
                        s,
                        result@[k] - 1,
                        start_after,
                    ),
                forall|a: int, b: int|
                    0 <= a < b < result@.len() ==> spec_key_lt(
                        spec_trigger_key(s, #[trigger] result@[a] - 1),
                        spec_trigger_key(s, #[trigger] result@[b] - 1),
                    ),
                forall|i: int|
                    0 <= i < j && spec_due_time_trigger(s, i, as_of) && spec_past_cursor(
                        s,
                        i,
                        start_after,
                    ) ==> result@.contains(((i + 1) as u64)),
            decreases n - j,
        {
            let due_target: Option<u64> = match self.triggers[j] {
                Some(t) => match t.configuration {
                    TriggerConfiguration::Time { target_time } => if target_time <= as_of {
                        Some(target_time)
                    } else {
                        None
                    },
                    _ => None,
                },
                None => None,
            };
            let past_cursor = match (due_target, start_after) {
                (Some(target), Some((cursor_time, cursor_id))) => cursor_time < target || (
                cursor_time == target && cursor_id < j as u64 + 1),
                (Some(_), None) => true,
                (None, _) => false,
            };
            if let (Some(target), true) = (due_target, past_cursor) {
                let id = j as u64 + 1;
                let mut p: usize = 0;
                let mut scanning = true;
                while scanning && p < result.len()
                    invariant
                        self@ == s,
                        self@.wf(),
                        p <= result@.len(),
                        forall|k: int|
                            0 <= k < result@.len() ==> 1 <= #[trigger] result@[k] <= j
                                && spec_due_time_trigger(s, result@[k] - 1, as_of),
                        id == j + 1,
                        j < n == s.vaults.len(),
                        spec_due_time_trigger(s, j as int, as_of),
                        spec_past_cursor(s, j as int, start_after),
                        target == spec_time_target(s, j as int),
                        forall|q: int|
                            0 <= q < p ==> spec_key_lt(
                                spec_trigger_key(s, #[trigger] result@[q] - 1),
                                spec_trigger_key(s, j as int),
                            ),
                        !scanning ==> p < result@.len() && !spec_key_lt(
                            spec_trigger_key(s, result@[p as int] - 1),
                            spec_trigger_key(s, j as int),
                        ),
                    decreases result.len() - p + (if scanning { 1int } else { 0int }),
                {
                    let other_id = result[p];
                    let other_idx = (other_id - 1) as usize;
                    let other_target = match self.triggers[other_idx] {
                        Some(t) => match t.configuration {
                            TriggerConfiguration::Time { target_time } => target_time,
                            _ => {
                                proof {
                                    assert(false);
                                }
                                0u64
                            },
                        },
                        None => {
                            proof {
                                assert(false);
                            }
                            0u64
                        },
                    };
                    if other_target < target || (other_target == target && other_id < id) {
                        p = p + 1;
                    } else {
                        scanning = false;
                    }
                }
                let ghost old_result = result@;
                result.insert(p, id);
                proof {
                    old_result.insert_ensures(p as int, id);
                    assert forall|a: int, b: int|
                        0 <= a < b < result@.len() implies spec_key_lt(
                        spec_trigger_key(s, #[trigger] result@[a] - 1),
                        spec_trigger_key(s, #[trigger] result@[b] - 1),
                    ) by {
                        if b < p {
                            assert(result@[a] == old_result[a] && result@[b] == old_result[b]);
                        } else if a > p {
                            assert(result@[a] == old_result[a - 1] && result@[b] == old_result[b
                                - 1]);
                        } else if a < p && b == p {
                            assert(result@[a] == old_result[a]);
                        } else if b > p {
                            assert(result@[b] == old_result[b - 1]);
                            assert(b - 1 >= p);
                            assert(p < old_result.len());
                            let ok = spec_trigger_key(s, old_result[b - 1] - 1);
                            let jk = spec_trigger_key(s, j as int);
                            let pk = spec_trigger_key(s, old_result[p as int] - 1);
                            assert(!spec_key_lt(pk, jk));
                            if b - 1 > p {
                                assert(spec_key_lt(pk, ok));
                            }
                            assert(old_result[b - 1] <= j && jk.1 == j + 1);
                            assert(ok.1 != jk.1);
                            assert(spec_key_lt(jk, ok));
                            if a == p {
                            } else {
                                assert(result@[a] == old_result[a]);
                                assert(spec_key_lt(spec_trigger_key(s, result@[a] - 1), jk));
                            }
                        }
                    }
                    assert forall|i: int|
                        0 <= i < j + 1 && spec_due_time_trigger(s, i, as_of) && spec_past_cursor(
                        s,
                        i,
                        start_after,
                    ) implies result@.contains(((i + 1) as u64)) by {
                        if i == j {
                            assert(result@[p as int] == id);
                        } else {
                            let w = choose|w: int|
                                0 <= w < old_result.len() && old_result[w] == ((i + 1) as u64);
                            if w < p {
                                assert(result@[w] == ((i + 1) as u64));
                            } else {
                                assert(result@[w + 1] == ((i + 1) as u64));
                            }
                        }
                    }
                }
            }
            j = j + 1;
        }
        let mut result = result;
        let ghost full = result@;
        if let Some(l) = limit {
            if result.len() as u64 > l {
                result.truncate(l as usize);
            }
        }
        proof {
            assert(result@ =~= full.take(result@.len() as int));
            assert forall|i: int|
                0 <= i < s.vaults.len() && spec_due_time_trigger(s, i, as_of) && spec_past_cursor(
                s,
                i,
                start_after,
            ) && !result@.contains(
                ((i + 1) as u64),
            ) implies (limit matches Some(l) && result@.len() == l && (result@.len() == 0
                || spec_key_lt(
                spec_trigger_key(s, result@[result@.len() - 1] - 1),
                spec_trigger_key(s, i),
            ))) by {
                assert(full.contains(((i + 1) as u64)));
                let w = choose|w: int| 0 <= w < full.len() && full[w] == ((i + 1) as u64);
                let rl = result@.len() as int;
                if w < rl {
                    assert(result@[w] == ((i + 1) as u64));
                    assert(false);
                }
                assert(rl < full.len());
                if rl > 0 {
                    assert(spec_key_lt(
                        spec_trigger_key(s, full[rl - 1] - 1),
                        spec_trigger_key(s, full[w] - 1),
                    ));
                    assert(result@[rl - 1] == full[rl - 1]);
                }
            }
        }
        result
    }

    /// The vaults whose escrow-disbursement tasks are due at `due_before`,
    /// earliest due time first (vault identifier breaking ties), capped at
    /// `limit`.  When the cap cuts the list, everything left out is due
    /// strictly later than everything returned.
    #[verifier::rlimit(60)]
    pub fn get_disburse_escrow_tasks(&self, due_before: u64, limit: Option<u64>) -> (r: Vec<u64>)
        requires
            self@.wf(),
        ensures
            ({
                let s = self@;
                &&& forall|k: int|
                    0 <= k < r@.len() ==> (spec_find_task_from(
                        s.escrow_tasks,
                        #[trigger] r@[k],
                        0,
                    ) matches Some(m) && s.escrow_tasks[m].due <= due_before)
                &&& forall|a: int, b: int|
                    0 <= a < b < r@.len() ==> spec_key_lt(
                        spec_task_key(s, #[trigger] r@[a]),
                        spec_task_key(s, #[trigger] r@[b]),
                    )
                &&& (limit matches Some(l) ==> r@.len() <= l)
                &&& forall|m: int|
                    0 <= m < s.escrow_tasks.len() && (#[trigger] s.escrow_tasks[m]).due
                        <= due_before && !r@.contains(s.escrow_tasks[m].vault_id) ==> (
                    limit matches Some(l) && r@.len() == l && (r@.len() == 0 || spec_key_lt(
                        spec_task_key(s, r@[r@.len() - 1]),
                        (s.escrow_tasks[m].due, s.escrow_tasks[m].vault_id),
                    )))
            }),
    {
        let ghost s = self@;
        let mut sorted: Vec<EscrowTask> = Vec::new();
        let n = self.escrow_tasks.len();
        let mut j: usize = 0;
        while j < n
            invariant
                self@ == s,
                self@.wf(),
                n == s.escrow_tasks.len(),
                j <= n,
                forall|k: int|
                    0 <= k < sorted@.len() ==> exists|m: int|
                        0 <= m < j && s.escrow_tasks[m] == #[trigger] sorted@[k],
                forall|k: int| 0 <= k < sorted@.len() ==> (#[trigger] sorted@[k]).due <= due_before,
                forall|a: int, b: int|
                    0 <= a < b < sorted@.len() ==> spec_key_lt(
                        ((#[trigger] sorted@[a]).due, sorted@[a].vault_id),
                        ((#[trigger] sorted@[b]).due, sorted@[b].vault_id),
                    ),
                forall|m: int|
                    0 <= m < j && (#[trigger] s.escrow_tasks[m]).due <= due_before
                        ==> sorted@.contains(s.escrow_tasks[m]),
            decreases n - j,
        {
            let task = self.escrow_tasks[j];
            if task.due <= due_before {
                let mut p: usize = 0;
                let mut scanning = true;
                while scanning && p < sorted.len()
                    invariant
                        self@ == s,
                        self@.wf(),
                        p <= sorted@.len(),
                        j < n == s.escrow_tasks.len(),
                        task == s.escrow_tasks[j as int],
                        forall|q: int|
                            0 <= q < p ==> spec_key_lt(
                                ((#[trigger] sorted@[q]).due, sorted@[q].vault_id),
                                (task.due, task.vault_id),
                            ),
                        !scanning ==> p < sorted@.len() && !spec_key_lt(
                            (sorted@[p as int].due, sorted@[p as int].vault_id),
                            (task.due, task.vault_id),
                        ),
                    decreases sorted.len() - p + (if scanning { 1int } else { 0int }),
                {
                    let other = sorted[p];
                    if other.due < task.due || (other.due == task.due && other.vault_id
                        < task.vault_id) {
                        p = p + 1;
                    } else {
                        scanning = false;
                    }
                }
                let ghost old_sorted = sorted@;
                sorted.insert(p, task);
                proof {
                    old_sorted.insert_ensures(p as int, task);
                    assert forall|k: int|
                        0 <= k < sorted@.len() implies exists|m: int|
                        0 <= m < j + 1 && s.escrow_tasks[m] == #[trigger] sorted@[k] by {
                        if k < p {
                            assert(sorted@[k] == old_sorted[k]);
                        } else if k == p {
                            assert(s.escrow_tasks[j as int] == sorted@[k]);
                        } else {
                            assert(sorted@[k] == old_sorted[k - 1]);
                        }
                    }
                    assert forall|a: int, b: int|
                        0 <= a < b < sorted@.len() implies spec_key_lt(
                        ((#[trigger] sorted@[a]).due, sorted@[a].vault_id),
                        ((#[trigger] sorted@[b]).due, sorted@[b].vault_id),
                    ) by {
                        if b < p {
                            assert(sorted@[a] == old_sorted[a] && sorted@[b] == old_sorted[b]);
                        } else if a > p {
                            assert(sorted@[a] == old_sorted[a - 1] && sorted@[b] == old_sorted[b
                                - 1]);
                        } else if a < p && b == p {
                            assert(sorted@[a] == old_sorted[a]);
                        } else if b > p {
                            assert(sorted@[b] == old_sorted[b - 1]);
                            assert(b - 1 >= p);
                            assert(p < old_sorted.len());
                            let other = old_sorted[b - 1];
                            let pe = old_sorted[p as int];
                            assert(!spec_key_lt((pe.due, pe.vault_id), (task.due, task.vault_id)));
                            if b - 1 > p {
                                assert(spec_key_lt(
                                    (pe.due, pe.vault_id),
                                    (other.due, other.vault_id),
                                ));
                            }
                            let mo = choose|m: int|
                                0 <= m < j && s.escrow_tasks[m] == old_sorted[b - 1];
                            assert(s.escrow_tasks[mo].vault_id != s.escrow_tasks[j as int].vault_id);
                            assert(other.vault_id != task.vault_id);
                            assert(spec_key_lt(
                                (task.due, task.vault_id),
                                (other.due, other.vault_id),
                            ));
                            if a < p {
                                assert(sorted@[a] == old_sorted[a]);
                            }
                        }
                    }
                    assert forall|m: int|
                        0 <= m < j + 1 && (#[trigger] s.escrow_tasks[m]).due <= due_before
                        implies sorted@.contains(s.escrow_tasks[m]) by {
                        if m == j {
                            assert(sorted@[p as int] == task);
                        } else {
                            let w = choose|w: int|
                                0 <= w < old_sorted.len() && old_sorted[w] == s.escrow_tasks[m];
                            if w < p {
                                assert(sorted@[w] == s.escrow_tasks[m]);
                            } else {
                                assert(sorted@[w + 1] == s.escrow_tasks[m]);
                            }
                        }
                    }
                }
            }
            j = j + 1;
        }
        let ghost full = sorted@;
        if let Some(l) = limit {
            if sorted.len() as u64 > l {
                sorted.truncate(l as usize);
            }
        }
        proof {
            assert(sorted@ =~= full.take(sorted@.len() as int));
        }
        let mut ids: Vec<u64> = Vec::new();
        let mut k: usize = 0;
        while k < sorted.len()
            invariant
                self@ == s,
                self@.wf(),
                k <= sorted@.len(),
                ids@.len() == k,
                forall|q: int| 0 <= q < k ==> #[trigger] ids@[q] == sorted@[q].vault_id,
            decreases sorted.len() - k,
        {
            ids.push(sorted[k].vault_id);
            k = k + 1;
        }
        proof {
            let rl = sorted@.len() as int;
            assert forall|kk: int|
                0 <= kk < ids@.len() implies spec_find_task_from(
                s.escrow_tasks,
                #[trigger] ids@[kk],
                0,
            ) matches Some(m) && s.escrow_tasks[m].due <= due_before by {
                let mo = choose|m: int| 0 <= m < n && s.escrow_tasks[m] == full[kk];
                lemma_task_found_at(s.escrow_tasks, mo, 0);
            }
            assert forall|a: int, b: int|
                0 <= a < b < ids@.len() implies spec_key_lt(
                spec_task_key(s, #[trigger] ids@[a]),
                spec_task_key(s, #[trigger] ids@[b]),
            ) by {
                let ma = choose|m: int| 0 <= m < n && s.escrow_tasks[m] == full[a];
                let mb = choose|m: int| 0 <= m < n && s.escrow_tasks[m] == full[b];
                lemma_task_found_at(s.escrow_tasks, ma, 0);
                lemma_task_found_at(s.escrow_tasks, mb, 0);
            }
            assert forall|m: int|
                0 <= m < s.escrow_tasks.len() && (#[trigger] s.escrow_tasks[m]).due <= due_before
                    && !ids@.contains(s.escrow_tasks[m].vault_id) implies (limit matches Some(l)
                && ids@.len() == l && (ids@.len() == 0 || spec_key_lt(
                spec_task_key(s, ids@[ids@.len() - 1]),
                (s.escrow_tasks[m].due, s.escrow_tasks[m].vault_id),
            ))) by {
                assert(full.contains(s.escrow_tasks[m]));
                let w = choose|w: int| 0 <= w < full.len() && full[w] == s.escrow_tasks[m];
                let rl = ids@.len() as int;
                if w < rl {
                    assert(ids@[w] == s.escrow_tasks[m].vault_id);
                    assert(false);
                }
                assert(rl < full.len());
                if rl > 0 {
                    assert(spec_key_lt(
                        (full[rl - 1].due, full[rl - 1].vault_id),
                        (full[w].due, full[w].vault_id),
                    ));
                    let ml = choose|mm: int| 0 <= mm < n && s.escrow_tasks[mm] == full[rl - 1];
                    lemma_task_found_at(s.escrow_tasks, ml, 0);
                    assert(ids@[rl - 1] == full[rl - 1].vault_id);
                }
            }
        }
        ids
    }
}

} // verus!
