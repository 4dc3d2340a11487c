//! The binding reconciliation engine.
//!
//! A binding is, from a caller's point of view, in one of three states:
//! absent, active (`is_deleted == false`) or inactive (`is_deleted ==
//! true`). `bind` turns any of them into active — as a no-op, a
//! reactivation or an insert — and `unbind` soft-disables an active
//! binding. The algorithm is implemented once, over a table of generic
//! [`BindingRow`]s; the four binding kinds instantiate it.

use vstd::prelude::*;
use crate::entities::BindingRow;
use crate::errors::AccessModelError;

verus! {

/// Does row `r` carry the composite natural key `(g, p)`?
pub open spec fn row_key_is(r: BindingRow, g: i32, p: i32) -> bool {
    r.grantee_id == g && r.principal_id == p
}

/// Does some row of `rows` carry the key `(g, p)`?
pub open spec fn has_key(rows: Seq<BindingRow>, g: i32, p: i32) -> bool {
    exists|i: int| 0 <= i < rows.len() && row_key_is(rows[i], g, p)
}

/// The index of the row carrying `(g, p)`; meaningful only when
/// `has_key(rows, g, p)` holds and keys are unique.
pub open spec fn idx_of(rows: Seq<BindingRow>, g: i32, p: i32) -> int {
    choose|i: int| 0 <= i < rows.len() && row_key_is(rows[i], g, p)
}

/// At most one row per composite key: the well-formedness of a binding
/// table.
pub open spec fn unique_keys(rows: Seq<BindingRow>) -> bool {
    forall|i: int, j: int|
        0 <= i < j < rows.len() ==> !(#[trigger] row_key_is(
            rows[i],
            rows[j].grantee_id,
            rows[j].principal_id,
        ))
}

/// Is the binding `(g, p)` present and active?
pub open spec fn active_at(rows: Seq<BindingRow>, g: i32, p: i32) -> bool {
    has_key(rows, g, p) && !rows[idx_of(rows, g, p)].is_deleted
}

/// A fresh active row inserted at `now`.
pub open spec fn new_active_row(g: i32, p: i32, now: i64) -> BindingRow {
    BindingRow { grantee_id: g, principal_id: p, created_at: now, updated_at: now, is_deleted: false }
}

/// Row `r` flipped to active with its `updated_at` refreshed; `created_at`
/// is immutable.
pub open spec fn reactivated(r: BindingRow, now: i64) -> BindingRow {
    BindingRow { is_deleted: false, updated_at: now, ..r }
}

/// Row `r` soft-disabled with its `updated_at` refreshed.
pub open spec fn deactivated(r: BindingRow, now: i64) -> BindingRow {
    BindingRow { is_deleted: true, updated_at: now, ..r }
}

/// The table after `bind(g, p)` at `now`: unchanged when the binding is
/// already active, reactivated in place when it is inactive, extended by a
/// fresh row when it is absent.
pub open spec fn bind_rows(rows: Seq<BindingRow>, g: i32, p: i32, now: i64) -> Seq<BindingRow> {
    if !has_key(rows, g, p) {
        rows.push(new_active_row(g, p, now))
    } else if rows[idx_of(rows, g, p)].is_deleted {
        rows.update(idx_of(rows, g, p), reactivated(rows[idx_of(rows, g, p)], now))
    } else {
        rows
    }
}

/// The active binding that `bind(g, p)` at `now` returns.
pub open spec fn bind_result_row(rows: Seq<BindingRow>, g: i32, p: i32, now: i64) -> BindingRow {
    if !has_key(rows, g, p) {
        new_active_row(g, p, now)
    } else if rows[idx_of(rows, g, p)].is_deleted {
        reactivated(rows[idx_of(rows, g, p)], now)
    } else {
        rows[idx_of(rows, g, p)]
    }
}

/// The table after `unbind(g, p)` at `now`: the active row soft-disabled,
/// or unchanged when no active row carries the key.
pub open spec fn unbind_rows(rows: Seq<BindingRow>, g: i32, p: i32, now: i64) -> Seq<BindingRow> {
    if active_at(rows, g, p) {
        rows.update(idx_of(rows, g, p), deactivated(rows[idx_of(rows, g, p)], now))
    } else {
        rows
    }
}

/// What `unbind(g, p)` at `now` returns: the now-inactive row, or `None`
/// when the pair was never bound or already inactive — the two causes are
/// intentionally indistinguishable.
pub open spec fn unbind_result(rows: Seq<BindingRow>, g: i32, p: i32, now: i64) -> Option<
    BindingRow,
> {
    if active_at(rows, g, p) {
        Some(deactivated(rows[idx_of(rows, g, p)], now))
    } else {
        None
    }
}

/// With unique keys, a row carrying `(g, p)` at index `i` is the row
/// `idx_of` names.
pub proof fn lemma_idx_is(rows: Seq<BindingRow>, g: i32, p: i32, i: int)
    requires
        unique_keys(rows),
        0 <= i < rows.len(),
        row_key_is(rows[i], g, p),
    ensures
        has_key(rows, g, p),
        idx_of(rows, g, p) == i,
{
    assert(has_key(rows, g, p));
    let j = idx_of(rows, g, p);
    if i < j {
        assert(row_key_is(rows[i], rows[j].grantee_id, rows[j].principal_id));
    } else if j < i {
        assert(row_key_is(rows[j], rows[i].grantee_id, rows[i].principal_id));
    }
}

/// What the reconciler decides to do after looking a binding up.
#[derive(Clone, Copy, Debug, PartialEq, Eq, Structural)]
pub enum BindStep {
    /// The binding is already active: return it unchanged.
    KeepExisting(BindingRow),
    /// The binding exists but is inactive: flip it back to active.
    Reactivate(BindingRow),
    /// No binding exists: insert a fresh active row.
    InsertNew,
    /// The lookup itself failed; propagate its classification.
    Fail(AccessModelError),
}

/// The decision `bind` takes for each lookup outcome.
pub open spec fn spec_plan_bind(lookup: Result<BindingRow, AccessModelError>) -> BindStep {
    match lookup {
        Ok(b) => if !b.is_deleted {
            BindStep::KeepExisting(b)
        } else {
            BindStep::Reactivate(b)
        },
        Err(AccessModelError::NotFoundError) => BindStep::InsertNew,
        Err(e) => BindStep::Fail(e),
    }
}

/// The read-then-write decision of `bind`: a no-op for an active binding,
/// a reactivation for an inactive one, an insert for an absent one;
/// lookup faults propagate with their classification.
pub fn plan_bind(lookup: &Result<BindingRow, AccessModelError>) -> (s: BindStep)
    ensures
        s == spec_plan_bind(*lookup),
{
    match lookup {
        Ok(b) => if !b.is_deleted {
            BindStep::KeepExisting(*b)
        } else {
            BindStep::Reactivate(*b)
        },
        Err(AccessModelError::NotFoundError) => BindStep::InsertNew,
        Err(e) => BindStep::Fail(*e),
    }
}

/// What `bind` does with the outcome of its insert step.
#[derive(Clone, Copy, Debug, PartialEq, Eq, Structural)]
pub enum InsertOutcome {
    /// The insert went through: the fresh active binding.
    Done(BindingRow),
    /// A concurrent `bind` inserted the row first: look it up again and
    /// treat it as the idempotent "already active" case, not as a
    /// user-visible conflict.
    RetryLookup,
    /// The insert failed; propagate its classification.
    Fail(AccessModelError),
}

/// The decision `bind` takes for each insert outcome. A uniqueness
/// violation means a concurrent `bind` on the same absent pair won the
/// race; the loser must converge on the same active result.
pub open spec fn spec_plan_bind_after_insert(inserted: Result<BindingRow, AccessModelError>) -> InsertOutcome {
    match inserted {
        Ok(b) => InsertOutcome::Done(b),
        Err(AccessModelError::AlreadyExists) => InsertOutcome::RetryLookup,
        Err(e) => InsertOutcome::Fail(e),
    }
}

/// The follow-up decision after `bind`'s insert step.
pub fn plan_bind_after_insert(inserted: &Result<BindingRow, AccessModelError>) -> (s: InsertOutcome)
    ensures
        s == spec_plan_bind_after_insert(*inserted),
{
    match inserted {
        Ok(b) => InsertOutcome::Done(*b),
        Err(AccessModelError::AlreadyExists) => InsertOutcome::RetryLookup,
        Err(e) => InsertOutcome::Fail(*e),
    }
}

/// A table of bindings of one kind, keyed by `(grantee_id, principal_id)`.
/// Rows are never removed; disabling flips `is_deleted`.
pub struct BindingTable {
    pub rows: Vec<BindingRow>,
}

impl BindingTable {
    /// Every composite key names at most one row.
    pub open spec fn wf(&self) -> bool {
        unique_keys(self.rows@)
    }

    pub fn new() -> (t: BindingTable)
        ensures
            t.wf(),
            t.rows@ == Seq::<BindingRow>::empty(),
    {
        BindingTable { rows: Vec::new() }
    }

    /// The index of the row keyed `(g, p)`, if any.
    fn position_of(&self, g: i32, p: i32) -> (r: Option<usize>)
        requires
            self.wf(),
        ensures
            match r {
                Some(i) => {
                    &&& i < self.rows.len()
                    &&& row_key_is(self.rows@[i as int], g, p)
                    &&& has_key(self.rows@, g, p)
                    &&& idx_of(self.rows@, g, p) == i as int
                },
                None => !has_key(self.rows@, g, p),
            },
    {
        let n = self.rows.len();
        let mut i: usize = 0;
        while i < n
            invariant
                n == self.rows.len(),
                i <= n,
                self.wf(),
                forall|j: int| 0 <= j < i ==> !row_key_is(self.rows@[j], g, p),
            decreases n - i,
        {
            let row = &self.rows[i];
            if row.grantee_id == g && row.principal_id == p {
                proof {
                    lemma_idx_is(self.rows@, g, p, i as int);
                }
                return Some(i);
            }
            i += 1;
        }
        None
    }

    /// Find the binding by its composite key; absence is `NotFoundError`.
    pub fn lookup(&self, g: i32, p: i32) -> (r: Result<BindingRow, AccessModelError>)
        requires
            self.wf(),
        ensures
            r == if has_key(self.rows@, g, p) {
                Result::<BindingRow, AccessModelError>::Ok(self.rows@[idx_of(self.rows@, g, p)])
            } else {
                Result::<BindingRow, AccessModelError>::Err(AccessModelError::NotFoundError)
            },
    {
        match self.position_of(g, p) {
            Some(i) => Ok(self.rows[i]),
            None => Err(AccessModelError::NotFoundError),
        }
    }

    /// Flip the row keyed `(g, p)` to active and refresh its `updated_at`;
    /// absence is `NotFoundError`.
    pub fn enable(&mut self, g: i32, p: i32, now: i64) -> (r: Result<BindingRow, AccessModelError>)
        requires
            old(self).wf(),
        ensures
            final(self).wf(),
            has_key(old(self).rows@, g, p) ==> {
                &&& final(self).rows@ == old(self).rows@.update(
                    idx_of(old(self).rows@, g, p),
                    reactivated(old(self).rows@[idx_of(old(self).rows@, g, p)], now),
                )
                &&& r == Result::<BindingRow, AccessModelError>::Ok(
                    reactivated(old(self).rows@[idx_of(old(self).rows@, g, p)], now),
                )
            },
            !has_key(old(self).rows@, g, p) ==> {
                &&& *final(self) == *old(self)
                &&& r == Result::<BindingRow, AccessModelError>::Err(AccessModelError::NotFoundError)
            },
    {
        match self.position_of(g, p) {
            Some(i) => {
                let row = self.rows[i];
                let nb = BindingRow {
                    grantee_id: row.grantee_id,
                    principal_id: row.principal_id,
                    created_at: row.created_at,
                    updated_at: now,
                    is_deleted: false,
                };
                self.rows[i] = nb;
                proof {
                    assert forall|a: int, b: int|
                        0 <= a < b < self.rows@.len() implies !(#[trigger] row_key_is(
                        self.rows@[a],
                        self.rows@[b].grantee_id,
                        self.rows@[b].principal_id,
                    )) by {
                        assert(!row_key_is(
                            old(self).rows@[a],
                            old(self).rows@[b].grantee_id,
                            old(self).rows@[b].principal_id,
                        ));
                    }
                }
                Ok(nb)
            },
            None => Err(AccessModelError::NotFoundError),
        }
    }

    /// Insert a fresh active row keyed `(g, p)`; a row already carrying the
    /// key is `AlreadyExists`.
    pub fn insert_new(&mut self, g: i32, p: i32, now: i64) -> (r: Result<
        BindingRow,
        AccessModelError,
    >)
        requires
            old(self).wf(),
        ensures
            final(self).wf(),
            !has_key(old(self).rows@, g, p) ==> {
                &&& final(self).rows@ == old(self).rows@.push(new_active_row(g, p, now))
                &&& r == Result::<BindingRow, AccessModelError>::Ok(new_active_row(g, p, now))
            },
            has_key(old(self).rows@, g, p) ==> {
                &&& *final(self) == *old(self)
                &&& r == Result::<BindingRow, AccessModelError>::Err(AccessModelError::AlreadyExists)
            },
    {
        match self.position_of(g, p) {
            Some(_) => Err(AccessModelError::AlreadyExists),
            None => {
                let nb = BindingRow {
                    grantee_id: g,
                    principal_id: p,
                    created_at: now,
                    updated_at: now,
                    is_deleted: false,
                };
                self.rows.push(nb);
                proof {
                    assert forall|a: int, b: int|
                        0 <= a < b < self.rows@.len() implies !(#[trigger] row_key_is(
                        self.rows@[a],
                        self.rows@[b].grantee_id,
                        self.rows@[b].principal_id,
                    )) by {
                        if b < old(self).rows@.len() {
                            assert(!row_key_is(
                                old(self).rows@[a],
                                old(self).rows@[b].grantee_id,
                                old(self).rows@[b].principal_id,
                            ));
                        } else {
                            assert(self.rows@[b] == new_active_row(g, p, now));
                            assert(!has_key(old(self).rows@, g, p));
                        }
                    }
                }
                Ok(nb)
            },
        }
    }

    /// Soft-disable the row keyed `(g, p)` if it is currently active; an
    /// absent or already-inactive row is `NotFoundError`.
    pub fn disable(&mut self, g: i32, p: i32, now: i64) -> (r: Result<BindingRow, AccessModelError>)
        requires
            old(self).wf(),
        ensures
            final(self).wf(),
            final(self).rows@ == unbind_rows(old(self).rows@, g, p, now),
            r == match unbind_result(old(self).rows@, g, p, now) {
                Some(b) => Result::<BindingRow, AccessModelError>::Ok(b),
                None => Result::<BindingRow, AccessModelError>::Err(AccessModelError::NotFoundError),
            },
    {
        match self.position_of(g, p) {
            Some(i) => {
                let row = self.rows[i];
                if row.is_deleted {
                    assert(self.rows@ == unbind_rows(self.rows@, g, p, now));
                    Err(AccessModelError::NotFoundError)
                } else {
                    let nb = BindingRow {
                        grantee_id: row.grantee_id,
                        principal_id: row.principal_id,
                        created_at: row.created_at,
                        updated_at: now,
                        is_deleted: true,
                    };
                    self.rows[i] = nb;
                    proof {
                        assert(nb == deactivated(old(self).rows@[idx_of(old(self).rows@, g, p)], now));
                        assert forall|a: int, b: int|
                            0 <= a < b < self.rows@.len() implies !(#[trigger] row_key_is(
                            self.rows@[a],
                            self.rows@[b].grantee_id,
                            self.rows@[b].principal_id,
                        )) by {
                            assert(!row_key_is(
                                old(self).rows@[a],
                                old(self).rows@[b].grantee_id,
                                old(self).rows@[b].principal_id,
                            ));
                        }
                    }
                    Ok(nb)
                }
            },
            None => {
                assert(self.rows@ == unbind_rows(self.rows@, g, p, now));
                Err(AccessModelError::NotFoundError)
            },
        }
    }

    /// Does any row carry the key `(g, p)`?
    pub fn has_pair(&self, g: i32, p: i32) -> (r: bool)
        requires
            self.wf(),
        ensures
            r == has_key(self.rows@, g, p),
    {
        match self.lookup(g, p) {
            Ok(_) => true,
            Err(_) => false,
        }
    }

    /// Is the binding `(g, p)` present and active?
    pub fn is_active(&self, g: i32, p: i32) -> (r: bool)
        requires
            self.wf(),
        ensures
            r == active_at(self.rows@, g, p),
    {
        match self.lookup(g, p) {
            Ok(b) => !b.is_deleted,
            Err(_) => false,
        }
    }

    /// The reconciling bind: look the pair up, then no-op, reactivate or
    /// insert so that the binding ends active. Against this in-memory table
    /// the lookup can only succeed or report absence, so `bind` always
    /// returns the active binding.
    pub fn bind(&mut self, g: i32, p: i32, now: i64) -> (r: Result<BindingRow, AccessModelError>)
        requires
            old(self).wf(),
        ensures
            final(self).wf(),
            final(self).rows@ == bind_rows(old(self).rows@, g, p, now),
            r == Result::<BindingRow, AccessModelError>::Ok(
                bind_result_row(old(self).rows@, g, p, now),
            ),
    {
        let looked = self.lookup(g, p);
        match plan_bind(&looked) {
            BindStep::KeepExisting(b) => Ok(b),
            BindStep::Reactivate(b) => self.enable(b.grantee_id, b.principal_id, now),
            BindStep::InsertNew => self.insert_new(g, p, now),
            BindStep::Fail(e) => Err(e),
        }
    }

    /// The reconciling unbind: one conditional soft-disable.
    pub fn unbind(&mut self, g: i32, p: i32, now: i64) -> (r: Result<BindingRow, AccessModelError>)
        requires
            old(self).wf(),
        ensures
            final(self).wf(),
            final(self).rows@ == unbind_rows(old(self).rows@, g, p, now),
            r == match unbind_result(old(self).rows@, g, p, now) {
                Some(b) => Result::<BindingRow, AccessModelError>::Ok(b),
                None => Result::<BindingRow, AccessModelError>::Err(AccessModelError::NotFoundError),
            },
    {
        self.disable(g, p, now)
    }
}

/// Binding `(g, p)` twice in sequence is idempotent: the second call
/// returns exactly the binding the first call returned — in particular
/// with its `updated_at` unchanged — and leaves the table exactly as the
/// first call left it, whatever state the pair started in.
pub proof fn lemma_bind_idempotent(rows: Seq<BindingRow>, g: i32, p: i32, n1: i64, n2: i64)
    requires
        unique_keys(rows),
    ensures
        bind_result_row(bind_rows(rows, g, p, n1), g, p, n2) == bind_result_row(rows, g, p, n1),
        bind_rows(bind_rows(rows, g, p, n1), g, p, n2) == bind_rows(rows, g, p, n1),
{
    let t1 = bind_rows(rows, g, p, n1);
    let b1 = bind_result_row(rows, g, p, n1);
    if !has_key(rows, g, p) {
        assert(t1 == rows.push(new_active_row(g, p, n1)));
        lemma_unique_after_bind(rows, g, p, n1);
        lemma_idx_is(t1, g, p, rows.len() as int);
        assert(!t1[idx_of(t1, g, p)].is_deleted);
        assert(bind_rows(t1, g, p, n2) == t1);
    } else {
        let i = idx_of(rows, g, p);
        lemma_unique_after_bind(rows, g, p, n1);
        if rows[i].is_deleted {
            assert(t1 == rows.update(i, reactivated(rows[i], n1)));
            lemma_idx_is(t1, g, p, i);
            assert(!t1[idx_of(t1, g, p)].is_deleted);
        } else {
            assert(t1 == rows);
            lemma_idx_is(t1, g, p, i);
        }
    }
}

/// `bind` preserves key uniqueness.
pub proof fn lemma_unique_after_bind(rows: Seq<BindingRow>, g: i32, p: i32, now: i64)
    requires
        unique_keys(rows),
    ensures
        unique_keys(bind_rows(rows, g, p, now)),
{
    let t1 = bind_rows(rows, g, p, now);
    if !has_key(rows, g, p) {
        assert forall|a: int, b: int|
            0 <= a < b < t1.len() implies !(#[trigger] row_key_is(
            t1[a],
            t1[b].grantee_id,
            t1[b].principal_id,
        )) by {
            if b < rows.len() {
                assert(!row_key_is(rows[a], rows[b].grantee_id, rows[b].principal_id));
            } else {
                assert(t1[b] == new_active_row(g, p, now));
            }
        }
    } else if rows[idx_of(rows, g, p)].is_deleted {
        let i = idx_of(rows, g, p);
        assert forall|a: int, b: int|
            0 <= a < b < t1.len() implies !(#[trigger] row_key_is(
            t1[a],
            t1[b].grantee_id,
            t1[b].principal_id,
        )) by {
            assert(!row_key_is(rows[a], rows[b].grantee_id, rows[b].principal_id));
        }
    }
}

/// `unbind` preserves key uniqueness.
pub proof fn lemma_unique_after_unbind(rows: Seq<BindingRow>, g: i32, p: i32, now: i64)
    requires
        unique_keys(rows),
    ensures
        unique_keys(unbind_rows(rows, g, p, now)),
{
    let t1 = unbind_rows(rows, g, p, now);
    if active_at(rows, g, p) {
        assert forall|a: int, b: int|
            0 <= a < b < t1.len() implies !(#[trigger] row_key_is(
            t1[a],
            t1[b].grantee_id,
            t1[b].principal_id,
        )) by {
            assert(!row_key_is(rows[a], rows[b].grantee_id, rows[b].principal_id));
        }
    }
}

/// `bind` then `unbind` then `bind` on a pair that starts absent produces
/// exactly one row for the pair — active at the end — with `created_at`
/// pinned to the first call's instant and `updated_at` strictly increasing
/// across the three results.
pub proof fn lemma_bind_unbind_bind(rows: Seq<BindingRow>, g: i32, p: i32, n1: i64, n2: i64, n3: i64)
    requires
        unique_keys(rows),
        !has_key(rows, g, p),
        n1 < n2 < n3,
    ensures
        ({
            let b1 = bind_result_row(rows, g, p, n1);
            let t1 = bind_rows(rows, g, p, n1);
            let b2 = unbind_result(t1, g, p, n2);
            let t2 = unbind_rows(t1, g, p, n2);
            let b3 = bind_result_row(t2, g, p, n3);
            let t3 = bind_rows(t2, g, p, n3);
            &&& t3.len() == rows.len() + 1
            &&& active_at(t3, g, p)
            &&& b1.created_at == n1 && b1.updated_at == n1 && !b1.is_deleted
            &&& b2 == Some(BindingRow {
                grantee_id: g,
                principal_id: p,
                created_at: n1,
                updated_at: n2,
                is_deleted: true,
            })
            &&& b3.created_at == n1 && b3.updated_at == n3 && !b3.is_deleted
            &&& b1.updated_at < b2.unwrap().updated_at < b3.updated_at
        }),
{
    let t1 = bind_rows(rows, g, p, n1);
    let i = rows.len() as int;
    assert(t1 == rows.push(new_active_row(g, p, n1)));
    lemma_unique_after_bind(rows, g, p, n1);
    lemma_idx_is(t1, g, p, i);
    let t2 = unbind_rows(t1, g, p, n2);
    assert(t2 == t1.update(i, deactivated(t1[i], n2)));
    lemma_unique_after_unbind(t1, g, p, n2);
    lemma_idx_is(t2, g, p, i);
    let t3 = bind_rows(t2, g, p, n3);
    assert(t3 == t2.update(i, reactivated(t2[i], n3)));
    lemma_unique_after_bind(t2, g, p, n3);
    lemma_idx_is(t3, g, p, i);
}

/// Unbinding a pair that was never bound, or whose binding is already
/// inactive, reports `NotFoundError` and leaves the table untouched; the
/// two causes are indistinguishable to the caller.
pub proof fn lemma_unbind_missing(rows: Seq<BindingRow>, g: i32, p: i32, now: i64)
    requires
        unique_keys(rows),
        !active_at(rows, g, p),
    ensures
        unbind_result(rows, g, p, now) is None,
        unbind_rows(rows, g, p, now) == rows,
{
}

} // verus!
