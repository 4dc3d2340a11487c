//! Permission aggregation: the set of permission tokens a user currently
//! holds, derived transitively through active, non-disabled role and
//! group memberships and their active, non-disabled permission bindings.
//!
//! A "permission token" is any string usable in an authorization check:
//! a literal permission name, or a role/group name standing as a
//! coarse-grained capability marker — both kinds land in the same set.
//! Disabling an entity does not cascade into the binding tables; it is
//! this read-time derivation that filters disabled rows out.

use vstd::prelude::*;
use crate::errors::AccessModelError;
use crate::reconcile::active_at;
use crate::store::AccessModel;

verus! {

/// The set of views of the strings in `v`.
pub open spec fn string_set(v: Seq<String>) -> Set<Seq<char>> {
    Set::new(|s: Seq<char>| exists|i: int| 0 <= i < v.len() && (#[trigger] v[i])@ == s)
}

/// The set of the sequences in `ps`.
pub open spec fn seqs_set(ps: Seq<Seq<char>>) -> Set<Seq<char>> {
    Set::new(|s: Seq<char>| exists|i: int| 0 <= i < ps.len() && #[trigger] ps[i] == s)
}

/// No two strings of `v` read the same.
pub open spec fn distinct_strings(v: Seq<String>) -> bool {
    forall|i: int, j: int| 0 <= i < j < v.len() ==> (#[trigger] v[i])@ != (#[trigger] v[j])@
}

/// Is `s` the name of a non-deleted role among the first `k` role rows
/// that the user is an active member of?
pub open spec fn role_name_token_upto(m: AccessModel, uid: i32, k: int, s: Seq<char>) -> bool
    decreases k,
{
    0 < k <= m.roles.rows@.len() && {
        ||| ({
            let row = m.roles.rows@[k - 1];
            !row.is_deleted && row.name@ == s && active_at(m.role_members.rows@, uid, row.id)
        })
        ||| role_name_token_upto(m, uid, k - 1, s)
    }
}

/// Is `s` the name of a non-deleted role the user is an active member of?
pub open spec fn role_name_token(m: AccessModel, uid: i32, s: Seq<char>) -> bool {
    role_name_token_upto(m, uid, m.roles.rows@.len() as int, s)
}

/// Is `s` the name of a non-deleted group among the first `k` group rows
/// that the user is an active member of?
pub open spec fn group_name_token_upto(m: AccessModel, uid: i32, k: int, s: Seq<char>) -> bool
    decreases k,
{
    0 < k <= m.groups.rows@.len() && {
        ||| ({
            let row = m.groups.rows@[k - 1];
            !row.is_deleted && row.name@ == s && active_at(m.group_members.rows@, uid, row.id)
        })
        ||| group_name_token_upto(m, uid, k - 1, s)
    }
}

/// Is `s` the name of a non-deleted group the user is an active member
/// of?
pub open spec fn group_name_token(m: AccessModel, uid: i32, s: Seq<char>) -> bool {
    group_name_token_upto(m, uid, m.groups.rows@.len() as int, s)
}

/// Does one of the first `k` role rows grant `perm_id` to the user: a
/// non-deleted role, an active membership, and an active
/// role-to-permission binding?
pub open spec fn granted_via_role_upto(m: AccessModel, uid: i32, perm_id: i32, k: int) -> bool
    decreases k,
{
    0 < k <= m.roles.rows@.len() && {
        ||| ({
            let row = m.roles.rows@[k - 1];
            !row.is_deleted && active_at(m.role_members.rows@, uid, row.id) && active_at(
                m.role_permissions.rows@,
                perm_id,
                row.id,
            )
        })
        ||| granted_via_role_upto(m, uid, perm_id, k - 1)
    }
}

/// Does some role grant `perm_id` to the user?
pub open spec fn granted_via_role(m: AccessModel, uid: i32, perm_id: i32) -> bool {
    granted_via_role_upto(m, uid, perm_id, m.roles.rows@.len() as int)
}

/// Does one of the first `k` group rows grant `perm_id` to the user?
pub open spec fn granted_via_group_upto(m: AccessModel, uid: i32, perm_id: i32, k: int) -> bool
    decreases k,
{
    0 < k <= m.groups.rows@.len() && {
        ||| ({
            let row = m.groups.rows@[k - 1];
            !row.is_deleted && active_at(m.group_members.rows@, uid, row.id) && active_at(
                m.group_permissions.rows@,
                perm_id,
                row.id,
            )
        })
        ||| granted_via_group_upto(m, uid, perm_id, k - 1)
    }
}

/// Does some group grant `perm_id` to the user?
pub open spec fn granted_via_group(m: AccessModel, uid: i32, perm_id: i32) -> bool {
    granted_via_group_upto(m, uid, perm_id, m.groups.rows@.len() as int)
}

/// Is `s` the name of a non-deleted permission among the first `k`
/// permission rows that some role or group grants to the user?
pub open spec fn perm_name_token_upto(m: AccessModel, uid: i32, k: int, s: Seq<char>) -> bool
    decreases k,
{
    0 < k <= m.permissions.rows@.len() && {
        ||| ({
            let row = m.permissions.rows@[k - 1];
            !row.is_deleted && row.name@ == s && (granted_via_role(m, uid, row.id)
                || granted_via_group(m, uid, row.id))
        })
        ||| perm_name_token_upto(m, uid, k - 1, s)
    }
}

/// Is `s` the name of a non-deleted permission granted to the user
/// through some role or group?
pub open spec fn perm_name_token(m: AccessModel, uid: i32, s: Seq<char>) -> bool {
    perm_name_token_upto(m, uid, m.permissions.rows@.len() as int, s)
}

/// The coarse tokens alone: names of roles and groups the user is an
/// active member of.
pub open spec fn user_group_tokens(m: AccessModel, uid: i32) -> Set<Seq<char>> {
    Set::new(|s: Seq<char>| role_name_token(m, uid, s) || group_name_token(m, uid, s))
}

/// Every permission token the user holds: role and group names plus the
/// permission names reachable through them.
pub open spec fn user_perm_tokens(m: AccessModel, uid: i32) -> Set<Seq<char>> {
    Set::new(
        |s: Seq<char>|
            role_name_token(m, uid, s) || group_name_token(m, uid, s) || perm_name_token(m, uid, s),
    )
}

/// Pushing a string extends the set of readings by exactly that reading,
/// and keeps distinctness when the reading was new.
pub proof fn lemma_string_set_push(v: Seq<String>, w: Seq<String>, x: String)
    requires
        w == v.push(x),
    ensures
        forall|s: Seq<char>|
            #[trigger] string_set(w).contains(s) <==> (string_set(v).contains(s) || x@ == s),
        distinct_strings(v) && !string_set(v).contains(x@) ==> distinct_strings(w),
{
    assert forall|s: Seq<char>| #[trigger]
        string_set(w).contains(s) implies (string_set(v).contains(s) || x@ == s) by {
        let k = choose|k: int| 0 <= k < w.len() && (#[trigger] w[k])@ == s;
        if k < v.len() {
            assert(v[k]@ == s);
        }
    }
    assert forall|s: Seq<char>| (string_set(v).contains(s) || x@ == s) implies #[trigger]
        string_set(w).contains(s) by {
        if string_set(v).contains(s) {
            let k = choose|k: int| 0 <= k < v.len() && (#[trigger] v[k])@ == s;
            assert(w[k]@ == s);
        } else {
            assert(w[v.len() as int]@ == s);
        }
    }
    if distinct_strings(v) && !string_set(v).contains(x@) {
        assert forall|i: int, j: int| 0 <= i < j < w.len() implies (#[trigger] w[i])@
            != (#[trigger] w[j])@ by {
            if j < v.len() {
                assert(v[i]@ != v[j]@);
            } else {
                assert(w[j] == x);
                if v[i]@ == x@ {
                    assert(string_set(v).contains(x@));
                }
            }
        }
    }
}

/// A grant witnessed at role index `j` is a grant for every larger
/// prefix.
proof fn lemma_granted_via_role_at(m: AccessModel, uid: i32, perm_id: i32, j: int, n: int)
    requires
        0 <= j < n <= m.roles.rows@.len(),
        !m.roles.rows@[j].is_deleted,
        active_at(m.role_members.rows@, uid, m.roles.rows@[j].id),
        active_at(m.role_permissions.rows@, perm_id, m.roles.rows@[j].id),
    ensures
        granted_via_role_upto(m, uid, perm_id, n),
    decreases n,
{
    if j < n - 1 {
        lemma_granted_via_role_at(m, uid, perm_id, j, n - 1);
    }
}

/// A grant witnessed at group index `j` is a grant for every larger
/// prefix.
proof fn lemma_granted_via_group_at(m: AccessModel, uid: i32, perm_id: i32, j: int, n: int)
    requires
        0 <= j < n <= m.groups.rows@.len(),
        !m.groups.rows@[j].is_deleted,
        active_at(m.group_members.rows@, uid, m.groups.rows@[j].id),
        active_at(m.group_permissions.rows@, perm_id, m.groups.rows@[j].id),
    ensures
        granted_via_group_upto(m, uid, perm_id, n),
    decreases n,
{
    if j < n - 1 {
        lemma_granted_via_group_at(m, uid, perm_id, j, n - 1);
    }
}

/// Does `v` hold a string reading `s`?
fn contains_string(v: &Vec<String>, s: &String) -> (r: bool)
    ensures
        r == string_set(v@).contains(s@),
{
    let n = v.len();
    let mut i: usize = 0;
    while i < n
        invariant
            n == v.len(),
            i <= n,
            forall|j: int| 0 <= j < i ==> (#[trigger] v@[j])@ != s@,
        decreases n - i,
    {
        if v[i] == *s {
            assert(string_set(v@).contains(s@));
            return true;
        }
        i += 1;
    }
    false
}

impl AccessModel {
    /// Append the names of non-deleted roles the user is an active member
    /// of, skipping names already present.
    fn push_role_names(&self, uid: i32, out: &mut Vec<String>)
        requires
            self.wf(),
            distinct_strings(old(out)@),
        ensures
            distinct_strings(final(out)@),
            forall|s: Seq<char>|
                #[trigger] string_set(final(out)@).contains(s) <==> (string_set(old(out)@).contains(s)
                    || role_name_token(*self, uid, s)),
    {
        let n = self.roles.rows.len();
        let mut i: usize = 0;
        while i < n
            invariant
                n == self.roles.rows.len(),
                i <= n,
                self.wf(),
                distinct_strings(out@),
                forall|s: Seq<char>|
                    #[trigger] string_set(out@).contains(s) <==> (string_set(old(out)@).contains(s)
                        || role_name_token_upto(*self, uid, i as int, s)),
            decreases n - i,
        {
            let row = &self.roles.rows[i];
            if !row.is_deleted && self.role_members.is_active(uid, row.id) {
                if !contains_string(out, &row.name) {
                    let ghost before = out@;
                    out.push(row.name.clone());
                    proof {
                        lemma_string_set_push(before, out@, out@.last());
                    }
                }
            }
            i += 1;
        }
    }

    /// Append the names of non-deleted groups the user is an active
    /// member of, skipping names already present.
    fn push_group_names(&self, uid: i32, out: &mut Vec<String>)
        requires
            self.wf(),
            distinct_strings(old(out)@),
        ensures
            distinct_strings(final(out)@),
            forall|s: Seq<char>|
                #[trigger] string_set(final(out)@).contains(s) <==> (string_set(old(out)@).contains(s)
                    || group_name_token(*self, uid, s)),
    {
        let n = self.groups.rows.len();
        let mut i: usize = 0;
        while i < n
            invariant
                n == self.groups.rows.len(),
                i <= n,
                self.wf(),
                distinct_strings(out@),
                forall|s: Seq<char>|
                    #[trigger] string_set(out@).contains(s) <==> (string_set(old(out)@).contains(s)
                        || group_name_token_upto(*self, uid, i as int, s)),
            decreases n - i,
        {
            let row = &self.groups.rows[i];
            if !row.is_deleted && self.group_members.is_active(uid, row.id) {
                if !contains_string(out, &row.name) {
                    let ghost before = out@;
                    out.push(row.name.clone());
                    proof {
                        lemma_string_set_push(before, out@, out@.last());
                    }
                }
            }
            i += 1;
        }
    }

    /// Does some role grant `perm_id` to the user?
    fn role_grants(&self, uid: i32, perm_id: i32) -> (r: bool)
        requires
            self.wf(),
        ensures
            r == granted_via_role(*self, uid, perm_id),
    {
        let n = self.roles.rows.len();
        let mut j: usize = 0;
        while j < n
            invariant
                n == self.roles.rows.len(),
                j <= n,
                self.wf(),
                !granted_via_role_upto(*self, uid, perm_id, j as int),
            decreases n - j,
        {
            let row = &self.roles.rows[j];
            if !row.is_deleted && self.role_members.is_active(uid, row.id)
                && self.role_permissions.is_active(perm_id, row.id) {
                proof {
                    lemma_granted_via_role_at(*self, uid, perm_id, j as int, n as int);
                }
                return true;
            }
            j += 1;
        }
        false
    }

    /// Does some group grant `perm_id` to the user?
    fn group_grants(&self, uid: i32, perm_id: i32) -> (r: bool)
        requires
            self.wf(),
        ensures
            r == granted_via_group(*self, uid, perm_id),
    {
        let n = self.groups.rows.len();
        let mut j: usize = 0;
        while j < n
            invariant
                n == self.groups.rows.len(),
                j <= n,
                self.wf(),
                !granted_via_group_upto(*self, uid, perm_id, j as int),
            decreases n - j,
        {
            let row = &self.groups.rows[j];
            if !row.is_deleted && self.group_members.is_active(uid, row.id)
                && self.group_permissions.is_active(perm_id, row.id) {
                proof {
                    lemma_granted_via_group_at(*self, uid, perm_id, j as int, n as int);
                }
                return true;
            }
            j += 1;
        }
        false
    }

    /// The coarse membership tokens of a user: the names of the
    /// non-deleted roles and groups the user is an active member of,
    /// without duplicates. Against this in-memory model the derivation
    /// cannot fail.
    pub fn get_users_groups(&self, user_id: &i32) -> (r: Result<Vec<String>, AccessModelError>)
        requires
            self.wf(),
        ensures
            r matches Ok(v) && string_set(v@) == user_group_tokens(*self, *user_id)
                && distinct_strings(v@),
    {
        let uid = *user_id;
        let mut out: Vec<String> = Vec::new();
        self.push_role_names(uid, &mut out);
        self.push_group_names(uid, &mut out);
        proof {
            assert(string_set(out@) =~= user_group_tokens(*self, uid));
        }
        Ok(out)
    }

    /// Every permission token the user currently holds: role and group
    /// names plus the names of non-deleted permissions granted through an
    /// active, non-disabled membership and an active, non-disabled
    /// permission binding — the full aggregation of the authorization
    /// model, without duplicates. Against this in-memory model the
    /// derivation cannot fail.
    pub fn get_users_perms(&self, user_id: &i32) -> (r: Result<Vec<String>, AccessModelError>)
        requires
            self.wf(),
        ensures
            r matches Ok(v) && string_set(v@) == user_perm_tokens(*self, *user_id)
                && distinct_strings(v@),
    {
        let uid = *user_id;
        let mut out: Vec<String> = Vec::new();
        self.push_role_names(uid, &mut out);
        self.push_group_names(uid, &mut out);
        let n = self.permissions.rows.len();
        let mut i: usize = 0;
        while i < n
            invariant
                n == self.permissions.rows.len(),
                i <= n,
                self.wf(),
                distinct_strings(out@),
                forall|s: Seq<char>|
                    #[trigger] string_set(out@).contains(s) <==> (role_name_token(*self, uid, s)
                        || group_name_token(*self, uid, s) || perm_name_token_upto(
                        *self,
                        uid,
                        i as int,
                        s,
                    )),
            decreases n - i,
        {
            let row = &self.permissions.rows[i];
            if !row.is_deleted && (self.role_grants(uid, row.id) || self.group_grants(uid, row.id)) {
                if !contains_string(&out, &row.name) {
                    let ghost before = out@;
                    out.push(row.name.clone());
                    proof {
                        lemma_string_set_push(before, out@, out@.last());
                    }
                }
            }
            i += 1;
        }
        proof {
            assert(string_set(out@) =~= user_perm_tokens(*self, uid));
        }
        Ok(out)
    }
}

} // verus!
