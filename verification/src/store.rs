//! The in-memory access model: the storage contract (find / insert /
//! soft-disable by natural key) realised over vectors with explicit
//! invariants. Entity rows carry serially assigned ids; names are unique
//! among non-deleted rows; usernames are unique among all rows.

use vstd::prelude::*;
use crate::entities::User;
use crate::entities::UserForCreation;
use crate::errors::AccessModelError;
use crate::reconcile::BindingTable;
use crate::time::valid_instant;

verus! {

/// One stored row of a named entity kind (role, permission or group).
pub struct EntityRow {
    pub id: i32,
    pub name: String,
    pub created_at: i64,
    pub updated_at: i64,
    pub is_deleted: bool,
}

impl EntityRow {
    /// A field-for-field copy of the row.
    pub fn duplicate(&self) -> (r: EntityRow)
        ensures
            r == *self,
    {
        EntityRow {
            id: self.id,
            name: self.name.clone(),
            created_at: self.created_at,
            updated_at: self.updated_at,
            is_deleted: self.is_deleted,
        }
    }
}

/// Does some row of `rows` carry the id?
pub open spec fn has_ent_id(rows: Seq<EntityRow>, id: i32) -> bool {
    exists|i: int| 0 <= i < rows.len() && rows[i].id == id
}

/// The index of the row carrying `id`; meaningful only under `has_ent_id`
/// and increasing ids.
pub open spec fn ent_idx(rows: Seq<EntityRow>, id: i32) -> int {
    choose|i: int| 0 <= i < rows.len() && rows[i].id == id
}

/// Is `name` already carried by a non-deleted row?
pub open spec fn active_name_taken(rows: Seq<EntityRow>, name: Seq<char>) -> bool {
    exists|i: int| 0 <= i < rows.len() && !rows[i].is_deleted && rows[i].name@ == name
}

/// Entity row `r` soft-disabled at `now`.
pub open spec fn ent_deactivated(r: EntityRow, now: i64) -> EntityRow {
    EntityRow { is_deleted: true, updated_at: now, ..r }
}

/// A table of rows of one entity kind, with a serial id counter.
pub struct EntityTable {
    pub rows: Vec<EntityRow>,
    pub next_id: i32,
}

impl EntityTable {
    /// Ids are strictly increasing along the table (hence unique), live in
    /// `[1, next_id)`, and non-deleted rows never share a name.
    pub open spec fn wf(&self) -> bool {
        &&& 1 <= self.next_id
        &&& forall|i: int, j: int|
            0 <= i < j < self.rows@.len() ==> #[trigger] self.rows@[i].id < #[trigger] self.rows@[j].id
        &&& forall|i: int| 0 <= i < self.rows@.len() ==> 1 <= (#[trigger] self.rows@[i].id) < self.next_id
        &&& forall|i: int, j: int|
            0 <= i < j < self.rows@.len() && !self.rows@[i].is_deleted && !self.rows@[j].is_deleted
                ==> (#[trigger] self.rows@[i].name@) != (#[trigger] self.rows@[j].name@)
    }

    pub fn new() -> (t: EntityTable)
        ensures
            t.wf(),
            t.rows@ == Seq::<EntityRow>::empty(),
            t.next_id == 1,
    {
        EntityTable { rows: Vec::new(), next_id: 1 }
    }

    /// The index of the row carrying `id`, if any.
    fn position_of(&self, id: i32) -> (r: Option<usize>)
        requires
            self.wf(),
        ensures
            match r {
                Some(i) => {
                    &&& i < self.rows.len()
                    &&& self.rows@[i as int].id == id
                    &&& has_ent_id(self.rows@, id)
                    &&& ent_idx(self.rows@, id) == i as int
                },
                None => !has_ent_id(self.rows@, id),
            },
    {
        let n = self.rows.len();
        let mut i: usize = 0;
        while i < n
            invariant
                n == self.rows.len(),
                i <= n,
                self.wf(),
                forall|j: int| 0 <= j < i ==> (#[trigger] self.rows@[j].id) != id,
            decreases n - i,
        {
            if self.rows[i].id == id {
                proof {
                    lemma_ent_idx_is(self.rows@, id, i as int);
                }
                return Some(i);
            }
            i += 1;
        }
        None
    }

    /// Is `name` carried by some non-deleted row?
    fn name_taken(&self, name: &String) -> (r: bool)
        ensures
            r == active_name_taken(self.rows@, name@),
    {
        let n = self.rows.len();
        let mut i: usize = 0;
        while i < n
            invariant
                n == self.rows.len(),
                i <= n,
                forall|j: int|
                    0 <= j < i ==> !(!(#[trigger] self.rows@[j]).is_deleted && self.rows@[j].name@
                        == name@),
            decreases n - i,
        {
            if !self.rows[i].is_deleted && self.rows[i].name == *name {
                return true;
            }
            i += 1;
        }
        false
    }

    /// Fetch the row carrying `id`, deleted or not; absence is
    /// `NotFoundError`.
    pub fn get_by_id(&self, id: i32) -> (r: Result<EntityRow, AccessModelError>)
        requires
            self.wf(),
        ensures
            r == if has_ent_id(self.rows@, id) {
                Result::<EntityRow, AccessModelError>::Ok(self.rows@[ent_idx(self.rows@, id)])
            } else {
                Result::<EntityRow, AccessModelError>::Err(AccessModelError::NotFoundError)
            },
    {
        match self.position_of(id) {
            Some(i) => Ok(self.rows[i].duplicate()),
            None => Err(AccessModelError::NotFoundError),
        }
    }

    /// Insert a fresh non-deleted row named `name` under the next serial
    /// id. A non-deleted row already carrying the name is `AlreadyExists`;
    /// an exhausted id space is a fatal storage fault.
    pub fn insert(&mut self, name: String, now: i64) -> (r: Result<EntityRow, AccessModelError>)
        requires
            old(self).wf(),
            valid_instant(now),
        ensures
            final(self).wf(),
            active_name_taken(old(self).rows@, name@) ==> {
                &&& *final(self) == *old(self)
                &&& r == Result::<EntityRow, AccessModelError>::Err(AccessModelError::AlreadyExists)
            },
            !active_name_taken(old(self).rows@, name@) && old(self).next_id == i32::MAX ==> {
                &&& *final(self) == *old(self)
                &&& r == Result::<EntityRow, AccessModelError>::Err(AccessModelError::FatalError)
            },
            !active_name_taken(old(self).rows@, name@) && old(self).next_id < i32::MAX ==> {
                &&& final(self).rows@ == old(self).rows@.push(
                    EntityRow {
                        id: old(self).next_id,
                        name: name,
                        created_at: now,
                        updated_at: now,
                        is_deleted: false,
                    },
                )
                &&& final(self).next_id == old(self).next_id + 1
                &&& r matches Ok(e) && e == (EntityRow {
                    id: old(self).next_id,
                    name: name,
                    created_at: now,
                    updated_at: now,
                    is_deleted: false,
                })
            },
    {
        if self.name_taken(&name) {
            return Err(AccessModelError::AlreadyExists);
        }
        if self.next_id == i32::MAX {
            return Err(AccessModelError::FatalError);
        }
        let id = self.next_id;
        let row = EntityRow { id, name, created_at: now, updated_at: now, is_deleted: false };
        let out = row.duplicate();
        self.rows.push(row);
        self.next_id = id + 1;
        Ok(out)
    }

    /// Soft-disable the non-deleted row carrying `id`; an absent or
    /// already-deleted row is `NotFoundError`. Re-enabling a disabled
    /// entity is deliberately not offered — only bindings support that.
    pub fn soft_disable(&mut self, id: i32, now: i64) -> (r: Result<(), AccessModelError>)
        requires
            old(self).wf(),
        ensures
            final(self).wf(),
            final(self).next_id == old(self).next_id,
            has_ent_id(old(self).rows@, id) && !old(self).rows@[ent_idx(old(self).rows@, id)].is_deleted
                ==> {
                &&& final(self).rows@ == old(self).rows@.update(
                    ent_idx(old(self).rows@, id),
                    ent_deactivated(old(self).rows@[ent_idx(old(self).rows@, id)], now),
                )
                &&& r matches Ok(())
            },
            !(has_ent_id(old(self).rows@, id) && !old(self).rows@[ent_idx(
                old(self).rows@,
                id,
            )].is_deleted) ==> {
                &&& *final(self) == *old(self)
                &&& r == Result::<(), AccessModelError>::Err(AccessModelError::NotFoundError)
            },
    {
        match self.position_of(id) {
            Some(i) => {
                let row = &self.rows[i];
                if row.is_deleted {
                    Err(AccessModelError::NotFoundError)
                } else {
                    let nb = EntityRow {
                        id: row.id,
                        name: row.name.clone(),
                        created_at: row.created_at,
                        updated_at: now,
                        is_deleted: true,
                    };
                    self.rows[i] = nb;
                    proof {
                        assert(final(self).rows@[i as int] == ent_deactivated(
                            old(self).rows@[i as int],
                            now,
                        ));
                    }
                    Ok(())
                }
            },
            None => Err(AccessModelError::NotFoundError),
        }
    }
}

/// With increasing ids, a row carrying `id` at index `i` is the row
/// `ent_idx` names.
pub proof fn lemma_ent_idx_is(rows: Seq<EntityRow>, id: i32, i: int)
    requires
        forall|a: int, b: int| 0 <= a < b < rows.len() ==> #[trigger] rows[a].id < #[trigger] rows[b].id,
        0 <= i < rows.len(),
        rows[i].id == id,
    ensures
        has_ent_id(rows, id),
        ent_idx(rows, id) == i,
{
    assert(has_ent_id(rows, id));
    let j = ent_idx(rows, id);
    if i < j {
        assert(rows[i].id < rows[j].id);
    } else if j < i {
        assert(rows[j].id < rows[i].id);
    }
}

/// Does some row of `rows` carry the user id?
pub open spec fn has_user_id(rows: Seq<User>, id: i32) -> bool {
    exists|i: int| 0 <= i < rows.len() && rows[i].user_id == id
}

/// The index of the row carrying `id`.
pub open spec fn user_idx(rows: Seq<User>, id: i32) -> int {
    choose|i: int| 0 <= i < rows.len() && rows[i].user_id == id
}

/// Is `username` carried by any row, deleted or not? Usernames are never
/// released, even by a soft delete.
pub open spec fn username_taken(rows: Seq<User>, username: Seq<char>) -> bool {
    exists|i: int| 0 <= i < rows.len() && rows[i].username@ == username
}

/// Does a non-deleted row match `username` with exactly `hash` as its
/// stored password hash? This equality match is the storage side of
/// sign-in verification.
pub open spec fn credentials_match(rows: Seq<User>, username: Seq<char>, hash: Seq<char>) -> bool {
    exists|i: int|
        0 <= i < rows.len() && !rows[i].is_deleted && rows[i].username@ == username
            && rows[i].password_hash@ == hash
}

/// The index of the row matching the credentials.
pub open spec fn credentials_idx(rows: Seq<User>, username: Seq<char>, hash: Seq<char>) -> int {
    choose|i: int|
        0 <= i < rows.len() && !rows[i].is_deleted && rows[i].username@ == username
            && rows[i].password_hash@ == hash
}

/// User row `u` soft-disabled at `now`.
pub open spec fn user_deactivated(u: User, now: i64) -> User {
    User { is_deleted: true, updated_at: now, ..u }
}

/// The stored users, with a serial id counter.
pub struct UserTable {
    pub rows: Vec<User>,
    pub next_id: i32,
}

impl UserTable {
    /// Ids are strictly increasing (hence unique), live in `[1, next_id)`,
    /// and no two rows — deleted or not — share a username.
    pub open spec fn wf(&self) -> bool {
        &&& 1 <= self.next_id
        &&& forall|i: int, j: int|
            0 <= i < j < self.rows@.len() ==> #[trigger] self.rows@[i].user_id
                < #[trigger] self.rows@[j].user_id
        &&& forall|i: int|
            0 <= i < self.rows@.len() ==> 1 <= (#[trigger] self.rows@[i].user_id) < self.next_id
        &&& forall|i: int, j: int|
            0 <= i < j < self.rows@.len() ==> (#[trigger] self.rows@[i].username@)
                != (#[trigger] self.rows@[j].username@)
    }

    pub fn new() -> (t: UserTable)
        ensures
            t.wf(),
            t.rows@ == Seq::<User>::empty(),
            t.next_id == 1,
    {
        UserTable { rows: Vec::new(), next_id: 1 }
    }

    /// The index of the row carrying `id`, if any.
    fn position_of(&self, id: i32) -> (r: Option<usize>)
        requires
            self.wf(),
        ensures
            match r {
                Some(i) => {
                    &&& i < self.rows.len()
                    &&& self.rows@[i as int].user_id == id
                    &&& has_user_id(self.rows@, id)
                    &&& user_idx(self.rows@, id) == i as int
                },
                None => !has_user_id(self.rows@, id),
            },
    {
        let n = self.rows.len();
        let mut i: usize = 0;
        while i < n
            invariant
                n == self.rows.len(),
                i <= n,
                self.wf(),
                forall|j: int| 0 <= j < i ==> (#[trigger] self.rows@[j].user_id) != id,
            decreases n - i,
        {
            if self.rows[i].user_id == id {
                proof {
                    lemma_user_idx_is(self.rows@, id, i as int);
                }
                return Some(i);
            }
            i += 1;
        }
        None
    }

    /// Fetch the non-deleted user carrying `id`; a deleted or absent user
    /// is `NotFoundError`.
    pub fn find_user_by_id(&self, id: i32) -> (r: Result<User, AccessModelError>)
        requires
            self.wf(),
        ensures
            r == if has_user_id(self.rows@, id) && !self.rows@[user_idx(self.rows@, id)].is_deleted {
                Result::<User, AccessModelError>::Ok(self.rows@[user_idx(self.rows@, id)])
            } else {
                Result::<User, AccessModelError>::Err(AccessModelError::NotFoundError)
            },
    {
        match self.position_of(id) {
            Some(i) => {
                let row = &self.rows[i];
                if row.is_deleted {
                    Err(AccessModelError::NotFoundError)
                } else {
                    Ok(row.duplicate())
                }
            },
            None => Err(AccessModelError::NotFoundError),
        }
    }

    /// Soft-disable the non-deleted user carrying `id`; a deleted or
    /// absent user is `NotFoundError`.
    pub fn remove_user_by_id(&mut self, id: i32, now: i64) -> (r: Result<(), AccessModelError>)
        requires
            old(self).wf(),
        ensures
            final(self).wf(),
            final(self).next_id == old(self).next_id,
            has_user_id(old(self).rows@, id) && !old(self).rows@[user_idx(
                old(self).rows@,
                id,
            )].is_deleted ==> {
                &&& final(self).rows@ == old(self).rows@.update(
                    user_idx(old(self).rows@, id),
                    user_deactivated(old(self).rows@[user_idx(old(self).rows@, id)], now),
                )
                &&& r matches Ok(())
            },
            !(has_user_id(old(self).rows@, id) && !old(self).rows@[user_idx(
                old(self).rows@,
                id,
            )].is_deleted) ==> {
                &&& *final(self) == *old(self)
                &&& r == Result::<(), AccessModelError>::Err(AccessModelError::NotFoundError)
            },
    {
        match self.position_of(id) {
            Some(i) => {
                let row = &self.rows[i];
                if row.is_deleted {
                    Err(AccessModelError::NotFoundError)
                } else {
                    let nb = User {
                        user_id: row.user_id,
                        username: row.username.clone(),
                        password_hash: row.password_hash.clone(),
                        enabled: row.enabled,
                        created_at: row.created_at,
                        updated_at: now,
                        is_deleted: true,
                    };
                    self.rows[i] = nb;
                    proof {
                        assert(final(self).rows@[i as int] == user_deactivated(
                            old(self).rows@[i as int],
                            now,
                        ));
                    }
                    Ok(())
                }
            },
            None => Err(AccessModelError::NotFoundError),
        }
    }

    /// Store a fresh enabled user under the next serial id. A row already
    /// carrying the username — deleted or not — is `AlreadyExists`; an
    /// exhausted id space is a fatal storage fault.
    pub fn save_user_in_storage(&mut self, user: UserForCreation, now: i64) -> (r: Result<
        User,
        AccessModelError,
    >)
        requires
            old(self).wf(),
        ensures
            final(self).wf(),
            username_taken(old(self).rows@, user.username@) ==> {
                &&& *final(self) == *old(self)
                &&& r == Result::<User, AccessModelError>::Err(AccessModelError::AlreadyExists)
            },
            !username_taken(old(self).rows@, user.username@) && old(self).next_id == i32::MAX ==> {
                &&& *final(self) == *old(self)
                &&& r == Result::<User, AccessModelError>::Err(AccessModelError::FatalError)
            },
            !username_taken(old(self).rows@, user.username@) && old(self).next_id < i32::MAX ==> {
                &&& final(self).rows@ == old(self).rows@.push(
                    User {
                        user_id: old(self).next_id,
                        username: user.username,
                        password_hash: user.password_hash,
                        enabled: true,
                        created_at: now,
                        updated_at: now,
                        is_deleted: false,
                    },
                )
                &&& final(self).next_id == old(self).next_id + 1
                &&& r matches Ok(u) && u == (User {
                    user_id: old(self).next_id,
                    username: user.username,
                    password_hash: user.password_hash,
                    enabled: true,
                    created_at: now,
                    updated_at: now,
                    is_deleted: false,
                })
            },
    {
        if self.username_in_use(&user.username) {
            return Err(AccessModelError::AlreadyExists);
        }
        if self.next_id == i32::MAX {
            return Err(AccessModelError::FatalError);
        }
        let id = self.next_id;
        let row = User {
            user_id: id,
            username: user.username,
            password_hash: user.password_hash,
            enabled: true,
            created_at: now,
            updated_at: now,
            is_deleted: false,
        };
        let out = row.duplicate();
        self.rows.push(row);
        self.next_id = id + 1;
        Ok(out)
    }

    /// Is `username` carried by any row?
    fn username_in_use(&self, username: &String) -> (r: bool)
        ensures
            r == username_taken(self.rows@, username@),
    {
        let n = self.rows.len();
        let mut i: usize = 0;
        while i < n
            invariant
                n == self.rows.len(),
                i <= n,
                forall|j: int| 0 <= j < i ==> (#[trigger] self.rows@[j].username@) != username@,
            decreases n - i,
        {
            if self.rows[i].username == *username {
                return true;
            }
            i += 1;
        }
        false
    }

    /// The storage side of sign-in: find the id of a non-deleted user
    /// whose username and stored password hash match exactly; any miss is
    /// `NotFoundError`.
    pub fn verificate_default(&self, username: &String, hash: &String) -> (r: Result<
        i32,
        AccessModelError,
    >)
        requires
            self.wf(),
        ensures
            r == if credentials_match(self.rows@, username@, hash@) {
                Result::<i32, AccessModelError>::Ok(
                    self.rows@[credentials_idx(self.rows@, username@, hash@)].user_id,
                )
            } else {
                Result::<i32, AccessModelError>::Err(AccessModelError::NotFoundError)
            },
    {
        let n = self.rows.len();
        let mut i: usize = 0;
        while i < n
            invariant
                n == self.rows.len(),
                i <= n,
                self.wf(),
                forall|j: int|
                    0 <= j < i ==> !(!(#[trigger] self.rows@[j]).is_deleted && self.rows@[j].username@
                        == username@ && self.rows@[j].password_hash@ == hash@),
            decreases n - i,
        {
            let row = &self.rows[i];
            if !row.is_deleted && row.username == *username && row.password_hash == *hash {
                proof {
                    lemma_credentials_idx_is(self.rows@, username@, hash@, i as int);
                }
                return Ok(row.user_id);
            }
            i += 1;
        }
        Err(AccessModelError::NotFoundError)
    }
}

/// With increasing user ids, a row carrying `id` at index `i` is the row
/// `user_idx` names.
pub proof fn lemma_user_idx_is(rows: Seq<User>, id: i32, i: int)
    requires
        forall|a: int, b: int|
            0 <= a < b < rows.len() ==> #[trigger] rows[a].user_id < #[trigger] rows[b].user_id,
        0 <= i < rows.len(),
        rows[i].user_id == id,
    ensures
        has_user_id(rows, id),
        user_idx(rows, id) == i,
{
    assert(has_user_id(rows, id));
    let j = user_idx(rows, id);
    if i < j {
        assert(rows[i].user_id < rows[j].user_id);
    } else if j < i {
        assert(rows[j].user_id < rows[i].user_id);
    }
}

/// With unique usernames, a row matching the credentials at index `i` is
/// the row `credentials_idx` names.
pub proof fn lemma_credentials_idx_is(rows: Seq<User>, username: Seq<char>, hash: Seq<char>, i: int)
    requires
        forall|a: int, b: int|
            0 <= a < b < rows.len() ==> (#[trigger] rows[a].username@) != (#[trigger] rows[b].username@),
        0 <= i < rows.len(),
        !rows[i].is_deleted,
        rows[i].username@ == username,
        rows[i].password_hash@ == hash,
    ensures
        credentials_match(rows, username, hash),
        credentials_idx(rows, username, hash) == i,
{
    assert(credentials_match(rows, username, hash));
    let j = credentials_idx(rows, username, hash);
    if i < j {
        assert(rows[i].username@ != rows[j].username@);
    } else if j < i {
        assert(rows[j].username@ != rows[i].username@);
    }
}

/// The whole access model: one table per entity kind and one per binding
/// kind. Realises the storage contract that every use case runs against.
pub struct AccessModel {
    pub users: UserTable,
    pub roles: EntityTable,
    pub permissions: EntityTable,
    pub groups: EntityTable,
    pub role_permissions: BindingTable,
    pub role_members: BindingTable,
    pub group_permissions: BindingTable,
    pub group_members: BindingTable,
}

impl AccessModel {
    pub open spec fn wf(&self) -> bool {
        &&& self.users.wf()
        &&& self.roles.wf()
        &&& self.permissions.wf()
        &&& self.groups.wf()
        &&& self.role_permissions.wf()
        &&& self.role_members.wf()
        &&& self.group_permissions.wf()
        &&& self.group_members.wf()
    }

    /// An empty model: no rows anywhere, all counters at 1.
    pub fn new() -> (m: AccessModel)
        ensures
            m.wf(),
            m.users.rows@ == Seq::<User>::empty(),
            m.roles.rows@ == Seq::<EntityRow>::empty(),
            m.permissions.rows@ == Seq::<EntityRow>::empty(),
            m.groups.rows@ == Seq::<EntityRow>::empty(),
            m.role_permissions.rows@ == Seq::<crate::entities::BindingRow>::empty(),
            m.role_members.rows@ == Seq::<crate::entities::BindingRow>::empty(),
            m.group_permissions.rows@ == Seq::<crate::entities::BindingRow>::empty(),
            m.group_members.rows@ == Seq::<crate::entities::BindingRow>::empty(),
    {
        AccessModel {
            users: UserTable::new(),
            roles: EntityTable::new(),
            permissions: EntityTable::new(),
            groups: EntityTable::new(),
            role_permissions: BindingTable::new(),
            role_members: BindingTable::new(),
            group_permissions: BindingTable::new(),
            group_members: BindingTable::new(),
        }
    }
}

} // verus!
