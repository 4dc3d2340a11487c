//! Permission listing: filter validation, the parameterized query text a
//! storage collaborator would run, and the same filter semantics applied
//! to the in-memory access model.

use vstd::prelude::*;
use vstd::string::StringExecFns;
use crate::entities::Permission;
use crate::errors::PermissionUCError;
use crate::reconcile::has_key;
use crate::store::AccessModel;
use crate::store::EntityRow;
use crate::entities::BindingRow;
use crate::token::ascii_to_string;
use crate::token::dec_digits;
use crate::token::dec_int;
use crate::token::lemma_dec_digits_shape;
use crate::usecases::permission_of_ent;

verus! {

/// The permission-listing filters, with paging already validated.
pub struct PermissionsFilters {
    pub permission_id: Option<i32>,
    pub role_id: Option<i32>,
    pub is_deleted: Option<bool>,
    pub permission_name: Option<String>,
    pub offset: i64,
    pub limit: i64,
}

/// A page of permissions together with the unpaged match count.
pub struct PermissionsList {
    pub permissions: Vec<Permission>,
    pub total: i64,
}

impl PermissionsList {
    pub fn new(permissions: Vec<Permission>, total: i64) -> (l: PermissionsList)
        ensures
            l.permissions == permissions,
            l.total == total,
    {
        PermissionsList { permissions, total }
    }
}

/// The paging echo of a listing response.
pub struct Pagination {
    pub offset: i64,
    pub limit: i64,
    pub total: i64,
}

/// The raw listing request as it arrives, before validation.
pub struct PermissionsFiltersInputScheme {
    pub permission_id: Option<i32>,
    pub role_id: Option<i32>,
    pub is_deleted: Option<bool>,
    pub permission_name: Option<String>,
    pub offset: Option<i64>,
    pub limit: Option<i64>,
}

impl PermissionsFiltersInputScheme {
    /// Validate the paging bounds: the offset defaults to 0 and must lie
    /// in `[0, 9999)`, the limit defaults to 100 and must lie in
    /// `(0, 1000]`; everything else passes through.
    pub fn new_with_validation(data: PermissionsFiltersInputScheme) -> (r: Result<
        PermissionsFilters,
        String,
    >)
        ensures
            ({
                let off_ok = match data.offset {
                    None => true,
                    Some(o) => 0 <= o < 9999,
                };
                let lim_ok = match data.limit {
                    None => true,
                    Some(l) => 0 < l <= 1000,
                };
                match r {
                    Ok(f) => {
                        &&& off_ok && lim_ok
                        &&& f.permission_id == data.permission_id
                        &&& f.role_id == data.role_id
                        &&& f.is_deleted == data.is_deleted
                        &&& f.permission_name == data.permission_name
                        &&& f.offset == (match data.offset {
                            None => 0i64,
                            Some(o) => o,
                        })
                        &&& f.limit == (match data.limit {
                            None => 100i64,
                            Some(l) => l,
                        })
                    },
                    Err(msg) => !off_ok && msg@ == "wrong offset value"@ || off_ok && !lim_ok
                        && msg@ == "wrong limit value"@,
                }
            }),
    {
        let offset: i64 = match data.offset {
            None => 0,
            Some(offset) => {
                if 0 <= offset && offset < 9999 {
                    offset
                } else {
                    return Err(String::from_str("wrong offset value"));
                }
            },
        };
        let limit: i64 = match data.limit {
            None => 100,
            Some(limit) => {
                if 0 < limit && limit <= 1000 {
                    limit
                } else {
                    return Err(String::from_str("wrong limit value"));
                }
            },
        };
        Ok(
            PermissionsFilters {
                permission_id: data.permission_id,
                role_id: data.role_id,
                is_deleted: data.is_deleted,
                permission_name: data.permission_name,
                offset,
                limit,
            },
        )
    }
}

/// One positional query parameter.
pub enum SqlParam {
    Int(i32),
    Bool(bool),
    Text(String),
}

/// The text of the `$n` placeholder; the clause builder uses at most
/// four.
pub open spec fn ph_chars(n: int) -> Seq<char> {
    if n == 1 {
        "$1"@
    } else if n == 2 {
        "$2"@
    } else if n == 3 {
        "$3"@
    } else {
        "$4"@
    }
}

/// The filter clause appended to either listing or count query: a join
/// on the binding table when filtering by role, then one conjunct per
/// present filter, placeholders numbered in order of appearance.
pub open spec fn filter_clause_chars(f: PermissionsFilters) -> Seq<char> {
    let c1 = if f.role_id is Some {
        " LEFT JOIN role_permissions USING(permission_id) WHERE role_id=$1"@
    } else {
        " WHERE TRUE"@
    };
    let n1: int = if f.role_id is Some {
        2
    } else {
        1
    };
    let c2 = if f.permission_id is Some {
        " AND p.permission_id="@ + ph_chars(n1)
    } else {
        Seq::<char>::empty()
    };
    let n2: int = n1 + if f.permission_id is Some {
        1int
    } else {
        0int
    };
    let c3 = if f.permission_name is Some {
        " AND permission_name="@ + ph_chars(n2)
    } else {
        Seq::<char>::empty()
    };
    let n3: int = n2 + if f.permission_name is Some {
        1int
    } else {
        0int
    };
    let c4 = if f.is_deleted is Some {
        " AND p.is_deleted="@ + ph_chars(n3)
    } else {
        Seq::<char>::empty()
    };
    c1 + c2 + c3 + c4
}

/// The positional parameters matching `filter_clause_chars`, in order.
pub open spec fn filter_params(f: PermissionsFilters) -> Seq<SqlParam> {
    (match f.role_id {
        Some(r) => seq![SqlParam::Int(r)],
        None => Seq::<SqlParam>::empty(),
    }) + (match f.permission_id {
        Some(p) => seq![SqlParam::Int(p)],
        None => Seq::<SqlParam>::empty(),
    }) + (match f.permission_name {
        Some(nm) => seq![SqlParam::Text(nm)],
        None => Seq::<SqlParam>::empty(),
    }) + (match f.is_deleted {
        Some(b) => seq![SqlParam::Bool(b)],
        None => Seq::<SqlParam>::empty(),
    })
}

/// Append the `$n` placeholder.
fn append_ph(query: &mut String, n: u8)
    requires
        1 <= n <= 4,
    ensures
        final(query)@ == old(query)@ + ph_chars(n as int),
{
    if n == 1 {
        query.append("$1");
    } else if n == 2 {
        query.append("$2");
    } else if n == 3 {
        query.append("$3");
    } else {
        query.append("$4");
    }
}

/// Append the filter clause to `query` and hand back the matching
/// positional parameters.
#[verifier::rlimit(100)]
pub fn add_permission_filters(query: &mut String, filters: &PermissionsFilters) -> (params: Vec<
    SqlParam,
>)
    ensures
        final(query)@ == old(query)@ + filter_clause_chars(*filters),
        params@ == filter_params(*filters),
{
    let mut params: Vec<SqlParam> = Vec::new();
    let mut cnt: u8 = 1;
    match &filters.role_id {
        Some(role_id) => {
            query.append(" LEFT JOIN role_permissions USING(permission_id) WHERE role_id=$1");
            cnt += 1;
            params.push(SqlParam::Int(*role_id));
        },
        None => {
            query.append(" WHERE TRUE");
        },
    }
    match &filters.permission_id {
        Some(permission_id) => {
            query.append(" AND p.permission_id=");
            append_ph(query, cnt);
            cnt += 1;
            params.push(SqlParam::Int(*permission_id));
        },
        None => (),
    }
    match &filters.permission_name {
        Some(permission_name) => {
            query.append(" AND permission_name=");
            append_ph(query, cnt);
            cnt += 1;
            params.push(SqlParam::Text(permission_name.clone()));
        },
        None => (),
    }
    match &filters.is_deleted {
        Some(is_deleted) => {
            query.append(" AND p.is_deleted=");
            append_ph(query, cnt);
            params.push(SqlParam::Bool(*is_deleted));
        },
        None => (),
    }
    proof {
        assert(params@ =~= filter_params(*filters));
    }
    params
}

/// Append the decimal form of `v`.
fn append_dec_i64(query: &mut String, v: i64)
    ensures
        final(query)@ == old(query)@ + crate::token::ascii_chars(dec_int(v as int)),
{
    let mut bytes: Vec<u8> = Vec::new();
    let m: u64 = if v < 0 {
        bytes.push(45);
        (-(v as i128)) as u64
    } else {
        v as u64
    };
    push_dec_u64(&mut bytes, m);
    proof {
        assert(bytes@ =~= dec_int(v as int));
        lemma_dec_digits_shape(m as nat);
        assert forall|i: int| 0 <= i < bytes@.len() implies bytes@[i] < 0x80 by {
            if v < 0 {
                if i > 0 {
                    assert(bytes@[i] == dec_digits(m as nat)[i - 1]);
                }
            } else {
                assert(bytes@[i] == dec_digits(m as nat)[i]);
            }
        }
    }
    let text = ascii_to_string(bytes);
    query.append(text.as_str());
    proof {
        assert(final(query)@ == old(query)@ + crate::token::ascii_chars(dec_int(v as int)));
    }
}

/// Append the decimal digits of `n`.
fn push_dec_u64(out: &mut Vec<u8>, n: u64)
    ensures
        final(out)@ == old(out)@ + dec_digits(n as nat),
    decreases n,
{
    if n < 10 {
        out.push(48 + n as u8);
        proof {
            assert(out@ =~= old(out)@ + dec_digits(n as nat));
        }
    } else {
        push_dec_u64(out, n / 10);
        out.push(48 + (n % 10) as u8);
        proof {
            assert(dec_digits(n as nat) =~= dec_digits((n as nat) / 10).push(
                (48 + (n as nat) % 10) as u8,
            ));
            assert((n / 10) as nat == (n as nat) / 10);
            assert((n % 10) as nat == (n as nat) % 10);
            assert(out@ =~= old(out)@ + dec_digits(n as nat));
        }
    }
}

/// The listing query: select, filter clause, newest ids first, paging
/// bounds inlined as text.
pub open spec fn listing_query_chars(f: PermissionsFilters) -> Seq<char> {
    "SELECT permission_id, permission_name, p.created_at, p.updated_at, p.is_deleted FROM permissions p"@
        + filter_clause_chars(f) + " ORDER BY permission_id DESC"@ + " OFFSET "@ + crate::token::ascii_chars(
        dec_int(f.offset as int),
    ) + " LIMIT "@ + crate::token::ascii_chars(dec_int(f.limit as int))
}

/// The count query: the same filter clause over a bare count.
pub open spec fn count_query_chars(f: PermissionsFilters) -> Seq<char> {
    "SELECT count(1) FROM permissions p"@ + filter_clause_chars(f)
}

impl PermissionsFilters {
    /// The listing query and its positional parameters.
    pub fn build_listing_query_with_params(&self) -> (r: (String, Vec<SqlParam>))
        ensures
            r.0@ == listing_query_chars(*self),
            r.1@ == filter_params(*self),
    {
        let mut query = String::from_str(
            "SELECT permission_id, permission_name, p.created_at, p.updated_at, p.is_deleted FROM permissions p",
        );
        let params = add_permission_filters(&mut query, self);
        query.append(" ORDER BY permission_id DESC");
        query.append(" OFFSET ");
        append_dec_i64(&mut query, self.offset);
        query.append(" LIMIT ");
        append_dec_i64(&mut query, self.limit);
        (query, params)
    }

    /// The count query and its positional parameters.
    pub fn build_count_query_with_params(&self) -> (r: (String, Vec<SqlParam>))
        ensures
            r.0@ == count_query_chars(*self),
            r.1@ == filter_params(*self),
    {
        let mut query = String::from_str("SELECT count(1) FROM permissions p");
        let params = add_permission_filters(&mut query, self);
        (query, params)
    }
}

/// Does a permission row pass the filters, `rp` being the
/// role-to-permission binding table? The role filter matches any binding
/// row for that role, deleted or not; deleted rows are filtered at read
/// time by `is_deleted` alone.
pub open spec fn perm_row_matches(f: PermissionsFilters, rp: Seq<BindingRow>, row: EntityRow) -> bool {
    &&& (match f.role_id {
        Some(rid) => has_key(rp, row.id, rid),
        None => true,
    })
    &&& (match f.permission_id {
        Some(pid) => row.id == pid,
        None => true,
    })
    &&& (match f.permission_name {
        Some(nm) => row.name@ == nm@,
        None => true,
    })
    &&& (match f.is_deleted {
        Some(b) => row.is_deleted == b,
        None => true,
    })
}

/// The rows at indices `[i, len)` that pass the filters, listed with the
/// highest index (hence the newest id) first.
pub open spec fn desc_matched(
    rows: Seq<EntityRow>,
    f: PermissionsFilters,
    rp: Seq<BindingRow>,
    i: int,
) -> Seq<EntityRow>
    decreases rows.len() - i,
{
    if i < 0 || i >= rows.len() {
        Seq::empty()
    } else {
        desc_matched(rows, f, rp, i + 1) + (if perm_row_matches(f, rp, rows[i]) {
            seq![rows[i]]
        } else {
            Seq::<EntityRow>::empty()
        })
    }
}

/// The permissions the entity rows denote.
pub open spec fn perms_of(ents: Seq<EntityRow>) -> Seq<Permission> {
    ents.map(|_i: int, e: EntityRow| permission_of_ent(e))
}

/// Each index can contribute at most one matched row.
proof fn lemma_desc_matched_len(
    rows: Seq<EntityRow>,
    f: PermissionsFilters,
    rp: Seq<BindingRow>,
    i: int,
)
    ensures
        desc_matched(rows, f, rp, i).len() <= rows.len(),
        0 <= i <= rows.len() ==> desc_matched(rows, f, rp, i).len() <= rows.len() - i,
    decreases rows.len() - i,
{
    if 0 <= i < rows.len() {
        lemma_desc_matched_len(rows, f, rp, i + 1);
    }
}

/// With strictly increasing ids below `i32::MAX`, an id is at least its
/// index plus one.
proof fn lemma_ids_at_least_index(rows: Seq<EntityRow>, i: int)
    requires
        forall|a: int, b: int| 0 <= a < b < rows.len() ==> #[trigger] rows[a].id < #[trigger] rows[b].id,
        forall|a: int| 0 <= a < rows.len() ==> (#[trigger] rows[a].id) >= 1,
        0 <= i < rows.len(),
    ensures
        rows[i].id >= i + 1,
    decreases i,
{
    if i > 0 {
        lemma_ids_at_least_index(rows, i - 1);
        assert(rows[i - 1].id < rows[i].id);
    }
}

/// List permissions by filters against the in-memory model: the rows
/// passing the filters, newest ids first, paged by offset and limit,
/// with the unpaged match count. Negative paging bounds — which storage
/// would refuse — are a fatal error.
pub fn get_permissions_by_filters(model: &AccessModel, filters: PermissionsFilters) -> (r: Result<
    PermissionsList,
    PermissionUCError,
>)
    requires
        model.wf(),
    ensures
        ({
            let matched = desc_matched(model.permissions.rows@, filters, model.role_permissions.rows@, 0);
            if filters.offset < 0 || filters.limit < 0 {
                r == Result::<PermissionsList, PermissionUCError>::Err(PermissionUCError::FatalError)
            } else {
                let lo = if filters.offset as int <= matched.len() {
                    filters.offset as int
                } else {
                    matched.len() as int
                };
                let hi = if filters.offset + filters.limit <= matched.len() {
                    filters.offset + filters.limit
                } else {
                    matched.len() as int
                };
                r matches Ok(pl) && pl.permissions@ == perms_of(matched.subrange(lo, hi))
                    && pl.total == matched.len()
            }
        }),
{
    if filters.offset < 0 || filters.limit < 0 {
        return Err(PermissionUCError::FatalError);
    }
    let rows = &model.permissions.rows;
    let n = rows.len();
    proof {
        if n > 0 {
            lemma_ids_at_least_index(model.permissions.rows@, n as int - 1);
        }
        assert(n <= 0x7fffffff);
    }
    let mut matched: Vec<EntityRow> = Vec::new();
    let mut i: usize = n;
    while i > 0
        invariant
            n == model.permissions.rows@.len(),
            i <= n,
            model.wf(),
            matched@ == desc_matched(
                model.permissions.rows@,
                filters,
                model.role_permissions.rows@,
                i as int,
            ),
        decreases i,
    {
        i -= 1;
        let row = &model.permissions.rows[i];
        let passes_role = match filters.role_id {
            Some(rid) => model.role_permissions.has_pair(row.id, rid),
            None => true,
        };
        let passes_id = match filters.permission_id {
            Some(pid) => row.id == pid,
            None => true,
        };
        let passes_name = match &filters.permission_name {
            Some(nm) => row.name == *nm,
            None => true,
        };
        let passes_del = match filters.is_deleted {
            Some(b) => row.is_deleted == b,
            None => true,
        };
        if passes_role && passes_id && passes_name && passes_del {
            matched.push(row.duplicate());
        }
        proof {
            assert(matched@ =~= desc_matched(
                model.permissions.rows@,
                filters,
                model.role_permissions.rows@,
                i as int,
            ));
        }
    }
    proof {
        lemma_desc_matched_len(model.permissions.rows@, filters, model.role_permissions.rows@, 0);
    }
    let total = matched.len();
    let lo: usize = if filters.offset <= total as i64 {
        filters.offset as usize
    } else {
        total
    };
    let mut page: Vec<Permission> = Vec::new();
    let mut k: usize = lo;
    let ghost mseq = matched@;
    while k < total && ((k - lo) as i64) < filters.limit
        invariant
            total == mseq.len(),
            matched@ == mseq,
            0 <= filters.limit,
            lo <= k <= total,
            k - lo <= filters.limit,
            total <= 0x7fffffff,
            page@ == perms_of(mseq.subrange(lo as int, k as int)),
        decreases total - k,
    {
        let row = &matched[k];
        page.push(
            Permission {
                permission_id: row.id,
                permission_name: row.name.clone(),
                created_at: row.created_at,
                updated_at: row.updated_at,
                is_deleted: row.is_deleted,
            },
        );
        proof {
            assert(mseq.subrange(lo as int, k + 1) =~= mseq.subrange(lo as int, k as int).push(
                mseq[k as int],
            ));
            assert(page@ =~= perms_of(mseq.subrange(lo as int, k + 1)));
        }
        k += 1;
    }
    proof {
        let lo_i = lo as int;
        let hi = if filters.offset + filters.limit <= mseq.len() {
            filters.offset + filters.limit
        } else {
            mseq.len() as int
        };
        assert(k as int == hi);
    }
    Ok(PermissionsList { permissions: page, total: total as i64 })
}

} // verus!
