//! The identity store: all user CRUD. In-memory, with the invariants the
//! service relies on: user ids unique and below the id counter, emails
//! unique.

use vstd::prelude::*;
use crate::error::AppError;
use crate::user_model::{Role, User, str_eq};
use crate::seq_util::{lemma_filter_distinct, lemma_filter_membership};

verus! {

/// Pagination options for listing users.
pub struct UserQueryOptions {
    pub page: Option<u32>,
    pub limit: Option<u32>,
}

/// One page of results, newest first.
pub struct PaginatedResult<T> {
    pub results: Vec<T>,
    pub page: u32,
    pub limit: u32,
    pub total_pages: u32,
    pub total_results: u64,
}

/// The first user carrying this email, if any.
pub open spec fn spec_find_email(users: Seq<User>, email: Seq<char>) -> Option<User>
    decreases users.len(),
{
    if users.len() == 0 {
        None
    } else if users[0].email@ == email {
        Some(users[0])
    } else {
        spec_find_email(users.drop_first(), email)
    }
}

/// Does any user carry this email?
pub open spec fn spec_has_email(users: Seq<User>, email: Seq<char>) -> bool {
    spec_find_email(users, email) is Some
}

/// The first user with this id, if any.
pub open spec fn spec_find_id(users: Seq<User>, id: u64) -> Option<User>
    decreases users.len(),
{
    if users.len() == 0 {
        None
    } else if users[0].id == id {
        Some(users[0])
    } else {
        spec_find_id(users.drop_first(), id)
    }
}

/// A found user is a user: it lies in the store under the looked-up email.
pub proof fn lemma_find_email_props(users: Seq<User>, email: Seq<char>)
    ensures
        spec_find_email(users, email) matches Some(u) ==> exists|i: int|
            0 <= i < users.len() && users[i] == u && u.email@ == email,
        spec_find_email(users, email) is None ==> forall|i: int|
            0 <= i < users.len() ==> (#[trigger] users[i]).email@ != email,
    decreases users.len(),
{
    if users.len() > 0 {
        if users[0].email@ != email {
            lemma_find_email_props(users.drop_first(), email);
            if spec_find_email(users.drop_first(), email) is Some {
                let u = spec_find_email(users.drop_first(), email).unwrap();
                let i = choose|i: int|
                    0 <= i < users.drop_first().len() && users.drop_first()[i] == u && u.email@
                        == email;
                assert(users[i + 1] == u);
            } else {
                assert forall|i: int|
                    0 <= i < users.len() implies (#[trigger] users[i]).email@ != email by {
                    if i > 0 {
                        assert(users.drop_first()[i - 1] == users[i]);
                    }
                }
            }
        }
    }
}

/// A found user is a user: it lies in the store under the looked-up id.
pub proof fn lemma_find_id_props(users: Seq<User>, id: u64)
    ensures
        spec_find_id(users, id) matches Some(u) ==> exists|i: int|
            0 <= i < users.len() && users[i] == u && u.id == id,
        spec_find_id(users, id) is None ==> forall|i: int|
            0 <= i < users.len() ==> (#[trigger] users[i]).id != id,
    decreases users.len(),
{
    if users.len() > 0 {
        if users[0].id != id {
            lemma_find_id_props(users.drop_first(), id);
            if spec_find_id(users.drop_first(), id) is Some {
                let u = spec_find_id(users.drop_first(), id).unwrap();
                let i = choose|i: int|
                    0 <= i < users.drop_first().len() && users.drop_first()[i] == u && u.id == id;
                assert(users[i + 1] == u);
            } else {
                assert forall|i: int|
                    0 <= i < users.len() implies (#[trigger] users[i]).id != id by {
                    if i > 0 {
                        assert(users.drop_first()[i - 1] == users[i]);
                    }
                }
            }
        }
    }
}

/// Updating the unique row with `saved.id` in place makes lookups of that id
/// find exactly `saved`.
pub proof fn lemma_find_id_at_update(users: Seq<User>, k: int, saved: User)
    requires
        0 <= k < users.len(),
        saved.id == users[k].id,
        forall|i: int, j: int|
            0 <= i < j < users.len() ==> (#[trigger] users[i]).id != (#[trigger] users[j]).id,
    ensures
        spec_find_id(users.update(k, saved), saved.id) == Some(saved),
    decreases users.len(),
{
    let upd = users.update(k, saved);
    if k == 0 {
        assert(upd[0] == saved);
    } else {
        assert(upd[0] == users[0]);
        assert(users[0].id != users[k].id);
        let dus = users.drop_first();
        assert forall|i: int, j: int|
            0 <= i < j < dus.len() implies (#[trigger] dus[i]).id != (#[trigger] dus[j]).id by {
            assert(dus[i] == users[i + 1] && dus[j] == users[j + 1]);
        }
        assert(dus[k - 1] == users[k]);
        lemma_find_id_at_update(dus, k - 1, saved);
        assert(upd.drop_first() =~= dus.update(k - 1, saved));
    }
}

/// The identity store. One production implementation, in memory: a growing
/// id counter and the users in insertion order.
pub struct UserRepository {
    pub users: Vec<User>,
    pub next_id: u64,
}

impl UserRepository {
    /// The store's invariant: ids unique and below the counter, emails
    /// unique.
    pub open spec fn wf(self) -> bool {
        &&& forall|i: int, j: int|
            0 <= i < j < self.users@.len() ==> (#[trigger] self.users@[i]).id != (
            #[trigger] self.users@[j]).id
        &&& forall|i: int|
            0 <= i < self.users@.len() ==> (#[trigger] self.users@[i]).id < self.next_id
        &&& forall|i: int, j: int|
            0 <= i < j < self.users@.len() ==> (#[trigger] self.users@[i]).email@ != (
            #[trigger] self.users@[j]).email@
    }

    pub fn new() -> (r: UserRepository)
        ensures
            r.wf(),
            r.users@ == Seq::<User>::empty(),
            r.next_id == 0,
    {
        UserRepository { users: Vec::new(), next_id: 0 }
    }

    /// Look up a user by exact email.
    pub fn find_by_email(&self, email: &str) -> (r: Option<User>)
        ensures
            r == spec_find_email(self.users@, email@),
    {
        let n = self.users.len();
        let mut i: usize = 0;
        proof {
            assert(self.users@.skip(0) =~= self.users@);
        }
        while i < n
            invariant
                i <= n,
                n == self.users@.len(),
                spec_find_email(self.users@, email@) == spec_find_email(
                    self.users@.skip(i as int),
                    email@,
                ),
            decreases n - i,
        {
            proof {
                assert(self.users@.skip(i as int)[0] == self.users@[i as int]);
                assert(self.users@.skip(i as int).drop_first() =~= self.users@.skip(i as int + 1));
            }
            if str_eq(self.users[i].email.as_str(), email) {
                return Some(self.users[i].duplicate());
            }
            i = i + 1;
        }
        None
    }

    /// Look up a user by id.
    pub fn find_by_id(&self, id: u64) -> (r: Option<User>)
        ensures
            r == spec_find_id(self.users@, id),
    {
        let n = self.users.len();
        let mut i: usize = 0;
        proof {
            assert(self.users@.skip(0) =~= self.users@);
        }
        while i < n
            invariant
                i <= n,
                n == self.users@.len(),
                spec_find_id(self.users@, id) == spec_find_id(self.users@.skip(i as int), id),
            decreases n - i,
        {
            proof {
                assert(self.users@.skip(i as int)[0] == self.users@[i as int]);
                assert(self.users@.skip(i as int).drop_first() =~= self.users@.skip(i as int + 1));
            }
            if self.users[i].id == id {
                return Some(self.users[i].duplicate());
            }
            i = i + 1;
        }
        None
    }

    /// Insert a new user row. Fails with `Conflict` when the email is
    /// already present (the unique-email constraint) and with
    /// `InternalServerError` when the id space is exhausted.
    pub fn create(
        &mut self,
        name: &str,
        email: &str,
        password_hash: &str,
        role: Role,
        now: u64,
    ) -> (r: Result<User, AppError>)
        requires
            old(self).wf(),
        ensures
            final(self).wf(),
            r is Ok <==> (!spec_has_email(old(self).users@, email@) && old(self).next_id
                < u64::MAX),
            r is Ok ==> ({
                let u = r.unwrap();
                &&& u.id == old(self).next_id
                &&& u.name@ == name@
                &&& u.email@ == email@
                &&& u.password@ == password_hash@
                &&& u.role == role
                &&& !u.is_email_verified
                &&& u.created_at == now
                &&& u.updated_at == now
                &&& final(self).users@ == old(self).users@.push(u)
                &&& final(self).next_id == old(self).next_id + 1
            }),
            r is Err ==> *final(self) == *old(self),
            spec_has_email(old(self).users@, email@) ==> r == Err::<User, AppError>(
                AppError::Conflict,
            ),
            !spec_has_email(old(self).users@, email@) && old(self).next_id == u64::MAX ==> r
                == Err::<User, AppError>(AppError::InternalServerError),
    {
        match self.find_by_email(email) {
            Some(_) => {
                return Err(AppError::Conflict);
            },
            None => {},
        }
        if self.next_id == u64::MAX {
            proof {
                lemma_find_email_props(self.users@, email@);
            }
            return Err(AppError::InternalServerError);
        }
        let u = User {
            id: self.next_id,
            name: String::from_str(name),
            email: String::from_str(email),
            password: String::from_str(password_hash),
            role,
            is_email_verified: false,
            created_at: now,
            updated_at: now,
        };
        let out = u.duplicate();
        proof {
            lemma_find_email_props(self.users@, email@);
        }
        self.users.push(u);
        self.next_id = self.next_id + 1;
        Ok(out)
    }

    /// Overwrite the row with `user.id` with `user`'s fields, stamping
    /// `updated_at`. Fails with `NotFound` when no such row exists, and with
    /// `Conflict` when `user.email` belongs to a different row.
    pub fn save(&mut self, user: &User, now: u64) -> (r: Result<User, AppError>)
        requires
            old(self).wf(),
        ensures
            final(self).wf(),
            final(self).next_id == old(self).next_id,
            spec_find_id(old(self).users@, user.id) is None ==> r == Err::<User, AppError>(
                AppError::NotFound,
            ),
            r is Err ==> *final(self) == *old(self),
            r is Ok <==> (spec_find_id(old(self).users@, user.id) is Some && (forall|i: int|
                0 <= i < old(self).users@.len() ==> ((#[trigger] old(self).users@[i]).email@
                    == user.email@ ==> old(self).users@[i].id == user.id))),
            spec_find_id(old(self).users@, user.id) is Some && r is Err ==> r == Err::<
                User,
                AppError,
            >(AppError::Conflict),
            r is Ok ==> ({
                let saved = r.unwrap();
                &&& saved.id == user.id
                &&& saved.name == user.name
                &&& saved.email == user.email
                &&& saved.password == user.password
                &&& saved.role == user.role
                &&& saved.is_email_verified == user.is_email_verified
                &&& saved.updated_at == now
                &&& exists|k: int|
                    0 <= k < old(self).users@.len() && (#[trigger] old(self).users@[k]).id
                        == user.id && saved.created_at == old(self).users@[k].created_at
                        && final(self).users@ == old(self).users@.update(k, saved)
            }),
    {
        let n = self.users.len();
        let mut k: usize = 0;
        let mut idx: usize = n;
        while k < n
            invariant
                k <= n,
                idx <= n,
                n == self.users@.len(),
                *self == *old(self),
                idx == n ==> forall|j: int| 0 <= j < k ==> (#[trigger] self.users@[j]).id
                    != user.id,
                idx < n ==> self.users@[idx as int].id == user.id,
            decreases n - k,
        {
            if idx == n && self.users[k].id == user.id {
                idx = k;
            }
            k = k + 1;
        }
        if idx == n {
            proof {
                lemma_find_id_props(self.users@, user.id);
            }
            return Err(AppError::NotFound);
        }
        proof {
            lemma_find_id_props(self.users@, user.id);
        }
        // The unique-email constraint: the new email may belong only to this row.
        let mut i: usize = 0;
        while i < n
            invariant
                old(self).wf(),
                i <= n,
                n == self.users@.len(),
                *self == *old(self),
                idx < n,
                self.users@[idx as int].id == user.id,
                forall|j: int|
                    0 <= j < i ==> ((#[trigger] self.users@[j]).email@ == user.email@
                        ==> self.users@[j].id == user.id),
            decreases n - i,
        {
            if str_eq(self.users[i].email.as_str(), user.email.as_str()) {
                if self.users[i].id != user.id {
                    proof {
                        lemma_find_id_props(self.users@, user.id);
                    }
                    return Err(AppError::Conflict);
                }
            }
            i = i + 1;
        }
        let saved = User {
            id: user.id,
            name: user.name.clone(),
            email: user.email.clone(),
            password: user.password.clone(),
            role: user.role,
            is_email_verified: user.is_email_verified,
            created_at: self.users[idx].created_at,
            updated_at: now,
        };
        let out = saved.duplicate();
        proof {
            lemma_find_id_props(self.users@, user.id);
        }
        self.users.set(idx, saved);
        proof {
            let upd = self.users@;
            let orig = old(self).users@;
            let ix = idx as int;
            assert forall|a: int, b: int| 0 <= a < b < upd.len() implies (#[trigger] upd[a]).id
                != (#[trigger] upd[b]).id by {
                if a != ix && b != ix {
                    assert(upd[a] == orig[a] && upd[b] == orig[b]);
                } else if a == ix {
                    assert(upd[a].id == orig[ix].id && upd[b] == orig[b]);
                } else {
                    assert(upd[b].id == orig[ix].id && upd[a] == orig[a]);
                }
            }
            assert forall|a: int, b: int| 0 <= a < b < upd.len() implies (#[trigger] upd[a]).email@
                != (#[trigger] upd[b]).email@ by {
                if a != ix && b != ix {
                    assert(upd[a] == orig[a] && upd[b] == orig[b]);
                } else if a == ix {
                    assert(upd[a].email@ == user.email@ && upd[b] == orig[b]);
                    if orig[b].email@ == user.email@ {
                        assert(orig[b].id == user.id);
                        assert(orig[b].id == orig[ix].id);
                    }
                } else {
                    assert(upd[b].email@ == user.email@ && upd[a] == orig[a]);
                    if orig[a].email@ == user.email@ {
                        assert(orig[a].id == user.id);
                        assert(orig[a].id == orig[ix].id);
                    }
                }
            }
            assert forall|a: int| 0 <= a < upd.len() implies (#[trigger] upd[a]).id
                < self.next_id by {
                if a != ix {
                    assert(upd[a] == orig[a]);
                } else {
                    assert(upd[a].id == orig[ix].id);
                }
            }
        }
        Ok(out)
    }

    /// Delete the row with this id. Fails with `NotFound` when no such row
    /// exists.
    pub fn delete_by_id(&mut self, id: u64) -> (r: Result<(), AppError>)
        requires
            old(self).wf(),
        ensures
            final(self).wf(),
            final(self).next_id == old(self).next_id,
            r is Ok <==> spec_find_id(old(self).users@, id) is Some,
            r is Err ==> r == Err::<(), AppError>(AppError::NotFound) && *final(self) == *old(
                self,
            ),
            r is Ok ==> final(self).users@ == old(self).users@.filter(|u: User| u.id != id),
    {
        let n = self.users.len();
        let mut out: Vec<User> = Vec::new();
        let mut found = false;
        let mut i: usize = 0;
        while i < n
            invariant
                i <= n,
                n == self.users@.len(),
                *self == *old(self),
                out@ == self.users@.take(i as int).filter(|u: User| u.id != id),
                found <==> exists|j: int|
                    0 <= j < i && (#[trigger] self.users@[j]).id == id,
            decreases n - i,
        {
            proof {
                reveal(Seq::filter);
                assert(self.users@.take(i as int + 1).drop_last() =~= self.users@.take(i as int));
                assert(self.users@.take(i as int + 1).last() == self.users@[i as int]);
            }
            if self.users[i].id != id {
                out.push(self.users[i].duplicate());
            } else {
                found = true;
            }
            i = i + 1;
        }
        proof {
            lemma_find_id_props(self.users@, id);
        }
        if !found {
            return Err(AppError::NotFound);
        }
        proof {
            reveal(Seq::filter);
            assert(self.users@.take(n as int) =~= self.users@);
            lemma_filter_distinct(self.users@, |u: User| u.id != id, |u: User| u.id);
            lemma_filter_distinct(self.users@, |u: User| u.id != id, |u: User| u.email@);
            let fs = self.users@.filter(|u: User| u.id != id);
            assert forall|k: int| 0 <= k < fs.len() implies (#[trigger] fs[k]).id
                < self.next_id by {
                lemma_filter_membership(self.users@, |u: User| u.id != id, fs[k]);
                let i0 = choose|i0: int| 0 <= i0 < self.users@.len() && self.users@[i0] == fs[k];
                assert(self.users@[i0].id < self.next_id);
            }
            let u0 = spec_find_id(self.users@, id).unwrap();
            let j0 = choose|j0: int|
                0 <= j0 < self.users@.len() && self.users@[j0] == u0 && u0.id == id;
        }
        self.users = out;
        Ok(())
    }
}

/// The page number actually used: absent or zero means the first page.
pub open spec fn spec_page(options: UserQueryOptions) -> u32 {
    match options.page {
        Some(p) => if p == 0 { 1 } else { p },
        None => 1,
    }
}

/// The page size actually used: absent or zero means the default of ten.
pub open spec fn spec_limit(options: UserQueryOptions) -> u32 {
    match options.limit {
        Some(l) => if l == 0 { 10 } else { l },
        None => 10,
    }
}

/// Ceiling division of the row count by the page size, saturated to `u32`.
pub open spec fn spec_total_pages(total: nat, limit: nat) -> u32 {
    if (total + limit - 1) / (limit as int) > u32::MAX {
        u32::MAX
    } else {
        (((total + limit - 1) as int) / (limit as int)) as u32
    }
}

/// What a user looks like after an in-place update of the optional fields.
pub open spec fn spec_apply_update(
    u: User,
    name: Option<String>,
    email: Option<String>,
    password: Option<String>,
) -> User {
    User {
        id: u.id,
        name: if name is Some {
            name.unwrap()
        } else {
            u.name
        },
        email: if email is Some {
            email.unwrap()
        } else {
            u.email
        },
        password: if password is Some {
            password.unwrap()
        } else {
            u.password
        },
        role: u.role,
        is_email_verified: u.is_email_verified,
        created_at: u.created_at,
        updated_at: u.updated_at,
    }
}

impl UserRepository {
    /// Update the optional fields of the row with this id, stamping
    /// `updated_at`. Fails with `NotFound` when no such row exists, and with
    /// `Conflict` when the new email belongs to a different row.
    pub fn update_by_id(
        &mut self,
        id: u64,
        name: Option<String>,
        email: Option<String>,
        password: Option<String>,
        now: u64,
    ) -> (r: Result<User, AppError>)
        requires
            old(self).wf(),
        ensures
            final(self).wf(),
            final(self).next_id == old(self).next_id,
            spec_find_id(old(self).users@, id) is None ==> r == Err::<User, AppError>(
                AppError::NotFound,
            ),
            r is Err ==> *final(self) == *old(self),
            r is Ok <==> (spec_find_id(old(self).users@, id) is Some && (forall|i: int|
                0 <= i < old(self).users@.len() ==> ((#[trigger] old(self).users@[i]).email@
                    == spec_apply_update(
                    spec_find_id(old(self).users@, id).unwrap(),
                    name,
                    email,
                    password,
                ).email@ ==> old(self).users@[i].id == id))),
            spec_find_id(old(self).users@, id) is Some && r is Err ==> r == Err::<User, AppError>(
                AppError::Conflict,
            ),
            r is Ok ==> ({
                let u1 = spec_apply_update(
                    spec_find_id(old(self).users@, id).unwrap(),
                    name,
                    email,
                    password,
                );
                let saved = r.unwrap();
                &&& saved.id == id
                &&& saved.name == u1.name
                &&& saved.email == u1.email
                &&& saved.password == u1.password
                &&& saved.role == u1.role
                &&& saved.is_email_verified == u1.is_email_verified
                &&& saved.created_at == u1.created_at
                &&& saved.updated_at == now
                &&& exists|k: int|
                    0 <= k < old(self).users@.len() && (#[trigger] old(self).users@[k]).id == id
                        && final(self).users@ == old(self).users@.update(k, saved)
            }),
    {
        let current = match self.find_by_id(id) {
            Some(u) => u,
            None => {
                return Err(AppError::NotFound);
            },
        };
        proof {
            lemma_find_id_props(self.users@, id);
        }
        let updated = User {
            id: current.id,
            name: match name {
                Some(v) => v,
                None => current.name,
            },
            email: match email {
                Some(v) => v,
                None => current.email,
            },
            password: match password {
                Some(v) => v,
                None => current.password,
            },
            role: current.role,
            is_email_verified: current.is_email_verified,
            created_at: current.created_at,
            updated_at: current.updated_at,
        };
        self.save(&updated, now)
    }
}

impl UserRepository {
    /// One page of users, newest first (reverse insertion order), with the
    /// page and page-size defaults applied and the total page count.
    pub fn query_users(&self, options: &UserQueryOptions) -> (r: PaginatedResult<User>)
        ensures
            r.page == spec_page(*options),
            r.limit == spec_limit(*options),
            r.total_results == self.users@.len(),
            r.total_pages == spec_total_pages(
                self.users@.len() as nat,
                spec_limit(*options) as nat,
            ),
            ({
                let len = self.users@.len() as int;
                let off = (spec_page(*options) as int - 1) * (spec_limit(*options) as int);
                &&& (off >= len ==> r.results@.len() == 0)
                &&& (off < len ==> r.results@.len() == (if len - off < spec_limit(*options) as int {
                    len - off
                } else {
                    spec_limit(*options) as int
                }))
                &&& forall|j: int|
                    0 <= j < r.results@.len() ==> #[trigger] r.results@[j] == self.users@[len - 1
                        - off - j]
            }),
    {
        let page: u32 = match options.page {
            Some(p) => if p == 0 {
                1
            } else {
                p
            },
            None => 1,
        };
        let limit: u32 = match options.limit {
            Some(l) => if l == 0 {
                10
            } else {
                l
            },
            None => 10,
        };
        let len = self.users.len();
        proof {
            assert((page as int - 1) * (limit as int) <= 0xffff_fffe * 0xffff_ffff) by (nonlinear_arith)
                requires
                    1 <= page <= 0xffff_ffff,
                    1 <= limit <= 0xffff_ffff,
            ;
            assert((page as int - 1) * (limit as int) >= 0) by (nonlinear_arith)
                requires
                    1 <= page,
                    1 <= limit,
            ;
        }
        let off64: u64 = (page as u64 - 1) * (limit as u64);
        let cnt: usize = if off64 >= len as u64 {
            0
        } else {
            let rem = len as u64 - off64;
            if rem < limit as u64 {
                rem as usize
            } else {
                limit as usize
            }
        };
        let mut results: Vec<User> = Vec::new();
        let mut j: usize = 0;
        while j < cnt
            invariant
                j <= cnt,
                len == self.users@.len(),
                off64 == (spec_page(*options) as int - 1) * (spec_limit(*options) as int),
                cnt == 0 || cnt + off64 <= len,
                results@.len() == j,
                forall|q: int|
                    0 <= q < j ==> #[trigger] results@[q] == self.users@[len - 1 - off64 - q],
            decreases cnt - j,
        {
            let idx: usize = len - 1 - (off64 as usize) - j;
            results.push(self.users[idx].duplicate());
            j = j + 1;
        }
        let limit128 = limit as u128;
        let t128: u128 = (len as u128 + limit128 - 1) / limit128;
        let total_pages: u32 = if t128 > u32::MAX as u128 {
            u32::MAX
        } else {
            t128 as u32
        };
        PaginatedResult { results, page, limit, total_pages, total_results: len as u64 }
    }
}

} // verus!
