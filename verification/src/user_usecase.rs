//! The user-management usecase: administrative CRUD over identities, always
//! returning the public projection rather than the raw row.

use vstd::prelude::*;
use crate::auth_usecase::{bcrypt_check, hash_password};
use crate::error::AppError;
use crate::user_model::{FilteredUser, Role, spec_filtered};
use crate::user_repository::{
    PaginatedResult, UserQueryOptions, UserRepository, spec_find_id, spec_has_email, spec_limit,
    spec_page, spec_total_pages,
};

verus! {

/// The bcrypt cost used for administratively set credentials.
pub const ADMIN_HASH_COST: u32 = 10;

/// Create an identity with an arbitrary role; rejects a taken email with
/// `Conflict`.
pub fn create_user(
    users: &mut UserRepository,
    name: &str,
    email: &str,
    password: &str,
    role: Role,
    now: u64,
) -> (r: Result<FilteredUser, AppError>)
    requires
        old(users).wf(),
    ensures
        final(users).wf(),
        r is Err ==> *final(users) == *old(users),
        r == Err::<FilteredUser, AppError>(AppError::Conflict) <==> spec_has_email(
            old(users).users@,
            email@,
        ),
        r is Err ==> (r == Err::<FilteredUser, AppError>(AppError::Conflict) || r == Err::<
            FilteredUser,
            AppError,
        >(AppError::InternalServerError)),
        r is Ok ==> ({
            let u = final(users).users@.last();
            &&& !spec_has_email(old(users).users@, email@)
            &&& final(users).users@ == old(users).users@.push(u)
            &&& final(users).next_id == old(users).next_id + 1
            &&& u.id == old(users).next_id
            &&& u.name@ == name@
            &&& u.email@ == email@
            &&& bcrypt_check(password@, u.password@) == Some(true)
            &&& u.role == role
            &&& !u.is_email_verified
            &&& u.created_at == now
            &&& u.updated_at == now
            &&& r.unwrap() == spec_filtered(u)
        }),
{
    match users.find_by_email(email) {
        Some(_) => {
            return Err(AppError::Conflict);
        },
        None => {},
    }
    let password_hash = match hash_password(password, ADMIN_HASH_COST) {
        Ok(h) => h,
        Err(_) => {
            return Err(AppError::InternalServerError);
        },
    };
    let new_user = match users.create(name, email, password_hash.as_str(), role, now) {
        Ok(u) => u,
        Err(_) => {
            return Err(AppError::InternalServerError);
        },
    };
    Ok(FilteredUser::from(&new_user))
}

/// One page of users, newest first, projected.
pub fn get_users(users: &UserRepository, options: &UserQueryOptions) -> (r: PaginatedResult<
    FilteredUser,
>)
    ensures
        r.page == spec_page(*options),
        r.limit == spec_limit(*options),
        r.total_results == users.users@.len(),
        r.total_pages == spec_total_pages(users.users@.len() as nat, spec_limit(*options) as nat),
        ({
            let len = users.users@.len() as int;
            let off = (spec_page(*options) as int - 1) * (spec_limit(*options) as int);
            &&& (off >= len ==> r.results@.len() == 0)
            &&& (off < len ==> r.results@.len() == (if len - off < spec_limit(*options) as int {
                len - off
            } else {
                spec_limit(*options) as int
            }))
            &&& forall|j: int|
                0 <= j < r.results@.len() ==> #[trigger] r.results@[j] == spec_filtered(
                    users.users@[len - 1 - off - j],
                )
        }),
{
    let page = users.query_users(options);
    let n = page.results.len();
    let mut results: Vec<FilteredUser> = Vec::new();
    let mut i: usize = 0;
    while i < n
        invariant
            i <= n,
            n == page.results@.len(),
            results@.len() == i,
            forall|q: int|
                0 <= q < i ==> #[trigger] results@[q] == spec_filtered(page.results@[q]),
        decreases n - i,
    {
        results.push(FilteredUser::from(&page.results[i]));
        i = i + 1;
    }
    PaginatedResult {
        results,
        page: page.page,
        limit: page.limit,
        total_pages: page.total_pages,
        total_results: page.total_results,
    }
}

/// Look one user up by id, projected; fails `NotFound` when absent.
pub fn get_user_by_id(users: &UserRepository, id: u64) -> (r: Result<FilteredUser, AppError>)
    ensures
        spec_find_id(users.users@, id) is None ==> r == Err::<FilteredUser, AppError>(
            AppError::NotFound,
        ),
        spec_find_id(users.users@, id) matches Some(u) ==> r == Ok::<FilteredUser, AppError>(
            spec_filtered(u),
        ),
{
    match users.find_by_id(id) {
        Some(u) => Ok(FilteredUser::from(&u)),
        None => Err(AppError::NotFound),
    }
}

/// Update name, email or password of one user; a given password is hashed
/// before it is stored. Fails `NotFound` when the id is absent and
/// `Conflict` when the new email belongs to another user.
pub fn update_user(
    users: &mut UserRepository,
    id: u64,
    name: Option<String>,
    email: Option<String>,
    password: Option<String>,
    now: u64,
) -> (r: Result<FilteredUser, AppError>)
    requires
        old(users).wf(),
    ensures
        final(users).wf(),
        final(users).next_id == old(users).next_id,
        r is Err ==> *final(users) == *old(users),
        spec_find_id(old(users).users@, id) is None ==> r == Err::<FilteredUser, AppError>(
            AppError::NotFound,
        ),
        password is None && spec_find_id(old(users).users@, id) is Some && r is Err ==> r == Err::<
            FilteredUser,
            AppError,
        >(AppError::Conflict),
        r is Ok ==> ({
            let u0 = spec_find_id(old(users).users@, id).unwrap();
            let saved = spec_find_id(final(users).users@, id).unwrap();
            let fu = r.unwrap();
            &&& spec_find_id(old(users).users@, id) is Some
            &&& fu == spec_filtered(saved)
            &&& saved.id == id
            &&& (name matches Some(v) ==> saved.name == v)
            &&& (name is None ==> saved.name == u0.name)
            &&& (email matches Some(v) ==> saved.email == v)
            &&& (email is None ==> saved.email == u0.email)
            &&& (password matches Some(v) ==> bcrypt_check(v@, saved.password@) == Some(true))
            &&& (password is None ==> saved.password == u0.password)
            &&& saved.role == u0.role
            &&& saved.is_email_verified == u0.is_email_verified
            &&& saved.created_at == u0.created_at
            &&& saved.updated_at == now
            &&& exists|k: int|
                0 <= k < old(users).users@.len() && (#[trigger] old(users).users@[k]).id == id
                    && final(users).users@ == old(users).users@.update(k, saved)
        }),
{
    match users.find_by_id(id) {
        Some(_) => {},
        None => {
            return Err(AppError::NotFound);
        },
    }
    let password_hash = match password {
        Some(p) => {
            match hash_password(p.as_str(), ADMIN_HASH_COST) {
                Ok(h) => Some(h),
                Err(_) => {
                    return Err(AppError::InternalServerError);
                },
            }
        },
        None => None,
    };
    let r = users.update_by_id(id, name, email, password_hash, now);
    match r {
        Ok(saved) => {
            proof {
                crate::user_repository::lemma_find_id_props(old(users).users@, id);
                let k = choose|k: int|
                    0 <= k < old(users).users@.len() && (#[trigger] old(users).users@[k]).id == id
                        && final(users).users@ == old(users).users@.update(k, saved);
                crate::user_repository::lemma_find_id_at_update(old(users).users@, k, saved);
            }
            Ok(FilteredUser::from(&saved))
        },
        Err(e) => Err(e),
    }
}

/// Delete one user; fails `NotFound` when the id is absent.
pub fn delete_user(users: &mut UserRepository, id: u64) -> (r: Result<(), AppError>)
    requires
        old(users).wf(),
    ensures
        final(users).wf(),
        final(users).next_id == old(users).next_id,
        r is Ok <==> spec_find_id(old(users).users@, id) is Some,
        r is Err ==> r == Err::<(), AppError>(AppError::NotFound) && *final(users) == *old(users),
        r is Ok ==> final(users).users@ == old(users).users@.filter(|u: crate::user_model::User| u.id != id),
{
    users.delete_by_id(id)
}

} // verus!
