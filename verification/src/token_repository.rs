//! The refresh-token store: persists, looks up and deletes refresh-token
//! records. In-memory, with the invariants the service relies on: record ids
//! are unique and below the id counter, and token strings are unique.

use vstd::prelude::*;
use crate::error::AppError;
use crate::token_model::TokenType;
use crate::user_model::str_eq;
use crate::seq_util::{lemma_filter_distinct, lemma_filter_membership};

verus! {

/// A persisted token record. `blacklisted` marks a revoked record that is
/// kept instead of deleted; lookups exclude it.
pub struct Token {
    pub id: u64,
    pub token: String,
    pub user_id: u64,
    pub token_type: TokenType,
    pub expires_at: u64,
    pub blacklisted: bool,
}

impl Token {
    /// An exact copy, usable in contracts.
    pub fn duplicate(&self) -> (r: Token)
        ensures
            r == *self,
    {
        Token {
            id: self.id,
            token: self.token.clone(),
            user_id: self.user_id,
            token_type: self.token_type,
            expires_at: self.expires_at,
            blacklisted: self.blacklisted,
        }
    }
}

/// Does any record (revoked or not) carry this token string?
pub open spec fn spec_has_token(records: Seq<Token>, token: Seq<char>) -> bool {
    exists|i: int| 0 <= i < records.len() && (#[trigger] records[i]).token@ == token
}

/// The first non-revoked record carrying this token string.
pub open spec fn spec_find_active(records: Seq<Token>, token: Seq<char>) -> Option<Token>
    decreases records.len(),
{
    if records.len() == 0 {
        None
    } else if records[0].token@ == token && !records[0].blacklisted {
        Some(records[0])
    } else {
        spec_find_active(records.drop_first(), token)
    }
}

/// Is there a live (non-revoked) record for this token string?
pub open spec fn spec_has_active(records: Seq<Token>, token: Seq<char>) -> bool {
    spec_find_active(records, token) is Some
}

/// A found record is a record: it lies in the store, carries the looked-up
/// token string, and is not revoked.
pub proof fn lemma_find_active_props(records: Seq<Token>, token: Seq<char>)
    ensures
        spec_find_active(records, token) matches Some(rec) ==> exists|i: int|
            0 <= i < records.len() && records[i] == rec && rec.token@ == token
                && !rec.blacklisted,
    decreases records.len(),
{
    if records.len() > 0 {
        if !(records[0].token@ == token && !records[0].blacklisted) {
            lemma_find_active_props(records.drop_first(), token);
            if spec_find_active(records.drop_first(), token) is Some {
                let rec = spec_find_active(records.drop_first(), token).unwrap();
                let i = choose|i: int|
                    0 <= i < records.drop_first().len() && records.drop_first()[i] == rec
                        && rec.token@ == token && !rec.blacklisted;
                assert(records[i + 1] == rec);
            }
        }
    }
}

/// A token string carried by no record is found by no lookup.
pub proof fn lemma_no_token_no_active(records: Seq<Token>, token: Seq<char>)
    requires
        !spec_has_token(records, token),
    ensures
        spec_find_active(records, token) is None,
    decreases records.len(),
{
    if records.len() > 0 {
        assert(records[0].token@ != token);
        assert forall|i: int| 0 <= i < records.drop_first().len() implies (
        #[trigger] records.drop_first()[i]).token@ != token by {
            assert(records.drop_first()[i] == records[i + 1]);
        }
        lemma_no_token_no_active(records.drop_first(), token);
    }
}

/// The refresh-token store. One production implementation, in memory: a
/// growing id counter and the records in insertion order.
pub struct TokenRepository {
    pub records: Vec<Token>,
    pub next_id: u64,
}

impl TokenRepository {
    /// The store's invariant: ids unique and below the counter, token
    /// strings unique.
    pub open spec fn wf(self) -> bool {
        &&& forall|i: int, j: int|
            0 <= i < j < self.records@.len() ==> (#[trigger] self.records@[i]).id != (
            #[trigger] self.records@[j]).id
        &&& forall|i: int|
            0 <= i < self.records@.len() ==> (#[trigger] self.records@[i]).id < self.next_id
        &&& forall|i: int, j: int|
            0 <= i < j < self.records@.len() ==> (#[trigger] self.records@[i]).token@ != (
            #[trigger] self.records@[j]).token@
    }

    pub fn new() -> (r: TokenRepository)
        ensures
            r.wf(),
            r.records@ == Seq::<Token>::empty(),
            r.next_id == 0,
    {
        TokenRepository { records: Vec::new(), next_id: 0 }
    }

    /// Insert a new record. Fails with `Conflict` when the token string
    /// collides with any stored record — which a secure generator never
    /// produces — and with `InternalServerError` when the id space is
    /// exhausted.
    pub fn create(
        &mut self,
        token: &str,
        user_id: u64,
        expires_at: u64,
        token_type: TokenType,
    ) -> (r: Result<Token, AppError>)
        requires
            old(self).wf(),
        ensures
            final(self).wf(),
            r is Ok <==> (!spec_has_token(old(self).records@, token@) && old(self).next_id
                < u64::MAX),
            r is Ok ==> ({
                let rec = r.unwrap();
                &&& rec.id == old(self).next_id
                &&& rec.token@ == token@
                &&& rec.user_id == user_id
                &&& rec.token_type == token_type
                &&& rec.expires_at == expires_at
                &&& !rec.blacklisted
                &&& final(self).records@ == old(self).records@.push(rec)
                &&& final(self).next_id == old(self).next_id + 1
            }),
            r is Err ==> *final(self) == *old(self),
            spec_has_token(old(self).records@, token@) ==> r == Err::<Token, AppError>(
                AppError::Conflict,
            ),
            !spec_has_token(old(self).records@, token@) && old(self).next_id == u64::MAX ==> r
                == Err::<Token, AppError>(AppError::InternalServerError),
    {
        let n = self.records.len();
        let mut i: usize = 0;
        while i < n
            invariant
                old(self).wf(),
                i <= n,
                n == self.records@.len(),
                *self == *old(self),
                forall|j: int| 0 <= j < i ==> (#[trigger] self.records@[j]).token@ != token@,
            decreases n - i,
        {
            if str_eq(self.records[i].token.as_str(), token) {
                return Err(AppError::Conflict);
            }
            i = i + 1;
        }
        if self.next_id == u64::MAX {
            return Err(AppError::InternalServerError);
        }
        let rec = Token {
            id: self.next_id,
            token: String::from_str(token),
            user_id,
            token_type,
            expires_at,
            blacklisted: false,
        };
        let out = rec.duplicate();
        self.records.push(rec);
        self.next_id = self.next_id + 1;
        Ok(out)
    }

    /// Look up the live record with this exact token string, excluding
    /// revoked records.
    pub fn find_by_token(&self, token: &str) -> (r: Option<Token>)
        ensures
            r == spec_find_active(self.records@, token@),
    {
        let n = self.records.len();
        let mut i: usize = 0;
        proof {
            assert(self.records@.skip(0) =~= self.records@);
        }
        while i < n
            invariant
                i <= n,
                n == self.records@.len(),
                spec_find_active(self.records@, token@) == spec_find_active(
                    self.records@.skip(i as int),
                    token@,
                ),
            decreases n - i,
        {
            proof {
                assert(self.records@.skip(i as int)[0] == self.records@[i as int]);
                assert(self.records@.skip(i as int).drop_first() =~= self.records@.skip(
                    i as int + 1,
                ));
            }
            if str_eq(self.records[i].token.as_str(), token) {
                if !self.records[i].blacklisted {
                    return Some(self.records[i].duplicate());
                }
            }
            i = i + 1;
        }
        proof {
            assert(self.records@.skip(n as int) =~= Seq::<Token>::empty());
        }
        None
    }

    /// Hard-delete the record with this id; deleting a nonexistent id is not
    /// an error.
    pub fn delete(&mut self, id: u64)
        requires
            old(self).wf(),
        ensures
            final(self).wf(),
            final(self).records@ == old(self).records@.filter(|t: Token| t.id != id),
            final(self).next_id == old(self).next_id,
    {
        let n = self.records.len();
        let mut out: Vec<Token> = Vec::new();
        let mut i: usize = 0;
        while i < n
            invariant
                i <= n,
                n == self.records@.len(),
                *self == *old(self),
                out@ == self.records@.take(i as int).filter(|t: Token| t.id != id),
            decreases n - i,
        {
            proof {
                reveal(Seq::filter);
                assert(self.records@.take(i as int + 1).drop_last() =~= self.records@.take(
                    i as int,
                ));
                assert(self.records@.take(i as int + 1).last() == self.records@[i as int]);
            }
            if self.records[i].id != id {
                out.push(self.records[i].duplicate());
            }
            i = i + 1;
        }
        proof {
            reveal(Seq::filter);
            assert(self.records@.take(n as int) =~= self.records@);
            lemma_filter_distinct(self.records@, |t: Token| t.id != id, |t: Token| t.id);
            lemma_filter_distinct(self.records@, |t: Token| t.id != id, |t: Token| t.token@);
            let fs = self.records@.filter(|t: Token| t.id != id);
            assert forall|k: int| 0 <= k < fs.len() implies (#[trigger] fs[k]).id
                < self.next_id by {
                lemma_filter_membership(self.records@, |t: Token| t.id != id, fs[k]);
                let i0 = choose|i0: int|
                    0 <= i0 < self.records@.len() && self.records@[i0] == fs[k];
                assert(self.records@[i0].id < self.next_id);
            }
        }
        self.records = out;
    }

    /// Bulk revoke: hard-delete every record of one user and kind.
    pub fn delete_user_tokens_by_type(&mut self, user_id: u64, token_type: TokenType)
        requires
            old(self).wf(),
        ensures
            final(self).wf(),
            final(self).records@ == old(self).records@.filter(
                |t: Token| !(t.user_id == user_id && t.token_type == token_type),
            ),
            final(self).next_id == old(self).next_id,
    {
        let n = self.records.len();
        let mut out: Vec<Token> = Vec::new();
        let mut i: usize = 0;
        while i < n
            invariant
                i <= n,
                n == self.records@.len(),
                *self == *old(self),
                out@ == self.records@.take(i as int).filter(|t: Token| !(t.user_id == user_id && t.token_type == token_type)),
            decreases n - i,
        {
            proof {
                reveal(Seq::filter);
                assert(self.records@.take(i as int + 1).drop_last() =~= self.records@.take(
                    i as int,
                ));
                assert(self.records@.take(i as int + 1).last() == self.records@[i as int]);
            }
            if !(self.records[i].user_id == user_id && self.records[i].token_type == token_type) {
                out.push(self.records[i].duplicate());
            }
            i = i + 1;
        }
        proof {
            reveal(Seq::filter);
            assert(self.records@.take(n as int) =~= self.records@);
            lemma_filter_distinct(self.records@, |t: Token| !(t.user_id == user_id && t.token_type == token_type), |t: Token| t.id);
            lemma_filter_distinct(self.records@, |t: Token| !(t.user_id == user_id && t.token_type == token_type), |t: Token| t.token@);
            let fs = self.records@.filter(|t: Token| !(t.user_id == user_id && t.token_type == token_type));
            assert forall|k: int| 0 <= k < fs.len() implies (#[trigger] fs[k]).id
                < self.next_id by {
                lemma_filter_membership(self.records@, |t: Token| !(t.user_id == user_id && t.token_type == token_type), fs[k]);
                let i0 = choose|i0: int|
                    0 <= i0 < self.records@.len() && self.records@[i0] == fs[k];
                assert(self.records@[i0].id < self.next_id);
            }
        }
        self.records = out;
    }
}

} // verus!
