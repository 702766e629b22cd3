use vstd::prelude::*;
use vstd::pervasive::VecAdditionalExecFns;

use crate::error::Error;
use crate::strings::str_eq;
use crate::token::Token;

verus! {

/// Whether some token in `s` bears the scope.
pub open spec fn has_scope(s: Seq<Token>, scope: Seq<char>) -> bool {
    exists|i: int| 0 <= i < s.len() && s[i].scope@ == scope
}

/// The position of the token bearing the scope; meaningful only under
/// `has_scope`, and unique under `distinct_scopes`.
pub open spec fn scope_index(s: Seq<Token>, scope: Seq<char>) -> int {
    choose|i: int| 0 <= i < s.len() && s[i].scope@ == scope
}

/// The token stored for the scope, or absence.
pub open spec fn token_for(s: Seq<Token>, scope: Seq<char>) -> Option<Token> {
    if has_scope(s, scope) {
        Some(s[scope_index(s, scope)])
    } else {
        None
    }
}

/// At most one token per scope: the store's row invariant.
pub open spec fn distinct_scopes(s: Seq<Token>) -> bool {
    forall|i: int, j: int| 0 <= i < j < s.len() ==> s[i].scope@ != s[j].scope@
}

/// The store's contents after an upsert: the row for the token's scope is
/// replaced in place if one exists, else the token is appended.
pub open spec fn upserted(s: Seq<Token>, t: Token) -> Seq<Token> {
    if has_scope(s, t.scope@) {
        s.update(scope_index(s, t.scope@), t)
    } else {
        s.push(t)
    }
}

/// Scope-indexed persistence for tokens, with upsert semantics: one row per
/// scope, a second issuance for a scope replaces the row and never
/// duplicates it.
pub struct TokenStore {
    tokens: Vec<Token>,
}

impl View for TokenStore {
    type V = Seq<Token>;

    closed spec fn view(&self) -> Seq<Token> {
        self.tokens@
    }
}

impl TokenStore {
    /// One token per scope.
    pub open spec fn wf(&self) -> bool {
        distinct_scopes(self@)
    }

    pub fn new() -> (r: TokenStore)
        ensures
            r@ =~= Seq::<Token>::empty(),
            r.wf(),
    {
        TokenStore { tokens: Vec::new() }
    }

    /// The position of the scope's row, if the scope has one.
    fn position_of(&self, scope: &str) -> (r: Option<usize>)
        ensures
            (match r {
                Some(i) => i < self@.len() && self@[i as int].scope@ == scope@,
                None => !has_scope(self@, scope@),
            }),
    {
        let n = self.tokens.len();
        let mut i: usize = 0;
        while i < n
            invariant
                i <= n,
                n == self@.len(),
                forall|j: int| 0 <= j < i ==> self@[j].scope@ != scope@,
            decreases n - i,
        {
            if str_eq(self.tokens[i].scope.as_str(), scope) {
                return Some(i);
            }
            i = i + 1;
        }
        None
    }

    /// Existence check, used to choose insert-versus-update semantics.
    pub fn contains_scope(&self, scope: &str) -> (r: bool)
        ensures
            r == has_scope(self@, scope@),
    {
        self.position_of(scope).is_some()
    }

    /// Inserts a token for a scope with no row yet; an existing row is a
    /// `Conflict` and leaves the store unchanged.
    pub fn insert(&mut self, token: Token) -> (r: Result<(), Error>)
        requires
            old(self).wf(),
        ensures
            final(self).wf(),
            (match r {
                Ok(()) => !has_scope(old(self)@, token.scope@) && final(self)@ == old(self)@.push(
                    token,
                ),
                Err(Error::Conflict) => has_scope(old(self)@, token.scope@) && final(self)@ == old(
                    self,
                )@,
                Err(_) => false,
            }),
    {
        if self.contains_scope(token.scope.as_str()) {
            return Err(Error::Conflict);
        }
        self.tokens.push(token);
        proof {
            assert forall|i: int, j: int| 0 <= i < j < self@.len() implies self@[i].scope@
                != self@[j].scope@ by {
                if j < self@.len() - 1 {
                    assert(old(self).wf());
                } else {
                    assert(self@[i] == old(self)@[i]);
                }
            }
        }
        Ok(())
    }

    /// Replaces the row matching the token's scope; a scope with no row is
    /// `NotFound` and leaves the store unchanged.
    pub fn update(&mut self, token: Token) -> (r: Result<(), Error>)
        requires
            old(self).wf(),
        ensures
            final(self).wf(),
            (match r {
                Ok(()) => has_scope(old(self)@, token.scope@) && final(self)@ == old(self)@.update(
                    scope_index(old(self)@, token.scope@),
                    token,
                ),
                Err(Error::NotFound) => !has_scope(old(self)@, token.scope@) && final(self)@ == old(
                    self,
                )@,
                Err(_) => false,
            }),
    {
        match self.position_of(token.scope.as_str()) {
            Some(i) => {
                proof {
                    lemma_scope_index_unique(self@, token.scope@, i as int);
                    lemma_update_keeps_distinct(self@, i as int, token);
                }
                self.tokens.set(i, token);
                Ok(())
            },
            None => Err(Error::NotFound),
        }
    }

    /// Insert-or-update keyed by the token's scope: the operation the
    /// coordinator persists through. Never duplicates a row.
    pub fn upsert(&mut self, token: Token)
        requires
            old(self).wf(),
        ensures
            final(self).wf(),
            final(self)@ == upserted(old(self)@, token),
    {
        match self.position_of(token.scope.as_str()) {
            Some(i) => {
                proof {
                    lemma_scope_index_unique(self@, token.scope@, i as int);
                    lemma_update_keeps_distinct(self@, i as int, token);
                }
                self.tokens.set(i, token);
            },
            None => {
                self.tokens.push(token);
                proof {
                    assert forall|i: int, j: int| 0 <= i < j < self@.len() implies self@[i].scope@
                        != self@[j].scope@ by {
                        if j < self@.len() - 1 {
                            assert(old(self).wf());
                        } else {
                            assert(self@[i] == old(self)@[i]);
                        }
                    }
                }
            },
        }
    }

    /// The current token for a scope, or absence.
    pub fn get_by_scope(&self, scope: &str) -> (r: Option<Token>)
        requires
            self.wf(),
        ensures
            r == token_for(self@, scope@),
    {
        match self.position_of(scope) {
            Some(i) => {
                proof {
                    lemma_scope_index_unique(self@, scope@, i as int);
                }
                Some(self.tokens[i].clone())
            },
            None => None,
        }
    }

    /// A full snapshot of every stored token.
    pub fn get_all(&self) -> (r: Vec<Token>)
        ensures
            r@ == self@,
    {
        let n = self.tokens.len();
        let mut out: Vec<Token> = Vec::new();
        let mut i: usize = 0;
        while i < n
            invariant
                i <= n,
                n == self@.len(),
                out@ =~= self@.take(i as int),
            decreases n - i,
        {
            out.push(self.tokens[i].clone());
            i = i + 1;
        }
        proof {
            assert(self@.take(n as int) =~= self@);
        }
        out
    }
}

/// Under distinct scopes, any position bearing a scope is the position
/// `scope_index` picks.
pub proof fn lemma_scope_index_unique(s: Seq<Token>, scope: Seq<char>, i: int)
    requires
        distinct_scopes(s),
        0 <= i < s.len(),
        s[i].scope@ == scope,
    ensures
        has_scope(s, scope),
        scope_index(s, scope) == i,
{
    assert(has_scope(s, scope));
    let j = scope_index(s, scope);
    if i < j {
        assert(s[i].scope@ != s[j].scope@);
    } else if j < i {
        assert(s[j].scope@ != s[i].scope@);
    }
}

/// Replacing a row with a token of the same scope keeps scopes distinct.
proof fn lemma_update_keeps_distinct(s: Seq<Token>, i: int, t: Token)
    requires
        distinct_scopes(s),
        0 <= i < s.len(),
        s[i].scope@ == t.scope@,
    ensures
        distinct_scopes(s.update(i, t)),
{
    let u = s.update(i, t);
    assert forall|p: int, q: int| 0 <= p < q < u.len() implies u[p].scope@ != u[q].scope@ by {
        assert(s[p].scope@ != s[q].scope@);
    }
}

/// Law: upsert round-trips through lookup. After upserting a token, the
/// lookup for its scope yields exactly that token, and the one-row-per-scope
/// invariant still holds.
pub proof fn lemma_upsert_get_roundtrip(s: Seq<Token>, t: Token)
    requires
        distinct_scopes(s),
    ensures
        distinct_scopes(upserted(s, t)),
        token_for(upserted(s, t), t.scope@) == Some(t),
{
    let u = upserted(s, t);
    if has_scope(s, t.scope@) {
        let i = scope_index(s, t.scope@);
        assert(0 <= i < s.len() && s[i].scope@ == t.scope@);
        lemma_update_keeps_distinct(s, i, t);
        assert(u[i] == t);
        lemma_scope_index_unique(u, t.scope@, i);
    } else {
        let n = s.len() as int;
        assert forall|p: int, q: int| 0 <= p < q < u.len() implies u[p].scope@ != u[q].scope@ by {
            if q < n {
                assert(s[p].scope@ != s[q].scope@);
            } else {
                assert(u[q] == t);
                assert(u[p] == s[p]);
                assert(!has_scope(s, t.scope@));
                assert(s[p].scope@ != t.scope@);
            }
        }
        assert(u[n] == t);
        lemma_scope_index_unique(u, t.scope@, n);
    }
}

/// Law: an upsert touches no other scope's row.
pub proof fn lemma_upsert_preserves_other_scopes(s: Seq<Token>, t: Token, other: Seq<char>)
    requires
        distinct_scopes(s),
        other != t.scope@,
    ensures
        token_for(upserted(s, t), other) == token_for(s, other),
{
    let u = upserted(s, t);
    if has_scope(s, other) {
        let i = scope_index(s, other);
        assert(0 <= i < s.len() && s[i].scope@ == other);
        if has_scope(s, t.scope@) {
            let k = scope_index(s, t.scope@);
            assert(i != k);
            assert(u[i] == s[i]);
        } else {
            assert(u[i] == s[i]);
        }
        lemma_upsert_get_roundtrip(s, t);
        lemma_scope_index_unique(u, other, i);
        lemma_scope_index_unique(s, other, i);
    } else {
        if has_scope(u, other) {
            let i = scope_index(u, other);
            assert(0 <= i < u.len() && u[i].scope@ == other);
            if has_scope(s, t.scope@) {
                assert(u[i] == s[i] || u[i] == t);
                assert(has_scope(s, other));
            } else {
                if i < s.len() {
                    assert(u[i] == s[i]);
                    assert(has_scope(s, other));
                } else {
                    assert(u[i] == t);
                }
            }
        }
    }
}

} // verus!
