use vstd::prelude::*;

use crate::error::Error;
use crate::secret::opt_secret_view;
use crate::store::{distinct_scopes, token_for, upserted, TokenStore};
use crate::strings::str_eq;
use crate::token::Token;

verus! {

/// What a caller asking for a valid token must do next.
pub enum GetValidStep {
    /// The stored token is unexpired: use it as it stands.
    Ready(Token),
    /// The stored token has expired and holds a refresh token: the caller
    /// gained the one refresh slot for the scope and must run the refresh
    /// exchange for this prior token, then report back.
    MustRefresh(Token),
    /// Another caller's refresh for this scope is in flight: await its
    /// outcome instead of starting a second one.
    AwaitRefresh,
    /// No usable path: no token was ever issued for the scope, or the
    /// expired token holds nothing to refresh with.
    Failed(Error),
}

/// No scope is listed twice among the refreshes in flight.
pub open spec fn distinct_flights(fl: Seq<Seq<char>>) -> bool {
    forall|i: int, j: int| 0 <= i < j < fl.len() ==> fl[i] != fl[j]
}

/// The option behind an optional token reference.
pub open spec fn opt_token(o: Option<&Token>) -> Option<Token> {
    match o {
        Some(t) => Some(*t),
        None => None,
    }
}

/// The get-valid decision: what one call must do, given the stored token
/// for the scope, whether a refresh for the scope is already in flight,
/// and the time of the call.
pub open spec fn spec_plan_get_valid(
    stored: Option<Token>,
    refresh_in_flight: bool,
    now: int,
) -> GetValidStep {
    if refresh_in_flight {
        GetValidStep::AwaitRefresh
    } else {
        match stored {
            None => GetValidStep::Failed(Error::NotFound),
            Some(t) => if !t.spec_is_expired(now) {
                GetValidStep::Ready(t)
            } else if opt_secret_view(t.refresh_token) is Some {
                GetValidStep::MustRefresh(t)
            } else {
                GetValidStep::Failed(Error::MissingRefreshToken)
            },
        }
    }
}

/// The get-valid decision as a pure function, for callers that hold their
/// token rows and their refresh serialization elsewhere: a lock held for
/// the scope plays the part of `refresh_in_flight == false`.
pub fn plan_get_valid(stored: Option<&Token>, refresh_in_flight: bool, now: u64) -> (r:
    GetValidStep)
    ensures
        r == spec_plan_get_valid(opt_token(stored), refresh_in_flight, now as int),
{
    if refresh_in_flight {
        return GetValidStep::AwaitRefresh;
    }
    match stored {
        None => GetValidStep::Failed(Error::NotFound),
        Some(t) => {
            if !t.is_expired(now) {
                GetValidStep::Ready(t.clone())
            } else {
                match &t.refresh_token {
                    Some(_) => GetValidStep::MustRefresh(t.clone()),
                    None => GetValidStep::Failed(Error::MissingRefreshToken),
                }
            }
        },
    }
}

/// What a caller that refreshed upstream and then tried to persist must
/// surface: with the row persisted, the refreshed token; otherwise the
/// distinct inconsistency failure, since the caller holds a fresh token
/// that the store may not reflect.
pub fn persist_result(token: Token, persisted: bool) -> (r: Result<Token, Error>)
    ensures
        persisted ==> r == Ok::<Token, Error>(token),
        !persisted ==> r == Err::<Token, Error>(Error::PersistenceInconsistency),
{
    if persisted {
        Ok(token)
    } else {
        Err(Error::PersistenceInconsistency)
    }
}

/// The single entry point callers use to obtain a guaranteed-usable token
/// per scope: it owns the stored rows, decides when a refresh must run,
/// and serializes refreshes so that each scope has at most one in flight.
pub struct Coordinator {
    store: TokenStore,
    in_flight: Vec<String>,
}

impl Coordinator {
    /// The stored rows.
    pub closed spec fn spec_store(&self) -> Seq<Token> {
        self.store@
    }

    /// The scopes whose refresh is in flight.
    pub closed spec fn spec_flights(&self) -> Seq<Seq<char>> {
        self.in_flight@.map_values(|s: String| s@)
    }

    /// One row per scope, and one flight entry per scope.
    pub open spec fn wf(&self) -> bool {
        &&& distinct_scopes(self.spec_store())
        &&& distinct_flights(self.spec_flights())
    }

    pub fn new() -> (r: Coordinator)
        ensures
            r.spec_store() =~= Seq::<Token>::empty(),
            r.spec_flights() =~= Seq::<Seq<char>>::empty(),
            r.wf(),
    {
        let r = Coordinator { store: TokenStore::new(), in_flight: Vec::new() };
        proof {
            assert(r.spec_flights() =~= Seq::<Seq<char>>::empty());
        }
        r
    }

    /// Whether a refresh for the scope is in flight.
    fn flight_contains(&self, scope: &str) -> (r: bool)
        ensures
            r == self.spec_flights().contains(scope@),
    {
        let n = self.in_flight.len();
        let mut i: usize = 0;
        while i < n
            invariant
                i <= n,
                n == self.in_flight@.len(),
                self.spec_flights().len() == n,
                forall|j: int| 0 <= j < i ==> self.spec_flights()[j] != scope@,
            decreases n - i,
        {
            if str_eq(self.in_flight[i].as_str(), scope) {
                assert(self.spec_flights()[i as int] == scope@);
                return true;
            }
            i = i + 1;
        }
        false
    }

    /// Drops the scope's flight entry, if one is held.
    fn remove_flight(&mut self, scope: &str)
        requires
            old(self).wf(),
        ensures
            final(self).wf(),
            final(self).spec_store() == old(self).spec_store(),
            !final(self).spec_flights().contains(scope@),
            forall|s: Seq<char>|
                s != scope@ ==> #[trigger] final(self).spec_flights().contains(s) == old(
                    self,
                ).spec_flights().contains(s),
    {
        let n = self.in_flight.len();
        let mut i: usize = 0;
        while i < n
            invariant
                *self == *old(self),
                old(self).wf(),
                i <= n,
                n == self.in_flight@.len(),
                forall|j: int| 0 <= j < i ==> self.spec_flights()[j] != scope@,
            decreases n - i,
        {
            if str_eq(self.in_flight[i].as_str(), scope) {
                let ghost prior = self.spec_flights();
                self.in_flight.remove(i);
                proof {
                    assert(self.spec_flights() =~= prior.remove(i as int));
                    let now_fl = self.spec_flights();
                    assert(distinct_flights(prior));
                    assert forall|p: int, q: int| 0 <= p < q < now_fl.len() implies now_fl[p]
                        != now_fl[q] by {
                        lemma_remove_index(prior, i as int, p);
                        lemma_remove_index(prior, i as int, q);
                    }
                    assert(distinct_flights(now_fl));
                    assert forall|k: int|
                        0 <= k < now_fl.len() implies now_fl[k] != scope@ by {
                        lemma_remove_index(prior, i as int, k);
                        assert(prior[i as int] == scope@);
                    }
                    assert forall|s: Seq<char>|
                        s != scope@ implies #[trigger] now_fl.contains(s) == prior.contains(
                        s,
                    ) by {
                        if prior.contains(s) {
                            let k = choose|k: int|
                                0 <= k < prior.len() && prior[k] == s;
                            if k < i {
                                assert(now_fl[k] == s);
                            } else {
                                assert(prior[i as int] == scope@);
                                assert(k > i);
                                assert(now_fl[k - 1] == s);
                            }
                            assert(now_fl.contains(s));
                        }
                        if now_fl.contains(s) {
                            let k = choose|k: int|
                                0 <= k < now_fl.len() && now_fl[k] == s;
                            lemma_remove_index(prior, i as int, k);
                            assert(prior.contains(s));
                        }
                    }
                }
                return ;
            }
            i = i + 1;
        }
        proof {
            assert forall|s: Seq<char>|
                s != scope@ implies #[trigger] self.spec_flights().contains(s) == old(
                self,
            ).spec_flights().contains(s) by {}
            if self.spec_flights().contains(scope@) {
                let k = choose|k: int|
                    0 <= k < self.spec_flights().len() && self.spec_flights()[k] == scope@;
                assert(false);
            }
        }
    }

    /// Decides one get-valid call for the scope at `now`, and, when the
    /// decision is to refresh, takes the scope's one refresh slot. The
    /// rows are never changed here; only `finish_refresh` changes them.
    pub fn begin_get_valid(&mut self, scope: &str, now: u64) -> (r: GetValidStep)
        requires
            old(self).wf(),
        ensures
            final(self).wf(),
            r == spec_plan_get_valid(
                token_for(old(self).spec_store(), scope@),
                old(self).spec_flights().contains(scope@),
                now as int,
            ),
            final(self).spec_store() == old(self).spec_store(),
            (r is MustRefresh ==> final(self).spec_flights() == old(self).spec_flights().push(
                scope@,
            )),
            (!(r is MustRefresh) ==> final(self).spec_flights() == old(self).spec_flights()),
    {
        if self.flight_contains(scope) {
            return GetValidStep::AwaitRefresh;
        }
        match self.store.get_by_scope(scope) {
            None => GetValidStep::Failed(Error::NotFound),
            Some(t) => {
                if !t.is_expired(now) {
                    GetValidStep::Ready(t)
                } else {
                    match &t.refresh_token {
                        Some(_) => {
                            let ghost prior = self.spec_flights();
                            self.in_flight.push(scope.to_owned());
                            proof {
                                assert(self.spec_flights() =~= prior.push(scope@));
                                assert forall|p: int, q: int|
                                    0 <= p < q < self.spec_flights().len() implies self
                                    .spec_flights()[p] != self.spec_flights()[q] by {
                                    if q == self.spec_flights().len() - 1 {
                                        assert(!prior.contains(scope@));
                                        assert(prior[p] != scope@);
                                    } else {
                                        assert(distinct_flights(prior));
                                    }
                                }
                                assert(distinct_flights(self.spec_flights()));
                            }
                            GetValidStep::MustRefresh(t)
                        },
                        None => GetValidStep::Failed(Error::MissingRefreshToken),
                    }
                }
            },
        }
    }

    /// Records the outcome of the refresh the caller ran after
    /// `MustRefresh`, frees the scope's refresh slot, and hands the outcome
    /// back: a refreshed token is persisted by upsert before it is
    /// returned; on any failure the scope's row stays as it was.
    pub fn finish_refresh(&mut self, scope: &str, outcome: Result<Token, Error>) -> (r: Result<
        Token,
        Error,
    >)
        requires
            old(self).wf(),
        ensures
            final(self).wf(),
            r == outcome,
            !final(self).spec_flights().contains(scope@),
            forall|s: Seq<char>|
                s != scope@ ==> #[trigger] final(self).spec_flights().contains(s) == old(
                    self,
                ).spec_flights().contains(s),
            (match outcome {
                Ok(t) => final(self).spec_store() == upserted(old(self).spec_store(), t),
                Err(_) => final(self).spec_store() == old(self).spec_store(),
            }),
    {
        self.remove_flight(scope);
        match outcome {
            Ok(t) => {
                self.store.upsert(t.clone());
                Ok(t)
            },
            Err(e) => Err(e),
        }
    }

    /// Issuance: records the outcome of an authorization-code exchange.
    /// A token the exchange yielded is persisted by upsert before it is
    /// handed back; a failed exchange changes nothing.
    pub fn complete_issue(&mut self, outcome: Result<Token, Error>) -> (r: Result<Token, Error>)
        requires
            old(self).wf(),
        ensures
            final(self).wf(),
            r == outcome,
            final(self).spec_flights() == old(self).spec_flights(),
            (match outcome {
                Ok(t) => final(self).spec_store() == upserted(old(self).spec_store(), t),
                Err(_) => final(self).spec_store() == old(self).spec_store(),
            }),
    {
        match outcome {
            Ok(t) => {
                self.store.upsert(t.clone());
                Ok(t)
            },
            Err(e) => Err(e),
        }
    }

    /// The current token for a scope, or absence.
    pub fn get_token(&self, scope: &str) -> (r: Option<Token>)
        requires
            self.wf(),
        ensures
            r == token_for(self.spec_store(), scope@),
    {
        self.store.get_by_scope(scope)
    }

    /// A full snapshot of every stored token.
    pub fn list_all(&self) -> (r: Vec<Token>)
        ensures
            r@ == self.spec_store(),
    {
        self.store.get_all()
    }
}

/// Where an element of a sequence with one row removed came from.
proof fn lemma_remove_index(s: Seq<Seq<char>>, i: int, k: int)
    requires
        0 <= i < s.len(),
        0 <= k < s.remove(i).len(),
    ensures
        k < i ==> s.remove(i)[k] == s[k],
        k >= i ==> s.remove(i)[k] == s[k + 1],
{
    s.remove_ensures(i);
}

/// Law: get-valid is idempotent on an unexpired token. The decision is
/// `Ready` with exactly the stored token and changes no state, so a second
/// call in the resulting state decides the same token, and neither call
/// starts a refresh.
pub proof fn lemma_get_valid_idempotent(t: Token, now: int)
    requires
        !t.spec_is_expired(now),
    ensures
        spec_plan_get_valid(Some(t), false, now) == GetValidStep::Ready(t),
        !(spec_plan_get_valid(Some(t), false, now) is MustRefresh),
{
}

/// Law: at most one refresh per scope is in flight. A decision starts a
/// refresh only in a state with none in flight for the scope; the state it
/// leaves behind has one, and in that state every further call for the
/// scope is told to await it, whatever the store holds by then.
pub proof fn lemma_single_flight(
    fl: Seq<Seq<char>>,
    stored: Option<Token>,
    scope: Seq<char>,
    now: int,
    later_stored: Option<Token>,
    later: int,
)
    requires
        spec_plan_get_valid(stored, fl.contains(scope), now) is MustRefresh,
    ensures
        !fl.contains(scope),
        fl.push(scope).contains(scope),
        spec_plan_get_valid(later_stored, fl.push(scope).contains(scope), later)
            == GetValidStep::AwaitRefresh,
{
    assert(fl.push(scope)[fl.len() as int] == scope);
}

/// Law: every caller that awaited the one in-flight refresh observes the
/// same refreshed token. When the refresh for a scope settles with token
/// `t` — the state `finish_refresh` leaves behind: the scope's flight
/// freed, the row upserted — a get-valid call for that scope made while
/// `t` is unexpired is handed exactly `t`.
pub proof fn lemma_awaiters_observe_the_refresh(
    store: Seq<Token>,
    fl: Seq<Seq<char>>,
    t: Token,
    now: int,
)
    requires
        distinct_scopes(store),
        !fl.contains(t.scope@),
        !t.spec_is_expired(now),
    ensures
        spec_plan_get_valid(token_for(upserted(store, t), t.scope@), fl.contains(t.scope@), now)
            == GetValidStep::Ready(t),
{
    crate::store::lemma_upsert_get_roundtrip(store, t);
}

/// Law: scopes do not block one another. A refresh in flight for one scope
/// leaves the decision for any other scope what it would have been with no
/// flight at all.
pub proof fn lemma_scopes_independent(
    fl: Seq<Seq<char>>,
    scope: Seq<char>,
    other: Seq<char>,
    stored: Option<Token>,
    now: int,
)
    requires
        !fl.contains(other),
        other != scope,
    ensures
        spec_plan_get_valid(stored, fl.push(scope).contains(other), now) == spec_plan_get_valid(
            stored,
            false,
            now,
        ),
{
    if fl.push(scope).contains(other) {
        let i = choose|i: int| 0 <= i < fl.push(scope).len() && fl.push(scope)[i] == other;
        if i < fl.len() {
            assert(fl[i] == other);
        }
        assert(false);
    }
}

} // verus!
