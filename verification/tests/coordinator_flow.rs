use delivr::coordinator::{plan_get_valid, persist_result, Coordinator, GetValidStep};
use delivr::error::Error;
use delivr::secret::SecretString;
use delivr::token::Token;
use delivr::upstream::handle_refresh_response;
use delivr::upstream::handle_token_response;

fn seeded(scope: &str, access: &str, refresh: Option<&str>, stamp: u64, life: u64) -> Token {
    Token {
        scope: scope.to_string(),
        access_token: SecretString::new(access.to_string()),
        refresh_token: refresh.map(|r| SecretString::new(r.to_string())),
        api_domain: "d".to_string(),
        token_type: "Bearer".to_string(),
        expires_in: life,
        time_stamp: stamp,
    }
}

#[test]
fn get_valid_on_missing_scope_fails_not_found() {
    let mut c = Coordinator::new();
    assert!(matches!(
        c.begin_get_valid("S", 0),
        GetValidStep::Failed(Error::NotFound)
    ));
}

#[test]
fn get_valid_is_idempotent_on_a_fresh_token() {
    let now: u64 = 1_000_000;
    let mut c = Coordinator::new();
    let t = seeded("S", "A", Some("R"), now, 3_600);
    c.complete_issue(Ok(t.clone())).unwrap();
    let first = c.begin_get_valid("S", now + 10);
    let second = c.begin_get_valid("S", now + 10);
    match (first, second) {
        (GetValidStep::Ready(a), GetValidStep::Ready(b)) => {
            assert!(a == b);
            assert!(a == t);
        }
        _ => panic!("expected both calls to be ready"),
    }
}

#[test]
fn expired_token_without_refresh_token_fails() {
    let mut c = Coordinator::new();
    let t = seeded("S", "A", None, 0, 60);
    c.complete_issue(Ok(t)).unwrap();
    assert!(matches!(
        c.begin_get_valid("S", 61),
        GetValidStep::Failed(Error::MissingRefreshToken)
    ));
}

#[test]
fn concurrent_get_valid_triggers_exactly_one_refresh() {
    let now: u64 = 10_000;
    let mut c = Coordinator::new();
    let stale = seeded("S", "A", Some("R0"), now - 7_200, 3_600);
    c.complete_issue(Ok(stale.clone())).unwrap();

    // Three callers race on the expired token: only the first starts the
    // refresh, the others are told to await it.
    let first = c.begin_get_valid("S", now);
    let prev = match first {
        GetValidStep::MustRefresh(p) => p,
        _ => panic!("expected the first caller to start the refresh"),
    };
    assert!(prev == stale);
    assert!(matches!(c.begin_get_valid("S", now), GetValidStep::AwaitRefresh));
    assert!(matches!(c.begin_get_valid("S", now), GetValidStep::AwaitRefresh));

    let body = r#"{"access_token":"A2","expires_in":3600,"api_domain":"d","token_type":"Bearer","scope":"S"}"#;
    let refreshed = handle_refresh_response(&prev, body, now).unwrap();
    let settled = c.finish_refresh("S", Ok(refreshed.clone())).unwrap();
    assert!(settled == refreshed);

    // Every awaiting caller now observes the same refreshed token.
    for _ in 0..3 {
        match c.begin_get_valid("S", now) {
            GetValidStep::Ready(t) => assert!(t == refreshed),
            _ => panic!("expected the refreshed token to be ready"),
        }
    }
}

#[test]
fn refresh_in_flight_does_not_block_other_scopes() {
    let now: u64 = 10_000;
    let mut c = Coordinator::new();
    c.complete_issue(Ok(seeded("stale", "A", Some("R"), 0, 60))).unwrap();
    let fresh = seeded("fresh", "B", None, now, 3_600);
    c.complete_issue(Ok(fresh.clone())).unwrap();

    assert!(matches!(c.begin_get_valid("stale", now), GetValidStep::MustRefresh(_)));
    match c.begin_get_valid("fresh", now) {
        GetValidStep::Ready(t) => assert!(t == fresh),
        _ => panic!("the other scope must not be blocked"),
    }
}

#[test]
fn fresh_issuance_scenario() {
    let now: u64 = 77;
    let mut c = Coordinator::new();
    let body = r#"{"access_token":"A","expires_in":3600,"scope":"S","api_domain":"d","token_type":"Bearer"}"#;
    let issued = handle_token_response(body, now).unwrap();
    let stored = c.complete_issue(Ok(issued)).unwrap();
    match c.begin_get_valid("S", now + 1) {
        GetValidStep::Ready(t) => {
            assert_eq!(t.access_token.expose_secret(), "A");
            assert!(t == stored);
        }
        _ => panic!("the issued token must be ready"),
    }
}

#[test]
fn expired_refresh_scenario() {
    let now: u64 = 1_000_000;
    let mut c = Coordinator::new();
    let stale = seeded("S", "A", Some("R0"), now - 7_200, 3_600);
    c.complete_issue(Ok(stale)).unwrap();

    let prev = match c.begin_get_valid("S", now) {
        GetValidStep::MustRefresh(p) => p,
        _ => panic!("expected a refresh to start"),
    };
    let body = r#"{"access_token":"A2","expires_in":3600,"scope":"S","api_domain":"d","token_type":"Bearer"}"#;
    let refreshed = handle_refresh_response(&prev, body, now).unwrap();
    let settled = c.finish_refresh("S", Ok(refreshed)).unwrap();
    assert_eq!(settled.access_token.expose_secret(), "A2");
    assert_eq!(settled.refresh_token.as_ref().unwrap().expose_secret(), "R0");

    // The store now reflects the refreshed token.
    let stored = c.get_token("S").unwrap();
    assert!(stored == settled);
}

#[test]
fn rejected_refresh_leaves_the_row_unchanged() {
    let now: u64 = 1_000_000;
    let mut c = Coordinator::new();
    let stale = seeded("S", "A", Some("R0"), now - 7_200, 3_600);
    c.complete_issue(Ok(stale.clone())).unwrap();

    let prev = match c.begin_get_valid("S", now) {
        GetValidStep::MustRefresh(p) => p,
        _ => panic!("expected a refresh to start"),
    };
    let outcome = handle_refresh_response(&prev, r#"{"error":"invalid_grant"}"#, now);
    let settled = c.finish_refresh("S", outcome);
    match settled {
        Err(Error::UpstreamRejected(m)) => assert_eq!(m, "\"invalid_grant\""),
        _ => panic!("expected the rejection to surface"),
    }
    let row = c.get_token("S").unwrap();
    assert!(row == stale);
}

#[test]
fn failed_issuance_changes_nothing() {
    let mut c = Coordinator::new();
    let r = c.complete_issue(Err(Error::UpstreamUnreachable));
    assert!(matches!(r, Err(Error::UpstreamUnreachable)));
    assert!(c.get_token("S").is_none());
    assert_eq!(c.list_all().len(), 0);
}

#[test]
fn list_all_snapshots_every_scope() {
    let mut c = Coordinator::new();
    c.complete_issue(Ok(seeded("A", "a", None, 0, 60))).unwrap();
    c.complete_issue(Ok(seeded("B", "b", None, 0, 60))).unwrap();
    assert_eq!(c.list_all().len(), 2);
}

#[test]
fn plan_get_valid_decides_like_the_coordinator() {
    let now: u64 = 5_000;
    let fresh = seeded("S", "A", None, now, 60);
    assert!(matches!(
        plan_get_valid(Some(&fresh), false, now),
        GetValidStep::Ready(_)
    ));
    let stale = seeded("S", "A", Some("R"), 0, 60);
    assert!(matches!(
        plan_get_valid(Some(&stale), false, now),
        GetValidStep::MustRefresh(_)
    ));
    assert!(matches!(
        plan_get_valid(Some(&stale), true, now),
        GetValidStep::AwaitRefresh
    ));
    assert!(matches!(
        plan_get_valid(None, false, now),
        GetValidStep::Failed(Error::NotFound)
    ));
}

#[test]
fn persist_result_surfaces_the_inconsistency() {
    let t = seeded("S", "A", None, 0, 60);
    assert!(persist_result(t.clone(), true).is_ok());
    assert!(matches!(
        persist_result(t, false),
        Err(Error::PersistenceInconsistency)
    ));
}
