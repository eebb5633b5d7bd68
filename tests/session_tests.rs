use hive_heat::session::{Action, Awaiting, Event, Phase, Session, SessionError};

fn s(t: &str) -> String {
    t.to_string()
}

#[test]
fn cached_token_lists_devices_without_login() {
    let mut session = Session::new();
    assert_eq!(session.step(Event::TokenLoaded(Some(s("tok")))), Action::ListDevices(s("tok")));
    assert_eq!(session.phase(), Phase::Cached);
    assert_eq!(session.step(Event::ListingSucceeded), Action::Proceed(s("tok")));
    assert_eq!(session.logins(), 0);
    assert_eq!(session.listings(), 1);
    assert_eq!(session.phase(), Phase::Verified);
}

#[test]
fn first_run_logs_in_once_and_saves() {
    let mut session = Session::new();
    assert_eq!(session.step(Event::TokenLoaded(None)), Action::Login);
    assert_eq!(session.step(Event::LoginSucceeded(s("fresh"))), Action::SaveToken(s("fresh")));
    assert_eq!(session.step(Event::TokenSaved), Action::ListDevices(s("fresh")));
    assert_eq!(session.phase(), Phase::Verified);
    assert_eq!(session.step(Event::ListingSucceeded), Action::Proceed(s("fresh")));
    assert_eq!(session.logins(), 1);
}

#[test]
fn stale_token_is_refreshed_once() {
    let mut session = Session::new();
    assert_eq!(session.step(Event::TokenLoaded(Some(s("old")))), Action::ListDevices(s("old")));
    assert_eq!(session.step(Event::ListingFailed), Action::Login);
    assert_eq!(session.step(Event::LoginSucceeded(s("new"))), Action::SaveToken(s("new")));
    assert_eq!(session.step(Event::TokenSaved), Action::ListDevices(s("new")));
    assert_eq!(session.step(Event::ListingSucceeded), Action::Proceed(s("new")));
    assert_eq!(session.logins(), 1);
    assert_eq!(session.listings(), 2);
}

#[test]
fn second_listing_failure_is_fatal() {
    let mut session = Session::new();
    session.step(Event::TokenLoaded(Some(s("old"))));
    assert_eq!(session.step(Event::ListingFailed), Action::Login);
    session.step(Event::LoginSucceeded(s("new")));
    session.step(Event::TokenSaved);
    assert_eq!(session.step(Event::ListingFailed), Action::Abort(SessionError::Listing));
    assert_eq!(session.awaiting(), Awaiting::Nothing);
    assert_eq!(session.step(Event::ListingFailed), Action::Abort(SessionError::OutOfOrder));
    assert_eq!(session.logins(), 1);
}

#[test]
fn bootstrap_then_refresh_makes_two_logins_at_most() {
    let mut session = Session::new();
    session.step(Event::TokenLoaded(None));
    session.step(Event::LoginSucceeded(s("a")));
    session.step(Event::TokenSaved);
    assert_eq!(session.step(Event::ListingFailed), Action::Login);
    session.step(Event::LoginSucceeded(s("b")));
    session.step(Event::TokenSaved);
    assert_eq!(session.step(Event::ListingFailed), Action::Abort(SessionError::Listing));
    assert_eq!(session.logins(), 2);
}

#[test]
fn login_failure_keeps_raw_reply() {
    let mut session = Session::new();
    session.step(Event::TokenLoaded(None));
    assert_eq!(
        session.step(Event::LoginFailed(s("{\"error\":\"bad\"}"))),
        Action::Abort(SessionError::Auth(s("{\"error\":\"bad\"}")))
    );
}

#[test]
fn save_failure_is_fatal() {
    let mut session = Session::new();
    session.step(Event::TokenLoaded(None));
    session.step(Event::LoginSucceeded(s("a")));
    assert_eq!(session.step(Event::SaveFailed), Action::Abort(SessionError::Store));
}

#[test]
fn unexpected_event_aborts() {
    let mut session = Session::new();
    assert_eq!(session.step(Event::TokenSaved), Action::Abort(SessionError::OutOfOrder));
}
