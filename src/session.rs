//! The session manager: a state machine from events (what the outside world
//! reported) to actions (what the driver must do next).
use vstd::prelude::*;

verus! {

/// Where the session stands with respect to its token.
#[derive(Clone, Copy, Debug, PartialEq, Eq, Structural)]
pub enum Phase {
    NoToken,
    Cached,
    Verified,
}

/// Which event the session waits for next.
#[derive(Clone, Copy, Debug, PartialEq, Eq, Structural)]
pub enum Awaiting {
    Load,
    Login,
    Save,
    Listing,
    Nothing,
}

/// What the driver reports back after performing an action.
#[derive(Clone, Debug, PartialEq, Eq)]
pub enum Event {
    /// The credential store was read: the cached token, if any.
    TokenLoaded(Option<String>),
    /// A login call returned this token.
    LoginSucceeded(String),
    /// A login call failed; the raw server response, where there was one.
    LoginFailed(String),
    /// The token was written to the credential store.
    TokenSaved,
    /// The credential store could not be written.
    SaveFailed,
    /// The device listing succeeded with the current token.
    ListingSucceeded,
    /// The device listing failed (network, authorization or parse).
    ListingFailed,
}

/// Why a session ended without a usable token.
#[derive(Clone, Debug, PartialEq, Eq)]
pub enum SessionError {
    /// Login failed; the raw response is kept for diagnosis.
    Auth(String),
    /// The token could not be saved.
    Store,
    /// The device listing failed again after the one allowed refresh.
    Listing,
    /// An event arrived that the session was not waiting for.
    OutOfOrder,
}

/// What the driver must do next.
#[derive(Clone, Debug, PartialEq, Eq)]
pub enum Action {
    /// Call the login endpoint with the configured credentials.
    Login,
    /// Write this token to the credential store.
    SaveToken(String),
    /// Fetch the device list with this token.
    ListDevices(String),
    /// The token is good: go on with the requested operation.
    Proceed(String),
    /// Stop with this error.
    Abort(SessionError),
}

pub ghost enum EventView {
    TokenLoaded(Option<Seq<char>>),
    LoginSucceeded(Seq<char>),
    LoginFailed(Seq<char>),
    TokenSaved,
    SaveFailed,
    ListingSucceeded,
    ListingFailed,
}

pub ghost enum ErrorView {
    Auth(Seq<char>),
    Store,
    Listing,
    OutOfOrder,
}

pub ghost enum ActionView {
    Login,
    SaveToken(Seq<char>),
    ListDevices(Seq<char>),
    Proceed(Seq<char>),
    Abort(ErrorView),
}

impl View for Event {
    type V = EventView;

    open spec fn view(&self) -> EventView {
        match self {
            Event::TokenLoaded(t) => EventView::TokenLoaded(
                match t {
                    Some(s) => Some(s@),
                    None => None,
                },
            ),
            Event::LoginSucceeded(t) => EventView::LoginSucceeded(t@),
            Event::LoginFailed(raw) => EventView::LoginFailed(raw@),
            Event::TokenSaved => EventView::TokenSaved,
            Event::SaveFailed => EventView::SaveFailed,
            Event::ListingSucceeded => EventView::ListingSucceeded,
            Event::ListingFailed => EventView::ListingFailed,
        }
    }
}

impl View for SessionError {
    type V = ErrorView;

    open spec fn view(&self) -> ErrorView {
        match self {
            SessionError::Auth(raw) => ErrorView::Auth(raw@),
            SessionError::Store => ErrorView::Store,
            SessionError::Listing => ErrorView::Listing,
            SessionError::OutOfOrder => ErrorView::OutOfOrder,
        }
    }
}

impl View for Action {
    type V = ActionView;

    open spec fn view(&self) -> ActionView {
        match self {
            Action::Login => ActionView::Login,
            Action::SaveToken(t) => ActionView::SaveToken(t@),
            Action::ListDevices(t) => ActionView::ListDevices(t@),
            Action::Proceed(t) => ActionView::Proceed(t@),
            Action::Abort(e) => ActionView::Abort(e@),
        }
    }
}

/// The abstract state of a session.
pub ghost struct SessionView {
    pub phase: Phase,
    pub awaiting: Awaiting,
    pub token: Seq<char>,
    /// Login calls requested so far.
    pub logins: nat,
    /// Device listings requested so far.
    pub listings: nat,
    /// Whether the session started without a cached token and logged in.
    pub bootstrapped: bool,
    /// Whether the one allowed refresh has been used.
    pub refreshed: bool,
}

/// The state of a session before the credential store is read.
pub open spec fn initial() -> SessionView {
    SessionView {
        phase: Phase::NoToken,
        awaiting: Awaiting::Load,
        token: Seq::empty(),
        logins: 0,
        listings: 0,
        bootstrapped: false,
        refreshed: false,
    }
}

/// The state in which the session has stopped and answers every event with `Abort`.
pub open spec fn stopped(s: SessionView) -> SessionView {
    SessionView { awaiting: Awaiting::Nothing, ..s }
}

/// One transition: the next state and the action that goes with it.
pub open spec fn next(s: SessionView, e: EventView) -> (SessionView, ActionView) {
    match (s.awaiting, e) {
        (Awaiting::Load, EventView::TokenLoaded(Some(t))) => (
            SessionView {
                phase: Phase::Cached,
                awaiting: Awaiting::Listing,
                token: t,
                listings: s.listings + 1,
                ..s
            },
            ActionView::ListDevices(t),
        ),
        (Awaiting::Load, EventView::TokenLoaded(None)) => (
            SessionView {
                phase: Phase::NoToken,
                awaiting: Awaiting::Login,
                logins: s.logins + 1,
                bootstrapped: true,
                ..s
            },
            ActionView::Login,
        ),
        (Awaiting::Login, EventView::LoginSucceeded(t)) => (
            SessionView { awaiting: Awaiting::Save, token: t, ..s },
            ActionView::SaveToken(t),
        ),
        (Awaiting::Login, EventView::LoginFailed(raw)) => (
            stopped(s),
            ActionView::Abort(ErrorView::Auth(raw)),
        ),
        (Awaiting::Save, EventView::TokenSaved) => (
            SessionView {
                phase: Phase::Verified,
                awaiting: Awaiting::Listing,
                listings: s.listings + 1,
                ..s
            },
            ActionView::ListDevices(s.token),
        ),
        (Awaiting::Save, EventView::SaveFailed) => (stopped(s), ActionView::Abort(ErrorView::Store)),
        (Awaiting::Listing, EventView::ListingSucceeded) => (
            SessionView { phase: Phase::Verified, awaiting: Awaiting::Nothing, ..s },
            ActionView::Proceed(s.token),
        ),
        (Awaiting::Listing, EventView::ListingFailed) => if s.refreshed {
            (stopped(s), ActionView::Abort(ErrorView::Listing))
        } else {
            (
                SessionView {
                    awaiting: Awaiting::Login,
                    logins: s.logins + 1,
                    refreshed: true,
                    ..s
                },
                ActionView::Login,
            )
        },
        _ => (stopped(s), ActionView::Abort(ErrorView::OutOfOrder)),
    }
}

/// The states and actions of a whole run: each event fed to `next` in turn.
pub open spec fn run(s: SessionView, es: Seq<EventView>) -> (SessionView, Seq<ActionView>)
    decreases es.len(),
{
    if es.len() == 0 {
        (s, Seq::empty())
    } else {
        let (s1, a) = next(s, es[0]);
        let (s2, rest) = run(s1, es.drop_first());
        (s2, seq![a].add(rest))
    }
}

/// How many `Login` actions a sequence of actions holds.
pub open spec fn count_logins(acts: Seq<ActionView>) -> nat
    decreases acts.len(),
{
    if acts.len() == 0 {
        0
    } else {
        (if acts[0] is Login { 1nat } else { 0nat }) + count_logins(acts.drop_first())
    }
}

/// Every state reachable from `initial`: one login per bootstrap and per refresh.
pub open spec fn reachable_inv(s: SessionView) -> bool {
    &&& s.logins == (if s.bootstrapped { 1nat } else { 0nat }) + (if s.refreshed { 1nat } else { 0nat })
    &&& s.listings <= 2
    &&& (s.awaiting is Load ==> s.logins == 0 && s.listings == 0 && !s.bootstrapped && !s.refreshed)
    &&& (s.listings == 2 ==> s.refreshed)
    &&& (s.awaiting is Listing && s.refreshed ==> s.listings == 2)
    &&& (s.awaiting is Login && s.refreshed ==> s.listings == 1)
    &&& (s.awaiting is Save && s.refreshed ==> s.listings == 1)
    &&& (s.awaiting is Login && !s.refreshed ==> s.listings == 0)
    &&& (s.awaiting is Save && !s.refreshed ==> s.listings == 0)
    &&& (s.awaiting is Listing && !s.refreshed ==> s.listings == 1)
}

proof fn lemma_next_inv(s: SessionView, e: EventView)
    requires
        reachable_inv(s),
    ensures
        reachable_inv(next(s, e).0),
        next(s, e).0.logins == s.logins + (if next(s, e).1 is Login { 1nat } else { 0nat }),
        !(s.awaiting is Load) ==> next(s, e).0.bootstrapped == s.bootstrapped,
{
}

proof fn lemma_run_inv(s: SessionView, es: Seq<EventView>)
    requires
        reachable_inv(s),
    ensures
        reachable_inv(run(s, es).0),
        run(s, es).0.logins == s.logins + count_logins(run(s, es).1),
        !(s.awaiting is Load) ==> run(s, es).0.bootstrapped == s.bootstrapped,
    decreases es.len(),
{
    if es.len() > 0 {
        lemma_next_inv(s, es[0]);
        lemma_run_inv(next(s, es[0]).0, es.drop_first());
        let (s1, a) = next(s, es[0]);
        let rest = run(s1, es.drop_first()).1;
        assert(seq![a].add(rest).drop_first() =~= rest);
    }
}

/// However the outside world answers, a run requests at most two logins: one
/// when no token was cached, and one refresh.
pub proof fn lemma_logins_bounded(es: Seq<EventView>)
    ensures
        count_logins(run(initial(), es).1) <= 2,
        run(initial(), es).0.listings <= 2,
{
    lemma_run_inv(initial(), es);
}

/// Given a cached token, a run requests at most one login (the refresh), and
/// none at all while the cached token lists the devices.
pub proof fn lemma_cache_reuse(t: Seq<char>, es: Seq<EventView>)
    ensures
        next(initial(), EventView::TokenLoaded(Some(t))).1 == ActionView::ListDevices(t),
        next(initial(), EventView::TokenLoaded(Some(t))).0.logins == 0,
        next(next(initial(), EventView::TokenLoaded(Some(t))).0, EventView::ListingSucceeded).1
            == ActionView::Proceed(t),
        next(next(initial(), EventView::TokenLoaded(Some(t))).0, EventView::ListingSucceeded).0.logins
            == 0,
        count_logins(run(initial(), seq![EventView::TokenLoaded(Some(t))].add(es)).1) <= 1,
{
    let e0 = EventView::TokenLoaded(Some(t));
    let s1 = next(initial(), e0).0;
    lemma_run_inv(s1, es);
    let all = seq![e0].add(es);
    assert(all[0] == e0);
    assert(all.drop_first() =~= es);
    let rest = run(s1, es).1;
    assert(seq![next(initial(), e0).1].add(rest).drop_first() =~= rest);
}

/// Given no cached token, a run logs in exactly once, saves that token, lists
/// the devices with it, and proceeds with it once the listing succeeds.
pub proof fn lemma_first_run_bootstrap(t: Seq<char>)
    ensures
        ({
            let s1 = next(initial(), EventView::TokenLoaded(None));
            let s2 = next(s1.0, EventView::LoginSucceeded(t));
            let s3 = next(s2.0, EventView::TokenSaved);
            let s4 = next(s3.0, EventView::ListingSucceeded);
            &&& s1.1 == ActionView::Login
            &&& s2.1 == ActionView::SaveToken(t)
            &&& s3.1 == ActionView::ListDevices(t)
            &&& s4.1 == ActionView::Proceed(t)
            &&& s4.0.logins == 1
            &&& s4.0.phase == Phase::Verified
        }),
{
}

/// Given a cached token that fails to list the devices, a run logs in once more,
/// saves the new token, retries the listing once with it, and stops if that
/// fails too: no event after that brings a third login.
pub proof fn lemma_bounded_refresh(t: Seq<char>, t2: Seq<char>, later: Seq<EventView>)
    ensures
        ({
            let s1 = next(initial(), EventView::TokenLoaded(Some(t)));
            let s2 = next(s1.0, EventView::ListingFailed);
            let s3 = next(s2.0, EventView::LoginSucceeded(t2));
            let s4 = next(s3.0, EventView::TokenSaved);
            let s5 = next(s4.0, EventView::ListingFailed);
            &&& s1.1 == ActionView::ListDevices(t)
            &&& s2.1 == ActionView::Login
            &&& s3.1 == ActionView::SaveToken(t2)
            &&& s4.1 == ActionView::ListDevices(t2)
            &&& s5.1 == ActionView::Abort(ErrorView::Listing)
            &&& s5.0.logins == 1
            &&& count_logins(run(s5.0, later).1) == 0
        }),
{
    let s1 = next(initial(), EventView::TokenLoaded(Some(t)));
    let s2 = next(s1.0, EventView::ListingFailed);
    let s3 = next(s2.0, EventView::LoginSucceeded(t2));
    let s4 = next(s3.0, EventView::TokenSaved);
    let s5 = next(s4.0, EventView::ListingFailed);
    lemma_stopped_stays(s5.0, later);
}

proof fn lemma_stopped_stays(s: SessionView, es: Seq<EventView>)
    requires
        s.awaiting is Nothing,
    ensures
        count_logins(run(s, es).1) == 0,
    decreases es.len(),
{
    if es.len() > 0 {
        let (s1, a) = next(s, es[0]);
        lemma_stopped_stays(s1, es.drop_first());
        let rest = run(s1, es.drop_first()).1;
        assert(seq![a].add(rest).drop_first() =~= rest);
    }
}


/// A session in progress. Feed it each event with `step`.
pub struct Session {
    phase: Phase,
    awaiting: Awaiting,
    token: String,
    logins: u64,
    listings: u64,
    bootstrapped: bool,
    refreshed: bool,
}

impl View for Session {
    type V = SessionView;

    closed spec fn view(&self) -> SessionView {
        SessionView {
            phase: self.phase,
            awaiting: self.awaiting,
            token: self.token@,
            logins: self.logins as nat,
            listings: self.listings as nat,
            bootstrapped: self.bootstrapped,
            refreshed: self.refreshed,
        }
    }
}

impl Session {
    /// Every session state that `new` and `step` can produce.
    pub closed spec fn wf(&self) -> bool {
        reachable_inv(self@)
    }

    /// A session that waits for the credential store to be read.
    pub fn new() -> (r: Session)
        ensures
            r.wf(),
            r@ == initial(),
    {
        Session {
            phase: Phase::NoToken,
            awaiting: Awaiting::Load,
            token: String::new(),
            logins: 0,
            listings: 0,
            bootstrapped: false,
            refreshed: false,
        }
    }

    /// Where the session stands with respect to its token.
    pub fn phase(&self) -> (r: Phase)
        ensures
            r == self@.phase,
    {
        self.phase
    }

    /// Which event the session waits for.
    pub fn awaiting(&self) -> (r: Awaiting)
        ensures
            r == self@.awaiting,
    {
        self.awaiting
    }

    /// How many logins the session has asked for.
    pub fn logins(&self) -> (r: u64)
        ensures
            r == self@.logins,
    {
        self.logins
    }

    /// How many device listings the session has asked for.
    pub fn listings(&self) -> (r: u64)
        ensures
            r == self@.listings,
    {
        self.listings
    }

    fn stop(&mut self)
        requires
            old(self).wf(),
        ensures
            final(self)@ == stopped(old(self)@),
            final(self).wf(),
    {
        self.awaiting = Awaiting::Nothing;
    }

    /// Takes what the driver observed and says what it must do next.
    pub fn step(&mut self, e: Event) -> (r: Action)
        requires
            old(self).wf(),
        ensures
            final(self).wf(),
            (final(self)@, r@) == next(old(self)@, e@),
    {
        proof {
            lemma_next_inv(self@, e@);
        }
        match (self.awaiting, e) {
            (Awaiting::Load, Event::TokenLoaded(Some(t))) => {
                self.phase = Phase::Cached;
                self.awaiting = Awaiting::Listing;
                self.token = t.clone();
                self.listings = self.listings + 1;
                Action::ListDevices(t)
            },
            (Awaiting::Load, Event::TokenLoaded(None)) => {
                self.phase = Phase::NoToken;
                self.awaiting = Awaiting::Login;
                self.logins = self.logins + 1;
                self.bootstrapped = true;
                Action::Login
            },
            (Awaiting::Login, Event::LoginSucceeded(t)) => {
                self.awaiting = Awaiting::Save;
                self.token = t.clone();
                Action::SaveToken(t)
            },
            (Awaiting::Login, Event::LoginFailed(raw)) => {
                self.stop();
                Action::Abort(SessionError::Auth(raw))
            },
            (Awaiting::Save, Event::TokenSaved) => {
                self.phase = Phase::Verified;
                self.awaiting = Awaiting::Listing;
                self.listings = self.listings + 1;
                Action::ListDevices(self.token.clone())
            },
            (Awaiting::Save, Event::SaveFailed) => {
                self.stop();
                Action::Abort(SessionError::Store)
            },
            (Awaiting::Listing, Event::ListingSucceeded) => {
                self.phase = Phase::Verified;
                self.awaiting = Awaiting::Nothing;
                Action::Proceed(self.token.clone())
            },
            (Awaiting::Listing, Event::ListingFailed) => {
                if self.refreshed {
                    self.stop();
                    Action::Abort(SessionError::Listing)
                } else {
                    self.awaiting = Awaiting::Login;
                    self.logins = self.logins + 1;
                    self.refreshed = true;
                    Action::Login
                }
            },
            _ => {
                self.stop();
                Action::Abort(SessionError::OutOfOrder)
            },
        }
    }
}

} // verus!
