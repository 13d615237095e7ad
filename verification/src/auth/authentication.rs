use vstd::prelude::*;

use crate::auth::{
    attempts_refusal, check_attempts, LoginClaims, PinAuthenticationError, MAX_PIN_ATTEMPTS,
};
use crate::clock::{utc_now, Timestamp};

verus! {

/// Where a PIN sign-in stands. `T` is the text type: `String` in running
/// code, `Seq<char>` in contracts.
pub enum PinAuthentication<T> {
    /// The user's id is being looked up by e-mail.
    AwaitingUser { pin: T, now: Timestamp },
    /// The attempt is being recorded.
    RecordingAttempt { user_id: i32, now: Timestamp },
    /// The attempts since the latest PIN are being counted.
    CountingAttempts { user_id: i32, now: Timestamp },
    /// The sign-in is decided.
    Finished { outcome: Result<LoginClaims, PinAuthenticationError> },
}

/// What the sign-in asks of the database next, or its answer.
pub enum PinAuthenticationAction<T> {
    /// Look up the id of the user with this e-mail.
    FetchUserId { email: T },
    /// Store an attempt with this PIN for the user, made at `created_at`.
    RecordAttempt { pin: T, user_id: i32, created_at: Timestamp },
    /// Count the attempts made since the user's latest PIN was issued, all
    /// of them and those that matched it.
    CountAttempts { user_id: i32 },
    /// The sign-in is over.
    Finish { outcome: Result<LoginClaims, PinAuthenticationError> },
}

/// The attempts made since a user's latest PIN was issued.
#[derive(Clone, Copy, Debug, PartialEq, Eq, Structural)]
pub struct AttemptCounts {
    /// All attempts.
    pub all: i64,
    /// The attempts whose PIN matched the latest one.
    pub correct: i64,
}

/// What the database answered.
#[derive(Clone, Copy, Debug, PartialEq, Eq, Structural)]
pub enum PinAuthenticationEvent {
    /// The id of the user with the e-mail, if there is one.
    UserIdFetched(Option<i32>),
    /// The attempt was stored.
    AttemptRecorded,
    /// All attempts and the matching ones since the latest PIN, or nothing
    /// when the user has no PIN.
    AttemptsCounted(Option<AttemptCounts>),
}

impl View for PinAuthentication<String> {
    type V = PinAuthentication<Seq<char>>;

    open spec fn view(&self) -> PinAuthentication<Seq<char>> {
        match self {
            PinAuthentication::AwaitingUser { pin, now } => PinAuthentication::AwaitingUser {
                pin: pin@,
                now: *now,
            },
            PinAuthentication::RecordingAttempt { user_id, now } =>
                PinAuthentication::RecordingAttempt { user_id: *user_id, now: *now },
            PinAuthentication::CountingAttempts { user_id, now } =>
                PinAuthentication::CountingAttempts { user_id: *user_id, now: *now },
            PinAuthentication::Finished { outcome } => PinAuthentication::Finished {
                outcome: *outcome,
            },
        }
    }
}

impl View for PinAuthenticationAction<String> {
    type V = PinAuthenticationAction<Seq<char>>;

    open spec fn view(&self) -> PinAuthenticationAction<Seq<char>> {
        match self {
            PinAuthenticationAction::FetchUserId { email } => PinAuthenticationAction::FetchUserId {
                email: email@,
            },
            PinAuthenticationAction::RecordAttempt { pin, user_id, created_at } =>
                PinAuthenticationAction::RecordAttempt {
                pin: pin@,
                user_id: *user_id,
                created_at: *created_at,
            },
            PinAuthenticationAction::CountAttempts { user_id } =>
                PinAuthenticationAction::CountAttempts { user_id: *user_id },
            PinAuthenticationAction::Finish { outcome } => PinAuthenticationAction::Finish {
                outcome: *outcome,
            },
        }
    }
}

/// The decision once the attempts are counted: refused as
/// `attempts_refusal` says, else granted to the user at `now`.
pub open spec fn authentication_outcome(user_id: i32, now: Timestamp, counts: Option<AttemptCounts>) -> Result<
    LoginClaims,
    PinAuthenticationError,
> {
    match counts {
        None => Err(PinAuthenticationError::InexistentPin),
        Some(counts) => match attempts_refusal(counts.all, counts.correct) {
            Some(e) => Err(e),
            None => Ok(LoginClaims { iat: now, sub: user_id }),
        },
    }
}

/// The first state and request of a sign-in with `email` and `pin` at `now`.
pub open spec fn authentication_start(email: Seq<char>, pin: Seq<char>, now: Timestamp) -> (
    PinAuthentication<Seq<char>>,
    PinAuthenticationAction<Seq<char>>,
) {
    (
        PinAuthentication::AwaitingUser { pin, now },
        PinAuthenticationAction::FetchUserId { email },
    )
}

impl PinAuthentication<Seq<char>> {
    /// The next state and request after `event`, or `None` where the state
    /// does not wait for such an answer.
    pub open spec fn transition(self, event: PinAuthenticationEvent) -> Option<
        (PinAuthentication<Seq<char>>, PinAuthenticationAction<Seq<char>>),
    > {
        match (self, event) {
            (
                PinAuthentication::AwaitingUser { pin, now },
                PinAuthenticationEvent::UserIdFetched(found),
            ) => match found {
                None => Some(
                    (
                        PinAuthentication::Finished {
                            outcome: Err(PinAuthenticationError::InexistentUser),
                        },
                        PinAuthenticationAction::Finish {
                            outcome: Err(PinAuthenticationError::InexistentUser),
                        },
                    ),
                ),
                Some(user_id) => Some(
                    (
                        PinAuthentication::RecordingAttempt { user_id, now },
                        PinAuthenticationAction::RecordAttempt { pin, user_id, created_at: now },
                    ),
                ),
            },
            (
                PinAuthentication::RecordingAttempt { user_id, now },
                PinAuthenticationEvent::AttemptRecorded,
            ) => Some(
                (
                    PinAuthentication::CountingAttempts { user_id, now },
                    PinAuthenticationAction::CountAttempts { user_id },
                ),
            ),
            (
                PinAuthentication::CountingAttempts { user_id, now },
                PinAuthenticationEvent::AttemptsCounted(counts),
            ) => Some(
                (
                    PinAuthentication::Finished {
                        outcome: authentication_outcome(user_id, now, counts),
                    },
                    PinAuthenticationAction::Finish {
                        outcome: authentication_outcome(user_id, now, counts),
                    },
                ),
            ),
            _ => None,
        }
    }

    /// The state and the requests after a whole sequence of answers, or
    /// `None` where one of them was not awaited.
    pub open spec fn run(self, events: Seq<PinAuthenticationEvent>) -> Option<
        (PinAuthentication<Seq<char>>, Seq<PinAuthenticationAction<Seq<char>>>),
    >
        decreases events.len(),
    {
        if events.len() == 0 {
            Some((self, Seq::empty()))
        } else {
            match self.transition(events[0]) {
                None => None,
                Some((next, action)) => match next.run(events.drop_first()) {
                    None => None,
                    Some((last, actions)) => Some((last, seq![action] + actions)),
                },
            }
        }
    }
}

impl PinAuthentication<String> {
    /// Starts a sign-in with `email` and `pin` at the given time.
    pub fn start_at(email: &str, pin: &str, now: Timestamp) -> (r: (
        PinAuthentication<String>,
        PinAuthenticationAction<String>,
    ))
        ensures
            (r.0@, r.1@) == authentication_start(email@, pin@, now),
    {
        (
            PinAuthentication::AwaitingUser { pin: pin.to_owned(), now },
            PinAuthenticationAction::FetchUserId { email: email.to_owned() },
        )
    }

    /// Starts a sign-in with `email` and `pin` now.
    pub fn start(email: &str, pin: &str) -> (r: (
        PinAuthentication<String>,
        PinAuthenticationAction<String>,
    ))
        ensures
            exists|now: Timestamp|
                now.nanos < 1_000_000_000 && (r.0@, r.1@) == authentication_start(
                    email@,
                    pin@,
                    now,
                ),
    {
        let now = utc_now();
        Self::start_at(email, pin, now)
    }

    /// Whether the sign-in waits for such an answer.
    pub fn accepts(&self, event: &PinAuthenticationEvent) -> (b: bool)
        ensures
            b == self@.transition(*event) is Some,
    {
        match (self, event) {
            (PinAuthentication::AwaitingUser { .. }, PinAuthenticationEvent::UserIdFetched(_)) => true,
            (PinAuthentication::RecordingAttempt { .. }, PinAuthenticationEvent::AttemptRecorded) => true,
            (
                PinAuthentication::CountingAttempts { .. },
                PinAuthenticationEvent::AttemptsCounted(_),
            ) => true,
            _ => false,
        }
    }

    /// Moves the sign-in on by the database's answer.
    pub fn step(self, event: PinAuthenticationEvent) -> (r: (
        PinAuthentication<String>,
        PinAuthenticationAction<String>,
    ))
        requires
            self@.transition(event) is Some,
        ensures
            Some((r.0@, r.1@)) == self@.transition(event),
    {
        match self {
            PinAuthentication::AwaitingUser { pin, now } => match event {
                PinAuthenticationEvent::UserIdFetched(Some(user_id)) => (
                    PinAuthentication::RecordingAttempt { user_id, now },
                    PinAuthenticationAction::RecordAttempt { pin, user_id, created_at: now },
                ),
                _ => {
                    let outcome = Err(PinAuthenticationError::InexistentUser);
                    (PinAuthentication::Finished { outcome }, PinAuthenticationAction::Finish { outcome })
                },
            },
            PinAuthentication::RecordingAttempt { user_id, now } => (
                PinAuthentication::CountingAttempts { user_id, now },
                PinAuthenticationAction::CountAttempts { user_id },
            ),
            PinAuthentication::CountingAttempts { user_id, now } => {
                let outcome = match event {
                    PinAuthenticationEvent::AttemptsCounted(None) => Err(
                        PinAuthenticationError::InexistentPin,
                    ),
                    PinAuthenticationEvent::AttemptsCounted(Some(counts)) => {
                        match check_attempts(counts.all, counts.correct) {
                            Err(e) => Err(e),
                            Ok(()) => Ok(LoginClaims::new(user_id, now)),
                        }
                    },
                    _ => Err(PinAuthenticationError::InexistentPin),
                };
                (PinAuthentication::Finished { outcome }, PinAuthenticationAction::Finish { outcome })
            },
            PinAuthentication::Finished { outcome } => (
                PinAuthentication::Finished { outcome },
                PinAuthenticationAction::Finish { outcome },
            ),
        }
    }
}

/// The run of a sign-in with `email` and `pin` begun at `now` through the
/// answers `events`.
pub open spec fn authentication_run(
    email: Seq<char>,
    pin: Seq<char>,
    now: Timestamp,
    events: Seq<PinAuthenticationEvent>,
) -> Option<(PinAuthentication<Seq<char>>, Seq<PinAuthenticationAction<Seq<char>>>)> {
    authentication_start(email, pin, now).0.run(events)
}

/// The claims that a run ended by granting, if it did.
pub open spec fn granted_claims(
    run: Option<(PinAuthentication<Seq<char>>, Seq<PinAuthenticationAction<Seq<char>>>)>,
) -> Option<LoginClaims> {
    match run {
        Some((PinAuthentication::Finished { outcome: Ok(claims) }, _)) => Some(claims),
        _ => None,
    }
}

/// The requests that a run made after the first one.
pub open spec fn run_actions(
    run: Option<(PinAuthentication<Seq<char>>, Seq<PinAuthenticationAction<Seq<char>>>)>,
) -> Seq<PinAuthenticationAction<Seq<char>>> {
    match run {
        Some((_, actions)) => actions,
        None => Seq::empty(),
    }
}

/// Counts that let a sign-in through: at most `MAX_PIN_ATTEMPTS` attempts
/// and at most one matching, but not none. Counts of rows are never
/// negative, so for them this says exactly one matched.
pub open spec fn counts_allow(counts: AttemptCounts) -> bool {
    &&& counts.all <= MAX_PIN_ATTEMPTS
    &&& counts.correct <= 1
    &&& counts.correct != 0
}

/// An answer with counts that let the sign-in through.
pub open spec fn counts_grant(event: PinAuthenticationEvent) -> bool {
    match event {
        PinAuthenticationEvent::AttemptsCounted(Some(counts)) => counts_allow(counts),
        _ => false,
    }
}

/// The answers of a sign-in that is granted to `user_id`.
pub open spec fn granting_events(user_id: i32, counts: AttemptCounts) -> Seq<PinAuthenticationEvent> {
    seq![
        PinAuthenticationEvent::UserIdFetched(Some(user_id)),
        PinAuthenticationEvent::AttemptRecorded,
        PinAuthenticationEvent::AttemptsCounted(Some(counts)),
    ]
}

/// The requests of a sign-in that is granted: the attempt with `pin` at the
/// time of the claims is stored for their user, the attempts are counted,
/// and the claims are handed out.
pub open spec fn granting_actions(pin: Seq<char>, claims: LoginClaims) -> Seq<
    PinAuthenticationAction<Seq<char>>,
> {
    seq![
        PinAuthenticationAction::RecordAttempt { pin, user_id: claims.sub, created_at: claims.iat },
        PinAuthenticationAction::CountAttempts { user_id: claims.sub },
        PinAuthenticationAction::Finish { outcome: Ok(claims) },
    ]
}

/// A sign-in is granted only after three answers in this order: the
/// e-mail belongs to a user, that user's attempt was stored, and since the
/// user's latest PIN the counts allow it (`counts_allow`: at most
/// `MAX_PIN_ATTEMPTS` attempts, exactly one of them matching). The claims name that user and the time the sign-in
/// began, and the attempt stored was made with the PIN given, at that time.
pub proof fn lemma_granted_only_after_recorded_attempt(
    email: Seq<char>,
    pin: Seq<char>,
    now: Timestamp,
    events: Seq<PinAuthenticationEvent>,
    claims: LoginClaims,
)
    requires
        granted_claims(authentication_run(email, pin, now, events)) == Some(claims),
    ensures
        claims.iat == now,
        events.len() == 3,
        events[0] == PinAuthenticationEvent::UserIdFetched(Some(claims.sub)),
        events[1] == PinAuthenticationEvent::AttemptRecorded,
        counts_grant(events[2]),
        run_actions(authentication_run(email, pin, now, events)) == granting_actions(pin, claims),
{
    let s0 = authentication_start(email, pin, now).0;
    let run = authentication_run(email, pin, now, events);
    assert(events.len() > 0);
    let e0 = events[0];
    let rest0 = events.drop_first();
    match e0 {
        PinAuthenticationEvent::UserIdFetched(Some(user_id)) => {
            let s1 = PinAuthentication::<Seq<char>>::RecordingAttempt { user_id, now };
            let a1 = PinAuthenticationAction::<Seq<char>>::RecordAttempt {
                pin,
                user_id,
                created_at: now,
            };
            assert(s0.transition(e0) == Some((s1, a1)));
            assert(s1.run(rest0) is Some);
            let r_s1 = s1.run(rest0).unwrap();
            assert(run == Some((r_s1.0, seq![a1] + r_s1.1)));
            if rest0.len() == 0 {
                assert(s1.run(rest0) == Some((s1, Seq::<PinAuthenticationAction<Seq<char>>>::empty())));
                assert(false);
            }
            let e1 = rest0[0];
            let rest1 = rest0.drop_first();
            assert(s1.transition(e1) is Some);
            assert(e1 == PinAuthenticationEvent::AttemptRecorded);
            let s2 = PinAuthentication::<Seq<char>>::CountingAttempts { user_id, now };
            let a2 = PinAuthenticationAction::<Seq<char>>::CountAttempts { user_id };
            assert(s2.run(rest1) is Some);
            let r_s2 = s2.run(rest1).unwrap();
            assert(s1.run(rest0) == Some((r_s2.0, seq![a2] + r_s2.1)));
            if rest1.len() == 0 {
                assert(s2.run(rest1) == Some((s2, Seq::<PinAuthenticationAction<Seq<char>>>::empty())));
                assert(false);
            }
            let e2 = rest1[0];
            let rest2 = rest1.drop_first();
            assert(s2.transition(e2) is Some);
            match e2 {
                PinAuthenticationEvent::AttemptsCounted(counts) => {
                    let outcome = authentication_outcome(user_id, now, counts);
                    let s3 = PinAuthentication::<Seq<char>>::Finished { outcome };
                    let a3 = PinAuthenticationAction::<Seq<char>>::Finish { outcome };
                    assert(s3.run(rest2) is Some);
                    let r_s3 = s3.run(rest2).unwrap();
            assert(s2.run(rest1) == Some((r_s3.0, seq![a3] + r_s3.1)));
                    if rest2.len() > 0 {
                        assert(s3.transition(rest2[0]) is None);
                        assert(false);
                    }
                    assert(s3.run(rest2) == Some((s3, Seq::<PinAuthenticationAction<Seq<char>>>::empty())));
                    assert(events =~= seq![e0, e1, e2]);
                    assert(outcome == Ok::<LoginClaims, PinAuthenticationError>(claims));
                    assert(counts is Some);
                    assert(attempts_refusal(counts.unwrap().all, counts.unwrap().correct) is None);
                    assert(counts_grant(events[2]));
                    assert(run_actions(run) =~= granting_actions(pin, claims));
                },
                _ => {
                    assert(false);
                },
            }
        },
        PinAuthenticationEvent::UserIdFetched(None) => {
            let s1 = PinAuthentication::<Seq<char>>::Finished {
                outcome: Err(PinAuthenticationError::InexistentUser),
            };
            assert(s1.run(rest0) is Some);
            if rest0.len() > 0 {
                assert(s1.transition(rest0[0]) is None);
                assert(false);
            }
            assert(s1.run(rest0) == Some((s1, Seq::<PinAuthenticationAction<Seq<char>>>::empty())));
        },
        _ => {
            assert(s0.transition(e0) is None);
        },
    }
}

/// Those three answers, with counts that allow it, always grant the sign-in to the user found, at the
/// time the sign-in began.
pub proof fn lemma_granted(
    email: Seq<char>,
    pin: Seq<char>,
    now: Timestamp,
    user_id: i32,
    counts: AttemptCounts,
)
    requires
        counts_allow(counts),
    ensures
        granted_claims(authentication_run(email, pin, now, granting_events(user_id, counts)))
            == Some(LoginClaims::spec_new(user_id, now)),
{
    let events = granting_events(user_id, counts);
    let s1 = PinAuthentication::<Seq<char>>::RecordingAttempt { user_id, now };
    let s2 = PinAuthentication::<Seq<char>>::CountingAttempts { user_id, now };
    let s3 = PinAuthentication::<Seq<char>>::Finished {
        outcome: Ok(LoginClaims { iat: now, sub: user_id }),
    };
    assert(events.drop_first().drop_first().drop_first() =~= Seq::<PinAuthenticationEvent>::empty());
    assert(s3.run(events.drop_first().drop_first().drop_first()) is Some);
    assert(s2.run(events.drop_first().drop_first()) is Some);
    assert(s1.run(events.drop_first()) is Some);
}

/// The outcome a run ended with, if it ended.
pub open spec fn run_outcome(
    run: Option<(PinAuthentication<Seq<char>>, Seq<PinAuthenticationAction<Seq<char>>>)>,
) -> Option<Result<LoginClaims, PinAuthenticationError>> {
    match run {
        Some((PinAuthentication::Finished { outcome }, _)) => Some(outcome),
        _ => None,
    }
}

/// A sign-in whose count shows more than `MAX_PIN_ATTEMPTS` attempts since
/// the latest PIN is refused as locked, `ExhaustedAttemps`, however many of
/// them matched, the one just recorded included.
pub proof fn lemma_locked_after_too_many_attempts(
    email: Seq<char>,
    pin: Seq<char>,
    now: Timestamp,
    user_id: i32,
    counts: AttemptCounts,
)
    requires
        counts.all > MAX_PIN_ATTEMPTS,
    ensures
        run_outcome(authentication_run(email, pin, now, granting_events(user_id, counts)))
            == Some(Err::<LoginClaims, PinAuthenticationError>(PinAuthenticationError::ExhaustedAttemps)),
{
    crate::auth::lemma_attempts_refusal_order(counts.all, counts.correct);
    let events = granting_events(user_id, counts);
    let s1 = PinAuthentication::<Seq<char>>::RecordingAttempt { user_id, now };
    let s2 = PinAuthentication::<Seq<char>>::CountingAttempts { user_id, now };
    let s3 = PinAuthentication::<Seq<char>>::Finished {
        outcome: Err(PinAuthenticationError::ExhaustedAttemps),
    };
    assert(events.drop_first().drop_first().drop_first() =~= Seq::<PinAuthenticationEvent>::empty());
    assert(s3.run(events.drop_first().drop_first().drop_first()) is Some);
    assert(s2.run(events.drop_first().drop_first()) is Some);
    assert(s1.run(events.drop_first()) is Some);
}

/// A sign-in with an e-mail that belongs to no user is refused as
/// `InexistentUser` at once; one for a user who has no PIN is refused as
/// `InexistentPin` once the attempt is recorded.
pub proof fn lemma_refused_without_user_or_pin(
    email: Seq<char>,
    pin: Seq<char>,
    now: Timestamp,
    user_id: i32,
)
    ensures
        run_outcome(
            authentication_run(email, pin, now, seq![PinAuthenticationEvent::UserIdFetched(None)]),
        ) == Some(Err::<LoginClaims, PinAuthenticationError>(PinAuthenticationError::InexistentUser)),
        run_outcome(
            authentication_run(
                email,
                pin,
                now,
                seq![
                    PinAuthenticationEvent::UserIdFetched(Some(user_id)),
                    PinAuthenticationEvent::AttemptRecorded,
                    PinAuthenticationEvent::AttemptsCounted(None),
                ],
            ),
        ) == Some(Err::<LoginClaims, PinAuthenticationError>(PinAuthenticationError::InexistentPin)),
{
    let missing = seq![PinAuthenticationEvent::UserIdFetched(None)];
    let finished = PinAuthentication::<Seq<char>>::Finished {
        outcome: Err(PinAuthenticationError::InexistentUser),
    };
    assert(missing.drop_first() =~= Seq::<PinAuthenticationEvent>::empty());
    assert(finished.run(missing.drop_first()) is Some);
    let events = seq![
        PinAuthenticationEvent::UserIdFetched(Some(user_id)),
        PinAuthenticationEvent::AttemptRecorded,
        PinAuthenticationEvent::AttemptsCounted(None),
    ];
    let s1 = PinAuthentication::<Seq<char>>::RecordingAttempt { user_id, now };
    let s2 = PinAuthentication::<Seq<char>>::CountingAttempts { user_id, now };
    let s3 = PinAuthentication::<Seq<char>>::Finished {
        outcome: Err(PinAuthenticationError::InexistentPin),
    };
    assert(events.drop_first().drop_first().drop_first() =~= Seq::<PinAuthenticationEvent>::empty());
    assert(s3.run(events.drop_first().drop_first().drop_first()) is Some);
    assert(s2.run(events.drop_first().drop_first()) is Some);
    assert(s1.run(events.drop_first()) is Some);
}

} // verus!
