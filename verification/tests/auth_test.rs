use legendado_server::auth::{
    check_attempts, generate_pin, pin_from_digits, AttemptCounts, LoginClaims, PinAuthentication,
    PinAuthenticationAction, PinAuthenticationError, PinAuthenticationEvent, PinRequest,
    PinRequestAction, PinRequestEvent, MAX_PIN_ATTEMPTS, PIN_LENGTH,
};
use legendado_server::clock::Timestamp;

fn is_pin(pin: &str) -> bool {
    pin.chars().count() == PIN_LENGTH && pin.chars().all(|c| c.is_ascii_digit())
}

#[test]
fn pin_is_written_digit_by_digit() {
    assert_eq!(pin_from_digits(&vec![0, 4, 9, 2]), "0492");
    assert_eq!(pin_from_digits(&vec![]), "");
    assert_eq!(pin_from_digits(&vec![7]), "7");
}

#[test]
fn generated_pins_have_four_digits() {
    for _ in 0..200 {
        let pin = generate_pin();
        assert!(is_pin(&pin), "{}", pin);
    }
}

#[test]
fn generated_pins_vary() {
    let pins: std::collections::HashSet<String> = (0..50).map(|_| generate_pin()).collect();
    assert!(pins.len() > 1);
}

#[test]
fn attempts_are_judged_in_order() {
    assert_eq!(check_attempts(1, 1), Ok(()));
    assert_eq!(check_attempts(MAX_PIN_ATTEMPTS, 1), Ok(()));
    assert_eq!(check_attempts(4, 1), Err(PinAuthenticationError::ExhaustedAttemps));
    assert_eq!(check_attempts(4, 2), Err(PinAuthenticationError::ExhaustedAttemps));
    assert_eq!(check_attempts(3, 2), Err(PinAuthenticationError::ExpiredPin));
    assert_eq!(check_attempts(2, 0), Err(PinAuthenticationError::MismatchedPins));
}

#[test]
fn refused_sign_in_is_a_bad_request() {
    assert_eq!(PinAuthenticationError::MismatchedPins.status_code(), 400);
}

const NOON: Timestamp = Timestamp { secs: 1_600_000_000, nanos: 5 };

fn run_authentication(
    events: Vec<PinAuthenticationEvent>,
) -> (Vec<PinAuthenticationAction<String>>, PinAuthentication<String>) {
    let (mut state, first) = PinAuthentication::start_at("meira@mineracao.com", "0492", NOON);
    let mut actions = vec![first];
    for event in events {
        assert!(state.accepts(&event));
        let (next, action) = state.step(event);
        state = next;
        actions.push(action);
    }
    (actions, state)
}

fn outcome_of(events: Vec<PinAuthenticationEvent>) -> Result<LoginClaims, PinAuthenticationError> {
    let (actions, _) = run_authentication(events);
    match actions.last() {
        Some(PinAuthenticationAction::Finish { outcome }) => *outcome,
        _ => panic!("the sign-in is not finished"),
    }
}

fn counted(all: i64, correct: i64) -> PinAuthenticationEvent {
    PinAuthenticationEvent::AttemptsCounted(Some(AttemptCounts { all, correct }))
}

#[test]
fn sign_in_with_the_latest_pin_is_granted() {
    let (actions, state) = run_authentication(vec![
        PinAuthenticationEvent::UserIdFetched(Some(7)),
        PinAuthenticationEvent::AttemptRecorded,
        counted(1, 1),
    ]);
    assert!(matches!(&actions[0], PinAuthenticationAction::FetchUserId { email } if email == "meira@mineracao.com"));
    assert!(matches!(&actions[1], PinAuthenticationAction::RecordAttempt { pin, user_id: 7, created_at } if pin == "0492" && *created_at == NOON));
    assert!(matches!(&actions[2], PinAuthenticationAction::CountAttempts { user_id: 7 }));
    let claims = LoginClaims::new(7, NOON);
    assert!(matches!(&actions[3], PinAuthenticationAction::Finish { outcome: Ok(c) } if *c == claims));
    assert!(matches!(state, PinAuthentication::Finished { outcome: Ok(c) } if c == claims));
    assert_eq!(claims.sub, 7);
    assert_eq!(claims.iat, NOON);
}

#[test]
fn sign_in_of_an_unknown_e_mail_is_refused() {
    assert_eq!(
        outcome_of(vec![PinAuthenticationEvent::UserIdFetched(None)]),
        Err(PinAuthenticationError::InexistentUser)
    );
}

#[test]
fn sign_in_without_a_pin_is_refused() {
    assert_eq!(
        outcome_of(vec![
            PinAuthenticationEvent::UserIdFetched(Some(3)),
            PinAuthenticationEvent::AttemptRecorded,
            PinAuthenticationEvent::AttemptsCounted(None),
        ]),
        Err(PinAuthenticationError::InexistentPin)
    );
}

#[test]
fn sign_in_refusals_follow_the_counts() {
    let attempt = |all, correct| {
        outcome_of(vec![
            PinAuthenticationEvent::UserIdFetched(Some(3)),
            PinAuthenticationEvent::AttemptRecorded,
            counted(all, correct),
        ])
    };
    assert_eq!(attempt(4, 1), Err(PinAuthenticationError::ExhaustedAttemps));
    assert_eq!(attempt(2, 2), Err(PinAuthenticationError::ExpiredPin));
    assert_eq!(attempt(2, 0), Err(PinAuthenticationError::MismatchedPins));
    assert_eq!(attempt(3, 1), Ok(LoginClaims::new(3, NOON)));
}

#[test]
fn sign_in_waits_only_for_the_awaited_answer() {
    let (state, _) = PinAuthentication::start_at("a@b.c", "1234", NOON);
    assert!(state.accepts(&PinAuthenticationEvent::UserIdFetched(None)));
    assert!(!state.accepts(&PinAuthenticationEvent::AttemptRecorded));
    assert!(!state.accepts(&counted(1, 1)));
    let (state, _) = state.step(PinAuthenticationEvent::UserIdFetched(None));
    assert!(!state.accepts(&PinAuthenticationEvent::UserIdFetched(Some(1))));
}

#[test]
fn sign_in_starts_at_the_current_time() {
    let (state, action) = PinAuthentication::start("a@b.c", "1234");
    assert!(matches!(action, PinAuthenticationAction::FetchUserId { email } if email == "a@b.c"));
    match state {
        PinAuthentication::AwaitingUser { pin, now } => {
            assert_eq!(pin, "1234");
            assert!(now.secs > 1_600_000_000);
            assert!(now.nanos < 1_000_000_000);
        }
        _ => panic!("a sign-in starts by looking up the user"),
    }
}

fn run_request(
    events: Vec<PinRequestEvent>,
) -> (Vec<PinRequestAction<String>>, PinRequest<String>) {
    let (mut state, first) = PinRequest::start("meira@mineracao.com");
    let mut actions = vec![first];
    for event in events {
        assert!(state.accepts(&event));
        let (next, action) = state.step_with(event, "0492".to_string(), NOON);
        state = next;
        actions.push(action);
    }
    (actions, state)
}

#[test]
fn pin_request_creates_a_missing_user() {
    let (actions, state) = run_request(vec![
        PinRequestEvent::UserIdFetched(None),
        PinRequestEvent::Executed,
        PinRequestEvent::UserIdFetched(Some(9)),
        PinRequestEvent::Executed,
    ]);
    assert!(matches!(&actions[0], PinRequestAction::FetchUserId { email } if email == "meira@mineracao.com"));
    assert!(matches!(&actions[1], PinRequestAction::InsertUser { email } if email == "meira@mineracao.com"));
    assert!(matches!(&actions[2], PinRequestAction::FetchUserId { email } if email == "meira@mineracao.com"));
    assert!(matches!(&actions[3], PinRequestAction::InsertPin { user_id: 9, pin, created_at } if pin == "0492" && *created_at == NOON));
    assert!(matches!(&actions[4], PinRequestAction::Finish { pin } if pin == "0492"));
    assert!(matches!(state, PinRequest::Finished { pin } if pin == "0492"));
}

#[test]
fn pin_request_for_a_known_user_creates_none() {
    let (actions, _) = run_request(vec![
        PinRequestEvent::UserIdFetched(Some(9)),
        PinRequestEvent::UserIdFetched(Some(9)),
        PinRequestEvent::Executed,
    ]);
    assert_eq!(actions.len(), 4);
    assert!(matches!(&actions[1], PinRequestAction::FetchUserId { .. }));
    assert!(matches!(&actions[2], PinRequestAction::InsertPin { user_id: 9, .. }));
    assert!(matches!(&actions[3], PinRequestAction::Finish { pin } if pin == "0492"));
}

#[test]
fn pin_request_aborts_on_database_failure() {
    for failing_at in 0..4 {
        let mut events = vec![
            PinRequestEvent::UserIdFetched(None),
            PinRequestEvent::Executed,
            PinRequestEvent::UserIdFetched(Some(9)),
        ];
        events.truncate(failing_at);
        events.push(PinRequestEvent::Failed);
        let (actions, state) = run_request(events);
        assert!(matches!(actions.last(), Some(PinRequestAction::Abort)));
        assert!(matches!(state, PinRequest::Aborted));
    }
}

#[test]
fn pin_request_does_not_await_a_vanished_user() {
    let (state, _) = PinRequest::start("x@y.z");
    let (state, _) = state.step_with(PinRequestEvent::UserIdFetched(None), String::new(), NOON);
    let (state, _) = state.step_with(PinRequestEvent::Executed, String::new(), NOON);
    assert!(!state.accepts(&PinRequestEvent::UserIdFetched(None)));
    assert!(state.accepts(&PinRequestEvent::UserIdFetched(Some(1))));
    assert!(!state.accepts(&PinRequestEvent::Executed));
}

#[test]
fn pin_request_stores_a_fresh_random_pin() {
    let (state, _) = PinRequest::start("x@y.z");
    let (state, _) = state.step(PinRequestEvent::UserIdFetched(Some(4)));
    let (state, action) = state.step(PinRequestEvent::UserIdFetched(Some(4)));
    let stored = match action {
        PinRequestAction::InsertPin { user_id: 4, pin, created_at } => {
            assert!(created_at.secs > 1_600_000_000);
            pin
        }
        _ => panic!("the PIN is stored next"),
    };
    assert!(is_pin(&stored));
    let (_, action) = state.step(PinRequestEvent::Executed);
    assert!(matches!(action, PinRequestAction::Finish { pin } if pin == stored));
}
