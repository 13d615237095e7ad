use vstd::prelude::*;

use crate::auth::{generate_pin, is_pin};
use crate::clock::{utc_now, Timestamp};

verus! {

/// Where a request for a new PIN stands. `T` is the text type: `String` in
/// running code, `Seq<char>` in contracts.
pub enum PinRequest<T> {
    /// The user with the e-mail is being looked up.
    LookingUpUser { email: T },
    /// A user with the e-mail is being created.
    CreatingUser { email: T },
    /// The user with the e-mail, who now exists, is being looked up.
    ReloadingUser { email: T },
    /// The new PIN is being stored.
    StoringPin { pin: T },
    /// The PIN was stored and is handed out.
    Finished { pin: T },
    /// The database failed.
    Aborted,
}

/// What the request asks of the database next, or its answer.
pub enum PinRequestAction<T> {
    /// Look up the id of the user with this e-mail.
    FetchUserId { email: T },
    /// Create a user with this e-mail.
    InsertUser { email: T },
    /// Store this PIN for the user, issued at `created_at`.
    InsertPin { user_id: i32, pin: T, created_at: Timestamp },
    /// The request is over: this PIN was stored.
    Finish { pin: T },
    /// The request is over: the database failed, and its error is the
    /// answer.
    Abort,
}

/// What the database answered.
#[derive(Clone, Copy, Debug, PartialEq, Eq, Structural)]
pub enum PinRequestEvent {
    /// The id of the user with the e-mail, if there is one.
    UserIdFetched(Option<i32>),
    /// The statement was carried out.
    Executed,
    /// The database failed.
    Failed,
}

impl View for PinRequest<String> {
    type V = PinRequest<Seq<char>>;

    open spec fn view(&self) -> PinRequest<Seq<char>> {
        match self {
            PinRequest::LookingUpUser { email } => PinRequest::LookingUpUser { email: email@ },
            PinRequest::CreatingUser { email } => PinRequest::CreatingUser { email: email@ },
            PinRequest::ReloadingUser { email } => PinRequest::ReloadingUser { email: email@ },
            PinRequest::StoringPin { pin } => PinRequest::StoringPin { pin: pin@ },
            PinRequest::Finished { pin } => PinRequest::Finished { pin: pin@ },
            PinRequest::Aborted => PinRequest::Aborted,
        }
    }
}

impl View for PinRequestAction<String> {
    type V = PinRequestAction<Seq<char>>;

    open spec fn view(&self) -> PinRequestAction<Seq<char>> {
        match self {
            PinRequestAction::FetchUserId { email } => PinRequestAction::FetchUserId {
                email: email@,
            },
            PinRequestAction::InsertUser { email } => PinRequestAction::InsertUser {
                email: email@,
            },
            PinRequestAction::InsertPin { user_id, pin, created_at } =>
                PinRequestAction::InsertPin { user_id: *user_id, pin: pin@, created_at: *created_at },
            PinRequestAction::Finish { pin } => PinRequestAction::Finish { pin: pin@ },
            PinRequestAction::Abort => PinRequestAction::Abort,
        }
    }
}

/// The first state and request of a PIN request for `email`.
pub open spec fn pin_request_start(email: Seq<char>) -> (PinRequest<Seq<char>>, PinRequestAction<
    Seq<char>,
>) {
    (PinRequest::LookingUpUser { email }, PinRequestAction::FetchUserId { email })
}

impl PinRequest<Seq<char>> {
    /// Whether the state waits for such an answer. A lookup that finds no
    /// user right after that user was created is not awaited.
    pub open spec fn awaits(self, event: PinRequestEvent) -> bool {
        match (self, event) {
            (PinRequest::LookingUpUser { .. }, PinRequestEvent::UserIdFetched(_)) => true,
            (PinRequest::ReloadingUser { .. }, PinRequestEvent::UserIdFetched(Some(_))) => true,
            (PinRequest::CreatingUser { .. }, PinRequestEvent::Executed) => true,
            (PinRequest::StoringPin { .. }, PinRequestEvent::Executed) => true,
            (PinRequest::LookingUpUser { .. }, PinRequestEvent::Failed) => true,
            (PinRequest::CreatingUser { .. }, PinRequestEvent::Failed) => true,
            (PinRequest::ReloadingUser { .. }, PinRequestEvent::Failed) => true,
            (PinRequest::StoringPin { .. }, PinRequestEvent::Failed) => true,
            _ => false,
        }
    }

    /// The next state and request after `event`, where `fresh_pin` and `now`
    /// are the PIN and the time a new PIN would get; `None` where the state
    /// does not await such an answer.
    pub open spec fn transition(
        self,
        event: PinRequestEvent,
        fresh_pin: Seq<char>,
        now: Timestamp,
    ) -> Option<(PinRequest<Seq<char>>, PinRequestAction<Seq<char>>)> {
        match (self, event) {
            (PinRequest::LookingUpUser { .. }, PinRequestEvent::Failed) => Some(
                (PinRequest::Aborted, PinRequestAction::Abort),
            ),
            (PinRequest::LookingUpUser { email }, PinRequestEvent::UserIdFetched(None)) => Some(
                (PinRequest::CreatingUser { email }, PinRequestAction::InsertUser { email }),
            ),
            (PinRequest::LookingUpUser { email }, PinRequestEvent::UserIdFetched(Some(_))) => Some(
                (PinRequest::ReloadingUser { email }, PinRequestAction::FetchUserId { email }),
            ),
            (PinRequest::CreatingUser { email }, PinRequestEvent::Executed) => Some(
                (PinRequest::ReloadingUser { email }, PinRequestAction::FetchUserId { email }),
            ),
            (PinRequest::CreatingUser { .. }, PinRequestEvent::Failed) => Some(
                (PinRequest::Aborted, PinRequestAction::Abort),
            ),
            (PinRequest::ReloadingUser { .. }, PinRequestEvent::UserIdFetched(Some(user_id))) => Some(
                (
                    PinRequest::StoringPin { pin: fresh_pin },
                    PinRequestAction::InsertPin { user_id, pin: fresh_pin, created_at: now },
                ),
            ),
            (PinRequest::ReloadingUser { .. }, PinRequestEvent::Failed) => Some(
                (PinRequest::Aborted, PinRequestAction::Abort),
            ),
            (PinRequest::StoringPin { pin }, PinRequestEvent::Executed) => Some(
                (PinRequest::Finished { pin }, PinRequestAction::Finish { pin }),
            ),
            (PinRequest::StoringPin { .. }, PinRequestEvent::Failed) => Some(
                (PinRequest::Aborted, PinRequestAction::Abort),
            ),
            _ => None,
        }
    }

    /// The state and the requests after a whole sequence of answers, where
    /// the answer at index `i` comes with `fresh_pins[i]` and `times[i]`;
    /// `None` where one of the answers was not awaited.
    pub open spec fn run(
        self,
        events: Seq<PinRequestEvent>,
        fresh_pins: Seq<Seq<char>>,
        times: Seq<Timestamp>,
    ) -> Option<(PinRequest<Seq<char>>, Seq<PinRequestAction<Seq<char>>>)>
        decreases events.len(),
    {
        if events.len() == 0 {
            Some((self, Seq::empty()))
        } else {
            match self.transition(events[0], fresh_pins[0], times[0]) {
                None => None,
                Some((next, action)) => match next.run(
                    events.drop_first(),
                    fresh_pins.drop_first(),
                    times.drop_first(),
                ) {
                    None => None,
                    Some((last, actions)) => Some((last, seq![action] + actions)),
                },
            }
        }
    }
}

impl PinRequest<String> {
    /// Starts a request for a new PIN for `email`.
    pub fn start(email: &str) -> (r: (PinRequest<String>, PinRequestAction<String>))
        ensures
            (r.0@, r.1@) == pin_request_start(email@),
    {
        (
            PinRequest::LookingUpUser { email: email.to_owned() },
            PinRequestAction::FetchUserId { email: email.to_owned() },
        )
    }

    /// Whether the request waits for such an answer. It is false for a
    /// lookup that finds no user right after that user was created.
    pub fn accepts(&self, event: &PinRequestEvent) -> (b: bool)
        ensures
            b == self@.awaits(*event),
    {
        match (self, event) {
            (PinRequest::LookingUpUser { .. }, PinRequestEvent::UserIdFetched(_)) => true,
            (PinRequest::ReloadingUser { .. }, PinRequestEvent::UserIdFetched(Some(_))) => true,
            (PinRequest::CreatingUser { .. }, PinRequestEvent::Executed) => true,
            (PinRequest::StoringPin { .. }, PinRequestEvent::Executed) => true,
            (PinRequest::LookingUpUser { .. }, PinRequestEvent::Failed) => true,
            (PinRequest::CreatingUser { .. }, PinRequestEvent::Failed) => true,
            (PinRequest::ReloadingUser { .. }, PinRequestEvent::Failed) => true,
            (PinRequest::StoringPin { .. }, PinRequestEvent::Failed) => true,
            _ => false,
        }
    }

    /// Moves the request on by the database's answer, where `fresh_pin` and
    /// `now` are what a new PIN gets.
    pub fn step_with(self, event: PinRequestEvent, fresh_pin: String, now: Timestamp) -> (r: (
        PinRequest<String>,
        PinRequestAction<String>,
    ))
        requires
            self@.awaits(event),
        ensures
            Some((r.0@, r.1@)) == self@.transition(event, fresh_pin@, now),
    {
        match self {
            PinRequest::LookingUpUser { email } => match event {
                PinRequestEvent::UserIdFetched(None) => (
                    PinRequest::CreatingUser { email: email.clone() },
                    PinRequestAction::InsertUser { email },
                ),
                PinRequestEvent::UserIdFetched(Some(_)) => (
                    PinRequest::ReloadingUser { email: email.clone() },
                    PinRequestAction::FetchUserId { email },
                ),
                _ => (PinRequest::Aborted, PinRequestAction::Abort),
            },
            PinRequest::CreatingUser { email } => match event {
                PinRequestEvent::Executed => (
                    PinRequest::ReloadingUser { email: email.clone() },
                    PinRequestAction::FetchUserId { email },
                ),
                _ => (PinRequest::Aborted, PinRequestAction::Abort),
            },
            PinRequest::ReloadingUser { email } => match event {
                PinRequestEvent::UserIdFetched(Some(user_id)) => (
                    PinRequest::StoringPin { pin: fresh_pin.clone() },
                    PinRequestAction::InsertPin { user_id, pin: fresh_pin, created_at: now },
                ),
                _ => (PinRequest::Aborted, PinRequestAction::Abort),
            },
            PinRequest::StoringPin { pin } => match event {
                PinRequestEvent::Executed => (
                    PinRequest::Finished { pin: pin.clone() },
                    PinRequestAction::Finish { pin },
                ),
                _ => (PinRequest::Aborted, PinRequestAction::Abort),
            },
            PinRequest::Finished { pin } => (
                PinRequest::Finished { pin: pin.clone() },
                PinRequestAction::Finish { pin },
            ),
            PinRequest::Aborted => (PinRequest::Aborted, PinRequestAction::Abort),
        }
    }

    /// Moves the request on by the database's answer, drawing a new random
    /// PIN and reading the clock for the PIN it may store.
    pub fn step(self, event: PinRequestEvent) -> (r: (PinRequest<String>, PinRequestAction<String>))
        requires
            self@.awaits(event),
        ensures
            exists|p: Seq<char>, t: Timestamp|
                is_pin(p) && t.nanos < 1_000_000_000 && Some((r.0@, r.1@)) == (
                #[trigger] self@.transition(event, p, t)),
    {
        let fresh_pin = generate_pin();
        let now = utc_now();
        self.step_with(event, fresh_pin, now)
    }
}

/// A user is created only where the lookup by e-mail found none, and it is
/// created with that e-mail.
pub proof fn lemma_user_created_only_when_missing(
    s: PinRequest<Seq<char>>,
    event: PinRequestEvent,
    fresh_pin: Seq<char>,
    now: Timestamp,
    email: Seq<char>,
)
    requires
        s.transition(event, fresh_pin, now) is Some,
        s.transition(event, fresh_pin, now).unwrap().1 == (PinRequestAction::<Seq<char>>::InsertUser {
            email,
        }),
    ensures
        s == (PinRequest::<Seq<char>>::LookingUpUser { email }),
        event == PinRequestEvent::UserIdFetched(None),
{
}

/// A state whose PIN, if it holds one, is a valid PIN.
pub open spec fn holds_valid_pin(s: PinRequest<Seq<char>>) -> bool {
    match s {
        PinRequest::StoringPin { pin } => is_pin(pin),
        PinRequest::Finished { pin } => is_pin(pin),
        _ => true,
    }
}

/// Every fresh PIN is a valid PIN.
pub open spec fn all_pins(pins: Seq<Seq<char>>) -> bool {
    forall|i: int| 0 <= i < pins.len() ==> #[trigger] is_pin(pins[i])
}

/// The state and requests of a PIN request for `email` through `events`.
pub open spec fn pin_request_run(
    email: Seq<char>,
    events: Seq<PinRequestEvent>,
    fresh_pins: Seq<Seq<char>>,
    times: Seq<Timestamp>,
) -> Option<(PinRequest<Seq<char>>, Seq<PinRequestAction<Seq<char>>>)> {
    pin_request_start(email).0.run(events, fresh_pins, times)
}

/// The PIN that a run handed out, if it did.
pub open spec fn handed_out_pin(
    run: Option<(PinRequest<Seq<char>>, Seq<PinRequestAction<Seq<char>>>)>,
) -> Option<Seq<char>> {
    match run {
        Some((PinRequest::Finished { pin }, _)) => Some(pin),
        _ => None,
    }
}

/// The requests a run made after the first.
pub open spec fn request_actions(
    run: Option<(PinRequest<Seq<char>>, Seq<PinRequestAction<Seq<char>>>)>,
) -> Seq<PinRequestAction<Seq<char>>> {
    match run {
        Some((_, actions)) => actions,
        None => Seq::empty(),
    }
}

/// An action that stores `pin` for `user_id`.
pub open spec fn stores_pin(action: PinRequestAction<Seq<char>>, user_id: i32, pin: Seq<char>) -> bool {
    action matches PinRequestAction::InsertPin { user_id: u, pin: p, .. } && u == user_id && p == pin
}

/// The run through `events`, with requests `actions`, ended by storing
/// `pin` for the user id that the next to last answer found, and then by
/// handing it out.
pub open spec fn ends_by_storing(
    events: Seq<PinRequestEvent>,
    actions: Seq<PinRequestAction<Seq<char>>>,
    pin: Seq<char>,
) -> bool {
    &&& events.len() >= 2
    &&& actions.len() == events.len()
    &&& actions.last() == PinRequestAction::<Seq<char>>::Finish { pin }
    &&& match events[events.len() - 2] {
        PinRequestEvent::UserIdFetched(Some(user_id)) => stores_pin(
            actions[actions.len() - 2],
            user_id,
            pin,
        ),
        _ => false,
    }
}

/// How a run from `s` that hands out `pin` got there.
spec fn hands_out_stored_pin(
    s: PinRequest<Seq<char>>,
    events: Seq<PinRequestEvent>,
    actions: Seq<PinRequestAction<Seq<char>>>,
    pin: Seq<char>,
) -> bool {
    ||| events.len() == 0 && s == PinRequest::<Seq<char>>::Finished { pin }
    ||| events.len() == 1 && s == PinRequest::<Seq<char>>::StoringPin { pin } && actions
        == seq![PinRequestAction::<Seq<char>>::Finish { pin }]
    ||| ends_by_storing(events, actions, pin)
}

proof fn lemma_run_ends_with_stored_pin(
    s: PinRequest<Seq<char>>,
    events: Seq<PinRequestEvent>,
    fresh_pins: Seq<Seq<char>>,
    times: Seq<Timestamp>,
    pin: Seq<char>,
)
    requires
        handed_out_pin(s.run(events, fresh_pins, times)) == Some(pin),
        fresh_pins.len() >= events.len(),
        times.len() >= events.len(),
        all_pins(fresh_pins),
        holds_valid_pin(s),
    ensures
        is_pin(pin),
        hands_out_stored_pin(s, events, request_actions(s.run(events, fresh_pins, times)), pin),
    decreases events.len(),
{
    if events.len() == 0 {
        return ;
    }
    let e = events[0];
    let (next, action) = s.transition(e, fresh_pins[0], times[0]).unwrap();
    let rest = events.drop_first();
    let rest_pins = fresh_pins.drop_first();
    let rest_times = times.drop_first();
    let inner = next.run(rest, rest_pins, rest_times).unwrap();
    assert(s.run(events, fresh_pins, times) == Some((inner.0, seq![action] + inner.1)));
    assert(is_pin(fresh_pins[0]));
    assert(all_pins(rest_pins)) by {
        assert forall|i: int| 0 <= i < rest_pins.len() implies #[trigger] is_pin(rest_pins[i]) by {
            assert(rest_pins[i] == fresh_pins[i + 1]);
        }
    }
    lemma_run_ends_with_stored_pin(next, rest, rest_pins, rest_times, pin);
    let actions = seq![action] + inner.1;
    if rest.len() == 0 {
        assert(next == PinRequest::<Seq<char>>::Finished { pin });
        assert(inner.1 =~= Seq::<PinRequestAction<Seq<char>>>::empty());
        assert(actions =~= seq![action]);
    } else if rest.len() == 1 {
        assert(next == PinRequest::<Seq<char>>::StoringPin { pin });
        assert(actions.len() == 2);
        assert(actions[1] == PinRequestAction::<Seq<char>>::Finish { pin });
        assert(events[0] == e);
    } else {
        assert(actions.len() == events.len());
        assert(actions[actions.len() - 1] == inner.1[inner.1.len() - 1]);
        assert(actions[actions.len() - 2] == inner.1[inner.1.len() - 2]);
        assert(events[events.len() - 2] == rest[rest.len() - 2]);
    }
}

/// The PIN a request hands out is a valid PIN and is the one it stored: the
/// request ends by storing that PIN for the user id the last lookup found,
/// then handing it out.
pub proof fn lemma_handed_out_pin_was_stored(
    email: Seq<char>,
    events: Seq<PinRequestEvent>,
    fresh_pins: Seq<Seq<char>>,
    times: Seq<Timestamp>,
    pin: Seq<char>,
)
    requires
        handed_out_pin(pin_request_run(email, events, fresh_pins, times)) == Some(pin),
        fresh_pins.len() >= events.len(),
        times.len() >= events.len(),
        all_pins(fresh_pins),
    ensures
        is_pin(pin),
        ends_by_storing(events, request_actions(pin_request_run(email, events, fresh_pins, times)), pin),
{
    lemma_run_ends_with_stored_pin(pin_request_start(email).0, events, fresh_pins, times, pin);
}

/// While the request is unfinished, a database failure is always awaited and
/// ends it with `Abort`, whatever PIN and time were drawn.
pub proof fn lemma_failure_aborts(s: PinRequest<Seq<char>>, fresh_pin: Seq<char>, now: Timestamp)
    requires
        !(s is Finished),
        !(s is Aborted),
    ensures
        s.awaits(PinRequestEvent::Failed),
        s.transition(PinRequestEvent::Failed, fresh_pin, now) == Some(
            (PinRequest::<Seq<char>>::Aborted, PinRequestAction::<Seq<char>>::Abort),
        ),
{
}

} // verus!
