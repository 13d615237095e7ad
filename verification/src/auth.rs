use vstd::prelude::*;
use rand::Rng;

use crate::clock::Timestamp;

pub mod authentication;
pub mod request;

pub use authentication::{AttemptCounts, PinAuthentication, PinAuthenticationAction, PinAuthenticationEvent};
pub use request::{PinRequest, PinRequestAction, PinRequestEvent};

verus! {

/// The id of the user with e-mail `$1`, as at most one row.
pub const FETCH_USER_ID_SQL: &'static str = "SELECT id FROM users WHERE email = $1 LIMIT 1";

/// Creates a user with e-mail `$1`.
pub const INSERT_USER_SQL: &'static str = "INSERT INTO users (email) VALUES ($1)";

/// Stores PIN `$2` for user `$1`, issued at `$3`.
pub const INSERT_PIN_SQL: &'static str =
    "INSERT INTO authentication_pins (user_id, pin, created_at) VALUES ($1, $2, $3)";

/// Stores an attempt with PIN `$1` by user `$2`, made at `$3`.
pub const INSERT_ATTEMPT_SQL: &'static str =
    "INSERT INTO authentication_pin_attempts (pin, user_id, created_at) VALUES ($1, $2, $3)";

/// For the latest PIN of user `$1`: the attempts made after it was issued,
/// all and those with that PIN, as at most one row; no row when the user
/// has no PIN.
pub const COUNT_ATTEMPTS_SQL: &'static str = "
        SELECT
            (
                SELECT COUNT(*)
                FROM authentication_pin_attempts a
                WHERE a.user_id = p.user_id AND a.created_at > p.created_at
            ),
            (
                SELECT COUNT(*)
                FROM authentication_pin_attempts a
                WHERE a.user_id = p.user_id AND a.created_at > p.created_at AND a.pin = p.pin
            )
        FROM authentication_pins p
        WHERE user_id = $1
        ORDER BY p.created_at DESC
        LIMIT 1
    ";

/// Why a PIN sign-in was refused.
#[derive(Clone, Copy, Debug, PartialEq, Eq, Structural)]
pub enum PinAuthenticationError {
    InexistentUser,
    InexistentPin,
    ExhaustedAttemps,
    MismatchedPins,
    ExpiredPin,
}

impl PinAuthenticationError {
    /// The HTTP status a refused sign-in is answered with: Bad Request.
    pub fn status_code(&self) -> (code: u16)
        ensures
            code == 400,
    {
        400
    }
}

/// The claims of the token handed to a user who signed in.
#[derive(Clone, Copy, Debug, PartialEq, Eq, Structural)]
pub struct LoginClaims {
    pub iat: Timestamp,
    pub sub: i32,
}

impl LoginClaims {
    pub open spec fn spec_new(sub: i32, iat: Timestamp) -> LoginClaims {
        LoginClaims { iat, sub }
    }

    pub fn new(sub: i32, iat: Timestamp) -> (claims: LoginClaims)
        ensures
            claims.sub == sub,
            claims.iat == iat,
    {
        LoginClaims { iat, sub }
    }
}

/// Number of digits in a PIN.
pub const PIN_LENGTH: usize = 4;

/// The most attempts that may follow the latest PIN before it is locked.
pub const MAX_PIN_ATTEMPTS: i64 = 3;

/// The character of a decimal digit.
pub open spec fn digit_char(d: u32) -> char {
    ((d as int) + ('0' as int)) as char
}

pub open spec fn is_digit_char(c: char) -> bool {
    '0' <= c <= '9'
}

/// A PIN: exactly `PIN_LENGTH` decimal digits.
pub open spec fn is_pin(s: Seq<char>) -> bool {
    &&& s.len() == PIN_LENGTH
    &&& forall|i: int| 0 <= i < s.len() ==> #[trigger] is_digit_char(s[i])
}

/// One decimal digit drawn from the thread-local generator of `rand`:
/// `Rng::gen_range(0, 10)` on `rand::thread_rng()`. Its documentation
/// promises a value in `[low, high)`; which one comes back is chance.
#[verifier::external_body]
fn random_digit() -> (d: u32)
    ensures
        d < 10,
{
    rand::thread_rng().gen_range(0u32, 10u32)
}

/// Writes the digits, each below ten, one after the other.
pub fn pin_from_digits(digits: &Vec<u32>) -> (pin: String)
    requires
        forall|i: int| 0 <= i < digits.len() ==> #[trigger] digits[i] < 10,
    ensures
        pin@ == digits@.map_values(|d: u32| digit_char(d)),
{
    let numerals = "0123456789";
    proof {
        reveal_strlit("0123456789");
    }
    let mut pin = String::new();
    let mut i: usize = 0;
    while i < digits.len()
        invariant
            i <= digits.len(),
            numerals@ == "0123456789"@,
            numerals@.len() == 10,
            forall|k: int| 0 <= k < 10 ==> #[trigger] numerals@[k] == digit_char(k as u32),
            forall|k: int| 0 <= k < digits.len() ==> #[trigger] digits[k] < 10,
            pin@ == digits@.take(i as int).map_values(|d: u32| digit_char(d)),
        decreases digits.len() - i,
    {
        let d = digits[i];
        let numeral = numerals.substring_char(d as usize, d as usize + 1);
        pin.append(numeral);
        assert(digits@.take(i + 1) =~= digits@.take(i as int).push(d));
        assert(numeral@ =~= seq![digit_char(d)]);
        i = i + 1;
    }
    assert(digits@.take(digits.len() as int) =~= digits@);
    pin
}

/// A fresh PIN of random digits.
pub fn generate_pin() -> (pin: String)
    ensures
        is_pin(pin@),
{
    let mut digits: Vec<u32> = Vec::new();
    let mut i: usize = 0;
    while i < PIN_LENGTH
        invariant
            i <= PIN_LENGTH,
            digits.len() == i,
            forall|k: int| 0 <= k < digits.len() ==> #[trigger] digits[k] < 10,
        decreases PIN_LENGTH - i,
    {
        digits.push(random_digit());
        i = i + 1;
    }
    let pin = pin_from_digits(&digits);
    assert forall|k: int| 0 <= k < pin@.len() implies #[trigger] is_digit_char(pin@[k]) by {
        assert(digits[k] < 10);
    }
    pin
}

/// The refusal, if any, for a sign-in after `all_attempts` attempts of
/// which `correct_attempts` matched the latest PIN.
pub open spec fn attempts_refusal(all_attempts: i64, correct_attempts: i64) -> Option<
    PinAuthenticationError,
> {
    if all_attempts > MAX_PIN_ATTEMPTS {
        Some(PinAuthenticationError::ExhaustedAttemps)
    } else if correct_attempts > 1 {
        Some(PinAuthenticationError::ExpiredPin)
    } else if correct_attempts == 0 {
        Some(PinAuthenticationError::MismatchedPins)
    } else {
        None
    }
}

/// Once more than `MAX_PIN_ATTEMPTS` attempts followed the latest PIN, it
/// is locked: the refusal is always `ExhaustedAttemps`, whatever the number
/// of matching attempts. Otherwise too many matches mean the PIN was
/// already used, none means a wrong PIN, and one lets the sign-in through.
pub proof fn lemma_attempts_refusal_order(all_attempts: i64, correct_attempts: i64)
    ensures
        all_attempts > MAX_PIN_ATTEMPTS ==> attempts_refusal(all_attempts, correct_attempts)
            == Some(PinAuthenticationError::ExhaustedAttemps),
        all_attempts <= MAX_PIN_ATTEMPTS && correct_attempts > 1 ==> attempts_refusal(
            all_attempts,
            correct_attempts,
        ) == Some(PinAuthenticationError::ExpiredPin),
        all_attempts <= MAX_PIN_ATTEMPTS && correct_attempts == 0 ==> attempts_refusal(
            all_attempts,
            correct_attempts,
        ) == Some(PinAuthenticationError::MismatchedPins),
        attempts_refusal(all_attempts, correct_attempts) is None <==> (all_attempts
            <= MAX_PIN_ATTEMPTS && correct_attempts <= 1 && correct_attempts != 0),
{
}

/// Judges the attempts made since the latest PIN was issued.
pub fn check_attempts(all_attempts: i64, correct_attempts: i64) -> (r: Result<
    (),
    PinAuthenticationError,
>)
    ensures
        match attempts_refusal(all_attempts, correct_attempts) {
            Some(e) => r == Err::<(), PinAuthenticationError>(e),
            None => r is Ok,
        },
        all_attempts > MAX_PIN_ATTEMPTS ==> r == Err::<(), PinAuthenticationError>(
            PinAuthenticationError::ExhaustedAttemps,
        ),
        all_attempts <= MAX_PIN_ATTEMPTS && correct_attempts > 1 ==> r == Err::<
            (),
            PinAuthenticationError,
        >(PinAuthenticationError::ExpiredPin),
        all_attempts <= MAX_PIN_ATTEMPTS && correct_attempts == 0 ==> r == Err::<
            (),
            PinAuthenticationError,
        >(PinAuthenticationError::MismatchedPins),
        r is Ok <==> (all_attempts <= MAX_PIN_ATTEMPTS && correct_attempts <= 1
            && correct_attempts != 0),
{
    if all_attempts > MAX_PIN_ATTEMPTS {
        Err(PinAuthenticationError::ExhaustedAttemps)
    } else if correct_attempts > 1 {
        Err(PinAuthenticationError::ExpiredPin)
    } else if correct_attempts == 0 {
        Err(PinAuthenticationError::MismatchedPins)
    } else {
        Ok(())
    }
}

} // verus!
