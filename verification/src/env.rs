use vstd::prelude::*;

verus! {

/// The environment variable that holds the key tokens are signed with.
pub const JWT_SECRET_KEY_VAR: &'static str = "JWT_SECRET_KEY";

/// Settings the server reads from its environment when it starts.
pub struct Env {
    pub jwt_secret_key: String,
}

/// Builds the settings from the value of the `JWT_SECRET_KEY_VAR` variable.
pub fn read(jwt_secret_key: String) -> (env: Env)
    ensures
        env.jwt_secret_key@ == jwt_secret_key@,
{
    Env { jwt_secret_key }
}

/// The message the server stops with when variable `key` is not set:
/// the name, then ` env var missing`.
pub fn missing_variable_message(key: &str) -> (message: String)
    ensures
        message@ == key@ + " env var missing"@,
{
    let mut message = String::from_str(key);
    message.append(" env var missing");
    message
}

} // verus!
