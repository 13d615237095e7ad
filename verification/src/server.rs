use vstd::prelude::*;

pub mod pin_authenticate;
pub mod subtitle;
pub mod subtitles;
pub mod upload;

verus! {

/// An HTTP method the server answers.
#[derive(Clone, Copy, Debug, PartialEq, Eq, Structural)]
pub enum HttpMethod {
    Get,
    Post,
}

/// Which cross-origin requests browsers may make to the server.
pub struct CorsPolicy {
    pub allowed_origins: Vec<String>,
    pub allowed_methods: Vec<HttpMethod>,
    pub allow_all_headers: bool,
}

/// The web client's origin.
pub open spec fn client_origin() -> Seq<char> {
    "http://localhost:3000"@
}

/// Requests from the web client only, with GET and POST and any header.
pub fn cors_policy() -> (policy: CorsPolicy)
    ensures
        policy.allowed_origins@.len() == 1,
        policy.allowed_origins@[0]@ == client_origin(),
        policy.allowed_methods@ == seq![HttpMethod::Get, HttpMethod::Post],
        policy.allow_all_headers,
{
    let mut allowed_origins: Vec<String> = Vec::new();
    allowed_origins.push(String::from_str("http://localhost:3000"));
    let mut allowed_methods: Vec<HttpMethod> = Vec::new();
    allowed_methods.push(HttpMethod::Get);
    allowed_methods.push(HttpMethod::Post);
    CorsPolicy { allowed_origins, allowed_methods, allow_all_headers: true }
}

} // verus!
