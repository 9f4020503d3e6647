//! The publisher's verified half: endpoint construction, assembly of the one
//! outbound request, and classification of what the transport hands back. The
//! request itself is performed outside this crate, exactly once per run, with
//! no retry on any outcome.

use vstd::prelude::*;
use crate::model::Env;

verus! {

/// Outcome of a publish attempt that reached the server: the HTTP status and
/// the raw response body text, kept whole for diagnostics.
pub struct PublishResult {
    pub status: u16,
    pub body: String,
}

/// Why a publish attempt failed: the transport broke before a response
/// arrived (connection, TLS, unreadable response), or the server answered
/// with a status outside the success range. The raw body is kept in the
/// latter case so the caller can still display it.
pub enum PublishError {
    Transport { message: String },
    Http { status: u16, body: String },
}

/// What one request/response exchange produced: a full response, or a
/// transport-level failure with its description.
pub enum TransportEvent {
    Response { status: u16, body: String },
    Failure { message: String },
}

/// The success range: the 2xx status class.
pub open spec fn is_success_status(status: u16) -> bool {
    200 <= status < 300
}

/// The per-user, per-blog entry-collection endpoint.
pub open spec fn endpoint_url_spec(hatena_id: Seq<char>, blog_id: Seq<char>) -> Seq<char> {
    "https://blog.hatena.ne.jp/"@ + hatena_id + "/"@ + blog_id + "/atom/entry"@
}

/// Builds the endpoint URL from the account identity and the blog identifier.
pub fn endpoint_url(hatena_id: &str, blog_id: &str) -> (r: String)
    ensures
        r@ == endpoint_url_spec(hatena_id@, blog_id@),
{
    let mut r = String::new();
    r.append("https://blog.hatena.ne.jp/");
    r.append(hatena_id);
    r.append("/");
    r.append(blog_id);
    r.append("/atom/entry");
    proof {
        assert(r@ =~= endpoint_url_spec(hatena_id@, blog_id@));
    }
    r
}

/// Everything the transport needs for the single outbound POST: the endpoint,
/// the HTTP Basic authentication pair, the content type and the request body.
pub struct PublishRequest {
    pub url: String,
    pub username: String,
    pub secret: String,
    pub content_type: String,
    pub body: String,
}

/// Assembles the publish request: the endpoint comes from the credentials,
/// the authentication pair is the identity and the secret, the content type
/// is XML, and the body is the rendered entry document unchanged. The
/// credentials go only into the authentication fields, never into the body.
pub fn build_request(doc: String, env: &Env) -> (r: PublishRequest)
    ensures
        r.url@ == endpoint_url_spec(env.hatena_id@, env.blog_id@),
        r.username@ == env.hatena_id@,
        r.secret@ == env.password@,
        r.content_type@ == "application/xml"@,
        r.body@ == doc@,
{
    PublishRequest {
        url: endpoint_url(env.hatena_id.as_str(), env.blog_id.as_str()),
        username: env.hatena_id.clone(),
        secret: env.password.clone(),
        content_type: String::from_str("application/xml"),
        body: doc,
    }
}

/// Classifies the exchange: a transport failure aborts the run with an error;
/// a response is a success exactly when its status is in the 2xx class, and
/// any other status is an error that still carries the status and raw body.
pub fn publish_outcome(event: TransportEvent) -> (r: Result<PublishResult, PublishError>)
    ensures
        match event {
            TransportEvent::Failure { message } => r == Err::<PublishResult, PublishError>(
                (PublishError::Transport { message }),
            ),
            TransportEvent::Response { status, body } => if is_success_status(status) {
                r == Ok::<PublishResult, PublishError>((PublishResult { status, body }))
            } else {
                r == Err::<PublishResult, PublishError>((PublishError::Http { status, body }))
            },
        },
{
    match event {
        TransportEvent::Failure { message } => Err(PublishError::Transport { message }),
        TransportEvent::Response { status, body } => {
            if 200 <= status && status < 300 {
                Ok(PublishResult { status, body })
            } else {
                Err(PublishError::Http { status, body })
            }
        },
    }
}

} // verus!
