//! A request-interception layer that enforces secure-transport access: any
//! request arriving over an insecure channel is answered with a permanent
//! redirect to the equivalent `https://` URL, after an ordered list of
//! substring replacements has been applied to that URL. Requests that already
//! arrived over a secure channel are forwarded to the wrapped inner processor
//! unchanged.

pub mod rewrite;
pub mod service;

pub use rewrite::occurs;
pub use rewrite::replace_all;
pub use rewrite::rewrite_spec;
pub use rewrite::rules_view;
pub use service::Outcome;
pub use service::RedirectHTTPS;
pub use service::RedirectHTTPSService;
pub use service::RedirectResponse;
pub use service::Request;
