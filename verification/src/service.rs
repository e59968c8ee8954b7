//! The interception layer itself: per-request classification of the transport
//! scheme, pass-through of secure requests, and synthesis of a permanent
//! redirect for insecure ones.

use crate::rewrite::{apply_rules, rewrite_spec, rules_view};
use vstd::prelude::*;

verus! {

/// The connection metadata and target of one incoming request, as reported by
/// the surrounding pipeline: the transport scheme (`"https"` exactly when the
/// connection is secure), the host (keeping its port where the host header
/// carried one), and the full request target (path plus query string), all
/// exactly as received.
pub struct Request {
    pub scheme: String,
    pub host: String,
    pub uri: String,
}

/// A redirect response synthesized by the interception layer: a status code, a
/// `Location` header value, and a body.
pub struct RedirectResponse {
    pub status: u16,
    pub location: String,
    pub body: Vec<u8>,
}

/// What the interception layer decides for one request: hand the request back,
/// untouched, to be forwarded to the inner processor, or answer it directly
/// with a redirect and leave the inner processor uninvoked.
pub enum Outcome {
    Forward(Request),
    Redirect(RedirectResponse),
}

/// A request is classified as secure exactly when its reported transport
/// scheme is `https`.
pub open spec fn is_secure(req: Request) -> bool {
    req.scheme@ == "https"@
}

/// The redirect target before any rewriting: `https://` + host + uri, with the
/// host and target copied verbatim.
pub open spec fn redirect_target(host: Seq<char>, uri: Seq<char>) -> Seq<char> {
    "https://"@ + host + uri
}

/// Copies an ordered list of `(pattern, replacement)` pairs; the copy carries
/// the same character sequences in the same order.
fn copy_rules(rules: &[(String, String)]) -> (out: Vec<(String, String)>)
    ensures
        rules_view(out@) == rules_view(rules@),
{
    let mut out: Vec<(String, String)> = Vec::new();
    let mut i: usize = 0;
    while i < rules.len()
        invariant
            i <= rules@.len(),
            out@.len() == i,
            forall|j: int|
                #![trigger out@[j]]
                0 <= j < i ==> out@[j].0@ == rules@[j].0@ && out@[j].1@ == rules@[j].1@,
        decreases rules@.len() - i,
    {
        let pair = &rules[i];
        out.push((pair.0.clone(), pair.1.clone()));
        i += 1;
    }
    proof {
        assert forall|j: int|
            0 <= j < rules@.len() implies #[trigger] rules_view(out@)[j] == rules_view(rules@)[j]
        by {
            assert(rules_view(out@)[j] == (out@[j].0@, out@[j].1@));
            assert(rules_view(rules@)[j] == (rules@[j].0@, rules@[j].1@));
        }
        assert(rules_view(out@) =~= rules_view(rules@));
    }
    out
}

/// The replacement policy: an ordered list of `(pattern, replacement)` string
/// pairs, fixed at construction and applied left to right to every redirect
/// target.
#[derive(Clone)]
pub struct RedirectHTTPS {
    replacements: Vec<(String, String)>,
}

impl RedirectHTTPS {
    /// The policy's rules as pairs of character sequences, in order.
    pub closed spec fn rules(&self) -> Seq<(Seq<char>, Seq<char>)> {
        rules_view(self.replacements@)
    }

    /// A policy with no replacement rules, whose rewrite is the identity.
    pub fn new() -> (p: Self)
        ensures
            p.rules() == Seq::<(Seq<char>, Seq<char>)>::empty(),
    {
        let p = RedirectHTTPS { replacements: Vec::new() };
        proof {
            assert(rules_view(p.replacements@) =~= Seq::<(Seq<char>, Seq<char>)>::empty());
        }
        p
    }

    /// A policy with the given replacement rules, kept in the given order.
    pub fn with_replacements(replacements: &[(String, String)]) -> (p: Self)
        ensures
            p.rules() == rules_view(replacements@),
    {
        RedirectHTTPS { replacements: copy_rules(replacements) }
    }

    /// Applies the policy's rules, in order, to `input`: at each step every
    /// non-overlapping occurrence of the rule's pattern is replaced.
    pub fn rewrite(&self, input: &str) -> (r: String)
        ensures
            r@ == rewrite_spec(self.rules(), input@),
    {
        apply_rules(&self.replacements, input)
    }

    /// Wraps `service`, the inner processor, in an interception layer carrying
    /// a copy of this policy.
    pub fn new_transform<S>(&self, service: S) -> (t: RedirectHTTPSService<S>)
        ensures
            t.rules() == self.rules(),
            t.inner() == service,
    {
        RedirectHTTPSService { service, replacements: copy_rules(self.replacements.as_slice()) }
    }
}

impl Default for RedirectHTTPS {
    /// The default policy has no replacement rules.
    fn default() -> (p: Self)
        ensures
            p.rules() == Seq::<(Seq<char>, Seq<char>)>::empty(),
    {
        RedirectHTTPS::new()
    }
}

/// The interception layer around an inner processor `S`: holds the processor
/// and a copy of the policy's replacement rules, and decides each request
/// independently, with no state retained between requests.
pub struct RedirectHTTPSService<S> {
    service: S,
    replacements: Vec<(String, String)>,
}

impl<S> RedirectHTTPSService<S> {
    /// The rules this layer applies to redirect targets, in order.
    pub closed spec fn rules(&self) -> Seq<(Seq<char>, Seq<char>)> {
        rules_view(self.replacements@)
    }

    /// The wrapped inner processor.
    pub closed spec fn inner(&self) -> S {
        self.service
    }

    /// Borrows the wrapped inner processor, so that the surrounding pipeline
    /// can query its readiness before each request and dispatch the requests
    /// this layer forwards.
    pub fn inner_ref(&self) -> (s: &S)
        ensures
            s == self.inner(),
    {
        &self.service
    }

    /// Decides one request. A secure request is handed back unchanged, to be
    /// forwarded to the inner processor and answered by it alone. An insecure
    /// request is answered directly with status `301 Moved Permanently`, a
    /// `Location` of `https://` + host + uri rewritten by the policy's rules,
    /// and an empty body; the inner processor is left uninvoked.
    pub fn call(&self, req: Request) -> (out: Outcome)
        ensures
            is_secure(req) ==> out == Outcome::Forward(req),
            !is_secure(req) ==> (out matches Outcome::Redirect(resp) && resp.status == 301
                && resp.location@ == rewrite_spec(
                self.rules(),
                redirect_target(req.host@, req.uri@),
            ) && resp.body@ == Seq::<u8>::empty()),
    {
        let https = "https".to_owned();
        if req.scheme == https {
            Outcome::Forward(req)
        } else {
            let mut url = "https://".to_owned();
            url.append(req.host.as_str());
            url.append(req.uri.as_str());
            let location = apply_rules(&self.replacements, url.as_str());
            Outcome::Redirect(RedirectResponse { status: 301, location, body: Vec::new() })
        }
    }
}

} // verus!
