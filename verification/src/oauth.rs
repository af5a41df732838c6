//! A small authorization-code shim: one code, one use, five minutes, and the proof key is
//! real.

use vstd::prelude::*;

use crate::assoc::{fresh_part, Assoc, Perishable};
use crate::auth::{trim_slashes, without_slashes};
use crate::text::{chars_of, expand, opt_text, same, texts};

verus! {

/// How long a code lives, in nanoseconds.
pub const CODE_LIFE: u64 = 300_000_000_000;

/// A code that was handed out and not yet redeemed. Moments are nanoseconds on a clock that
/// never goes back.
pub struct PendingCode {
    pub code_challenge: String,
    pub redirect_uri: String,
    pub created_at: u64,
}

/// The codes that are out, and the token they are redeemed for.
pub struct OAuthStore {
    pub pending: Assoc<String, PendingCode>,
    pub access_token: String,
    pub base_url: String,
}

/// What the shim says of itself.
pub struct ServerMetadata {
    pub issuer: String,
    pub authorization_endpoint: String,
    pub token_endpoint: String,
    pub response_types_supported: Vec<String>,
    pub code_challenge_methods_supported: Vec<String>,
    pub grant_types_supported: Vec<String>,
}

/// What the shim says of the door it guards.
pub struct ProtectedResource {
    pub resource: String,
    pub authorization_servers: Vec<String>,
    pub bearer_methods_supported: Vec<String>,
}

/// What a client asks for.
pub struct AuthorizeQuery {
    pub response_type: String,
    pub client_id: String,
    pub redirect_uri: String,
    pub code_challenge: String,
    pub code_challenge_method: String,
    pub state: Option<String>,
    pub scope: Option<String>,
}

/// What the page sends back when it is allowed.
pub struct AuthorizeForm {
    pub code_challenge: String,
    pub redirect_uri: String,
    pub client_id: String,
    pub state: Option<String>,
}

/// What a client redeems a code with.
pub struct TokenForm {
    pub grant_type: String,
    pub code: String,
    pub code_verifier: String,
    pub redirect_uri: String,
    pub client_id: Option<String>,
}

/// How a request for the page ends.
pub enum AuthorizePage {
    Unsupported { message: String },
    Page { html: String },
}

/// How an allowed request ends.
pub enum AuthorizeReply {
    InvalidRedirect { message: String },
    Redirect { location: String },
}

/// How a redemption ends.
pub enum TokenReply {
    UnsupportedGrantType,
    InvalidGrant,
    PkceFailed,
    Granted { access_token: String },
}

/// The SHA-256 hash of a text's UTF-8 bytes.
pub uninterp spec fn sha256(text: Seq<char>) -> Seq<u8>;

/// Bytes in base64 with the alphabet for addresses, without padding.
pub uninterp spec fn base64_url(bytes: Seq<u8>) -> Seq<char>;

/// An address with pairs added to its query, where it is an address.
pub uninterp spec fn url_with_query(address: Seq<char>, pairs: Seq<(Seq<char>, Seq<char>)>) -> Option<
    Seq<char>,
>;

/// Calls `sha2::Sha256::digest` on a text's bytes. The hash has thirty-two bytes.
#[verifier::external_body]
fn digest(text: &str) -> (r: Vec<u8>)
    ensures
        r@ == sha256(text@),
        r@.len() == 32,
{
    <sha2::Sha256 as sha2::Digest>::digest(text.as_bytes()).to_vec()
}

/// Calls `encode` of the `base64` crate's `URL_SAFE_NO_PAD` engine.
#[verifier::external_body]
fn encode_url_safe(bytes: &Vec<u8>) -> (r: String)
    ensures
        r@ == base64_url(bytes@),
{
    base64::Engine::encode(&base64::engine::general_purpose::URL_SAFE_NO_PAD, bytes)
}

/// Calls `Url::parse` and, where that succeeds, appends the pairs in order through
/// `query_pairs_mut`.
#[verifier::external_body]
fn add_query(address: &str, pairs: &Vec<(String, String)>) -> (r: Option<String>)
    ensures
        opt_text(r) == url_with_query(address@, pair_views(pairs@)),
{
    let mut parsed = url::Url::parse(address).ok()?;
    parsed.query_pairs_mut().extend_pairs(pairs);
    Some(parsed.to_string())
}

/// Calls `Uuid::new_v4` and writes it with hyphens. Which one it is is left to chance.
#[verifier::external_body]
fn fresh_code() -> (r: String)
    ensures
        r@.len() == 36,
{
    uuid::Uuid::new_v4().to_string()
}

pub open spec fn pair_views(pairs: Seq<(String, String)>) -> Seq<(Seq<char>, Seq<char>)> {
    pairs.map_values(|p: (String, String)| (p.0@, p.1@))
}

/// A character in a page's attribute.
pub open spec fn html_char(c: char) -> Seq<char> {
    if c == '&' {
        "&amp;"@
    } else if c == '"' {
        "&quot;"@
    } else if c == '<' {
        "&lt;"@
    } else if c == '>' {
        "&gt;"@
    } else {
        seq![c]
    }
}

/// A text in a page's attribute.
pub open spec fn html_text(s: Seq<char>) -> Seq<char> {
    expand(s, |c: char| html_char(c))
}

/// Writes a text so that a page shows it and reads nothing into it.
pub fn html_escape(value: &str) -> (r: String)
    ensures
        r@ == html_text(value@),
{
    let v = chars_of(value);
    let ghost f = |c: char| html_char(c);
    let mut s = String::new();
    let mut i: usize = 0;
    assert(value@.take(0) =~= seq![]);
    while i < v.len()
        invariant
            i <= v@.len(),
            v@ == value@,
            f == (|c: char| html_char(c)),
            s@ == expand(value@.take(i as int), f),
        decreases v@.len() - i,
    {
        let c = v[i];
        if c == '&' {
            s.append("&amp;");
        } else if c == '"' {
            s.append("&quot;");
        } else if c == '<' {
            s.append("&lt;");
        } else if c == '>' {
            s.append("&gt;");
        } else {
            s.push(c);
        }
        i = i + 1;
        proof {
            assert(value@.take(i as int).drop_last() =~= value@.take(i - 1));
            assert(s@ =~= expand(value@.take(i as int), f));
        }
    }
    assert(value@.take(i as int) =~= value@);
    s
}

/// An escaped text holds nothing that opens or closes a tag or an attribute.
pub proof fn lemma_escaped_text_is_inert(s: Seq<char>)
    ensures
        forall|i: int|
            0 <= i < html_text(s).len() ==> #[trigger] html_text(s)[i] != '"' && html_text(s)[i] != '<'
                && html_text(s)[i] != '>',
    decreases s.len(),
{
    let f = |c: char| html_char(c);
    if s.len() > 0 {
        lemma_escaped_text_is_inert(s.drop_last());
        reveal_strlit("&amp;");
        reveal_strlit("&quot;");
        reveal_strlit("&lt;");
        reveal_strlit("&gt;");
        let front = html_text(s.drop_last());
        let last = html_char(s.last());
        assert(html_text(s) == front + last);
        assert forall|i: int| 0 <= i < html_text(s).len() implies #[trigger] html_text(s)[i] != '"'
            && html_text(s)[i] != '<' && html_text(s)[i] != '>' by {
            if i < front.len() {
                assert(html_text(s)[i] == front[i]);
            } else {
                assert(html_text(s)[i] == last[i - front.len()]);
            }
        }
    }
}

pub const PAGE_HEAD: &'static str = "<!DOCTYPE html>
<html lang=\"en\">
<head>
  <meta charset=\"UTF-8\">
  <meta name=\"viewport\" content=\"width=device-width, initial-scale=1.0\">
  <title>kurou</title>
  <style>
    * { box-sizing: border-box; margin: 0; padding: 0; }
    body { min-height: 100vh; display: grid; place-items: center; background: #101114; color: #eceff4; font-family: ui-monospace, SFMono-Regular, Consolas, monospace; }
    .card { width: min(92vw, 390px); padding: 2rem; border: 1px solid #2f3542; border-radius: 8px; background: #181b20; }
    h1 { font-size: 1rem; margin-bottom: 0.45rem; }
    p { color: #aab2c0; font-size: 0.85rem; margin-bottom: 1.4rem; line-height: 1.45; }
    button { width: 100%; border: 0; border-radius: 4px; padding: 0.75rem 1rem; background: #4f46e5; color: white; font: inherit; cursor: pointer; }
    button:hover { background: #6366f1; }
  </style>
</head>
<body>
  <main class=\"card\">
    <h1>kurou</h1>
    <p>allow this client to use the configured kurou bearer token?</p>
    <form method=\"POST\" action=\"/authorize\">
      <input type=\"hidden\" name=\"code_challenge\" value=\"";

pub const PAGE_REDIRECT: &'static str = "\">
      <input type=\"hidden\" name=\"redirect_uri\" value=\"";

pub const PAGE_CLIENT: &'static str = "\">
      <input type=\"hidden\" name=\"client_id\" value=\"";

pub const PAGE_STATE: &'static str = "\">
      <input type=\"hidden\" name=\"state\" value=\"";

pub const PAGE_TAIL: &'static str = "\">
      <button type=\"submit\">allow</button>
    </form>
  </main>
</body>
</html>";

pub open spec fn state_text(state: Option<String>) -> Seq<char> {
    match state {
        Some(state) => state@,
        None => ""@,
    }
}

/// The page that asks, with the request's values in it.
pub open spec fn page_text(q: AuthorizeQuery) -> Seq<char> {
    PAGE_HEAD@ + html_text(q.code_challenge@) + PAGE_REDIRECT@ + html_text(q.redirect_uri@)
        + PAGE_CLIENT@ + html_text(q.client_id@) + PAGE_STATE@ + html_text(state_text(q.state))
        + PAGE_TAIL@
}

/// Shows the page that asks, for a request for a code with a hashed proof key; nothing else
/// is supported.
pub fn authorize_get(params: &AuthorizeQuery) -> (r: AuthorizePage)
    ensures
        if params.response_type@ == "code"@ && params.code_challenge_method@ == "S256"@ {
            r matches AuthorizePage::Page { html } && html@ == page_text(*params)
        } else {
            r matches AuthorizePage::Unsupported { message } && message@
                == "unsupported OAuth request"@
        },
{
    if !same(params.response_type.as_str(), "code") || !same(
        params.code_challenge_method.as_str(),
        "S256",
    ) {
        return AuthorizePage::Unsupported { message: "unsupported OAuth request".to_owned() };
    }
    let mut html = PAGE_HEAD.to_owned();
    html.append(html_escape(params.code_challenge.as_str()).as_str());
    html.append(PAGE_REDIRECT);
    html.append(html_escape(params.redirect_uri.as_str()).as_str());
    html.append(PAGE_CLIENT);
    html.append(html_escape(params.client_id.as_str()).as_str());
    html.append(PAGE_STATE);
    match &params.state {
        Some(state) => html.append(html_escape(state.as_str()).as_str()),
        None => html.append(html_escape("").as_str()),
    }
    html.append(PAGE_TAIL);
    AuthorizePage::Page { html }
}

/// How long ago a moment was.
pub open spec fn elapsed(since: u64, now: u64) -> int {
    if now > since {
        now - since
    } else {
        0
    }
}

fn elapsed_since(since: u64, now: u64) -> (r: u64)
    ensures
        r == elapsed(since, now),
{
    if now > since {
        now - since
    } else {
        0
    }
}

impl Perishable for PendingCode {
    open spec fn lasts(self, now: u64) -> bool {
        elapsed(self.created_at, now) < CODE_LIFE
    }

    fn is_fresh(&self, now: u64) -> (r: bool) {
        elapsed_since(self.created_at, now) < CODE_LIFE
    }
}

/// The pairs that a redirect carries back.
pub open spec fn redirect_pairs(code: Seq<char>, state: Option<String>) -> Seq<(Seq<char>, Seq<char>)> {
    match state {
        Some(state) => seq![("code"@, code), ("state"@, state@)],
        None => seq![("code"@, code)],
    }
}

/// The codes that are out once one more has been handed out.
pub open spec fn handed_out(
    codes: Map<Seq<char>, PendingCode>,
    code: Seq<char>,
    form: AuthorizeForm,
    now: u64,
) -> Map<Seq<char>, PendingCode> {
    fresh_part(codes, now).insert(
        code,
        PendingCode {
            code_challenge: form.code_challenge,
            redirect_uri: form.redirect_uri,
            created_at: now,
        },
    )
}

/// The challenge that a proof key answers.
pub open spec fn challenge_for(verifier: Seq<char>) -> Seq<char> {
    base64_url(sha256(verifier))
}

/// How a redemption ends, as a mathematical value.
pub enum Outcome {
    InvalidGrant,
    PkceFailed,
    Granted,
}

/// A code is good for its own address, within its time, to whoever holds the proof key.
pub open spec fn outcome(
    found: Option<PendingCode>,
    redirect_uri: Seq<char>,
    computed: Seq<char>,
    now: u64,
) -> Outcome {
    match found {
        None => Outcome::InvalidGrant,
        Some(pending) => if elapsed(pending.created_at, now) > CODE_LIFE || pending.redirect_uri@
            != redirect_uri {
            Outcome::InvalidGrant
        } else if computed != pending.code_challenge@ {
            Outcome::PkceFailed
        } else {
            Outcome::Granted
        },
    }
}

/// What is found under a code.
pub open spec fn found_under(codes: Map<Seq<char>, PendingCode>, code: Seq<char>) -> Option<PendingCode> {
    if codes.contains_key(code) {
        Some(codes[code])
    } else {
        None
    }
}

fn list_of(s: &str) -> (r: Vec<String>)
    ensures
        texts(r@) == seq![s@],
{
    let mut v: Vec<String> = Vec::new();
    v.push(s.to_owned());
    assert(texts(v@) =~= seq![s@]);
    v
}

impl OAuthStore {
    /// The codes that are out.
    pub open spec fn codes(self) -> Map<Seq<char>, PendingCode> {
        self.pending.map()
    }

    pub open spec fn wf(self) -> bool {
        self.pending.wf()
    }

    /// A shim with no code out.
    pub fn new(access_token: String, base_url: String) -> (r: Self)
        ensures
            r.wf(),
            r.codes() == Map::<Seq<char>, PendingCode>::empty(),
            r.access_token == access_token,
            r.base_url@ == without_slashes(base_url@),
    {
        OAuthStore {
            pending: Assoc::new(),
            access_token,
            base_url: trim_slashes(base_url.as_str()),
        }
    }

    /// What the shim says of itself.
    pub fn metadata(&self) -> (r: ServerMetadata)
        ensures
            r.issuer == self.base_url,
            r.authorization_endpoint@ == self.base_url@ + "/authorize"@,
            r.token_endpoint@ == self.base_url@ + "/token"@,
            texts(r.response_types_supported@) == seq!["code"@],
            texts(r.code_challenge_methods_supported@) == seq!["S256"@],
            texts(r.grant_types_supported@) == seq!["authorization_code"@],
    {
        let mut authorize = self.base_url.clone();
        authorize.append("/authorize");
        let mut token = self.base_url.clone();
        token.append("/token");
        ServerMetadata {
            issuer: self.base_url.clone(),
            authorization_endpoint: authorize,
            token_endpoint: token,
            response_types_supported: list_of("code"),
            code_challenge_methods_supported: list_of("S256"),
            grant_types_supported: list_of("authorization_code"),
        }
    }

    /// What the shim says of the door it guards.
    pub fn protected_resource(&self) -> (r: ProtectedResource)
        ensures
            r.resource == self.base_url,
            texts(r.authorization_servers@) == seq![self.base_url@],
            texts(r.bearer_methods_supported@) == seq!["header"@],
    {
        ProtectedResource {
            resource: self.base_url.clone(),
            authorization_servers: list_of(self.base_url.as_str()),
            bearer_methods_supported: list_of("header"),
        }
    }

    /// Hands out the given code and sends the client back with it. The code is out even where
    /// the client gave no address to send it to.
    pub fn authorize_with(&mut self, code: String, params: AuthorizeForm, now: u64) -> (r:
        AuthorizeReply)
        requires
            old(self).wf(),
        ensures
            final(self).wf(),
            final(self).codes() == handed_out(old(self).codes(), code@, params, now),
            final(self).access_token == old(self).access_token,
            final(self).base_url == old(self).base_url,
            match url_with_query(params.redirect_uri@, redirect_pairs(code@, params.state)) {
                Some(address) => r matches AuthorizeReply::Redirect { location } && location@
                    == address,
                None => r matches AuthorizeReply::InvalidRedirect { message } && message@
                    == "invalid redirect_uri"@,
            },
    {
        self.pending.sweep(now);
        let address = params.redirect_uri.clone();
        let mut pairs: Vec<(String, String)> = Vec::new();
        pairs.push(("code".to_owned(), code.clone()));
        if let Some(state) = &params.state {
            pairs.push(("state".to_owned(), state.clone()));
        }
        assert(pair_views(pairs@) =~= redirect_pairs(code@, params.state));
        self.pending.insert(
            code,
            PendingCode {
                code_challenge: params.code_challenge,
                redirect_uri: params.redirect_uri,
                created_at: now,
            },
        );
        match add_query(address.as_str(), &pairs) {
            Some(location) => AuthorizeReply::Redirect { location },
            None => AuthorizeReply::InvalidRedirect { message: "invalid redirect_uri".to_owned() },
        }
    }

    /// Hands out a fresh code and sends the client back with it.
    pub fn authorize_post(&mut self, params: AuthorizeForm, now: u64) -> (r: AuthorizeReply)
        requires
            old(self).wf(),
        ensures
            final(self).wf(),
            final(self).access_token == old(self).access_token,
            final(self).base_url == old(self).base_url,
            exists|code: Seq<char>|
                code.len() == 36 && final(self).codes() == #[trigger] handed_out(
                    old(self).codes(),
                    code,
                    params,
                    now,
                ) && match url_with_query(params.redirect_uri@, redirect_pairs(code, params.state)) {
                    Some(address) => r matches AuthorizeReply::Redirect { location } && location@
                        == address,
                    None => r matches AuthorizeReply::InvalidRedirect { message } && message@
                        == "invalid redirect_uri"@,
                },
    {
        let code = fresh_code();
        self.authorize_with(code, params, now)
    }

    /// Settles a redemption, given what was found under the code and the challenge that the
    /// client's proof key answers.
    pub fn settle(
        &self,
        found: Option<PendingCode>,
        redirect_uri: &str,
        computed: &str,
        now: u64,
    ) -> (r: TokenReply)
        ensures
            match outcome(found, redirect_uri@, computed@, now) {
                Outcome::InvalidGrant => r is InvalidGrant,
                Outcome::PkceFailed => r is PkceFailed,
                Outcome::Granted => r matches TokenReply::Granted { access_token } && access_token
                    == self.access_token,
            },
    {
        match found {
            None => TokenReply::InvalidGrant,
            Some(pending) => {
                if elapsed_since(pending.created_at, now) > CODE_LIFE || !same(
                    pending.redirect_uri.as_str(),
                    redirect_uri,
                ) {
                    return TokenReply::InvalidGrant;
                }
                if !same(computed, pending.code_challenge.as_str()) {
                    return TokenReply::PkceFailed;
                }
                TokenReply::Granted { access_token: self.access_token.clone() }
            },
        }
    }

    /// Redeems a code. Whatever comes of it, the code is spent.
    pub fn token(&mut self, params: &TokenForm, now: u64) -> (r: TokenReply)
        requires
            old(self).wf(),
        ensures
            final(self).wf(),
            final(self).access_token == old(self).access_token,
            final(self).base_url == old(self).base_url,
            if params.grant_type@ != "authorization_code"@ {
                r is UnsupportedGrantType && final(self).codes() == old(self).codes()
            } else {
                final(self).codes() == old(self).codes().remove(params.code@) && match outcome(
                    found_under(old(self).codes(), params.code@),
                    params.redirect_uri@,
                    challenge_for(params.code_verifier@),
                    now,
                ) {
                    Outcome::InvalidGrant => r is InvalidGrant,
                    Outcome::PkceFailed => r is PkceFailed,
                    Outcome::Granted => r matches TokenReply::Granted { access_token }
                        && access_token == old(self).access_token,
                }
            },
    {
        if !same(params.grant_type.as_str(), "authorization_code") {
            return TokenReply::UnsupportedGrantType;
        }
        let found = self.pending.remove(&params.code);
        let computed = encode_url_safe(&digest(params.code_verifier.as_str()));
        self.settle(found, params.redirect_uri.as_str(), computed.as_str(), now)
    }
}

impl TokenReply {
    /// The error a refused redemption is answered with, and what more is said of it.
    pub fn error(&self) -> (r: Option<(&'static str, Option<&'static str>)>)
        ensures
            match *self {
                TokenReply::UnsupportedGrantType => r matches Some((e, d)) && e@
                    == "unsupported_grant_type"@ && d is None,
                TokenReply::InvalidGrant => r matches Some((e, d)) && e@ == "invalid_grant"@
                    && d is None,
                TokenReply::PkceFailed => r matches Some((e, d)) && e@ == "invalid_grant"@
                    && (d matches Some(text) && text@ == "pkce verification failed"@),
                TokenReply::Granted { .. } => r is None,
            },
    {
        match self {
            TokenReply::UnsupportedGrantType => Some(("unsupported_grant_type", None)),
            TokenReply::InvalidGrant => Some(("invalid_grant", None)),
            TokenReply::PkceFailed => Some(("invalid_grant", Some("pkce verification failed"))),
            TokenReply::Granted { .. } => None,
        }
    }
}

/// A code that was handed out is redeemed within its time, for the address it was handed out
/// for, by whoever holds the proof key.
pub proof fn lemma_a_fresh_code_is_good(
    codes: Map<Seq<char>, PendingCode>,
    code: Seq<char>,
    form: AuthorizeForm,
    verifier: Seq<char>,
    then: u64,
    now: u64,
)
    requires
        form.code_challenge@ == challenge_for(verifier),
        elapsed(then, now) <= CODE_LIFE,
    ensures
        outcome(
            found_under(handed_out(codes, code, form, then), code),
            form.redirect_uri@,
            challenge_for(verifier),
            now,
        ) is Granted,
{
}

/// A code is good once: after any redemption it is an unknown code.
pub proof fn lemma_a_code_is_good_once(
    codes: Map<Seq<char>, PendingCode>,
    code: Seq<char>,
    redirect_uri: Seq<char>,
    computed: Seq<char>,
    now: u64,
)
    ensures
        outcome(found_under(codes.remove(code), code), redirect_uri, computed, now) is InvalidGrant,
{
}

/// The token is handed out only for a code that is out, in its time, to the address it was
/// handed out for, and against the proof key.
pub proof fn lemma_grants_are_earned(
    codes: Map<Seq<char>, PendingCode>,
    code: Seq<char>,
    redirect_uri: Seq<char>,
    verifier: Seq<char>,
    now: u64,
)
    requires
        outcome(found_under(codes, code), redirect_uri, challenge_for(verifier), now) is Granted,
    ensures
        codes.contains_key(code),
        elapsed(codes[code].created_at, now) <= CODE_LIFE,
        codes[code].redirect_uri@ == redirect_uri,
        codes[code].code_challenge@ == challenge_for(verifier),
{
}

/// Handing out a code forgets every code that has outlived its time, and no other.
pub proof fn lemma_old_codes_are_swept(
    codes: Map<Seq<char>, PendingCode>,
    code: Seq<char>,
    form: AuthorizeForm,
    now: u64,
    other: Seq<char>,
)
    requires
        other != code,
    ensures
        handed_out(codes, code, form, now).contains_key(other) <==> codes.contains_key(other)
            && elapsed(codes[other].created_at, now) < CODE_LIFE,
{
}

} // verus!
