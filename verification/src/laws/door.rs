//! Who comes in, and what a code is good for.

use vstd::prelude::*;

use crate::auth::{
    label_of, lemma_only_held_tokens_are_let_in, parsed_token, parsed_tokens, token_labelled,
    without_slashes, Admission, AuthConfig, TokenView,
};
use crate::laws::order::{in_order, lemma_itself, lemma_more, lemma_then, stands_at};
use crate::laws::scan::stands_somewhere;
use crate::oauth::{
    authorize_get, base64_url, html_char, html_text, sha256, url_with_query, AuthorizeForm,
    AuthorizePage, AuthorizeQuery, AuthorizeReply, OAuthStore, TokenForm, TokenReply,
};
use crate::text::{decimal, find, lemma_find_bounds, trimmed};

verus! {

/// A token is held, under a label.
pub open spec fn is_held(auth: AuthConfig, token: Seq<char>, label: Seq<char>) -> bool {
    exists|i: int|
        0 <= i < auth.tokens@.len() && (#[trigger] auth.tokens@[i]).token@ == token && auth.tokens@[i].label@
            == label
}

proof fn lemma_first_held(auth: AuthConfig, candidate: Seq<char>)
    ensures
        label_of(auth.held(), candidate) is Some <==> exists|label: Seq<char>| is_held(auth, candidate, label),
        label_of(auth.held(), candidate) matches Some(label) ==> is_held(auth, candidate, label),
{
    let held = auth.held();
    lemma_only_held_tokens_are_let_in(held, candidate);
    assert(forall|i: int| 0 <= i < held.len() ==> #[trigger] held[i] == auth.tokens@[i]@);
    if let Some(label) = label_of(held, candidate) {
        let i = choose|i: int|
            0 <= i < held.len() && (#[trigger] held[i]).token == candidate && held[i].label == label;
        assert(auth.tokens@[i].token@ == candidate);
        assert(is_held(auth, candidate, label));
    }
    if exists|label: Seq<char>| is_held(auth, candidate, label) {
        let label = choose|label: Seq<char>| is_held(auth, candidate, label);
        let i = choose|i: int|
            0 <= i < auth.tokens@.len() && (#[trigger] auth.tokens@[i]).token@ == candidate
                && auth.tokens@[i].label@ == label;
        assert(held[i].token == candidate);
    }
}

/// Somebody comes in exactly with a header that bears a token that is held, and is known by a
/// label it is held under; anybody else is told where the door says more of itself.
pub proof fn lemma_who_comes_in(auth: AuthConfig, header: Option<&str>, r: Admission)
    requires
        call_ensures(AuthConfig::greet, (&auth, header), r),
    ensures
        r is Admitted <==> exists|bearer: Seq<char>, label: Seq<char>| #[trigger]
            bears(header, bearer) && #[trigger] is_held(auth, trimmed(bearer), label),
        r matches Admission::Admitted(who) ==> exists|bearer: Seq<char>| #[trigger]
            bears(header, bearer) && is_held(auth, trimmed(bearer), who.0@),
        r matches Admission::Refused { www_authenticate } ==> stands_somewhere(
            www_authenticate@,
            auth.public_base_url@,
        ),
{
    let prefix = "Bearer "@;
    let n = prefix.len() as int;
    if let Some(h) = header {
        if h@.len() >= n && h@.take(n) == prefix {
            let bearer = h@.skip(n);
            assert(h@ =~= prefix + bearer);
            assert(bears(header, bearer));
            lemma_first_held(auth, trimmed(bearer));
        }
        assert forall|bearer: Seq<char>| #[trigger] bears(header, bearer) implies h@.take(n) == prefix && h@.skip(
            n,
        ) == bearer by {
            assert(h@.take(n) =~= prefix);
            assert(h@.skip(n) =~= bearer);
        }
    }
    if let Admission::Refused { www_authenticate } = r {
        let at = "Bearer realm=\"kurou\", resource_metadata=\""@.len() as int;
        let base = auth.public_base_url@;
        assert(www_authenticate@.subrange(at, at + base.len()) =~= base);
        assert(stands_at(www_authenticate@, base, at));
    }
}

/// A header bears a word.
pub open spec fn bears(header: Option<&str>, bearer: Seq<char>) -> bool {
    header matches Some(h) && h@ == "Bearer "@ + bearer
}

/// Whoever holds a token is known by it, and the shim hands out a token that is held: the one
/// under the label asked for, or the first.
pub proof fn lemma_tokens_are_found(
    auth: AuthConfig,
    candidate: &str,
    label: Option<&str>,
    who: Option<String>,
    given: Option<String>,
)
    requires
        call_ensures(AuthConfig::resolve, (&auth, candidate), who),
        call_ensures(AuthConfig::oauth_token, (&auth, label), given),
    ensures
        who is Some <==> exists|label: Seq<char>| is_held(auth, candidate@, label),
        who matches Some(who) ==> is_held(auth, candidate@, who@),
        label is None ==> (given is Some <==> auth.tokens@.len() > 0) && (given is Some ==> given->0@
            == auth.tokens@[0].token@),
        label matches Some(label) ==> (given is Some <==> exists|token: Seq<char>| is_held(auth, token, label@))
            && (given matches Some(token) ==> is_held(auth, token@, label@)),
{
    lemma_first_held(auth, candidate@);
    assert(auth.held().len() == auth.tokens@.len());
    if auth.tokens@.len() > 0 {
        assert(auth.held()[0] == auth.tokens@[0]@);
    }
    if let Some(label) = label {
        lemma_labelled(auth, label@);
    }
}

/// A token is found under a label exactly where one is held under it, and then one that is.
pub proof fn lemma_labelled(auth: AuthConfig, label: Seq<char>)
    ensures
        token_labelled(auth.held(), label) is Some <==> exists|token: Seq<char>| is_held(auth, token, label),
        token_labelled(auth.held(), label) matches Some(token) ==> is_held(auth, token, label),
{
    let held = auth.held();
    assert(forall|i: int| 0 <= i < held.len() ==> #[trigger] held[i] == auth.tokens@[i]@);
    lemma_labelled_seq(held, label);
    if let Some(token) = token_labelled(held, label) {
        let i = choose|i: int|
            0 <= i < held.len() && (#[trigger] held[i]).label == label && held[i].token == token;
        assert(auth.tokens@[i].token@ == token);
        assert(is_held(auth, token, label));
    }
    if exists|token: Seq<char>| is_held(auth, token, label) {
        let token = choose|token: Seq<char>| is_held(auth, token, label);
        let i = choose|i: int|
            0 <= i < auth.tokens@.len() && (#[trigger] auth.tokens@[i]).token@ == token
                && auth.tokens@[i].label@ == label;
        assert(held[i].label == label);
    }
}

proof fn lemma_labelled_seq(tokens: Seq<TokenView>, label: Seq<char>)
    ensures
        token_labelled(tokens, label) is Some <==> exists|i: int|
            0 <= i < tokens.len() && (#[trigger] tokens[i]).label == label,
        token_labelled(tokens, label) matches Some(token) ==> exists|i: int|
            0 <= i < tokens.len() && (#[trigger] tokens[i]).label == label && tokens[i].token == token,
    decreases tokens.len(),
{
    if tokens.len() > 0 {
        let rest = tokens.drop_first();
        lemma_labelled_seq(rest, label);
        if tokens[0].label != label {
            if let Some(token) = token_labelled(rest, label) {
                let i = choose|i: int|
                    0 <= i < rest.len() && (#[trigger] rest[i]).label == label && rest[i].token == token;
                assert(tokens[i + 1] == rest[i]);
            }
            if exists|i: int| 0 <= i < tokens.len() && (#[trigger] tokens[i]).label == label {
                let i = choose|i: int| 0 <= i < tokens.len() && (#[trigger] tokens[i]).label == label;
                assert(rest[i - 1] == tokens[i]);
            }
        } else {
            assert(tokens[0].label == label);
        }
    }
}

/// An entry of the list of tokens describes one: a label and a token around a colon, or a bare
/// token, which is named by its place.
pub open spec fn describes(index: nat, raw: Seq<char>, label: Seq<char>, token: Seq<char>) -> bool {
    let raw = trimmed(raw);
    ||| {
        &&& !raw.contains(':')
        &&& token == raw && raw.len() > 0
        &&& label == "token-"@ + decimal(index + 1)
    }
    ||| exists|a: Seq<char>, b: Seq<char>| #[trigger]
        is_split(raw, a, b) && token == trimmed(b) && token.len() > 0 && label == (if trimmed(a).len() == 0
            || trimmed(a) == "token"@ {
            "token-"@ + decimal(index + 1)
        } else {
            trimmed(a)
        })
}

/// A text is two around a colon, the first without one.
pub open spec fn is_split(raw: Seq<char>, a: Seq<char>, b: Seq<char>) -> bool {
    raw == a + seq![':'] + b && !a.contains(':')
}

proof fn lemma_split(raw: Seq<char>, a: Seq<char>, b: Seq<char>)
    requires
        is_split(raw, a, b),
    ensures
        find(raw, ':') == a.len(),
        raw.take(a.len() as int) == a,
        raw.skip(a.len() as int + 1) == b,
{
    let n = a.len() as int;
    assert forall|j: int| 0 <= j < n implies #[trigger] raw[j] != ':' by {
        assert(raw[j] == a[j]);
        if a[j] == ':' {
            assert(a.contains(':'));
        }
    }
    assert(raw[n] == ':');
    crate::text::lemma_find(raw, ':', n);
    assert(raw.take(n) =~= a);
    assert(raw.skip(n + 1) =~= b);
}

proof fn lemma_describes(index: nat, raw: Seq<char>, label: Seq<char>, token: Seq<char>)
    ensures
        parsed_token(index, raw) == Some(TokenView { label, token }) <==> describes(index, raw, label, token),
{
    let t = trimmed(raw);
    let n = find(t, ':') as int;
    lemma_find_bounds(t, ':');
    if n < t.len() {
        let a = t.take(n);
        let b = t.skip(n + 1);
        assert(t =~= a + seq![':'] + b);
        if a.contains(':') {
            let k = choose|k: int| 0 <= k < a.len() && a[k] == ':';
            assert(t[k] == ':');
        }
        assert(is_split(t, a, b));
        assert(t[n] == ':');
        assert(t.contains(':'));
        assert forall|x: Seq<char>, y: Seq<char>| #[trigger] is_split(t, x, y) implies x == a && y == b by {
            lemma_split(t, x, y);
        }
    } else {
        if t.contains(':') {
            let k = choose|k: int| 0 <= k < t.len() && t[k] == ':';
            assert(t[k] != ':');
        }
        assert forall|x: Seq<char>, y: Seq<char>| !(#[trigger] is_split(t, x, y)) by {
            if is_split(t, x, y) {
                lemma_split(t, x, y);
            }
        }
    }
}

/// Whatever token the entries describe is held, under the label they give it, and no other.
pub proof fn lemma_every_token_is_held(base: String, raw: Vec<String>, auth: AuthConfig)
    requires
        call_ensures(AuthConfig::new, (base, &raw), auth),
    ensures
        forall|token: Seq<char>, label: Seq<char>| #[trigger]
            is_held(auth, token, label) <==> exists|i: int|
                0 <= i < raw@.len() && #[trigger] describes(i as nat, raw@[i]@, label, token),
        is_without_slashes(base@, auth.public_base_url@),
{
    lemma_held(raw@);
    lemma_slashes(base@);
    let held = auth.held();
    assert(forall|i: int| 0 <= i < held.len() ==> #[trigger] held[i] == auth.tokens@[i]@);
    assert forall|token: Seq<char>, label: Seq<char>| #[trigger] is_held(auth, token, label) <==> exists|i: int|
        0 <= i < raw@.len() && #[trigger] describes(i as nat, raw@[i]@, label, token) by {
        let view = TokenView { label, token };
        assert(parsed_tokens(raw@).contains(view) <==> exists|i: int|
            0 <= i < raw@.len() && #[trigger] describes(i as nat, raw@[i]@, label, token));
        if is_held(auth, token, label) {
            let i = choose|i: int|
                0 <= i < auth.tokens@.len() && (#[trigger] auth.tokens@[i]).token@ == token
                    && auth.tokens@[i].label@ == label;
            assert(held[i] == view);
        }
        if held.contains(view) {
            let i = choose|i: int| 0 <= i < held.len() && held[i] == view;
            assert(auth.tokens@[i].token@ == token);
        }
    }
}

proof fn lemma_held(raw: Seq<String>)
    ensures
        forall|label: Seq<char>, token: Seq<char>| #[trigger]
            parsed_tokens(raw).contains(TokenView { label, token }) <==> exists|i: int|
                0 <= i < raw.len() && #[trigger] describes(i as nat, raw[i]@, label, token),
    decreases raw.len(),
{
    if raw.len() > 0 {
        let front = raw.drop_last();
        let n = raw.len() - 1;
        lemma_held(front);
        let before = parsed_tokens(front);
        let all = parsed_tokens(raw);
        assert(raw[n] == raw.last());
        assert forall|label: Seq<char>, token: Seq<char>| #[trigger]
            all.contains(TokenView { label, token }) <==> exists|i: int|
                0 <= i < raw.len() && #[trigger] describes(i as nat, raw[i]@, label, token) by {
            let view = TokenView { label, token };
            lemma_describes(n as nat, raw.last()@, label, token);
            assert(before.contains(view) <==> exists|i: int|
                0 <= i < front.len() && #[trigger] describes(i as nat, front[i]@, label, token));
            if all.contains(view) {
                let k = choose|k: int| 0 <= k < all.len() && all[k] == view;
                if k < before.len() {
                    assert(before[k] == view);
                    assert(before.contains(view));
                    let i = choose|i: int|
                        0 <= i < front.len() && #[trigger] describes(i as nat, front[i]@, label, token);
                    assert(raw[i] == front[i]);
                    assert(describes(i as nat, raw[i]@, label, token));
                } else {
                    assert(describes(n as nat, raw[n]@, label, token));
                }
            }
            if exists|i: int| 0 <= i < raw.len() && #[trigger] describes(i as nat, raw[i]@, label, token) {
                let i = choose|i: int|
                    0 <= i < raw.len() && #[trigger] describes(i as nat, raw[i]@, label, token);
                if i < n {
                    assert(front[i] == raw[i]);
                    assert(describes(i as nat, front[i]@, label, token));
                    assert(before.contains(view));
                    let k = choose|k: int| 0 <= k < before.len() && before[k] == view;
                    assert(all[k] == view);
                } else {
                    assert(all[all.len() - 1] == view);
                }
            }
        }
    }
}

/// An address is another without the slashes at its end.
pub open spec fn is_without_slashes(s: Seq<char>, r: Seq<char>) -> bool {
    &&& r.len() <= s.len() && s.take(r.len() as int) == r
    &&& forall|i: int| r.len() <= i < s.len() ==> #[trigger] s[i] == '/'
    &&& r.len() > 0 ==> r.last() != '/'
}

proof fn lemma_slashes(s: Seq<char>)
    ensures
        is_without_slashes(s, without_slashes(s)),
    decreases s.len(),
{
    if s.len() > 0 && s.last() == '/' {
        let t = s.drop_last();
        lemma_slashes(t);
        let r = without_slashes(t);
        assert(s.take(r.len() as int) =~= t.take(r.len() as int));
        assert forall|i: int| r.len() <= i < s.len() implies #[trigger] s[i] == '/' by {
            if i < t.len() {
                assert(t[i] == s[i]);
            }
        }
    } else {
        assert(s.take(s.len() as int) =~= s);
    }
}

/// The state that a request carries, if any.
pub open spec fn state_given(q: AuthorizeQuery) -> Seq<char> {
    match q.state {
        Some(state) => state@,
        None => ""@,
    }
}

/// A page is shown for a request for a code with a hashed key, and only for one. It carries the
/// challenge, the address, the client and the state back, each written so that nothing of it
/// is read as the page's own.
pub proof fn lemma_a_page_carries_the_request(q: AuthorizeQuery, r: AuthorizePage)
    requires
        call_ensures(authorize_get, (&q,), r),
    ensures
        r is Page <==> q.response_type@ == "code"@ && q.code_challenge_method@ == "S256"@,
        r matches AuthorizePage::Page { html } ==> in_order(
            html@,
            seq![
                html_text(q.code_challenge@),
                html_text(q.redirect_uri@),
                html_text(q.client_id@),
                html_text(state_given(q)),
            ],
        ),
{
    if let AuthorizePage::Page { html } = r {
        let a = html_text(q.code_challenge@);
        let b = html_text(q.redirect_uri@);
        let c = html_text(q.client_id@);
        let d = html_text(state_given(q));
        assert(state_given(q) == crate::oauth::state_text(q.state));
        let t0 = crate::oauth::PAGE_HEAD@;
        lemma_itself(a);
        lemma_more(a, t0, seq![a]);
        let t1 = t0 + a;
        lemma_more(t1, crate::oauth::PAGE_REDIRECT@, seq![a]);
        lemma_then(t1 + crate::oauth::PAGE_REDIRECT@, b, seq![a]);
        let t2 = t1 + crate::oauth::PAGE_REDIRECT@ + b;
        lemma_more(t2, crate::oauth::PAGE_CLIENT@, seq![a].push(b));
        lemma_then(t2 + crate::oauth::PAGE_CLIENT@, c, seq![a].push(b));
        let t3 = t2 + crate::oauth::PAGE_CLIENT@ + c;
        lemma_more(t3, crate::oauth::PAGE_STATE@, seq![a].push(b).push(c));
        lemma_then(t3 + crate::oauth::PAGE_STATE@, d, seq![a].push(b).push(c));
        let t4 = t3 + crate::oauth::PAGE_STATE@ + d;
        let all = seq![a].push(b).push(c).push(d);
        lemma_more(t4, crate::oauth::PAGE_TAIL@, all);
        assert(all =~= seq![a, b, c, d]);
    }
}

/// An escaped text is the text, character for character, with those a page would read as its own
/// written out.
pub proof fn lemma_escaping_goes_by_character(a: Seq<char>, b: Seq<char>, c: char)
    ensures
        html_text(a + b) == html_text(a) + html_text(b),
        html_text(seq![c]) == (if c == '&' {
            seq!['&', 'a', 'm', 'p', ';']
        } else if c == '"' {
            seq!['&', 'q', 'u', 'o', 't', ';']
        } else if c == '<' {
            seq!['&', 'l', 't', ';']
        } else if c == '>' {
            seq!['&', 'g', 't', ';']
        } else {
            seq![c]
        }),
    decreases b.len(),
{
    reveal_strlit("&amp;");
    reveal_strlit("&quot;");
    reveal_strlit("&lt;");
    reveal_strlit("&gt;");
    let one = seq![c];
    assert(one.drop_last() =~= seq![]);
    reveal_with_fuel(crate::text::expand, 2);
    assert(html_text(one) =~= html_char(c));
    assert("&amp;"@ =~= seq!['&', 'a', 'm', 'p', ';']);
    assert("&quot;"@ =~= seq!['&', 'q', 'u', 'o', 't', ';']);
    assert("&lt;"@ =~= seq!['&', 'l', 't', ';']);
    assert("&gt;"@ =~= seq!['&', 'g', 't', ';']);
    if b.len() == 0 {
        assert(a + b =~= a);
        assert(html_text(a) + html_text(b) =~= html_text(a));
    } else {
        lemma_escaping_goes_by_character(a, b.drop_last(), c);
        assert((a + b).drop_last() =~= a + b.drop_last());
        assert((a + b).last() == b.last());
        assert(html_text(a + b) =~= html_text(a) + html_text(b));
    }
}

/// A code that is handed out is out, for the address and the challenge it was asked for with,
/// and with it every code less than five minutes old.
pub proof fn lemma_a_code_is_handed_out(
    store: &mut OAuthStore,
    code: String,
    form: AuthorizeForm,
    now: u64,
    r: AuthorizeReply,
)
    requires
        call_ensures(OAuthStore::authorize_with, (store, code, form, now), r),
    ensures
        final(store).codes().contains_key(code@),
        final(store).codes()[code@].code_challenge@ == form.code_challenge@,
        final(store).codes()[code@].redirect_uri@ == form.redirect_uri@,
        final(store).codes()[code@].created_at == now,
        forall|other: Seq<char>|
            #![trigger final(store).codes().contains_key(other)]
            other != code@ ==> (final(store).codes().contains_key(other) <==> old(store).codes().contains_key(
                other,
            ) && now < old(store).codes()[other].created_at + 300_000_000_000),
        final(store).access_token@ == old(store).access_token@,
        r matches AuthorizeReply::Redirect { location } ==> url_with_query(
            form.redirect_uri@,
            match form.state {
                Some(state) => seq![("code"@, code@), ("state"@, state@)],
                None => seq![("code"@, code@)],
            },
        ) == Some(location@),
{
}

/// A code is redeemed exactly where it is out, no more than five minutes old, for the address it
/// was handed out for, by whoever has the key to its challenge; then the token is given.
/// Whatever comes of it, the code is spent, and no other code is.
pub proof fn lemma_what_a_code_is_good_for(store: &mut OAuthStore, form: TokenForm, now: u64, r: TokenReply)
    requires
        call_ensures(OAuthStore::token, (store, &form, now), r),
    ensures
        r is Granted <==> {
            &&& form.grant_type@ == "authorization_code"@
            &&& old(store).codes().contains_key(form.code@)
            &&& now <= old(store).codes()[form.code@].created_at + 300_000_000_000
            &&& old(store).codes()[form.code@].redirect_uri@ == form.redirect_uri@
            &&& old(store).codes()[form.code@].code_challenge@ == base64_url(sha256(form.code_verifier@))
        },
        r matches TokenReply::Granted { access_token } ==> access_token@ == old(store).access_token@,
        form.grant_type@ == "authorization_code"@ ==> !final(store).codes().contains_key(form.code@),
        forall|other: Seq<char>|
            #![trigger final(store).codes().contains_key(other)]
            other != form.code@ ==> (final(store).codes().contains_key(other) <==> old(
                store,
            ).codes().contains_key(other)),
        final(store).access_token@ == old(store).access_token@,
{
}

} // verus!
