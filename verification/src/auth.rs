//! Who may speak to the crow over HTTP: labelled bearer tokens.

use vstd::prelude::*;

use crate::text::{
    chars_of, decimal, find, find_from, lemma_find_bounds, number, opt_str, opt_text, same,
    string_of, strip_prefix, after_prefix, trim, trimmed,
};

verus! {

/// A token, and the label of whoever holds it.
pub struct AuthToken {
    pub label: String,
    pub token: String,
}

/// The tokens that open the door, and the address the door is known by.
pub struct AuthConfig {
    pub public_base_url: String,
    pub tokens: Vec<AuthToken>,
}

/// The label a caller was recognised by.
pub struct ClientIdentity(pub String);

/// A token and its label, as mathematical values.
pub struct TokenView {
    pub label: Seq<char>,
    pub token: Seq<char>,
}

impl View for AuthToken {
    type V = TokenView;

    open spec fn view(&self) -> TokenView {
        TokenView { label: self.label@, token: self.token@ }
    }
}

/// A label and a token, from what stands before the first colon and what follows it; a bare
/// value is a token without a label of its own.
pub open spec fn token_parts(raw: Seq<char>) -> (Seq<char>, Seq<char>) {
    let n = find(raw, ':') as int;
    if n < raw.len() {
        (trimmed(raw.take(n)), trimmed(raw.skip(n + 1)))
    } else {
        ("token"@, raw)
    }
}

/// The token that the entry of that number describes, if it describes one. One without a
/// label is named by its place.
pub open spec fn parsed_token(index: nat, raw: Seq<char>) -> Option<TokenView> {
    let raw = trimmed(raw);
    let (label, token) = token_parts(raw);
    if raw.len() == 0 || token.len() == 0 {
        None
    } else {
        Some(
            TokenView {
                label: if label.len() == 0 || label == "token"@ {
                    "token-"@ + decimal(index + 1)
                } else {
                    label
                },
                token,
            },
        )
    }
}

pub open spec fn opt_token(t: Option<AuthToken>) -> Option<TokenView> {
    match t {
        Some(t) => Some(t@),
        None => None,
    }
}

/// Reads one entry of the list of tokens.
pub fn parse_token(index: usize, raw: &str) -> (r: Option<AuthToken>)
    requires
        index < usize::MAX,
    ensures
        opt_token(r) == parsed_token(index as nat, raw@),
{
    let raw = trim(raw);
    let v = chars_of(raw.as_str());
    if v.len() == 0 {
        return None;
    }
    proof {
        assert(v@.skip(0) =~= raw@);
        lemma_find_bounds(raw@, ':');
    }
    let n = find_from(&v, 0, ':');
    let (label, token) = if n < v.len() {
        let before = string_of(&v, 0, n);
        let after = string_of(&v, n + 1, v.len());
        assert(before@ =~= raw@.take(n as int));
        assert(after@ =~= raw@.skip(n + 1));
        (trim(before.as_str()), trim(after.as_str()))
    } else {
        ("token".to_owned(), raw.clone())
    };
    if token.as_str().is_empty() {
        return None;
    }
    let label = if label.as_str().is_empty() || same(label.as_str(), "token") {
        let mut s = "token-".to_owned();
        s.append(number((index + 1) as u64).as_str());
        s
    } else {
        label
    };
    Some(AuthToken { label, token })
}

/// The tokens that a list of entries describes, each numbered by its place.
pub open spec fn parsed_tokens(raw: Seq<String>) -> Seq<TokenView>
    decreases raw.len(),
{
    if raw.len() == 0 {
        seq![]
    } else {
        let rest = parsed_tokens(raw.drop_last());
        match parsed_token((raw.len() - 1) as nat, raw.last()@) {
            Some(token) => rest.push(token),
            None => rest,
        }
    }
}

pub open spec fn token_views(tokens: Seq<AuthToken>) -> Seq<TokenView> {
    tokens.map_values(|t: AuthToken| t@)
}

/// An address without the slashes at its end.
pub open spec fn without_slashes(s: Seq<char>) -> Seq<char>
    decreases s.len(),
{
    if s.len() > 0 && s.last() == '/' {
        without_slashes(s.drop_last())
    } else {
        s
    }
}

/// An address without the slashes at its end.
pub fn trim_slashes(s: &str) -> (r: String)
    ensures
        r@ == without_slashes(s@),
{
    let v = chars_of(s);
    let mut n: usize = v.len();
    assert(s@.take(n as int) =~= s@);
    while n > 0 && v[n - 1] == '/'
        invariant
            n <= v@.len(),
            v@ == s@,
            without_slashes(s@) == without_slashes(s@.take(n as int)),
        decreases n,
    {
        assert(s@.take(n as int).drop_last() =~= s@.take(n - 1));
        n = n - 1;
    }
    assert(s@.take(n as int) =~= v@.subrange(0, n as int));
    if n > 0 {
        assert(s@.take(n as int).last() == v@[n - 1]);
    }
    string_of(&v, 0, n)
}

/// The first token under a label.
pub open spec fn token_labelled(tokens: Seq<TokenView>, label: Seq<char>) -> Option<Seq<char>>
    decreases tokens.len(),
{
    if tokens.len() == 0 {
        None
    } else if tokens[0].label == label {
        Some(tokens[0].token)
    } else {
        token_labelled(tokens.drop_first(), label)
    }
}

/// The label of the first token that is the candidate.
pub open spec fn label_of(tokens: Seq<TokenView>, candidate: Seq<char>) -> Option<Seq<char>>
    decreases tokens.len(),
{
    if tokens.len() == 0 {
        None
    } else if tokens[0].token == candidate {
        Some(tokens[0].label)
    } else {
        label_of(tokens.drop_first(), candidate)
    }
}

/// Which token the shim hands out: the one labelled so, or else the first.
pub open spec fn handed_out(tokens: Seq<TokenView>, label: Option<Seq<char>>) -> Option<Seq<char>> {
    match label {
        Some(label) => token_labelled(tokens, label),
        None => if tokens.len() == 0 {
            None
        } else {
            Some(tokens[0].token)
        },
    }
}

/// Who a request's `authorization` header stands for.
pub open spec fn caller(tokens: Seq<TokenView>, header: Option<Seq<char>>) -> Option<Seq<char>> {
    match header {
        Some(header) => match after_prefix(header, "Bearer "@) {
            Some(token) => label_of(tokens, trimmed(token)),
            None => None,
        },
        None => None,
    }
}

/// What an unknown caller is answered with.
pub open spec fn challenge_text(base_url: Seq<char>) -> Seq<char> {
    "Bearer realm=\"kurou\", resource_metadata=\""@ + base_url
        + "/.well-known/oauth-protected-resource\""@
}

/// How a request ends at the door.
pub enum Admission {
    Admitted(ClientIdentity),
    Refused { www_authenticate: String },
}

/// What the door says of itself.
pub struct ResourceMetadata {
    pub resource: String,
    pub bearer_methods_supported: Vec<String>,
}

impl AuthConfig {
    /// The tokens held.
    pub open spec fn held(self) -> Seq<TokenView> {
        token_views(self.tokens@)
    }

    /// The door, with the tokens that a list of entries describes.
    pub fn new(public_base_url: String, raw_tokens: &Vec<String>) -> (r: Self)
        ensures
            r.public_base_url@ == without_slashes(public_base_url@),
            r.held() == parsed_tokens(raw_tokens@),
    {
        let mut tokens: Vec<AuthToken> = Vec::new();
        let mut i: usize = 0;
        assert(raw_tokens@.take(0) =~= seq![]);
        assert(token_views(tokens@) =~= seq![]);
        while i < raw_tokens.len()
            invariant
                i <= raw_tokens@.len(),
                token_views(tokens@) == parsed_tokens(raw_tokens@.take(i as int)),
            decreases raw_tokens@.len() - i,
        {
            let ghost before = token_views(tokens@);
            if let Some(token) = parse_token(i, raw_tokens[i].as_str()) {
                let ghost view = token@;
                tokens.push(token);
                assert(token_views(tokens@) =~= before.push(view));
            }
            i = i + 1;
            proof {
                let t = raw_tokens@.take(i as int);
                assert(t.drop_last() =~= raw_tokens@.take(i - 1));
                assert(t.last() == raw_tokens@[i - 1]);
            }
        }
        assert(raw_tokens@.take(i as int) =~= raw_tokens@);
        AuthConfig { public_base_url: trim_slashes(public_base_url.as_str()), tokens }
    }

    /// Whether anybody has to show a token at all.
    pub fn is_enabled(&self) -> (r: bool)
        ensures
            r == (self.held().len() > 0),
    {
        self.tokens.len() > 0
    }

    /// How many tokens there are.
    pub fn token_count(&self) -> (r: usize)
        ensures
            r == self.held().len(),
    {
        self.tokens.len()
    }

    /// The first token under a label.
    pub fn token_for_label(&self, label: &str) -> (r: Option<String>)
        ensures
            opt_text(r) == token_labelled(self.held(), label@),
    {
        let ghost all = self.held();
        let mut i: usize = 0;
        assert(all.skip(0) =~= all);
        while i < self.tokens.len()
            invariant
                i <= self.tokens@.len(),
                all == self.held(),
                token_labelled(all.skip(i as int), label@) == token_labelled(all, label@),
            decreases self.tokens@.len() - i,
        {
            let ghost rest = all.skip(i as int);
            assert(rest[0] == self.tokens@[i as int]@);
            if same(self.tokens[i].label.as_str(), label) {
                return Some(self.tokens[i].token.clone());
            }
            assert(rest.drop_first() =~= all.skip(i + 1));
            i = i + 1;
        }
        None
    }

    /// The first token of all.
    pub fn default_token(&self) -> (r: Option<String>)
        ensures
            opt_text(r) == handed_out(self.held(), None),
    {
        if self.tokens.len() > 0 {
            assert(self.held()[0] == self.tokens@[0]@);
            Some(self.tokens[0].token.clone())
        } else {
            None
        }
    }

    /// The token the shim hands out: the one labelled so, or else the first.
    pub fn oauth_token(&self, label: Option<&str>) -> (r: Option<String>)
        ensures
            opt_text(r) == handed_out(self.held(), opt_str(label)),
    {
        match label {
            Some(label) => self.token_for_label(label),
            None => self.default_token(),
        }
    }

    /// The label of whoever holds a token.
    pub fn resolve(&self, candidate: &str) -> (r: Option<String>)
        ensures
            opt_text(r) == label_of(self.held(), candidate@),
    {
        let ghost all = self.held();
        let mut i: usize = 0;
        assert(all.skip(0) =~= all);
        while i < self.tokens.len()
            invariant
                i <= self.tokens@.len(),
                all == self.held(),
                label_of(all.skip(i as int), candidate@) == label_of(all, candidate@),
            decreases self.tokens@.len() - i,
        {
            let ghost rest = all.skip(i as int);
            assert(rest[0] == self.tokens@[i as int]@);
            if same(self.tokens[i].token.as_str(), candidate) {
                return Some(self.tokens[i].label.clone());
            }
            assert(rest.drop_first() =~= all.skip(i + 1));
            i = i + 1;
        }
        None
    }

    /// The header that tells an unknown caller where to learn more.
    pub fn challenge(&self) -> (r: String)
        ensures
            r@ == challenge_text(self.public_base_url@),
    {
        let mut s = "Bearer realm=\"kurou\", resource_metadata=\"".to_owned();
        s.append(self.public_base_url.as_str());
        s.append("/.well-known/oauth-protected-resource\"");
        s
    }

    /// Admits a request by its `authorization` header, or refuses it.
    pub fn greet(&self, authorization: Option<&str>) -> (r: Admission)
        ensures
            match caller(self.held(), opt_str(authorization)) {
                Some(label) => r matches Admission::Admitted(ClientIdentity(l)) && l@ == label,
                None => r matches Admission::Refused { www_authenticate } && www_authenticate@
                    == challenge_text(self.public_base_url@),
            },
    {
        let known = match authorization {
            Some(header) => match strip_prefix(header, "Bearer ") {
                Some(token) => self.resolve(trim(token.as_str()).as_str()),
                None => None,
            },
            None => None,
        };
        match known {
            Some(label) => Admission::Admitted(ClientIdentity(label)),
            None => Admission::Refused { www_authenticate: self.challenge() },
        }
    }

    /// What the door says of itself where no token is needed.
    pub fn protected_resource_metadata(&self) -> (r: ResourceMetadata)
        ensures
            r.resource == self.public_base_url,
            crate::text::texts(r.bearer_methods_supported@) == seq!["header"@],
    {
        let mut methods: Vec<String> = Vec::new();
        methods.push("header".to_owned());
        assert(crate::text::texts(methods@) =~= seq!["header"@]);
        ResourceMetadata {
            resource: self.public_base_url.clone(),
            bearer_methods_supported: methods,
        }
    }
}

/// Somebody is admitted exactly for a token that is held, and then under a label it is held
/// under: no other word opens the door.
pub proof fn lemma_only_held_tokens_are_let_in(tokens: Seq<TokenView>, candidate: Seq<char>)
    ensures
        label_of(tokens, candidate) is Some <==> exists|i: int|
            0 <= i < tokens.len() && (#[trigger] tokens[i]).token == candidate,
        label_of(tokens, candidate) matches Some(label) ==> exists|i: int|
            0 <= i < tokens.len() && (#[trigger] tokens[i]).token == candidate && tokens[i].label
                == label,
    decreases tokens.len(),
{
    if tokens.len() > 0 {
        let rest = tokens.drop_first();
        lemma_only_held_tokens_are_let_in(rest, candidate);
        if tokens[0].token != candidate {
            if label_of(rest, candidate) is Some {
                let label = label_of(rest, candidate)->0;
                let i = choose|i: int|
                    0 <= i < rest.len() && (#[trigger] rest[i]).token == candidate && rest[i].label
                        == label;
                assert(tokens[i + 1] == rest[i]);
            }
            if exists|i: int| 0 <= i < tokens.len() && (#[trigger] tokens[i]).token == candidate {
                let i = choose|i: int|
                    0 <= i < tokens.len() && (#[trigger] tokens[i]).token == candidate;
                assert(rest[i - 1] == tokens[i]);
            }
        } else {
            assert(tokens[0].token == candidate);
        }
    }
}

/// No token and no label that is held is empty.
pub proof fn lemma_held_tokens_are_whole(raw: Seq<String>)
    ensures
        forall|i: int|
            0 <= i < parsed_tokens(raw).len() ==> (#[trigger] parsed_tokens(raw)[i]).token.len() > 0
                && parsed_tokens(raw)[i].label.len() > 0,
    decreases raw.len(),
{
    reveal_strlit("token-");
    if raw.len() > 0 {
        lemma_held_tokens_are_whole(raw.drop_last());
        let rest = parsed_tokens(raw.drop_last());
        assert forall|i: int| 0 <= i < parsed_tokens(raw).len() implies (#[trigger] parsed_tokens(
            raw,
        )[i]).token.len() > 0 && parsed_tokens(raw)[i].label.len() > 0 by {
            if i < rest.len() {
                assert(parsed_tokens(raw)[i] == rest[i]);
            }
        }
    }
}

/// An empty word is never admitted.
pub proof fn lemma_the_empty_word_is_refused(raw: Seq<String>)
    ensures
        label_of(parsed_tokens(raw), seq![]) is None,
{
    lemma_held_tokens_are_whole(raw);
    lemma_only_held_tokens_are_let_in(parsed_tokens(raw), seq![]);
}

/// Every entry that describes a token lets its holder in.
pub proof fn lemma_labelled_entries_are_let_in(raw: Seq<String>, i: int)
    requires
        0 <= i < raw.len(),
        parsed_token(i as nat, raw[i]@) is Some,
    ensures
        label_of(parsed_tokens(raw), parsed_token(i as nat, raw[i]@)->0.token) is Some,
{
    lemma_entries_are_held(raw, i);
    lemma_only_held_tokens_are_let_in(
        parsed_tokens(raw),
        parsed_token(i as nat, raw[i]@)->0.token,
    );
}

proof fn lemma_entries_are_held(raw: Seq<String>, i: int)
    requires
        0 <= i < raw.len(),
        parsed_token(i as nat, raw[i]@) is Some,
    ensures
        exists|k: int|
            0 <= k < parsed_tokens(raw).len() && #[trigger] parsed_tokens(raw)[k] == parsed_token(
                i as nat,
                raw[i]@,
            )->0,
    decreases raw.len(),
{
    let token = parsed_token(i as nat, raw[i]@)->0;
    let all = parsed_tokens(raw);
    if i == raw.len() - 1 {
        assert(all[all.len() - 1] == token);
    } else {
        let front = raw.drop_last();
        assert(front[i] == raw[i]);
        lemma_entries_are_held(front, i);
        let k = choose|k: int|
            0 <= k < parsed_tokens(front).len() && #[trigger] parsed_tokens(front)[k] == token;
        assert(all[k] == token);
    }
}

} // verus!
