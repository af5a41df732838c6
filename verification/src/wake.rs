//! The wake-tap: who is told when the crow is called, and how the call is signed.

use vstd::prelude::*;

use crate::assoc::Assoc;
use crate::numeral::{hex, hex_of, parse_u64, parsed_u64};
use crate::text::{
    after_prefix, comes_before, is_blank, lemma_precedes_total, lemma_precedes_transitive,
    lemma_trimmed_once, lower, lowercased, normalize_words, normalized_words, opt_str, opt_text, precedes,
    same, split, split_at_char, strip_prefix, texts, trim, trimmed,
};

verus! {

/// A call, as the perch hears it.
pub struct WakeTap {
    pub channel_id: String,
    pub channel_name: String,
    pub message_id: String,
    pub ts: u64,
    pub author_id: String,
    pub author_name: String,
    pub matched_terms: Vec<String>,
    pub rendered: String,
    pub dm: bool,
}

/// A perch's address, and the secret its calls are signed with.
pub struct WakeSender {
    pub url: String,
    pub secret: String,
}

/// The keyed hash of a body under a secret's bytes.
pub uninterp spec fn hmac_sha256(secret: Seq<char>, body: Seq<u8>) -> Seq<u8>;

/// Makes an `Hmac<Sha256>` from the secret's bytes with `new_from_slice`, which takes a key of
/// any length, feeds it the body with `update` and closes it with `finalize`. The code has
/// thirty-two bytes.
#[verifier::external_body]
fn keyed_hash(secret: &str, body: &Vec<u8>) -> (r: Vec<u8>)
    ensures
        r@ == hmac_sha256(secret@, body@),
        r@.len() == 32,
{
    let mut mac = <hmac::Hmac<sha2::Sha256> as hmac::Mac>::new_from_slice(secret.as_bytes())
        .expect("a key of any length will do");
    hmac::Mac::update(&mut mac, body);
    hmac::Mac::finalize(mac).into_bytes().to_vec()
}

/// A setting that holds anything, without the white space around it.
pub open spec fn given(v: Option<Seq<char>>) -> Option<Seq<char>> {
    match v {
        Some(s) => if is_blank(s) {
            None
        } else {
            Some(trimmed(s))
        },
        None => None,
    }
}

fn given_text(v: Option<&str>) -> (r: Option<String>)
    ensures
        opt_text(r) == given(opt_str(v)),
{
    match v {
        Some(s) => {
            let t = trim(s);
            if t.as_str().is_empty() {
                None
            } else {
                Some(t)
            }
        },
        None => None,
    }
}

impl WakeSender {
    /// A perch, where both its address and its secret are given. The two travel together: one
    /// without the other leaves the tap off.
    pub fn from_config(url: Option<&str>, secret: Option<&str>) -> (r: Option<Self>)
        ensures
            r is Some <==> given(opt_str(url)) is Some && given(opt_str(secret)) is Some,
            r matches Some(s) ==> Some(s.url@) == given(opt_str(url)) && Some(s.secret@) == given(
                opt_str(secret),
            ),
    {
        match (given_text(url), given_text(secret)) {
            (Some(url), Some(secret)) => Some(WakeSender { url, secret }),
            _ => None,
        }
    }

    /// The signature of a call's body.
    pub fn sign(&self, body: &Vec<u8>) -> (r: String)
        ensures
            r@ == hex_of(hmac_sha256(self.secret@, body@)),
            r@.len() == 64,
    {
        hex(&keyed_hash(self.secret.as_str(), body))
    }
}

/// A perch with a name of its own, the words that ring it, and the bot it speaks for.
pub struct NamedWakeSink {
    pub name: String,
    pub keywords: Vec<String>,
    pub sender: WakeSender,
    pub bot_id: Option<u64>,
}

pub const URL_PREFIX: &'static str = "WAKE_URL_";

pub const SECRET_PREFIX: &'static str = "WAKE_SECRET_";

pub const KEYWORDS_PREFIX: &'static str = "WAKE_KEYWORDS_";

pub const BOT_ID_PREFIX: &'static str = "WAKE_BOT_ID_";

/// Settings by name, in the order they were given.
pub open spec fn vars_view(vars: Seq<(String, String)>) -> Seq<(Seq<char>, Seq<char>)> {
    vars.map_values(|v: (String, String)| (v.0@, v.1@))
}

/// The perch that a setting is about: what follows the prefix, in small letters.
pub open spec fn perch(key: Seq<char>, prefix: Seq<char>) -> Option<Seq<char>> {
    match after_prefix(key, prefix) {
        Some(name) => if name.len() == 0 {
            None
        } else {
            Some(lowercased(name))
        },
        None => None,
    }
}

/// The last setting under a prefix for a perch that is not blank, without the white space
/// around it.
pub open spec fn setting(
    vars: Seq<(Seq<char>, Seq<char>)>,
    prefix: Seq<char>,
    name: Seq<char>,
) -> Option<Seq<char>>
    decreases vars.len(),
{
    if vars.len() == 0 {
        None
    } else if perch(vars.last().0, prefix) == Some(name) && !is_blank(vars.last().1) {
        Some(trimmed(vars.last().1))
    } else {
        setting(vars.drop_last(), prefix, name)
    }
}

/// An account's number: not zero.
pub open spec fn account(s: Seq<char>) -> Option<u64> {
    match parsed_u64(s) {
        Some(n) => if n == 0 {
            None
        } else {
            Some(n)
        },
        None => None,
    }
}

/// The last setting of a perch's bot that is an account's number.
pub open spec fn bot_setting(vars: Seq<(Seq<char>, Seq<char>)>, name: Seq<char>) -> Option<u64>
    decreases vars.len(),
{
    if vars.len() == 0 {
        None
    } else if perch(vars.last().0, BOT_ID_PREFIX@) == Some(name) && account(trimmed(vars.last().1))
        is Some {
        account(trimmed(vars.last().1))
    } else {
        bot_setting(vars.drop_last(), name)
    }
}

/// The words that ring a perch: those it was given, or its own name.
pub open spec fn perch_keywords(raw: Option<Seq<char>>, name: Seq<char>) -> Seq<Seq<char>> {
    match raw {
        Some(raw) => {
            let parsed = normalized_words(split_at_char(raw, ','));
            if parsed.len() == 0 {
                seq![name]
            } else {
                parsed
            }
        },
        None => seq![name],
    }
}

/// The settings under a prefix, all of them.
spec fn agrees(
    m: Map<Seq<char>, String>,
    vars: Seq<(Seq<char>, Seq<char>)>,
    prefix: Seq<char>,
) -> bool {
    forall|name: Seq<char>|
        match setting(vars, prefix, name) {
            Some(value) => #[trigger] m.contains_key(name) && m[name]@ == value,
            None => !m.contains_key(name),
        }
}

spec fn bots_agree(m: Map<Seq<char>, u64>, vars: Seq<(Seq<char>, Seq<char>)>) -> bool {
    forall|name: Seq<char>|
        match bot_setting(vars, name) {
            Some(id) => #[trigger] m.contains_key(name) && m[name] == id,
            None => !m.contains_key(name),
        }
}

fn perch_of(key: &str, prefix: &str) -> (r: Option<String>)
    ensures
        opt_text(r) == perch(key@, prefix@),
{
    match strip_prefix(key, prefix) {
        Some(name) => {
            if name.as_str().is_empty() {
                None
            } else {
                Some(lower(name.as_str()))
            }
        },
        None => None,
    }
}

fn note(
    settings: &mut Assoc<String, String>,
    key: &String,
    value: &String,
    prefix: &str,
    Ghost(vars): Ghost<Seq<(Seq<char>, Seq<char>)>>,
) -> (r: Option<String>)
    requires
        old(settings).wf(),
        agrees(old(settings).map(), vars, prefix@),
    ensures
        final(settings).wf(),
        agrees(final(settings).map(), vars.push((key@, value@)), prefix@),
        match r {
            Some(name) => final(settings).map().dom() == old(settings).map().dom().insert(name@),
            None => final(settings).map() == old(settings).map(),
        },
{
    let ghost now = vars.push((key@, value@));
    assert(now.drop_last() =~= vars);
    let text = trim(value.as_str());
    let mut noted: Option<String> = None;
    if let Some(name) = perch_of(key.as_str(), prefix) {
        if !text.as_str().is_empty() {
            settings.insert(name.clone(), text);
            assert(settings.map().dom() =~= old(settings).map().dom().insert(name@));
            noted = Some(name);
        }
    }
    proof {
        assert(now.last() == (key@, value@));
        assert forall|n: Seq<char>|
            #[trigger] settings.map().contains_key(n) == (setting(now, prefix@, n) is Some) && (
            settings.map().contains_key(n) ==> setting(now, prefix@, n) == Some(
                settings.map()[n]@,
            )) by {
            assert(old(settings).map().contains_key(n) == (setting(vars, prefix@, n) is Some));
        }
        assert(agrees(settings.map(), now, prefix@));
    }
    noted
}

fn note_bot(
    bots: &mut Assoc<String, u64>,
    key: &String,
    value: &String,
    Ghost(vars): Ghost<Seq<(Seq<char>, Seq<char>)>>,
)
    requires
        old(bots).wf(),
        bots_agree(old(bots).map(), vars),
    ensures
        final(bots).wf(),
        bots_agree(final(bots).map(), vars.push((key@, value@))),
{
    let ghost now = vars.push((key@, value@));
    assert(now.drop_last() =~= vars);
    let text = trim(value.as_str());
    if let Some(name) = perch_of(key.as_str(), BOT_ID_PREFIX) {
        if let Some(id) = parse_u64(text.as_str()) {
            if id != 0 {
                bots.insert(name, id);
            }
        }
    }
    proof {
        assert(now.last() == (key@, value@));
        assert forall|n: Seq<char>|
            #[trigger] bots.map().contains_key(n) == (bot_setting(now, n) is Some) && (
            bots.map().contains_key(n) ==> bot_setting(now, n) == Some(bots.map()[n])) by {
            assert(old(bots).map().contains_key(n) == (bot_setting(vars, n) is Some));
        }
        assert(bots_agree(bots.map(), now));
    }
}

/// Names in order, none twice.
pub open spec fn sorted(names: Seq<Seq<char>>) -> bool {
    forall|i: int, j: int|
        0 <= i < j < names.len() ==> precedes(#[trigger] names[i], #[trigger] names[j])
}

fn insert_name(names: &mut Vec<String>, name: String)
    requires
        sorted(texts(old(names)@)),
    ensures
        sorted(texts(final(names)@)),
        forall|n: Seq<char>| #[trigger]
            texts(final(names)@).contains(n) <==> n == name@ || texts(old(names)@).contains(n),
{
    let ghost before = texts(names@);
    let mut i: usize = 0;
    while i < names.len() && comes_before(names[i].as_str(), name.as_str())
        invariant
            i <= names@.len(),
            before == texts(names@),
            forall|j: int| 0 <= j < i ==> precedes(#[trigger] before[j], name@),
        decreases names@.len() - i,
    {
        assert(before[i as int] == names@[i as int]@);
        i = i + 1;
    }
    if i < names.len() && same(names[i].as_str(), name.as_str()) {
        assert(before[i as int] == name@);
        return ;
    }
    proof {
        if i < names@.len() {
            assert(before[i as int] == names@[i as int]@);
            lemma_precedes_total(before[i as int], name@);
        }
    }
    let ghost text = name@;
    names.insert(i, name);
    proof {
        let after = texts(names@);
        assert(after =~= before.insert(i as int, text));
        assert forall|a: int, b: int| 0 <= a < b < after.len() implies precedes(
            #[trigger] after[a],
            #[trigger] after[b],
        ) by {
            if b < i {
                assert(after[a] == before[a] && after[b] == before[b]);
            } else if b == i {
                assert(after[a] == before[a]);
            } else if a > i {
                assert(after[a] == before[a - 1] && after[b] == before[b - 1]);
            } else if a == i {
                assert(after[b] == before[b - 1]);
                if b - 1 > i {
                    lemma_precedes_transitive(text, before[i as int], before[b - 1]);
                }
            } else {
                assert(after[a] == before[a] && after[b] == before[b - 1]);
            }
        }
        assert forall|n: Seq<char>| #[trigger] after.contains(n) implies n == text || before.contains(
            n,
        ) by {
            let k = choose|k: int| 0 <= k < after.len() && after[k] == n;
            if k < i {
                assert(before[k] == n);
            } else if k > i {
                assert(before[k - 1] == n);
            }
        }
        assert forall|n: Seq<char>| n == text || before.contains(n) implies #[trigger] after.contains(
            n,
        ) by {
            if n == text {
                assert(after[i as int] == n);
            } else {
                let k = choose|k: int| 0 <= k < before.len() && before[k] == n;
                if k < i {
                    assert(after[k] == n);
                } else {
                    assert(after[k + 1] == n);
                }
            }
        }
    }
}

fn keywords_for(raw: Option<&String>, name: &String) -> (r: Vec<String>)
    ensures
        texts(r@) == perch_keywords(
            match raw {
                Some(raw) => Some(raw@),
                None => None,
            },
            name@,
        ),
{
    if let Some(raw) = raw {
        let parsed = normalize_words(&split(raw.as_str(), ','));
        assert(texts(parsed@).len() == parsed@.len());
        if parsed.len() > 0 {
            return parsed;
        }
    }
    let mut own: Vec<String> = Vec::new();
    own.push(name.clone());
    assert(texts(own@) =~= seq![name@]);
    own
}

/// A perch has its address and its secret, so it is up.
pub open spec fn is_up(vars: Seq<(Seq<char>, Seq<char>)>, name: Seq<char>) -> bool {
    setting(vars, URL_PREFIX@, name) is Some && setting(vars, SECRET_PREFIX@, name) is Some
}

/// A perch is as its settings say.
pub open spec fn as_set(vars: Seq<(Seq<char>, Seq<char>)>, sink: NamedWakeSink) -> bool {
    let name = sink.name@;
    &&& is_up(vars, name)
    &&& Some(sink.sender.url@) == setting(vars, URL_PREFIX@, name)
    &&& Some(sink.sender.secret@) == setting(vars, SECRET_PREFIX@, name)
    &&& texts(sink.keywords@) == perch_keywords(setting(vars, KEYWORDS_PREFIX@, name), name)
    &&& sink.bot_id == bot_setting(vars, name)
}

proof fn lemma_setting_is_trimmed(
    vars: Seq<(Seq<char>, Seq<char>)>,
    prefix: Seq<char>,
    name: Seq<char>,
)
    ensures
        setting(vars, prefix, name) matches Some(v) ==> !is_blank(v) && trimmed(v) == v,
    decreases vars.len(),
{
    if vars.len() > 0 {
        lemma_trimmed_once(vars.last().1);
        lemma_setting_is_trimmed(vars.drop_last(), prefix, name);
    }
}

/// Some perch of a list has a name.
pub open spec fn is_among(r: Seq<NamedWakeSink>, name: Seq<char>) -> bool {
    exists|i: int| 0 <= i < r.len() && (#[trigger] r[i]).name@ == name
}

/// Every perch that is up is one of a list.
pub open spec fn none_is_missing(vars: Seq<(Seq<char>, Seq<char>)>, r: Seq<NamedWakeSink>) -> bool {
    forall|name: Seq<char>| #[trigger] is_up(vars, name) ==> is_among(r, name)
}

/// The perches that the settings describe, by name: a new bird is settings, never code.
pub fn named_sinks_from(vars: &Vec<(String, String)>) -> (r: Vec<NamedWakeSink>)
    ensures
        forall|i: int, j: int|
            0 <= i < j < r@.len() ==> precedes((#[trigger] r@[i]).name@, (#[trigger] r@[j]).name@),
        forall|i: int| 0 <= i < r@.len() ==> as_set(vars_view(vars@), #[trigger] r@[i]),
        none_is_missing(vars_view(vars@), r@),
{
    let ghost all = vars_view(vars@);
    let mut urls: Assoc<String, String> = Assoc::new();
    let mut secrets: Assoc<String, String> = Assoc::new();
    let mut keywords: Assoc<String, String> = Assoc::new();
    let mut bots: Assoc<String, u64> = Assoc::new();
    let mut names: Vec<String> = Vec::new();
    let mut i: usize = 0;
    assert(all.take(0) =~= seq![]);
    while i < vars.len()
        invariant
            i <= vars@.len(),
            all == vars_view(vars@),
            urls.wf(),
            secrets.wf(),
            keywords.wf(),
            bots.wf(),
            agrees(urls.map(), all.take(i as int), URL_PREFIX@),
            agrees(secrets.map(), all.take(i as int), SECRET_PREFIX@),
            agrees(keywords.map(), all.take(i as int), KEYWORDS_PREFIX@),
            bots_agree(bots.map(), all.take(i as int)),
            sorted(texts(names@)),
            forall|n: Seq<char>| #[trigger] urls.map().contains_key(n) ==> texts(names@).contains(n),
        decreases vars@.len() - i,
    {
        let key = &vars[i].0;
        let value = &vars[i].1;
        let ghost before = all.take(i as int);
        let ghost held = urls.map();
        if let Some(name) = note(&mut urls, key, value, URL_PREFIX, Ghost(before)) {
            insert_name(&mut names, name);
            assert forall|n: Seq<char>| #[trigger] urls.map().contains_key(n) implies texts(
                names@,
            ).contains(n) by {
                assert(urls.map().dom().contains(n));
                if n != name@ {
                    assert(held.contains_key(n));
                }
            }
        }
        let _secret = note(&mut secrets, key, value, SECRET_PREFIX, Ghost(before));
        let _words = note(&mut keywords, key, value, KEYWORDS_PREFIX, Ghost(before));
        note_bot(&mut bots, key, value, Ghost(before));
        i = i + 1;
        assert(all.take(i as int) =~= before.push((key@, value@)));
    }
    assert(all.take(i as int) =~= all);
    let mut r: Vec<NamedWakeSink> = Vec::new();
    let mut k: usize = 0;
    while k < names.len()
        invariant
            k <= names@.len(),
            all == vars_view(vars@),
            urls.wf(),
            secrets.wf(),
            keywords.wf(),
            bots.wf(),
            agrees(urls.map(), all, URL_PREFIX@),
            agrees(secrets.map(), all, SECRET_PREFIX@),
            agrees(keywords.map(), all, KEYWORDS_PREFIX@),
            bots_agree(bots.map(), all),
            sorted(texts(names@)),
            forall|n: Seq<char>| #[trigger] urls.map().contains_key(n) ==> texts(names@).contains(n),
            forall|a: int, b: int|
                0 <= a < b < r@.len() ==> precedes(
                    (#[trigger] r@[a]).name@,
                    (#[trigger] r@[b]).name@,
                ),
            forall|a: int, b: int|
                0 <= a < r@.len() && k <= b < names@.len() ==> precedes(
                    (#[trigger] r@[a]).name@,
                    (#[trigger] names@[b])@,
                ),
            forall|a: int| 0 <= a < r@.len() ==> as_set(all, #[trigger] r@[a]),
            forall|b: int|
                0 <= b < k && is_up(all, (#[trigger] names@[b])@) ==> exists|a: int|
                    0 <= a < r@.len() && r@[a].name@ == names@[b]@,
        decreases names@.len() - k,
    {
        let name = &names[k];
        let ghost shown = r@;
        proof {
            let t = texts(names@);
            assert forall|b: int| k < b < names@.len() implies precedes(
                name@,
                (#[trigger] names@[b])@,
            ) by {
                assert(t[k as int] == name@ && t[b] == names@[b]@);
            }
            lemma_setting_is_trimmed(all, URL_PREFIX@, name@);
            lemma_setting_is_trimmed(all, SECRET_PREFIX@, name@);
        }
        match (urls.get(name), secrets.get(name)) {
            (Some(url), Some(secret)) => {
                if let Some(sender) = WakeSender::from_config(
                    Some(url.as_str()),
                    Some(secret.as_str()),
                ) {
                    let bot_id = match bots.get(name) {
                        Some(id) => Some(*id),
                        None => None,
                    };
                    let sink = NamedWakeSink {
                        name: name.clone(),
                        keywords: keywords_for(keywords.get(name), name),
                        sender,
                        bot_id,
                    };
                    assert(as_set(all, sink));
                    r.push(sink);
                    assert(r@[shown.len() as int] == sink);
                }
            },
            _ => {},
        }
        assert forall|b: int| 0 <= b < k + 1 && is_up(all, (#[trigger] names@[b])@) implies exists|
            a: int,
        |
            0 <= a < r@.len() && r@[a].name@ == names@[b]@ by {
            if b < k {
                let a = choose|a: int| 0 <= a < shown.len() && shown[a].name@ == names@[b]@;
                assert(r@[a] == shown[a]);
            } else {
                assert(r@[shown.len() as int].name@ == name@);
            }
        }
        k = k + 1;
    }
    proof {
        assert forall|name: Seq<char>| #[trigger] is_up(all, name) implies is_among(r@, name) by {
            assert(urls.map().contains_key(name));
            let b = choose|b: int| 0 <= b < texts(names@).len() && texts(names@)[b] == name;
            assert(names@[b]@ == name);
            let a = choose|a: int| 0 <= a < r@.len() && r@[a].name@ == names@[b]@;
            assert(r@[a].name@ == name);
        }
    }
    r
}

/// A channel as far as its name goes.
pub enum KnownChannel {
    Guild { name: String },
    Private { recipient: String },
    Other,
}

/// The channel to ask Discord about, where the id is a number.
pub fn channel_to_look_up(channel_id: &str) -> (r: Option<u64>)
    ensures
        r == parsed_u64(channel_id@),
{
    parse_u64(channel_id)
}

/// What a call says of its channel: the name, the other's handle in a private one, and the
/// bare id where nothing was found in time.
pub fn channel_name(channel_id: &str, found: Option<KnownChannel>) -> (r: String)
    ensures
        r@ == match found {
            Some(KnownChannel::Guild { name }) => name@,
            Some(KnownChannel::Private { recipient }) => "@"@ + recipient@,
            _ => channel_id@,
        },
{
    match found {
        Some(KnownChannel::Guild { name }) => name,
        Some(KnownChannel::Private { recipient }) => {
            let mut s = "@".to_owned();
            s.append(recipient.as_str());
            s
        },
        _ => channel_id.to_owned(),
    }
}

} // verus!
