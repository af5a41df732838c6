//! Whose perch is up, and what rings it.

use vstd::prelude::*;

use crate::laws::words::{is_split_by, lemma_normalized, lemma_split_is_whole};
use crate::numeral::parsed_u64;
use crate::text::{
    is_blank, lowercased, normalized_words, precedes, split_at_char, texts, trimmed,
};
use crate::wake::{
    account, bot_setting, channel_name, named_sinks_from, perch, setting, vars_view,
    KnownChannel, NamedWakeSink, WakeSender,
};

verus! {

/// A setting is about a perch: it is named by a prefix and the perch's name, in any letters.
pub open spec fn is_about_perch(key: Seq<char>, prefix: Seq<char>, name: Seq<char>) -> bool {
    exists|rest: Seq<char>| #[trigger]
        is_key(key, prefix, rest) && rest.len() > 0 && lowercased(rest) == name
}

pub open spec fn is_key(key: Seq<char>, prefix: Seq<char>, rest: Seq<char>) -> bool {
    key == prefix + rest
}

proof fn lemma_perch(key: Seq<char>, prefix: Seq<char>, name: Seq<char>)
    ensures
        perch(key, prefix) == Some(name) <==> is_about_perch(key, prefix, name),
{
    let n = prefix.len() as int;
    if perch(key, prefix) == Some(name) {
        let rest = key.skip(n);
        assert(key =~= prefix + rest);
        assert(is_key(key, prefix, rest));
    }
    if is_about_perch(key, prefix, name) {
        let rest = choose|rest: Seq<char>| #[trigger]
            is_key(key, prefix, rest) && rest.len() > 0 && lowercased(rest) == name;
        assert(key.take(n) =~= prefix);
        assert(key.skip(n) =~= rest);
    }
}

/// The last setting under a prefix for a perch that is not blank.
pub open spec fn is_last_set(vars: Seq<(String, String)>, prefix: Seq<char>, name: Seq<char>, k: int) -> bool {
    &&& 0 <= k < vars.len()
    &&& sets(vars[k], prefix, name)
    &&& forall|j: int| k < j < vars.len() ==> !sets(#[trigger] vars[j], prefix, name)
}

/// A setting sets something of a perch.
pub open spec fn sets(var: (String, String), prefix: Seq<char>, name: Seq<char>) -> bool {
    is_about_perch(var.0@, prefix, name) && !is_blank(var.1@)
}

proof fn lemma_setting(vars: Seq<(String, String)>, prefix: Seq<char>, name: Seq<char>)
    ensures
        setting(vars_view(vars), prefix, name) is None <==> forall|k: int|
            0 <= k < vars.len() ==> !sets(#[trigger] vars[k], prefix, name),
        setting(vars_view(vars), prefix, name) matches Some(v) ==> exists|k: int| #[trigger]
            is_last_set(vars, prefix, name, k) && v == trimmed(vars[k].1@),
    decreases vars.len(),
{
    let views = vars_view(vars);
    if vars.len() > 0 {
        let front = vars.drop_last();
        let n = vars.len() - 1;
        assert(views.drop_last() =~= vars_view(front));
        assert(views.last() == (vars[n].0@, vars[n].1@));
        lemma_setting(front, prefix, name);
        lemma_perch(vars[n].0@, prefix, name);
        assert(forall|i: int| 0 <= i < front.len() ==> #[trigger] front[i] == vars[i]);
        if sets(vars[n], prefix, name) {
            assert(is_last_set(vars, prefix, name, n));
        } else {
            if let Some(v) = setting(views, prefix, name) {
                let k = choose|k: int| #[trigger]
                    is_last_set(front, prefix, name, k) && v == trimmed(front[k].1@);
                assert(vars[k] == front[k]);
                assert forall|j: int| k < j < vars.len() implies !sets(#[trigger] vars[j], prefix, name) by {
                    if j < n {
                        assert(front[j] == vars[j]);
                    }
                }
                assert(is_last_set(vars, prefix, name, k));
                assert(sets(vars[k], prefix, name));
            } else {
                assert forall|k: int| 0 <= k < vars.len() implies !sets(#[trigger] vars[k], prefix, name) by {
                    if k < n {
                        assert(front[k] == vars[k]);
                    }
                }
            }
        }
    }
}

/// Some setting sets something of a perch.
pub open spec fn is_set(vars: Seq<(String, String)>, prefix: Seq<char>, name: Seq<char>) -> bool {
    exists|k: int| 0 <= k < vars.len() && sets(#[trigger] vars[k], prefix, name)
}

/// A value is the one set last, the white space around it aside.
pub open spec fn is_value_set(vars: Seq<(String, String)>, prefix: Seq<char>, name: Seq<char>, v: Seq<char>) -> bool {
    exists|k: int| #[trigger] is_last_set(vars, prefix, name, k) && v == trimmed(vars[k].1@)
}

/// The words that ring a perch: those set, each in small letters and without the white space
/// around it, none of them empty; or, where none is left, its own name.
pub open spec fn are_ringing(vars: Seq<(String, String)>, name: Seq<char>, words: Seq<Seq<char>>) -> bool {
    exists|v: Seq<char>, parts: Seq<Seq<char>>|
        #![trigger is_value_set(vars, "WAKE_KEYWORDS_"@, name, v), is_split_by(v, ',', parts)]
        is_value_set(vars, "WAKE_KEYWORDS_"@, name, v) && is_split_by(v, ',', parts) && {
            if exists|i: int| 0 <= i < parts.len() && lowercased(trimmed(#[trigger] parts[i])).len() > 0 {
                forall|w: Seq<char>| #[trigger]
                    words.contains(w) <==> w.len() > 0 && exists|i: int|
                        0 <= i < parts.len() && w == lowercased(trimmed(#[trigger] parts[i]))
            } else {
                words == seq![name]
            }
        }
}

/// A perch is up exactly where both its address and its secret are set, and then is as it was
/// set last: its address, its secret, the words that ring it and the bot it speaks for. Every
/// perch stands once, in order of name.
pub proof fn lemma_which_perches_are_up(vars: Vec<(String, String)>, r: Vec<NamedWakeSink>)
    requires
        call_ensures(named_sinks_from, (&vars,), r),
    ensures
        forall|i: int, j: int|
            0 <= i < j < r@.len() ==> precedes((#[trigger] r@[i]).name@, (#[trigger] r@[j]).name@),
        forall|name: Seq<char>| #[trigger]
            is_perch(r@, name) <==> is_set(vars@, "WAKE_URL_"@, name) && is_set(
                vars@,
                "WAKE_SECRET_"@,
                name,
            ),
        forall|i: int|
            0 <= i < r@.len() ==> {
                let sink = #[trigger] r@[i];
                &&& is_value_set(vars@, "WAKE_URL_"@, sink.name@, sink.sender.url@)
                &&& is_value_set(vars@, "WAKE_SECRET_"@, sink.name@, sink.sender.secret@)
                &&& is_set(vars@, "WAKE_KEYWORDS_"@, sink.name@) ==> are_ringing(
                    vars@,
                    sink.name@,
                    texts(sink.keywords@),
                )
                &&& !is_set(vars@, "WAKE_KEYWORDS_"@, sink.name@) ==> texts(sink.keywords@) == seq![
                    sink.name@,
                ]
                &&& is_bot_set(vars@, sink.name@, sink.bot_id)
            },
{
    let all = vars_view(vars@);
    assert forall|name: Seq<char>| #[trigger] is_perch(r@, name) <==> is_set(vars@, "WAKE_URL_"@, name)
        && is_set(vars@, "WAKE_SECRET_"@, name) by {
        lemma_set(vars@, "WAKE_URL_"@, name);
        lemma_set(vars@, "WAKE_SECRET_"@, name);
        assert(crate::wake::is_up(all, name) <==> is_set(vars@, "WAKE_URL_"@, name) && is_set(
            vars@,
            "WAKE_SECRET_"@,
            name,
        ));
        if is_perch(r@, name) {
            let i = choose|i: int| 0 <= i < r@.len() && (#[trigger] r@[i]).name@ == name;
            assert(crate::wake::as_set(all, r@[i]));
        }
        if crate::wake::is_up(all, name) {
            assert(crate::wake::is_among(r@, name));
        }
    }
    assert forall|i: int| 0 <= i < r@.len() implies {
        let sink = #[trigger] r@[i];
        &&& is_value_set(vars@, "WAKE_URL_"@, sink.name@, sink.sender.url@)
        &&& is_value_set(vars@, "WAKE_SECRET_"@, sink.name@, sink.sender.secret@)
        &&& is_set(vars@, "WAKE_KEYWORDS_"@, sink.name@) ==> are_ringing(
            vars@,
            sink.name@,
            texts(sink.keywords@),
        )
        &&& !is_set(vars@, "WAKE_KEYWORDS_"@, sink.name@) ==> texts(sink.keywords@) == seq![sink.name@]
        &&& is_bot_set(vars@, sink.name@, sink.bot_id)
    } by {
        let sink = r@[i];
        let name = sink.name@;
        assert(crate::wake::as_set(all, sink));
        lemma_setting(vars@, "WAKE_URL_"@, name);
        lemma_setting(vars@, "WAKE_SECRET_"@, name);
        lemma_setting(vars@, "WAKE_KEYWORDS_"@, name);
        lemma_bot(vars@, name);
        lemma_set(vars@, "WAKE_KEYWORDS_"@, name);
        if let Some(v) = setting(all, "WAKE_KEYWORDS_"@, name) {
            let parts = split_at_char(v, ',');
            lemma_split_is_whole(v, ',');
            lemma_normalized(parts);
            let parsed = normalized_words(parts);
            assert(is_value_set(vars@, "WAKE_KEYWORDS_"@, name, v));
            if exists|i: int| 0 <= i < parts.len() && lowercased(trimmed(#[trigger] parts[i])).len() > 0 {
                let k = choose|i: int| 0 <= i < parts.len() && lowercased(trimmed(#[trigger] parts[i])).len() > 0;
                assert(parsed.contains(lowercased(trimmed(parts[k]))));
            } else if parsed.len() > 0 {
                assert(parsed.contains(parsed[0]));
            }
            assert(are_ringing(vars@, name, texts(sink.keywords@)));
        }
    }
}

/// Some perch of a list has a name.
pub open spec fn is_perch(r: Seq<NamedWakeSink>, name: Seq<char>) -> bool {
    exists|i: int| 0 <= i < r.len() && (#[trigger] r[i]).name@ == name
}

proof fn lemma_set(vars: Seq<(String, String)>, prefix: Seq<char>, name: Seq<char>)
    ensures
        setting(vars_view(vars), prefix, name) is Some <==> is_set(vars, prefix, name),
{
    lemma_setting(vars, prefix, name);
}

/// A setting gives a perch a bot: an account's number, which is not zero.
pub open spec fn gives_bot(var: (String, String), name: Seq<char>, id: u64) -> bool {
    is_about_perch(var.0@, "WAKE_BOT_ID_"@, name) && parsed_u64(trimmed(var.1@)) == Some(id) && id != 0
}

/// A perch's bot is the one given last, if any is.
pub open spec fn is_bot_set(vars: Seq<(String, String)>, name: Seq<char>, bot: Option<u64>) -> bool {
    match bot {
        Some(id) => exists|k: int|
            0 <= k < vars.len() && gives_bot(#[trigger] vars[k], name, id) && (forall|j: int, other: u64|
                k < j < vars.len() ==> !(#[trigger] gives_bot(vars[j], name, other))),
        None => forall|k: int, id: u64| 0 <= k < vars.len() ==> !(#[trigger] gives_bot(vars[k], name, id)),
    }
}

proof fn lemma_bot(vars: Seq<(String, String)>, name: Seq<char>)
    ensures
        is_bot_set(vars, name, bot_setting(vars_view(vars), name)),
    decreases vars.len(),
{
    let views = vars_view(vars);
    if vars.len() > 0 {
        let front = vars.drop_last();
        let n = vars.len() - 1;
        assert(views.drop_last() =~= vars_view(front));
        assert(views.last() == (vars[n].0@, vars[n].1@));
        lemma_bot(front, name);
        lemma_perch(vars[n].0@, "WAKE_BOT_ID_"@, name);
        assert(forall|i: int| 0 <= i < front.len() ==> #[trigger] front[i] == vars[i]);
        let mine = account(trimmed(vars[n].1@));
        if is_about_perch(vars[n].0@, "WAKE_BOT_ID_"@, name) && mine is Some {
            assert(gives_bot(vars[n], name, mine->0));
        } else {
            assert forall|id: u64| !(#[trigger] gives_bot(vars[n], name, id)) by {}
            match bot_setting(vars_view(front), name) {
                Some(id) => {
                    let k = choose|k: int|
                        0 <= k < front.len() && gives_bot(#[trigger] front[k], name, id) && (forall|
                            j: int,
                            other: u64,
                        |
                            k < j < front.len() ==> !(#[trigger] gives_bot(front[j], name, other)));
                    assert(vars[k] == front[k]);
                    assert forall|j: int, other: u64| k < j < vars.len() implies !(#[trigger] gives_bot(
                        vars[j],
                        name,
                        other,
                    )) by {
                        if j < n {
                            assert(!gives_bot(front[j], name, other));
                        }
                    }
                },
                None => {
                    assert forall|k: int, id: u64| 0 <= k < vars.len() implies !(#[trigger] gives_bot(
                        vars[k],
                        name,
                        id,
                    )) by {
                        if k < n {
                            assert(!gives_bot(front[k], name, id));
                        }
                    }
                },
            }
        }
    }
}

/// A perch takes calls where both its address and its secret are given, and not otherwise.
pub proof fn lemma_when_calls_are_taken(url: Option<&str>, secret: Option<&str>, r: Option<WakeSender>)
    requires
        call_ensures(WakeSender::from_config, (url, secret), r),
    ensures
        r is Some <==> url is Some && !is_blank(url->0@) && secret is Some && !is_blank(secret->0@),
        r matches Some(sender) ==> sender.url@ == trimmed(url->0@) && sender.secret@ == trimmed(secret->0@),
{
}

/// A call names its channel: by its name, by whom it is with, or by its bare number.
pub proof fn lemma_a_call_names_its_channel(id: &str, found: Option<KnownChannel>, r: String)
    requires
        call_ensures(channel_name, (id, found), r),
    ensures
        found matches Some(KnownChannel::Guild { name }) ==> r@ == name@,
        found matches Some(KnownChannel::Private { recipient }) ==> r@ == seq!['@'] + recipient@,
        found is None || found->0 is Other ==> r@ == id@,
{
    reveal_strlit("@");
    assert("@"@ =~= seq!['@']);
}

} // verus!
