//! What a read block shows: everything that a message holds, in order.

use vstd::prelude::*;

use crate::discord::types::{
    attachment_lines, attachment_parts, attachment_text, author_text, block_text, content_text, embed_lines,
    embed_parts, embed_text, forward_text, forwarded_text, header_text, labelled_line, marked, message_text,
    plain_field, poll_answer_lines, poll_answer_text, poll_choice_text, poll_end_text, poll_text,
    polled_text, quoted_field, reaction_items, reactions_line, reply_line, reply_text, section, sticker_lines,
    sticker_text, RenderedAttachment, RenderedEmbed, RenderedForward, RenderedMessage, RenderedPoll,
    RenderedPollAnswer, RenderedReaction, RenderedReply, RenderedSticker,
};
use crate::json::json_quoted;
use crate::laws::order::{
    all_of, in_order, lemma_both, lemma_each_joined, lemma_itself, lemma_more, lemma_none, lemma_then, perhaps,
};
use crate::text::{decimal, joined, lines_of, opt_text};

verus! {

/// Whoever a message is by: the handle, and in front of it the name the room uses, if another.
pub open spec fn author_pieces(display: Option<Seq<char>>, handle: Seq<char>) -> Seq<Seq<char>> {
    match display {
        Some(display) => seq![json_quoted(display), handle],
        None => seq![json_quoted(handle)],
    }
}

pub open spec fn reply_pieces(reply: RenderedReply) -> Seq<Seq<char>> {
    if reply.unavailable {
        seq!["<unavailable>"@]
    } else {
        seq![reply.id@] + author_pieces(opt_text(reply.author_display), reply.author_name@) + seq![
            reply.snippet@,
        ]
    }
}

/// An emoji and how many reacted with it.
pub open spec fn reaction_piece(r: RenderedReaction) -> Seq<char> {
    r.label@ + " x"@ + decimal(r.count as nat)
}

pub open spec fn quoted(v: Option<String>) -> Seq<Seq<char>> {
    match v {
        Some(v) => seq![json_quoted(v@)],
        None => seq![],
    }
}

pub open spec fn plain(v: Option<String>) -> Seq<Seq<char>> {
    match v {
        Some(v) => seq![v@],
        None => seq![],
    }
}

pub open spec fn attachment_pieces(a: RenderedAttachment) -> Seq<Seq<char>> {
    seq![a.id@, json_quoted(a.filename@), decimal(a.size as nat)] + quoted(a.content_type) + quoted(
        a.description,
    ) + (match a.dimensions {
        Some((width, height)) => seq![decimal(width as nat), decimal(height as nat)],
        None => seq![],
    }) + seq![a.url@]
}

pub open spec fn sticker_pieces(s: RenderedSticker) -> Seq<Seq<char>> {
    seq![s.id@, json_quoted(s.name@), s.format@, s.url@]
}

pub open spec fn embed_pieces(e: RenderedEmbed) -> Seq<Seq<char>> {
    quoted(e.kind) + quoted(e.title) + quoted(e.description) + plain(e.url) + plain(e.image) + plain(
        e.thumbnail,
    )
}

pub open spec fn all_attachments(v: Seq<RenderedAttachment>) -> Seq<Seq<char>> {
    all_of(v.map_values(|a: RenderedAttachment| attachment_pieces(a)))
}

pub open spec fn all_stickers(v: Seq<RenderedSticker>) -> Seq<Seq<char>> {
    all_of(v.map_values(|s: RenderedSticker| sticker_pieces(s)))
}

pub open spec fn all_embeds(v: Seq<RenderedEmbed>) -> Seq<Seq<char>> {
    all_of(v.map_values(|e: RenderedEmbed| embed_pieces(e)))
}

pub open spec fn forward_pieces(f: RenderedForward) -> Seq<Seq<char>> {
    seq![f.timestamp@] + all_attachments(f.attachments@) + all_stickers(f.stickers@) + all_embeds(
        f.embeds@,
    ) + lines_of(f.content@)
}

pub open spec fn answer_pieces(a: RenderedPollAnswer) -> Seq<Seq<char>> {
    seq![a.text@] + match a.votes {
        Some(votes) => seq![decimal(votes as nat)],
        None => seq![],
    }
}

pub open spec fn poll_pieces(p: RenderedPoll) -> Seq<Seq<char>> {
    seq![json_quoted(p.question@)] + (if p.multiselect {
        seq!["multiselect"@]
    } else {
        seq![]
    }) + (if p.finalized {
        seq!["final"@]
    } else {
        plain(p.expiry)
    }) + all_of(p.answers@.map_values(|a: RenderedPollAnswer| answer_pieces(a)))
}

/// Everything that a message holds.
pub open spec fn message_pieces(m: RenderedMessage) -> Seq<Seq<char>> {
    seq![m.id@, m.author_id@] + author_pieces(opt_text(m.author_display), m.author_name@) + seq![
        m.timestamp@,
    ] + plain(m.kind) + plain(m.edited_timestamp) + (match m.reply {
        Some(reply) => reply_pieces(reply),
        None => seq![],
    }) + m.reactions@.map_values(|r: RenderedReaction| reaction_piece(r)) + all_attachments(
        m.attachments@,
    ) + all_stickers(m.stickers@) + all_embeds(m.embeds@) + (match m.forwarded {
        Some(forward) => forward_pieces(forward),
        None => seq![],
    }) + (match m.poll {
        Some(poll) => poll_pieces(poll),
        None => seq![],
    }) + seq![m.content@]
}

proof fn lemma_author(display: Option<Seq<char>>, handle: Seq<char>)
    ensures
        in_order(author_text(display, handle), author_pieces(display, handle)),
{
    match display {
        Some(d) => {
            lemma_itself(json_quoted(d));
            lemma_more(json_quoted(d), " (@"@, seq![json_quoted(d)]);
            lemma_then(json_quoted(d) + " (@"@, handle, seq![json_quoted(d)]);
            assert(seq![json_quoted(d)].push(handle) =~= seq![json_quoted(d), handle]);
            lemma_more(json_quoted(d) + " (@"@ + handle, ")"@, seq![json_quoted(d), handle]);
        },
        None => {
            lemma_itself(json_quoted(handle));
        },
    }
}

proof fn lemma_reply(reply: RenderedReply)
    ensures
        in_order(reply_text(reply), reply_pieces(reply)),
{
    if reply.unavailable {
        reveal_strlit("reply-to: <unavailable>");
        reveal_strlit("<unavailable>");
        reveal_strlit("reply-to: ");
        lemma_itself("<unavailable>"@);
        lemma_more("<unavailable>"@, "reply-to: "@, seq!["<unavailable>"@]);
        assert("reply-to: "@ + "<unavailable>"@ =~= "reply-to: <unavailable>"@);
    } else {
        let author = author_text(opt_text(reply.author_display), reply.author_name@);
        let by = author_pieces(opt_text(reply.author_display), reply.author_name@);
        lemma_author(opt_text(reply.author_display), reply.author_name@);
        let a = "reply-to: [id="@ + reply.id@;
        lemma_none("reply-to: [id="@);
        lemma_then("reply-to: [id="@, reply.id@, seq![]);
        assert(Seq::<Seq<char>>::empty().push(reply.id@) =~= seq![reply.id@]);
        lemma_more(a, ", author="@, seq![reply.id@]);
        lemma_both(a + ", author="@, author, seq![reply.id@], by);
        let b = a + ", author="@ + author;
        lemma_more(b, "] "@, seq![reply.id@] + by);
        lemma_then(b + "] "@, reply.snippet@, seq![reply.id@] + by);
        assert((seq![reply.id@] + by).push(reply.snippet@) =~= reply_pieces(reply));
    }
}

proof fn lemma_labelled(label: Seq<char>, value: Option<Seq<char>>, p: Seq<Seq<char>>)
    requires
        value matches Some(v) ==> in_order(v, p),
        value is None ==> p.len() == 0,
    ensures
        in_order(labelled_line(label, value), p),
{
    match value {
        Some(v) => {
            lemma_more(v, label, p);
            lemma_more(label + v, "\n"@, p);
        },
        None => {
            assert(p =~= seq![]);
            lemma_none(seq![]);
        },
    }
}

proof fn lemma_marked(lines: Seq<Seq<char>>, mark: Seq<char>, lists: Seq<Seq<Seq<char>>>)
    requires
        lines.len() == lists.len(),
        forall|i: int| 0 <= i < lines.len() ==> in_order(lines[i], #[trigger] lists[i]),
    ensures
        in_order(marked(lines, mark), all_of(lists)),
    decreases lines.len(),
{
    if lines.len() > 0 {
        let n = lines.len() - 1;
        let front = lines.drop_last();
        let fewer = lists.drop_last();
        assert forall|i: int| 0 <= i < front.len() implies in_order(front[i], #[trigger] fewer[i]) by {
            assert(in_order(lines[i], lists[i]));
        }
        lemma_marked(front, mark, fewer);
        assert(in_order(lines[n], lists[n]));
        lemma_more(marked(front, mark), mark, all_of(fewer));
        lemma_both(marked(front, mark) + mark, lines[n], all_of(fewer), lists[n]);
        lemma_more(marked(front, mark) + mark + lines[n], "\n"@, all_of(lists));
    } else {
        lemma_none(marked(lines, mark));
    }
}

proof fn lemma_section(title: Seq<char>, lines: Seq<Seq<char>>, lists: Seq<Seq<Seq<char>>>)
    requires
        lines.len() == lists.len(),
        forall|i: int| 0 <= i < lines.len() ==> in_order(lines[i], #[trigger] lists[i]),
    ensures
        in_order(section(title, lines), all_of(lists)),
{
    lemma_marked(lines, "- "@, lists);
    if lines.len() > 0 {
        lemma_more(marked(lines, "- "@), title, all_of(lists));
    } else {
        assert(lists =~= seq![]);
        lemma_none(section(title, lines));
    }
}

/// The lists of pieces of single fields, joined.
proof fn lemma_fields(parts: Seq<Seq<char>>, lists: Seq<Seq<Seq<char>>>, pieces: Seq<Seq<char>>)
    requires
        parts.len() == lists.len(),
        forall|i: int| 0 <= i < parts.len() ==> in_order(parts[i], #[trigger] lists[i]),
        all_of(lists) == pieces,
    ensures
        in_order(joined(parts, " "@), pieces),
{
    lemma_each_joined(parts, " "@, lists);
}

proof fn lemma_all_of_both(a: Seq<Seq<Seq<char>>>, b: Seq<Seq<Seq<char>>>)
    ensures
        all_of(a + b) == all_of(a) + all_of(b),
    decreases b.len(),
{
    if b.len() == 0 {
        assert(a + b =~= a);
        assert(all_of(a) + all_of(b) =~= all_of(a));
    } else {
        assert((a + b).drop_last() =~= a + b.drop_last());
        lemma_all_of_both(a, b.drop_last());
        assert(all_of(a) + (all_of(b.drop_last()) + b.last()) =~= all_of(a) + all_of(b.drop_last())
            + b.last());
    }
}

proof fn lemma_all_of_one(p: Seq<Seq<char>>)
    ensures
        all_of(seq![p]) == p,
{
    assert(seq![p].drop_last() =~= seq![]);
    assert(all_of(seq![p].drop_last()) + p =~= p);
}

/// Parts whose lists of pieces are known.
spec fn told(parts: Seq<Seq<char>>, lists: Seq<Seq<Seq<char>>>) -> bool {
    parts.len() == lists.len() && forall|i: int|
        0 <= i < parts.len() ==> in_order(parts[i], #[trigger] lists[i])
}

proof fn lemma_told_both(
    a: Seq<Seq<char>>,
    b: Seq<Seq<char>>,
    p: Seq<Seq<Seq<char>>>,
    q: Seq<Seq<Seq<char>>>,
)
    requires
        told(a, p),
        told(b, q),
    ensures
        told(a + b, p + q),
        all_of(p + q) == all_of(p) + all_of(q),
{
    lemma_all_of_both(p, q);
    assert forall|i: int| 0 <= i < (a + b).len() implies in_order((a + b)[i], #[trigger] (p + q)[i]) by {
        if i < a.len() {
            assert(in_order(a[i], p[i]));
        } else {
            assert(in_order(b[i - a.len()], q[i - a.len()]));
        }
    }
}

proof fn lemma_told_one(part: Seq<char>, p: Seq<Seq<char>>)
    requires
        in_order(part, p),
    ensures
        told(seq![part], seq![p]),
        all_of(seq![p]) == p,
{
    lemma_all_of_one(p);
}

/// The lists of pieces of a field that may be missing.
spec fn lists_of(p: Seq<Seq<char>>) -> Seq<Seq<Seq<char>>> {
    if p.len() == 0 {
        seq![]
    } else {
        seq![p]
    }
}

proof fn lemma_quoted_field(key: Seq<char>, v: Option<String>)
    ensures
        told(quoted_field(key, v), lists_of(quoted(v))),
        all_of(lists_of(quoted(v))) == quoted(v),
{
    if let Some(text) = v {
        lemma_itself(json_quoted(text@));
        lemma_more(json_quoted(text@), key, seq![json_quoted(text@)]);
        lemma_told_one(key + json_quoted(text@), seq![json_quoted(text@)]);
    }
}

proof fn lemma_plain_field(key: Seq<char>, v: Option<String>)
    ensures
        told(plain_field(key, v), lists_of(plain(v))),
        all_of(lists_of(plain(v))) == plain(v),
{
    if let Some(text) = v {
        lemma_itself(text@);
        lemma_more(text@, key, seq![text@]);
        lemma_told_one(key + text@, seq![text@]);
    }
}

proof fn lemma_told_piece(key: Seq<char>, piece: Seq<char>, end: Seq<char>)
    ensures
        told(seq![key + piece + end], seq![seq![piece]]),
        told(seq![key + piece], seq![seq![piece]]),
        all_of(seq![seq![piece]]) == seq![piece],
{
    lemma_itself(piece);
    lemma_more(piece, key, seq![piece]);
    lemma_more(key + piece, end, seq![piece]);
    lemma_told_one(key + piece, seq![piece]);
    lemma_told_one(key + piece + end, seq![piece]);
}

proof fn lemma_attachment(a: RenderedAttachment)
    ensures
        in_order(attachment_text(a), attachment_pieces(a)),
{
    let size = decimal(a.size as nat);
    lemma_told_piece("id="@, a.id@, seq![]);
    lemma_told_piece("filename="@, json_quoted(a.filename@), seq![]);
    lemma_told_piece("size="@, size, "b"@);
    let p1 = seq!["id="@ + a.id@];
    let l1 = seq![seq![a.id@]];
    let p2 = seq!["filename="@ + json_quoted(a.filename@)];
    let l2 = seq![seq![json_quoted(a.filename@)]];
    let p3 = seq!["size="@ + size + "b"@];
    let l3 = seq![seq![size]];
    lemma_told_both(p1, p2, l1, l2);
    lemma_told_both(p1 + p2, p3, l1 + l2, l3);
    let p4 = quoted_field("type="@, a.content_type);
    let l4 = lists_of(quoted(a.content_type));
    lemma_quoted_field("type="@, a.content_type);
    lemma_told_both(p1 + p2 + p3, p4, l1 + l2 + l3, l4);
    let p5 = quoted_field("description="@, a.description);
    let l5 = lists_of(quoted(a.description));
    lemma_quoted_field("description="@, a.description);
    lemma_told_both(p1 + p2 + p3 + p4, p5, l1 + l2 + l3 + l4, l5);
    let (p6, l6) = match a.dimensions {
        Some((w, h)) => (
            seq!["dimensions="@ + decimal(w as nat) + "x"@ + decimal(h as nat)],
            seq![seq![decimal(w as nat), decimal(h as nat)]],
        ),
        None => (seq![], seq![]),
    };
    if let Some((w, h)) = a.dimensions {
        let x = decimal(w as nat);
        let y = decimal(h as nat);
        lemma_itself(x);
        lemma_more(x, "dimensions="@, seq![x]);
        lemma_more("dimensions="@ + x, "x"@, seq![x]);
        lemma_then("dimensions="@ + x + "x"@, y, seq![x]);
        assert(seq![x].push(y) =~= seq![x, y]);
        lemma_told_one("dimensions="@ + x + "x"@ + y, seq![x, y]);
    }
    lemma_told_both(p1 + p2 + p3 + p4 + p5, p6, l1 + l2 + l3 + l4 + l5, l6);
    lemma_told_piece("url="@, a.url@, seq![]);
    let p7 = seq!["url="@ + a.url@];
    let l7 = seq![seq![a.url@]];
    lemma_told_both(p1 + p2 + p3 + p4 + p5 + p6, p7, l1 + l2 + l3 + l4 + l5 + l6, l7);
    let lists = l1 + l2 + l3 + l4 + l5 + l6 + l7;
    assert(attachment_parts(a) =~= p1 + p2 + p3 + p4 + p5 + p6 + p7);
    assert(all_of(lists) =~= attachment_pieces(a));
    lemma_fields(attachment_parts(a), lists, attachment_pieces(a));
}

proof fn lemma_sticker(s: RenderedSticker)
    ensures
        in_order(sticker_text(s), sticker_pieces(s)),
{
    let name = json_quoted(s.name@);
    lemma_none("id="@);
    let t1 = "id="@ + s.id@;
    lemma_then("id="@, s.id@, seq![]);
    assert(Seq::<Seq<char>>::empty().push(s.id@) =~= seq![s.id@]);
    lemma_more(t1, " name="@, seq![s.id@]);
    let t2 = t1 + " name="@ + name;
    lemma_then(t1 + " name="@, name, seq![s.id@]);
    lemma_more(t2, " format="@, seq![s.id@].push(name));
    let t3 = t2 + " format="@ + s.format@;
    lemma_then(t2 + " format="@, s.format@, seq![s.id@].push(name));
    lemma_more(t3, " url="@, seq![s.id@].push(name).push(s.format@));
    lemma_then(t3 + " url="@, s.url@, seq![s.id@].push(name).push(s.format@));
    assert(seq![s.id@].push(name).push(s.format@).push(s.url@) =~= sticker_pieces(s));
}

proof fn lemma_embed(e: RenderedEmbed)
    ensures
        embed_text(e) is None <==> embed_pieces(e).len() == 0,
        embed_text(e) matches Some(line) ==> in_order(line, embed_pieces(e)),
{
    let p1 = quoted_field("type="@, e.kind);
    let l1 = lists_of(quoted(e.kind));
    lemma_quoted_field("type="@, e.kind);
    let p2 = quoted_field("title="@, e.title);
    let l2 = lists_of(quoted(e.title));
    lemma_quoted_field("title="@, e.title);
    lemma_told_both(p1, p2, l1, l2);
    let p3 = quoted_field("description="@, e.description);
    let l3 = lists_of(quoted(e.description));
    lemma_quoted_field("description="@, e.description);
    lemma_told_both(p1 + p2, p3, l1 + l2, l3);
    let p4 = plain_field("url="@, e.url);
    let l4 = lists_of(plain(e.url));
    lemma_plain_field("url="@, e.url);
    lemma_told_both(p1 + p2 + p3, p4, l1 + l2 + l3, l4);
    let p5 = plain_field("image="@, e.image);
    let l5 = lists_of(plain(e.image));
    lemma_plain_field("image="@, e.image);
    lemma_told_both(p1 + p2 + p3 + p4, p5, l1 + l2 + l3 + l4, l5);
    let p6 = plain_field("thumbnail="@, e.thumbnail);
    let l6 = lists_of(plain(e.thumbnail));
    lemma_plain_field("thumbnail="@, e.thumbnail);
    lemma_told_both(p1 + p2 + p3 + p4 + p5, p6, l1 + l2 + l3 + l4 + l5, l6);
    let lists = l1 + l2 + l3 + l4 + l5 + l6;
    assert(embed_parts(e) =~= p1 + p2 + p3 + p4 + p5 + p6);
    assert(all_of(lists) =~= embed_pieces(e));
    lemma_fields(embed_parts(e), lists, embed_pieces(e));
}

proof fn lemma_attachments(title: Seq<char>, v: Seq<RenderedAttachment>)
    ensures
        in_order(section(title, attachment_lines(v)), all_attachments(v)),
{
    let lists = v.map_values(|a: RenderedAttachment| attachment_pieces(a));
    assert forall|i: int| 0 <= i < v.len() implies in_order(attachment_lines(v)[i], #[trigger] lists[i]) by {
        lemma_attachment(v[i]);
    }
    lemma_section(title, attachment_lines(v), lists);
}

proof fn lemma_stickers(title: Seq<char>, v: Seq<RenderedSticker>)
    ensures
        in_order(section(title, sticker_lines(v)), all_stickers(v)),
{
    let lists = v.map_values(|s: RenderedSticker| sticker_pieces(s));
    assert forall|i: int| 0 <= i < v.len() implies in_order(sticker_lines(v)[i], #[trigger] lists[i]) by {
        lemma_sticker(v[i]);
    }
    lemma_section(title, sticker_lines(v), lists);
}

/// The lists of pieces of those cards that hold anything.
spec fn embed_lists(v: Seq<RenderedEmbed>) -> Seq<Seq<Seq<char>>>
    decreases v.len(),
{
    if v.len() == 0 {
        seq![]
    } else if embed_text(v.last()) is Some {
        embed_lists(v.drop_last()).push(embed_pieces(v.last()))
    } else {
        embed_lists(v.drop_last())
    }
}

proof fn lemma_embed_lists(v: Seq<RenderedEmbed>)
    ensures
        told(embed_lines(v), embed_lists(v)),
        all_of(embed_lists(v)) == all_embeds(v),
    decreases v.len(),
{
    let f = |e: RenderedEmbed| embed_pieces(e);
    if v.len() > 0 {
        let front = v.drop_last();
        let e = v.last();
        lemma_embed_lists(front);
        lemma_embed(e);
        assert(v.map_values(f).drop_last() =~= front.map_values(f));
        assert(v.map_values(f).last() == embed_pieces(e));
        match embed_text(e) {
            Some(line) => {
                lemma_told_one(line, embed_pieces(e));
                lemma_told_both(embed_lines(front), seq![line], embed_lists(front), seq![embed_pieces(e)]);
                assert(embed_lines(front) + seq![line] =~= embed_lines(v));
                assert(embed_lists(front) + seq![embed_pieces(e)] =~= embed_lists(v));
            },
            None => {
                assert(embed_pieces(e) =~= seq![]);
                assert(all_embeds(front) + embed_pieces(e) =~= all_embeds(front));
            },
        }
    } else {
        assert(v.map_values(f) =~= seq![]);
    }
}

proof fn lemma_embeds(title: Seq<char>, v: Seq<RenderedEmbed>)
    ensures
        in_order(section(title, embed_lines(v)), all_embeds(v)),
{
    lemma_embed_lists(v);
    lemma_section(title, embed_lines(v), embed_lists(v));
}

proof fn lemma_singles(lines: Seq<Seq<char>>)
    ensures
        told(lines, lines.map_values(|l: Seq<char>| seq![l])),
        all_of(lines.map_values(|l: Seq<char>| seq![l])) == lines,
    decreases lines.len(),
{
    let f = |l: Seq<char>| seq![l];
    assert forall|i: int| 0 <= i < lines.len() implies in_order(lines[i], #[trigger] lines.map_values(f)[i]) by {
        lemma_itself(lines[i]);
    }
    if lines.len() > 0 {
        let front = lines.drop_last();
        lemma_singles(front);
        assert(lines.map_values(f).drop_last() =~= front.map_values(f));
        assert(front + seq![lines.last()] =~= lines);
    } else {
        assert(lines.map_values(f) =~= seq![]);
        assert(lines =~= seq![]);
    }
}

proof fn lemma_forward(f: RenderedForward)
    ensures
        in_order(forward_text(f), forward_pieces(f)),
{
    let t1 = "forwarded: [timestamp="@ + f.timestamp@;
    let p1 = seq![f.timestamp@];
    lemma_none("forwarded: [timestamp="@);
    lemma_then("forwarded: [timestamp="@, f.timestamp@, seq![]);
    assert(Seq::<Seq<char>>::empty().push(f.timestamp@) =~= p1);
    lemma_more(t1, "]\n"@, p1);
    let s2 = section("forwarded attachments:\n"@, attachment_lines(f.attachments@));
    lemma_attachments("forwarded attachments:\n"@, f.attachments@);
    lemma_both(t1 + "]\n"@, s2, p1, all_attachments(f.attachments@));
    let p2 = p1 + all_attachments(f.attachments@);
    let s3 = section("forwarded stickers:\n"@, sticker_lines(f.stickers@));
    lemma_stickers("forwarded stickers:\n"@, f.stickers@);
    lemma_both(t1 + "]\n"@ + s2, s3, p2, all_stickers(f.stickers@));
    let p3 = p2 + all_stickers(f.stickers@);
    let s4 = section("forwarded embeds:\n"@, embed_lines(f.embeds@));
    lemma_embeds("forwarded embeds:\n"@, f.embeds@);
    lemma_both(t1 + "]\n"@ + s2 + s3, s4, p3, all_embeds(f.embeds@));
    let p4 = p3 + all_embeds(f.embeds@);
    let lines = lines_of(f.content@);
    lemma_singles(lines);
    lemma_marked(lines, "> "@, lines.map_values(|l: Seq<char>| seq![l]));
    lemma_both(t1 + "]\n"@ + s2 + s3 + s4, marked(lines, "> "@), p4, lines);
}

proof fn lemma_answer(a: RenderedPollAnswer)
    ensures
        in_order(poll_answer_text(a), answer_pieces(a)),
{
    lemma_itself(a.text@);
    match a.votes {
        Some(votes) => {
            let n = decimal(votes as nat);
            lemma_itself(n);
            lemma_more(n, " x"@, seq![n]);
            lemma_both(a.text@, " x"@ + n, seq![a.text@], seq![n]);
        },
        None => {
            lemma_none(seq![]);
            lemma_both(a.text@, seq![], seq![a.text@], seq![]);
        },
    }
}

proof fn lemma_poll(p: RenderedPoll)
    ensures
        in_order(poll_text(p), poll_pieces(p)),
{
    let q = json_quoted(p.question@);
    let t1 = "poll: "@ + q;
    lemma_none("poll: "@);
    lemma_then("poll: "@, q, seq![]);
    assert(Seq::<Seq<char>>::empty().push(q) =~= seq![q]);
    let choice: Seq<Seq<char>> = if p.multiselect {
        seq!["multiselect"@]
    } else {
        seq![]
    };
    if p.multiselect {
        reveal_strlit(" (multiselect)");
        reveal_strlit("multiselect");
        reveal_strlit(" (");
        reveal_strlit(")");
        lemma_itself("multiselect"@);
        lemma_more("multiselect"@, " ("@, choice);
        lemma_more(" ("@ + "multiselect"@, ")"@, choice);
        assert(" ("@ + "multiselect"@ + ")"@ =~= " (multiselect)"@);
    }
    lemma_none(poll_choice_text(p));
    lemma_both(t1, poll_choice_text(p), seq![q], choice);
    let end: Seq<Seq<char>> = if p.finalized {
        seq!["final"@]
    } else {
        plain(p.expiry)
    };
    if p.finalized {
        reveal_strlit(" (final)");
        reveal_strlit("final");
        reveal_strlit(" (");
        reveal_strlit(")");
        lemma_itself("final"@);
        lemma_more("final"@, " ("@, end);
        lemma_more(" ("@ + "final"@, ")"@, end);
        assert(" ("@ + "final"@ + ")"@ =~= " (final)"@);
    } else if let Some(expiry) = p.expiry {
        lemma_itself(expiry@);
        lemma_more(expiry@, " (expires "@, end);
        lemma_more(" (expires "@ + expiry@, ")"@, end);
    }
    lemma_none(poll_end_text(p));
    lemma_both(t1 + poll_choice_text(p), poll_end_text(p), seq![q] + choice, end);
    let t3 = t1 + poll_choice_text(p) + poll_end_text(p);
    let p3 = seq![q] + choice + end;
    lemma_more(t3, "\n"@, p3);
    let lists = p.answers@.map_values(|a: RenderedPollAnswer| answer_pieces(a));
    let lines = poll_answer_lines(p.answers@);
    assert forall|i: int| 0 <= i < lines.len() implies in_order(lines[i], #[trigger] lists[i]) by {
        lemma_answer(p.answers@[i]);
    }
    lemma_marked(lines, "- "@, lists);
    lemma_both(t3 + "\n"@, marked(lines, "- "@), p3, all_of(lists));
}

proof fn lemma_reactions(v: Seq<RenderedReaction>)
    ensures
        in_order(
            labelled_line("reactions: "@, reactions_line(v)),
            v.map_values(|r: RenderedReaction| reaction_piece(r)),
        ),
{
    let pieces = v.map_values(|r: RenderedReaction| reaction_piece(r));
    if v.len() > 0 {
        let items = reaction_items(v);
        assert(items =~= pieces);
        lemma_singles(items);
        lemma_each_joined(items, ", "@, items.map_values(|l: Seq<char>| seq![l]));
        lemma_labelled("reactions: "@, reactions_line(v), pieces);
    } else {
        lemma_labelled("reactions: "@, reactions_line(v), pieces);
    }
}

proof fn lemma_header(m: RenderedMessage)
    ensures
        in_order(
            header_text(m),
            seq![m.id@, m.author_id@] + author_pieces(opt_text(m.author_display), m.author_name@) + seq![
                m.timestamp@,
            ],
        ),
{
    let author = author_text(opt_text(m.author_display), m.author_name@);
    let by = author_pieces(opt_text(m.author_display), m.author_name@);
    lemma_author(opt_text(m.author_display), m.author_name@);
    let t1 = "[id="@ + m.id@;
    lemma_none("[id="@);
    lemma_then("[id="@, m.id@, seq![]);
    assert(Seq::<Seq<char>>::empty().push(m.id@) =~= seq![m.id@]);
    lemma_more(t1, ", author_id="@, seq![m.id@]);
    let t2 = t1 + ", author_id="@ + m.author_id@;
    lemma_then(t1 + ", author_id="@, m.author_id@, seq![m.id@]);
    assert(seq![m.id@].push(m.author_id@) =~= seq![m.id@, m.author_id@]);
    lemma_more(t2, ", author="@, seq![m.id@, m.author_id@]);
    lemma_both(t2 + ", author="@, author, seq![m.id@, m.author_id@], by);
    let t3 = t2 + ", author="@ + author;
    let p3 = seq![m.id@, m.author_id@] + by;
    lemma_more(t3, ", timestamp="@, p3);
    lemma_then(t3 + ", timestamp="@, m.timestamp@, p3);
    assert(p3.push(m.timestamp@) =~= p3 + seq![m.timestamp@]);
    lemma_more(t3 + ", timestamp="@ + m.timestamp@, "]\n"@, p3 + seq![m.timestamp@]);
}

/// A read block leaves nothing out: whatever a message holds stands in its block, in order.
/// Its ids, its author, when it was written and edited, what it answers, every reaction with
/// its count, every file, sticker and card with all that is known of it, what it forwards, its
/// poll with every answer, and its own text.
#[verifier::rlimit(40)]
pub proof fn lemma_everything_is_shown(m: RenderedMessage)
    ensures
        in_order(message_text(m), message_pieces(m)),
{
    let p1 = seq![m.id@, m.author_id@] + author_pieces(opt_text(m.author_display), m.author_name@) + seq![
        m.timestamp@,
    ];
    let t1 = header_text(m);
    lemma_header(m);
    let a2 = labelled_line("type: "@, opt_text(m.kind));
    if let Some(kind) = m.kind {
        lemma_itself(kind@);
    }
    lemma_labelled("type: "@, opt_text(m.kind), plain(m.kind));
    lemma_both(t1, a2, p1, plain(m.kind));
    let t2 = t1 + a2;
    let p2 = p1 + plain(m.kind);
    let a3 = labelled_line("edited: "@, opt_text(m.edited_timestamp));
    if let Some(edited) = m.edited_timestamp {
        lemma_itself(edited@);
    }
    lemma_labelled("edited: "@, opt_text(m.edited_timestamp), plain(m.edited_timestamp));
    lemma_both(t2, a3, p2, plain(m.edited_timestamp));
    let t3 = t2 + a3;
    let p3 = p2 + plain(m.edited_timestamp);
    let reply: Seq<Seq<char>> = match m.reply {
        Some(reply) => reply_pieces(reply),
        None => seq![],
    };
    let a4 = labelled_line(""@, reply_line(m.reply));
    if let Some(answered) = m.reply {
        lemma_reply(answered);
    }
    lemma_labelled(""@, reply_line(m.reply), reply);
    lemma_both(t3, a4, p3, reply);
    let t4 = t3 + a4;
    let p4 = p3 + reply;
    let reactions = m.reactions@.map_values(|r: RenderedReaction| reaction_piece(r));
    let a5 = labelled_line("reactions: "@, reactions_line(m.reactions@));
    lemma_reactions(m.reactions@);
    lemma_both(t4, a5, p4, reactions);
    let t5 = t4 + a5;
    let p5 = p4 + reactions;
    let a6 = section("attachments:\n"@, attachment_lines(m.attachments@));
    lemma_attachments("attachments:\n"@, m.attachments@);
    lemma_both(t5, a6, p5, all_attachments(m.attachments@));
    let t6 = t5 + a6;
    let p6 = p5 + all_attachments(m.attachments@);
    let a7 = section("stickers:\n"@, sticker_lines(m.stickers@));
    lemma_stickers("stickers:\n"@, m.stickers@);
    lemma_both(t6, a7, p6, all_stickers(m.stickers@));
    let t7 = t6 + a7;
    let p7 = p6 + all_stickers(m.stickers@);
    let a8 = section("embeds:\n"@, embed_lines(m.embeds@));
    lemma_embeds("embeds:\n"@, m.embeds@);
    lemma_both(t7, a8, p7, all_embeds(m.embeds@));
    let t8 = t7 + a8;
    let p8 = p7 + all_embeds(m.embeds@);
    let forward: Seq<Seq<char>> = match m.forwarded {
        Some(forward) => forward_pieces(forward),
        None => seq![],
    };
    if let Some(f) = m.forwarded {
        lemma_forward(f);
    }
    lemma_none(forwarded_text(m.forwarded));
    lemma_both(t8, forwarded_text(m.forwarded), p8, forward);
    let t9 = t8 + forwarded_text(m.forwarded);
    let p9 = p8 + forward;
    let poll: Seq<Seq<char>> = match m.poll {
        Some(poll) => poll_pieces(poll),
        None => seq![],
    };
    if let Some(p) = m.poll {
        lemma_poll(p);
    }
    lemma_none(polled_text(m.poll));
    lemma_both(t9, polled_text(m.poll), p9, poll);
    let t10 = t9 + polled_text(m.poll);
    let p10 = p9 + poll;
    lemma_itself(m.content@);
    if !(m.content@.len() == 0 || m.content@.last() == '\n') {
        lemma_more(m.content@, "\n"@, seq![m.content@]);
    }
    lemma_both(t10, content_text(m.content@), p10, seq![m.content@]);
}

/// Every message that is read is shown, in the order given, with everything it holds.
pub proof fn lemma_every_message_is_shown(messages: Seq<RenderedMessage>)
    ensures
        in_order(
            block_text(messages),
            all_of(messages.map_values(|m: RenderedMessage| message_pieces(m))),
        ),
{
    let parts = messages.map_values(|m: RenderedMessage| message_text(m));
    let lists = messages.map_values(|m: RenderedMessage| message_pieces(m));
    assert forall|i: int| 0 <= i < parts.len() implies in_order(parts[i], #[trigger] lists[i]) by {
        lemma_everything_is_shown(messages[i]);
    }
    lemma_each_joined(parts, "\n"@, lists);
}

} // verus!
