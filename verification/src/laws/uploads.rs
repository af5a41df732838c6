//! Files that wait are there until they are taken or their time is up.

use vstd::prelude::*;

use crate::laws::words::is_trim_of;
use crate::uploads::{
    base64_standard, is_separator, leaf, sanitize_filename, upload_handler, voice_meta,
    DurationHeader, HeaderText, Upload, UploadParams, UploadReply, UploadStore,
};
use crate::text::{opt_text, trimmed};

verus! {

/// Nothing else changes: a file under any other reference waits on while its time is not up.
pub open spec fn others_wait_on(before: UploadStore, after: UploadStore, id: Seq<char>, now: u64) -> bool {
    &&& after.ttl == before.ttl
    &&& forall|other: Seq<char>|
        #![trigger after.waiting().contains_key(other)]
        other != id ==> (after.waiting().contains_key(other) <==> before.waiting().contains_key(other)
            && before.waiting()[other].expires_at > now)
    &&& forall|other: Seq<char>|
        #![trigger after.waiting()[other]]
        other != id && after.waiting().contains_key(other) ==> after.waiting()[other]
            == before.waiting()[other]
}

/// A file that is put waits, whole, for as long as files wait here.
pub proof fn lemma_a_file_waits(
    store: &mut UploadStore,
    filename: String,
    data: Vec<u8>,
    bits: Option<u64>,
    waveform: Option<String>,
    now: u64,
    id: String,
)
    requires
        call_ensures(UploadStore::put, (store, filename, data, bits, waveform, now), id),
    ensures
        final(store).waiting().contains_key(id@),
        final(store).waiting()[id@].filename@ == filename@,
        final(store).waiting()[id@].data@ == data@,
        final(store).waiting()[id@].duration_bits == bits,
        opt_text(final(store).waiting()[id@].waveform) == opt_text(waveform),
        final(store).waiting()[id@].expires_at == now + old(store).ttl,
        others_wait_on(*old(store), *final(store), id@, now),
{
}

/// A file is taken exactly where it waits and its time is not up, whole, and once.
pub proof fn lemma_a_file_is_taken_once(store: &mut UploadStore, id: &str, now: u64, r: Option<Upload>)
    requires
        call_ensures(UploadStore::take, (store, id, now), r),
    ensures
        r is Some <==> old(store).waiting().contains_key(id@) && now < old(store).waiting()[id@].expires_at,
        r matches Some(file) ==> {
            let stored = old(store).waiting()[id@];
            &&& file.filename@ == stored.filename@
            &&& file.data@ == stored.data@
            &&& file.duration_bits == stored.duration_bits
            &&& opt_text(file.waveform) == opt_text(stored.waveform)
        },
        !final(store).waiting().contains_key(id@),
        others_wait_on(*old(store), *final(store), id@, now),
{
}

/// A name is the last part of a path: the rest of it ends with a slash, if there is any, and it
/// holds none itself.
pub open spec fn is_leaf(path: Seq<char>, name: Seq<char>) -> bool {
    exists|front: Seq<char>| #[trigger]
        is_front(path, front, name) && (front.len() == 0 || front.last() == '/' || front.last() == '\\')
}

pub open spec fn is_front(path: Seq<char>, front: Seq<char>, name: Seq<char>) -> bool {
    path == front + name && !name.contains('/') && !name.contains('\\')
}

proof fn lemma_leaf(path: Seq<char>)
    ensures
        is_leaf(path, leaf(path)),
    decreases path.len(),
{
    let name = leaf(path);
    if path.len() == 0 || is_separator(path.last()) {
        assert(path =~= path + name);
        assert(is_front(path, path, name));
    } else {
        let t = path.drop_last();
        lemma_leaf(t);
        let front = choose|front: Seq<char>| #[trigger]
            is_front(t, front, leaf(t)) && (front.len() == 0 || front.last() == '/' || front.last() == '\\');
        assert(path =~= t.push(path.last()));
        assert((front + leaf(t)).push(path.last()) =~= front + name);
        assert forall|c: char| (c == '/' || c == '\\') implies !(#[trigger] name.contains(c)) by {
            if name.contains(c) {
                let k = choose|k: int| 0 <= k < name.len() && name[k] == c;
                if k < leaf(t).len() {
                    assert(leaf(t)[k] == c);
                    assert(leaf(t).contains(c));
                }
            }
        }
        assert(is_front(path, front, name));
    }
}

/// A file keeps its name, without the path in front of it and the white space around it.
pub proof fn lemma_a_file_keeps_its_name(raw: &str, r: String)
    requires
        call_ensures(sanitize_filename, (raw,), r),
    ensures
        exists|name: Seq<char>| #[trigger] is_leaf(raw@, name) && is_trim_of(r@, name),
{
    lemma_leaf(raw@);
    crate::laws::words::lemma_trimmed(leaf(raw@));
}

/// A voice clip's headers are refused exactly where the length is no length, the waveform is no
/// text, does not decode, or has no points or more than two hundred and fifty-six; otherwise
/// both are taken as given.
pub proof fn lemma_what_a_voice_says(
    duration: DurationHeader,
    waveform: HeaderText,
    r: Result<(Option<u64>, Option<String>), String>,
)
    requires
        call_ensures(voice_meta, (duration, waveform), r),
    ensures
        r is Ok <==> {
            &&& !(duration is Malformed)
            &&& !(waveform is NotAscii)
            &&& waveform matches HeaderText::Text(text) ==> (base64_standard(trimmed(text@)) matches Ok(points)
                && 1 <= points.len() <= 256)
        },
        r matches Ok((bits, points)) ==> {
            &&& bits is Some <==> duration is Seconds
            &&& duration matches DurationHeader::Seconds(n) ==> bits == Some(n)
            &&& points is Some <==> waveform is Text
            &&& waveform matches HeaderText::Text(text) ==> points->0@ == trimmed(text@)
        },
{
}

/// An upload waits exactly where it has a name, holds something but no more than twenty-five
/// mebibytes, and its voice headers, if any, are right. It then waits whole under the reference
/// that is given back; refused, it changes nothing.
pub proof fn lemma_what_is_taken_in(
    store: &mut UploadStore,
    params: UploadParams,
    duration: DurationHeader,
    waveform: HeaderText,
    body: Vec<u8>,
    now: u64,
    r: UploadReply,
)
    requires
        call_ensures(upload_handler, (store, &params, duration, waveform, body, now), r),
    ensures
        r is Stashed <==> {
            &&& trimmed(leaf(params.filename@)).len() > 0
            &&& 1 <= body@.len() <= 26_214_400
            &&& !(duration is Malformed)
            &&& !(waveform is NotAscii)
            &&& waveform matches HeaderText::Text(text) ==> (base64_standard(trimmed(text@)) matches Ok(points)
                && 1 <= points.len() <= 256)
        },
        r is TooLarge <==> trimmed(leaf(params.filename@)).len() > 0 && body@.len() > 26_214_400,
        !(r is Stashed) ==> *final(store) == *old(store),
        r matches UploadReply::Stashed { id, filename, size, expires_in_secs, voice_ready } ==> {
            let kept = final(store).waiting()[id@];
            &&& final(store).waiting().contains_key(id@)
            &&& others_wait_on(*old(store), *final(store), id@, now)
            &&& filename@ == trimmed(leaf(params.filename@)) && kept.filename@ == filename@
            &&& size == body@.len() && kept.data@ == body@
            &&& kept.expires_at == now + old(store).ttl
            &&& expires_in_secs == old(store).ttl as int / 1_000_000_000
            &&& voice_ready <==> duration is Seconds && waveform is Text
            &&& duration matches DurationHeader::Seconds(n) ==> kept.duration_bits == Some(n)
            &&& !(duration is Seconds) ==> kept.duration_bits is None
            &&& waveform matches HeaderText::Text(text) ==> opt_text(kept.waveform) == Some(trimmed(text@))
            &&& !(waveform is Text) ==> kept.waveform is None
        },
{
}

} // verus!
