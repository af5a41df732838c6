//! Files that wait a short while to be sent: put once, taken once.

use vstd::prelude::*;

use crate::assoc::{fresh_part, Assoc, Perishable};
use crate::text::{chars_of, decimal, number, opt_text, string_of, trim, trimmed};

verus! {

/// The most that one upload may hold.
pub const MAX_UPLOAD_BYTES: usize = 26_214_400;

/// How many points a waveform may have.
pub const MAX_WAVEFORM: usize = 256;

/// Nanoseconds to the second.
pub const SECOND: u64 = 1_000_000_000;

/// A file that waits. A voice clip's length is kept as the bits of its floating-point number
/// of seconds. Moments are nanoseconds on a clock that never goes back.
pub struct Stored {
    pub filename: String,
    pub data: Vec<u8>,
    pub duration_bits: Option<u64>,
    pub waveform: Option<String>,
    pub expires_at: u128,
}

impl Perishable for Stored {
    open spec fn lasts(self, now: u64) -> bool {
        self.expires_at > now
    }

    fn is_fresh(&self, now: u64) -> (r: bool) {
        self.expires_at > now as u128
    }
}

/// A file that was taken.
pub struct Upload {
    pub filename: String,
    pub data: Vec<u8>,
    pub duration_bits: Option<u64>,
    pub waveform: Option<String>,
}

/// The files that wait, and how long they may.
pub struct UploadStore {
    pub inner: Assoc<String, Stored>,
    pub ttl: u64,
}

/// What an upload is called.
pub struct UploadParams {
    pub filename: String,
}

/// Calls `Uuid::new_v4` and writes it without hyphens. Which one it is is left to chance.
#[verifier::external_body]
fn fresh_ref() -> (r: String)
    ensures
        r@.len() == 32,
{
    uuid::Uuid::new_v4().simple().to_string()
}

/// What a text in base64 with the standard alphabet and padding holds; or why it is none.
pub uninterp spec fn base64_standard(text: Seq<char>) -> Result<Seq<u8>, Seq<char>>;

pub open spec fn bytes_or_reason(v: Result<Vec<u8>, String>) -> Result<Seq<u8>, Seq<char>> {
    match v {
        Ok(v) => Ok(v@),
        Err(e) => Err(e@),
    }
}

/// Calls `decode` of the `base64` crate's `STANDARD` engine; the reason is its error in words.
#[verifier::external_body]
pub(crate) fn decode_standard(text: &str) -> (r: Result<Vec<u8>, String>)
    ensures
        bytes_or_reason(r) == base64_standard(text@),
{
    base64::Engine::decode(&base64::engine::general_purpose::STANDARD, text)
        .map_err(|error| error.to_string())
}

impl UploadStore {
    /// The files that wait.
    pub open spec fn waiting(self) -> Map<Seq<char>, Stored> {
        self.inner.map()
    }

    pub open spec fn wf(self) -> bool {
        self.inner.wf()
    }

    /// An empty store whose files wait for so many nanoseconds.
    pub fn new(ttl: u64) -> (r: Self)
        ensures
            r.wf(),
            r.waiting() == Map::<Seq<char>, Stored>::empty(),
            r.ttl == ttl,
    {
        UploadStore { inner: Assoc::new(), ttl }
    }

    /// Lets a file wait under the given reference.
    pub fn put_as(
        &mut self,
        id: String,
        filename: String,
        data: Vec<u8>,
        duration_bits: Option<u64>,
        waveform: Option<String>,
        now: u64,
    )
        requires
            old(self).wf(),
        ensures
            final(self).wf(),
            final(self).ttl == old(self).ttl,
            final(self).waiting() == fresh_part(old(self).waiting(), now).insert(
                id@,
                (Stored {
                    filename,
                    data,
                    duration_bits,
                    waveform,
                    expires_at: (now + old(self).ttl) as u128,
                }),
            ),
    {
        self.inner.sweep(now);
        let expires_at: u128 = now as u128 + self.ttl as u128;
        self.inner.insert(id, Stored { filename, data, duration_bits, waveform, expires_at });
    }

    /// Lets a file wait, and says under what reference.
    pub fn put(
        &mut self,
        filename: String,
        data: Vec<u8>,
        duration_bits: Option<u64>,
        waveform: Option<String>,
        now: u64,
    ) -> (r: String)
        requires
            old(self).wf(),
        ensures
            final(self).wf(),
            final(self).ttl == old(self).ttl,
            r@.len() == 32,
            final(self).waiting() == fresh_part(old(self).waiting(), now).insert(
                r@,
                (Stored {
                    filename,
                    data,
                    duration_bits,
                    waveform,
                    expires_at: (now + old(self).ttl) as u128,
                }),
            ),
    {
        let id = fresh_ref();
        self.put_as(id.clone(), filename, data, duration_bits, waveform, now);
        id
    }

    /// Takes a file that waits. It is gone then, so that a reference serves once.
    pub fn take(&mut self, id: &str, now: u64) -> (r: Option<Upload>)
        requires
            old(self).wf(),
        ensures
            final(self).wf(),
            final(self).ttl == old(self).ttl,
            final(self).waiting() == fresh_part(old(self).waiting(), now).remove(id@),
            r is Some <==> fresh_part(old(self).waiting(), now).contains_key(id@),
            r matches Some(u) ==> {
                let stored = old(self).waiting()[id@];
                &&& u.filename == stored.filename
                &&& u.data == stored.data
                &&& u.duration_bits == stored.duration_bits
                &&& u.waveform == stored.waveform
            },
    {
        self.inner.sweep(now);
        match self.inner.remove(&id.to_owned()) {
            Some(stored) => {
                if stored.expires_at <= now as u128 {
                    return None;
                }
                Some(
                    Upload {
                        filename: stored.filename,
                        data: stored.data,
                        duration_bits: stored.duration_bits,
                        waveform: stored.waveform,
                    },
                )
            },
            None => None,
        }
    }
}

/// A slash of either kind.
pub open spec fn is_separator(c: char) -> bool {
    c == '/' || c == '\\'
}

/// What follows the last slash of either kind.
pub open spec fn leaf(s: Seq<char>) -> Seq<char>
    decreases s.len(),
{
    if s.len() == 0 || is_separator(s.last()) {
        seq![]
    } else {
        leaf(s.drop_last()).push(s.last())
    }
}

proof fn lemma_leaf(s: Seq<char>, n: int)
    requires
        0 <= n <= s.len(),
        n > 0 ==> is_separator(s[n - 1]),
        forall|i: int| n <= i < s.len() ==> !is_separator(#[trigger] s[i]),
    ensures
        leaf(s) == s.skip(n),
    decreases s.len(),
{
    if s.len() == n {
        assert(s.skip(n) =~= seq![]);
    } else {
        assert(!is_separator(s[s.len() - 1]));
        assert forall|i: int| n <= i < s.drop_last().len() implies !is_separator(
            #[trigger] s.drop_last()[i],
        ) by {
            assert(!is_separator(s[i]));
        }
        lemma_leaf(s.drop_last(), n);
        assert(s.drop_last().skip(n).push(s.last()) =~= s.skip(n));
    }
}

/// The name of a file without the path in front of it or the white space around it.
pub fn sanitize_filename(raw: &str) -> (r: String)
    ensures
        r@ == trimmed(leaf(raw@)),
{
    let v = chars_of(raw);
    let mut n: usize = v.len();
    while n > 0 && v[n - 1] != '/' && v[n - 1] != '\\'
        invariant
            n <= v@.len(),
            forall|i: int| n <= i < v@.len() ==> !is_separator(#[trigger] v@[i]),
        decreases n,
    {
        n = n - 1;
    }
    proof {
        lemma_leaf(raw@, n as int);
    }
    let name = string_of(&v, n, v.len());
    assert(name@ =~= raw@.skip(n as int));
    trim(name.as_str())
}

/// A voice clip's length as its header gives it: nothing, a positive number of seconds by its
/// bits, or something else.
pub enum DurationHeader {
    Absent,
    Seconds(u64),
    Malformed,
}

/// A header's text: none, none that can be read, or some.
pub enum HeaderText {
    Absent,
    NotAscii,
    Text(String),
}

/// What is wrong with an upload's voice headers, if anything is.
pub open spec fn voice_fault(duration: DurationHeader, waveform: HeaderText) -> Option<Seq<char>> {
    match duration {
        DurationHeader::Malformed => Some(
            "x-kurou-duration must be a positive number of seconds"@,
        ),
        _ => match waveform {
            HeaderText::Absent => None,
            HeaderText::NotAscii => Some("x-kurou-waveform is not ascii"@),
            HeaderText::Text(text) => waveform_fault(base64_standard(trimmed(text@))),
        },
    }
}

/// What is wrong with a waveform, by what it decodes to.
pub open spec fn waveform_fault(decoded: Result<Seq<u8>, Seq<char>>) -> Option<Seq<char>> {
    match decoded {
        Err(_) => Some("x-kurou-waveform is not valid base64"@),
        Ok(points) => if points.len() == 0 || points.len() > MAX_WAVEFORM {
            Some(
                "x-kurou-waveform decodes to "@ + decimal(points.len())
                    + " bytes; discord wants 1-256 datapoints"@,
            )
        } else {
            None
        },
    }
}

/// What is wrong with a waveform, by what it decodes to.
pub fn check_waveform(decoded: &Result<Vec<u8>, String>) -> (r: Option<String>)
    ensures
        opt_text(r) == waveform_fault(bytes_or_reason(*decoded)),
{
    match decoded {
        Err(_) => Some("x-kurou-waveform is not valid base64".to_owned()),
        Ok(points) => {
            if points.len() == 0 || points.len() > MAX_WAVEFORM {
                let mut s = "x-kurou-waveform decodes to ".to_owned();
                s.append(number(points.len() as u64).as_str());
                s.append(" bytes; discord wants 1-256 datapoints");
                Some(s)
            } else {
                None
            }
        },
    }
}

/// Reads an upload's voice headers: the length's bits, and the waveform as it was given, the
/// white space around it left out.
pub fn voice_meta(duration: DurationHeader, waveform: HeaderText) -> (r: Result<
    (Option<u64>, Option<String>),
    String,
>)
    ensures
        match voice_fault(duration, waveform) {
            Some(fault) => r matches Err(message) && message@ == fault,
            None => r matches Ok((bits, points)) && bits == match duration {
                DurationHeader::Seconds(bits) => Some(bits),
                _ => None,
            } && opt_text(points) == match waveform {
                HeaderText::Text(text) => Some(trimmed(text@)),
                _ => None,
            },
        },
{
    let bits = match duration {
        DurationHeader::Absent => None,
        DurationHeader::Seconds(bits) => Some(bits),
        DurationHeader::Malformed => {
            return Err("x-kurou-duration must be a positive number of seconds".to_owned());
        },
    };
    match waveform {
        HeaderText::Absent => Ok((bits, None)),
        HeaderText::NotAscii => Err("x-kurou-waveform is not ascii".to_owned()),
        HeaderText::Text(text) => {
            let raw = trim(text.as_str());
            match check_waveform(&decode_standard(raw.as_str())) {
                Some(message) => Err(message),
                None => Ok((bits, Some(raw))),
            }
        },
    }
}

/// How an upload is answered.
pub enum UploadReply {
    BadRequest { message: String },
    TooLarge { message: String },
    Stashed { id: String, filename: String, size: usize, expires_in_secs: u64, voice_ready: bool },
}

/// What is wrong with an upload, if anything is: the first of what is asked of it.
pub enum UploadFault {
    Bad(Seq<char>),
    Large(Seq<char>),
}

pub open spec fn upload_fault(
    filename: Seq<char>,
    size: nat,
    duration: DurationHeader,
    waveform: HeaderText,
) -> Option<UploadFault> {
    if trimmed(leaf(filename)).len() == 0 {
        Some(UploadFault::Bad("filename query param is required"@))
    } else if size == 0 {
        Some(UploadFault::Bad("upload body is empty"@))
    } else if size > MAX_UPLOAD_BYTES {
        Some(
            UploadFault::Large(
                "upload is "@ + decimal(size) + " bytes; the crow's cap is "@ + decimal(
                    MAX_UPLOAD_BYTES as nat,
                ),
            ),
        )
    } else {
        match voice_fault(duration, waveform) {
            Some(fault) => Some(UploadFault::Bad(fault)),
            None => None,
        }
    }
}

/// A voice clip is ready to be sent as one where both its headers came along.
pub open spec fn is_voice_ready(duration: DurationHeader, waveform: HeaderText) -> bool {
    duration is Seconds && waveform is Text
}

/// Takes an upload in, or says what is wrong with it.
pub fn upload_handler(
    store: &mut UploadStore,
    params: &UploadParams,
    duration: DurationHeader,
    waveform: HeaderText,
    body: Vec<u8>,
    now: u64,
) -> (r: UploadReply)
    requires
        old(store).wf(),
    ensures
        final(store).wf(),
        final(store).ttl == old(store).ttl,
        match upload_fault(params.filename@, body@.len(), duration, waveform) {
            Some(UploadFault::Bad(fault)) => *final(store) == *old(store) && (
            r matches UploadReply::BadRequest { message } && message@ == fault),
            Some(UploadFault::Large(fault)) => *final(store) == *old(store) && (
            r matches UploadReply::TooLarge { message } && message@ == fault),
            None => r matches UploadReply::Stashed {
                id,
                filename,
                size,
                expires_in_secs,
                voice_ready,
            } && {
                let kept = final(store).waiting()[id@];
                &&& id@.len() == 32
                &&& filename@ == trimmed(leaf(params.filename@))
                &&& size == body@.len()
                &&& expires_in_secs == old(store).ttl / SECOND
                &&& voice_ready == is_voice_ready(duration, waveform)
                &&& final(store).waiting() == fresh_part(old(store).waiting(), now).insert(id@, kept)
                &&& kept.filename == filename
                &&& kept.data == body
                &&& kept.expires_at == now + old(store).ttl
                &&& kept.duration_bits == match duration {
                    DurationHeader::Seconds(bits) => Some(bits),
                    _ => None,
                }
                &&& opt_text(kept.waveform) == match waveform {
                    HeaderText::Text(text) => Some(trimmed(text@)),
                    _ => None,
                }
            },
        },
{
    let filename = sanitize_filename(params.filename.as_str());
    if filename.as_str().is_empty() {
        return UploadReply::BadRequest { message: "filename query param is required".to_owned() };
    }
    if body.len() == 0 {
        return UploadReply::BadRequest { message: "upload body is empty".to_owned() };
    }
    if body.len() > MAX_UPLOAD_BYTES {
        let mut s = "upload is ".to_owned();
        s.append(number(body.len() as u64).as_str());
        s.append(" bytes; the crow's cap is ");
        s.append(number(MAX_UPLOAD_BYTES as u64).as_str());
        return UploadReply::TooLarge { message: s };
    }
    match voice_meta(duration, waveform) {
        Err(message) => UploadReply::BadRequest { message },
        Ok((bits, points)) => {
            let size: usize = body.len();
            let voice_ready = bits.is_some() && points.is_some();
            let id = store.put(filename.clone(), body, bits, points, now);
            UploadReply::Stashed {
                id,
                filename,
                size,
                expires_in_secs: store.ttl / SECOND,
                voice_ready,
            }
        },
    }
}

/// A kept name is a leaf: no slash of either kind is left in it.
pub proof fn lemma_names_are_leaves(raw: Seq<char>)
    ensures
        forall|i: int|
            0 <= i < trimmed(leaf(raw)).len() ==> !is_separator(#[trigger] trimmed(leaf(raw))[i]),
{
    lemma_leaf_is_plain(raw);
    crate::text::lemma_trimmed_is_within(leaf(raw));
    let t = trimmed(leaf(raw));
    let k = choose|k: int| 0 <= k && k + t.len() <= leaf(raw).len() && #[trigger] leaf(raw).subrange(
        k,
        k + t.len(),
    ) == t;
    assert forall|i: int| 0 <= i < t.len() implies !is_separator(#[trigger] t[i]) by {
        assert(t[i] == leaf(raw)[k + i]);
    }
}

proof fn lemma_leaf_is_plain(s: Seq<char>)
    ensures
        forall|i: int| 0 <= i < leaf(s).len() ==> !is_separator(#[trigger] leaf(s)[i]),
    decreases s.len(),
{
    if s.len() > 0 && !is_separator(s.last()) {
        lemma_leaf_is_plain(s.drop_last());
        let front = leaf(s.drop_last());
        assert(leaf(s) == front.push(s.last()));
        assert forall|i: int| 0 <= i < leaf(s).len() implies !is_separator(#[trigger] leaf(s)[i]) by {
            if i < front.len() {
                assert(leaf(s)[i] == front[i]);
            }
        }
    }
}

/// What was put is there to be taken until its time is up, and is gone once it was taken or
/// its time was up.
pub proof fn lemma_put_once_taken_once(
    waiting: Map<Seq<char>, Stored>,
    id: Seq<char>,
    stored: Stored,
    then: u64,
    now: u64,
    later: u64,
)
    ensures
        ({
            let after_put = fresh_part(waiting, then).insert(id, stored);
            let after_take = fresh_part(after_put, now).remove(id);
            &&& stored.expires_at > now ==> fresh_part(after_put, now).contains_key(id) && fresh_part(
                after_put,
                now,
            )[id] == stored
            &&& stored.expires_at <= now ==> !fresh_part(after_put, now).contains_key(id)
            &&& !fresh_part(after_take, later).contains_key(id)
        }),
{
}

/// Something that is done with the store: a file is put under a reference, or one is taken.
pub enum Deed {
    Put { id: Seq<char>, stored: Stored, now: u64 },
    Take { id: Seq<char>, now: u64 },
}

impl Deed {
    pub open spec fn about(self) -> Seq<char> {
        match self {
            Deed::Put { id, .. } => id,
            Deed::Take { id, .. } => id,
        }
    }

    pub open spec fn time(self) -> u64 {
        match self {
            Deed::Put { now, .. } => now,
            Deed::Take { now, .. } => now,
        }
    }
}

/// What waits after deeds, from an empty store on.
pub open spec fn waiting_after_deeds(deeds: Seq<Deed>) -> Map<Seq<char>, Stored>
    decreases deeds.len(),
{
    if deeds.len() == 0 {
        Map::empty()
    } else {
        let before = fresh_part(waiting_after_deeds(deeds.drop_last()), deeds.last().time());
        match deeds.last() {
            Deed::Put { id, stored, .. } => before.insert(id, stored),
            Deed::Take { id, .. } => before.remove(id),
        }
    }
}

/// A put still stands: since then nothing was done about its reference, and nothing at all
/// once its time was up.
pub open spec fn stands(deeds: Seq<Deed>, k: int, id: Seq<char>) -> bool {
    &&& 0 <= k < deeds.len()
    &&& deeds[k] is Put
    &&& deeds[k].about() == id
    &&& forall|j: int|
        k < j < deeds.len() ==> (#[trigger] deeds[j]).about() != id && deeds[j].time()
            < deeds[k]->stored.expires_at
}

/// What waits under a reference is exactly what was put there last, as it was put, unless it
/// was taken or its time was up. So nothing waits under what no put returned, and nothing is
/// taken twice.
pub proof fn lemma_what_waits_was_put(deeds: Seq<Deed>, id: Seq<char>)
    ensures
        waiting_after_deeds(deeds).contains_key(id) <==> exists|k: int| stands(deeds, k, id),
        forall|k: int| #[trigger]
            stands(deeds, k, id) ==> waiting_after_deeds(deeds)[id] == deeds[k]->stored,
    decreases deeds.len(),
{
    if deeds.len() > 0 {
        let front = deeds.drop_last();
        let last = deeds.last();
        let n = deeds.len() - 1;
        lemma_what_waits_was_put(front, id);
        assert forall|k: int| #[trigger] stands(deeds, k, id) implies waiting_after_deeds(deeds)[id]
            == deeds[k]->stored && waiting_after_deeds(deeds).contains_key(id) by {
            if k < n {
                assert(deeds[n].about() != id);
                assert forall|j: int| k < j < front.len() implies (#[trigger] front[j]).about() != id
                    && front[j].time() < front[k]->stored.expires_at by {
                    assert(front[j] == deeds[j]);
                }
                assert(stands(front, k, id));
            }
        }
        if waiting_after_deeds(deeds).contains_key(id) {
            if last.about() == id {
                assert(stands(deeds, n, id));
            } else {
                let k = choose|k: int| stands(front, k, id);
                assert forall|j: int| k < j < deeds.len() implies (#[trigger] deeds[j]).about() != id
                    && deeds[j].time() < deeds[k]->stored.expires_at by {
                    if j < n {
                        assert(front[j] == deeds[j]);
                    }
                }
                assert(stands(deeds, k, id));
            }
        }
    }
}

/// Taking one file leaves every other one that is still within its time.
pub proof fn lemma_taking_leaves_the_rest(
    waiting: Map<Seq<char>, Stored>,
    id: Seq<char>,
    other: Seq<char>,
    now: u64,
)
    requires
        other != id,
        waiting.contains_key(other),
        waiting[other].expires_at > now,
    ensures
        fresh_part(waiting, now).remove(id).contains_key(other),
        fresh_part(waiting, now).remove(id)[other] == waiting[other],
{
}

} // verus!
