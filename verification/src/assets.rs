//! The per-session input asset registry.
//!
//! An attachment the user submitted three turns ago is still referable
//! ("summarize that screenshot"), but the bytes must not be replayed into
//! every prompt. The registry gives each distinct attachment a short
//! `input_N` handle, hands the model the handle plus a label, and resolves
//! the handle back to the attachment only when a delegation needs it.
//!
//! The table is scoped to one `(owner, session)`: a fabricated handle can
//! only ever name something that session already submitted.

use sha2::Digest;
use vstd::prelude::*;
use crate::chars::{decimal_seq, lemma_decimal_shape, push_decimal, str_eq, string_from_chars};
use crate::clock::{system_clock, Clock, SystemClock};
use crate::input::anchors::{has_prefix, input_part_label, is_image, label_spec, string_views};
use crate::input::parts::{part_bytes, part_bytes_spec, part_views, InputPart, InputPartView};
use crate::input::turn::{clone_part, files_of, input_file_parts};
use crate::strmap::StrMap;
use crate::tables::{AssetTable, SessionTable};
use crate::text::{is_js_space, lemma_trim_bounds, trim, trim_seq};

verus! {

/// How many attachments one session holds.
pub const DEFAULT_MAX_ASSETS_PER_SESSION: usize = 32;

/// How many attachment bytes one session holds (64 MiB).
pub const DEFAULT_MAX_BYTES_PER_SESSION: usize = 67108864;

/// How many sessions the registry holds.
pub const DEFAULT_MAX_SESSIONS: usize = 500;

/// How long an untouched session survives (six hours).
pub const DEFAULT_SESSION_TTL_MS: i64 = 21600000;

/// The prefix of every input handle. The model round-trips it, so its shape
/// is frozen.
pub const INPUT_REF_PREFIX: &'static str = "input_";

/// What SHA-256 makes of `bytes`.
pub uninterp spec fn sha256_of(bytes: Seq<u8>) -> Seq<u8>;

/// The SHA-256 digest of `bytes`.
///
/// Trusted: calls `sha2::Sha256::digest`; the contract claims only that the
/// digest is a function of the bytes, named [`sha256_of`].
#[verifier::external_body]
fn sha256_digest(bytes: &[u8]) -> (r: Vec<u8>)
    ensures
        r@ == sha256_of(bytes@),
{
    sha2::Sha256::digest(bytes).to_vec()
}

/// The lowercase hexadecimal digit for `n` (below sixteen).
pub open spec fn hex_digit(n: int) -> char {
    if n < 10 {
        (48 + n) as char
    } else {
        (87 + n) as char
    }
}

/// Two lowercase hexadecimal digits per byte, most significant first.
pub open spec fn hex_spec(bytes: Seq<u8>) -> Seq<char>
    decreases bytes.len(),
{
    if bytes.len() == 0 {
        Seq::empty()
    } else {
        hex_spec(bytes.drop_last()) + seq![hex_digit(bytes.last() as int / 16), hex_digit(bytes.last() as int % 16)]
    }
}

/// Hexadecimal text of `bytes`.
///
/// Trusted: calls `hex::encode`, which writes each byte as two lowercase
/// hexadecimal digits, high nibble first.
#[verifier::external_body]
fn hex_encode(bytes: &[u8]) -> (r: String)
    ensures
        r@ == hex_spec(bytes@),
{
    hex::encode(bytes)
}

/// What is hashed to identify an attachment: its MIME type, a NUL, and its
/// URL, each as UTF-8. The NUL stops `("image/pn", "gX")` and
/// `("image/png", "X")` from colliding.
pub open spec fn fingerprint_input(p: InputPartView) -> Seq<u8> {
    vstd::utf8::encode_utf8(p.mime()) + seq![0u8] + vstd::utf8::encode_utf8(p.url())
}

/// An attachment's fingerprint: `sha256(mime \0 url)` in hexadecimal.
pub open spec fn fingerprint_spec(p: InputPartView) -> Seq<char> {
    hex_spec(sha256_of(fingerprint_input(p)))
}

fn push_bytes(out: &mut Vec<u8>, bytes: &[u8])
    ensures
        final(out)@ == old(out)@ + bytes@,
{
    let mut i: usize = 0;
    while i < bytes.len()
        invariant
            i <= bytes@.len(),
            out@ == old(out)@ + bytes@.take(i as int),
        decreases bytes.len() - i,
    {
        out.push(bytes[i]);
        proof {
            assert(bytes@.take(i + 1) =~= bytes@.take(i as int).push(bytes@[i as int]));
        }
        i = i + 1;
    }
    proof {
        assert(bytes@.take(bytes@.len() as int) =~= bytes@);
    }
}

/// `sha256(mime \0 url)`, in hexadecimal.
pub fn fingerprint(part: &InputPart) -> (r: String)
    ensures
        r@ == fingerprint_spec(part.view()),
{
    let mut data: Vec<u8> = Vec::new();
    push_bytes(&mut data, part.mime().as_bytes());
    data.push(0u8);
    push_bytes(&mut data, part.url().as_bytes());
    proof {
        assert(data@ =~= fingerprint_input(part.view()));
    }
    let digest = sha256_digest(data.as_slice());
    hex_encode(digest.as_slice())
}

/// The handle minted `n`th in a session.
pub open spec fn reference_text(n: nat) -> Seq<char> {
    INPUT_REF_PREFIX@ + decimal_seq(n)
}

proof fn lemma_digit_not_space(n: nat)
    ensures
        !is_js_space(crate::chars::digit_char(n % 10)),
{
}

/// A minted handle has no surrounding whitespace.
proof fn lemma_reference_trimmed(n: nat)
    ensures
        trim_seq(reference_text(n)) == reference_text(n),
        reference_text(n).len() > 0,
{
    reveal_strlit("input_");
    lemma_decimal_shape(n);
    let s = reference_text(n);
    assert(s[0] == 'i');
    if n < 10 {
        assert(s.last() == crate::chars::digit_char(n));
        assert(n % 10 == n);
    } else {
        assert(s.last() == crate::chars::digit_char(n % 10));
    }
    lemma_digit_not_space(n);
    lemma_trim_bounds(s, 0, s.len() as int);
}

fn reference_for(n: u64) -> (r: String)
    ensures
        r@ == reference_text(n as nat),
        trim_seq(r@) == r@,
        r@.len() > 0,
{
    let mut out: Vec<char> = crate::chars::chars_of(INPUT_REF_PREFIX);
    push_decimal(&mut out, n);
    proof {
        lemma_reference_trimmed(n as nat);
    }
    string_from_chars(&out)
}

/// What the model is told about one referable attachment.
#[derive(Clone, Debug, PartialEq, Eq)]
pub struct AssetMetadata {
    /// The `input_N` handle.
    pub reference: String,
    /// `image` or `file`.
    pub kind: &'static str,
    /// The rendered anchor.
    pub label: String,
    /// The original filename, or `None`.
    pub filename: Option<String>,
    /// The MIME type.
    pub mime: String,
}

/// A handle that names nothing this session can reach. The host renders
/// the catalog's message from it.
#[derive(Clone, Debug, PartialEq, Eq)]
pub struct AssetError {
    /// The whole session was gone ("start over"), rather than one handle
    /// ("you named the wrong one").
    pub session_expired: bool,
    /// The handle that names nothing, when the session was live.
    pub reference: Option<String>,
}

/// One registered attachment.
#[derive(Clone, Debug)]
pub struct Asset {
    /// The part, bound to its handle.
    pub part: InputPart,
    /// Its fingerprint.
    pub fingerprint: String,
    /// Its decoded size.
    pub bytes: usize,
    /// The last turn that referenced it.
    pub last_seen_turn_id: Option<String>,
    /// When it was last touched.
    pub last_accessed_at: i64,
}

/// One session's attachments, in insertion order.
#[derive(Debug)]
pub struct SessionAssets {
    /// The assets, by handle.
    pub assets: AssetTable,
    /// The handle bound to each fingerprint.
    pub by_fingerprint: StrMap<String>,
    /// The last handle number minted.
    pub next_reference: u64,
    /// The bytes held, saturating.
    pub total_bytes: usize,
    /// When the session was last touched.
    pub last_accessed_at: i64,
}

impl SessionAssets {
    /// Both tables are well formed.
    pub open spec fn wf(&self) -> bool {
        self.assets.wf() && self.by_fingerprint.wf()
    }

    fn empty(now: i64) -> (r: Self)
        ensures
            r.wf(),
            r.assets.seq().len() == 0,
            r.by_fingerprint.seq().len() == 0,
            r.next_reference == 0,
            r.total_bytes == 0,
            r.last_accessed_at == now,
    {
        SessionAssets {
            assets: AssetTable::new(),
            by_fingerprint: StrMap::new(),
            next_reference: 0,
            total_bytes: 0,
            last_accessed_at: now,
        }
    }
}

/// `v` bound to handle `r`.
pub open spec fn with_ref_view(v: InputPartView, r: Seq<char>) -> InputPartView {
    InputPartView::File { mime: v.mime(), filename: v.filename(), url: v.url(), source: v.source(), input_ref: Some(Some(r)) }
}

/// `v` after binding the handle `r`, which is trimmed first; a blank handle
/// binds nothing.
pub open spec fn bound_view(v: InputPartView, r: Seq<char>) -> InputPartView {
    if trim_seq(r).len() > 0 && v.is_file() {
        with_ref_view(v, trim_seq(r))
    } else {
        v
    }
}

/// `a` is the asset registered for `part`, under handle `reference`, by
/// turn `turn` at `now`.
pub open spec fn fresh_asset(a: Asset, part: InputPartView, reference: Seq<char>, turn: Seq<char>, now: i64) -> bool {
    &&& a.part.view() == with_ref_view(part, reference)
    &&& a.fingerprint@ == fingerprint_spec(part)
    &&& a.bytes == part_bytes_spec(part)
    &&& (if turn.len() > 0 {
        a.last_seen_turn_id matches Some(t) && t@ == turn
    } else {
        a.last_seen_turn_id is None
    })
    &&& a.last_accessed_at == now
}

/// The handle number after `n`, saturating.
pub open spec fn next_number(n: u64) -> u64 {
    if n < u64::MAX {
        (n + 1) as u64
    } else {
        n
    }
}

/// `post` is `pre`'s assets with the oldest dropped until both caps hold
/// (or none is left); each dropped asset's fingerprint is forgotten.
pub open spec fn evicted(pre: Seq<(Seq<char>, Asset)>, post: SessionAssets, max_assets: usize, max_bytes: usize) -> bool {
    &&& exists|k: int| #![trigger pre.skip(k)] 0 <= k <= pre.len() && post.assets.seq() == pre.skip(k) && forall|i: int|
        0 <= i < k ==> !post.by_fingerprint@.contains_key((#[trigger] pre[i]).1.fingerprint@)
    &&& (post.assets.seq().len() <= max_assets && post.total_bytes <= max_bytes) || post.assets.seq().len() == 0
}

/// Every fingerprint binding in `post` is one of `pre`'s, or `fp` bound to
/// `r`.
pub open spec fn bindings_within(pre: Map<Seq<char>, String>, post: Map<Seq<char>, String>, fp: Seq<char>, r: Seq<char>) -> bool {
    forall|k: Seq<char>| #[trigger] post.contains_key(k) ==> (k == fp && post[k]@ == r) || (pre.contains_key(k) && post[k] == pre[k])
}

/// Registering one part, from session `pre` to `post`, answering `out`. A
/// text part passes through. An attachment whose fingerprint is bound to a
/// live asset reuses that asset's handle. Any other attachment is bound to
/// a newly minted handle and appended, and the oldest assets are evicted
/// until both caps hold.
pub open spec fn register_step(
    pre: SessionAssets,
    part: InputPartView,
    turn: Seq<char>,
    now: i64,
    max_assets: usize,
    max_bytes: usize,
    out: InputPartView,
    post: SessionAssets,
) -> bool {
    let fp = fingerprint_spec(part);
    let known = pre.by_fingerprint@.contains_key(fp) && pre.assets@.contains_key(pre.by_fingerprint@[fp]@);
    &&& post.wf()
    &&& post.last_accessed_at == pre.last_accessed_at
    &&& !part.is_file() ==> out == part && post == pre
    &&& (part.is_file() && known) ==> ({
        let r = pre.by_fingerprint@[fp]@;
        &&& out == bound_view(part, r)
        &&& post.next_reference == pre.next_reference
        &&& post.total_bytes == pre.total_bytes
        &&& post.by_fingerprint == pre.by_fingerprint
        &&& post.assets.seq().len() == pre.assets.seq().len()
        &&& forall|i: int| 0 <= i < pre.assets.seq().len() ==> (#[trigger] post.assets.seq()[i]).0 == pre.assets.seq()[i].0
        &&& post.assets@[r].last_accessed_at == now
    })
    &&& (part.is_file() && !known) ==> ({
        let n = next_number(pre.next_reference);
        let r = reference_text(n as nat);
        &&& out == with_ref_view(part, r)
        &&& post.next_reference == n
        &&& bindings_within(pre.by_fingerprint@, post.by_fingerprint@, fp, r)
        &&& !pre.assets@.contains_key(r) ==> exists|a: Asset| #[trigger] fresh_asset(a, part, r, turn, now) && evicted(
            pre.assets.seq().push((r, a)),
            post,
            max_assets,
            max_bytes,
        )
    })
}

fn evict(state: &mut SessionAssets, max_assets: usize, max_bytes: usize)
    requires
        old(state).wf(),
    ensures
        final(state).wf(),
        evicted(old(state).assets.seq(), *final(state), max_assets, max_bytes),
        final(state).next_reference == old(state).next_reference,
        final(state).last_accessed_at == old(state).last_accessed_at,
        forall|k: Seq<char>| #[trigger] final(state).by_fingerprint@.contains_key(k) ==> old(state).by_fingerprint@.contains_key(k)
            && final(state).by_fingerprint@[k] == old(state).by_fingerprint@[k],
{
    let ghost pre = state.assets.seq();
    let ghost mut k: int = 0;
    while state.assets.len() > max_assets || state.total_bytes > max_bytes
        invariant
            state.wf(),
            0 <= k <= pre.len(),
            state.assets.seq() == pre.skip(k),
            forall|i: int| 0 <= i < k ==> !state.by_fingerprint@.contains_key((#[trigger] pre[i]).1.fingerprint@),
            state.next_reference == old(state).next_reference,
            state.last_accessed_at == old(state).last_accessed_at,
            forall|f: Seq<char>| #[trigger] state.by_fingerprint@.contains_key(f) ==> old(state).by_fingerprint@.contains_key(f)
                && state.by_fingerprint@[f] == old(state).by_fingerprint@[f],
        ensures
            state.wf(),
            evicted(pre, *state, max_assets, max_bytes),
            state.next_reference == old(state).next_reference,
            state.last_accessed_at == old(state).last_accessed_at,
            forall|f: Seq<char>| #[trigger] state.by_fingerprint@.contains_key(f) ==> old(state).by_fingerprint@.contains_key(f)
                && state.by_fingerprint@[f] == old(state).by_fingerprint@[f],
        decreases state.assets.seq().len(),
    {
        if state.assets.len() == 0 {
            assert(pre.skip(k) == state.assets.seq());
            break;
        }
        let (_, oldest) = state.assets.remove_at(0);
        proof {
            assert(oldest == pre[k].1);
            assert(pre.skip(k).remove(0) =~= pre.skip(k + 1));
        }
        state.by_fingerprint.remove(oldest.fingerprint.as_str());
        state.total_bytes = if state.total_bytes >= oldest.bytes {
            state.total_bytes - oldest.bytes
        } else {
            0
        };
        proof {
            k = k + 1;
        }
    }
}

fn clone_opt_string(s: &Option<String>) -> (r: Option<String>)
    ensures
        r == *s,
{
    match s {
        Some(t) => Some(t.clone()),
        None => None,
    }
}

impl SessionAssets {
    fn register_one(&mut self, part: &InputPart, turn_id: &str, now: i64, max_assets: usize, max_bytes: usize) -> (r: InputPart)
        requires
            old(self).wf(),
        ensures
            register_step(*old(self), part.view(), turn_id@, now, max_assets, max_bytes, r.view(), *final(self)),
    {
        if !part.is_file() {
            return clone_part(part);
        }
        let hash = fingerprint(part);
        let bound = match self.by_fingerprint.get(hash.as_str()) {
            Some(reference) => Some(reference.clone()),
            None => None,
        };
        match bound {
            Some(reference) => {
                match self.assets.index_of(reference.as_str()) {
                    Some(i) => {
                        let known = self.assets.value_at(i);
                        let last_seen = if turn_id.unicode_len() > 0 {
                            Some(turn_id.to_owned())
                        } else {
                            clone_opt_string(&known.last_seen_turn_id)
                        };
                        let updated = Asset {
                            part: clone_part(&known.part),
                            fingerprint: known.fingerprint.clone(),
                            bytes: known.bytes,
                            last_seen_turn_id: last_seen,
                            last_accessed_at: now,
                        };
                        let ghost before = self.assets.seq();
                        self.assets.set_value_at(i, updated);
                        proof {
                            crate::strmap::lemma_entries_map_index(self.assets.seq(), i as int);
                        }
                        return clone_part(part).with_reference(reference.as_str());
                    },
                    None => {},
                }
            },
            None => {},
        }
        self.next_reference = if self.next_reference < u64::MAX {
            self.next_reference + 1
        } else {
            self.next_reference
        };
        let reference = reference_for(self.next_reference);
        let enriched = clone_part(part).with_reference(reference.as_str());
        let bytes = part_bytes(part);
        let asset = Asset {
            part: clone_part(&enriched),
            fingerprint: hash.clone(),
            bytes,
            last_seen_turn_id: if turn_id.unicode_len() > 0 {
                Some(turn_id.to_owned())
            } else {
                None
            },
            last_accessed_at: now,
        };
        let ghost before = self.assets.seq();
        let ghost had = self.assets@.contains_key(reference@);
        let ghost a = asset;
        self.assets.insert(reference.clone(), asset);
        self.by_fingerprint.insert(hash, reference);
        self.total_bytes = if self.total_bytes <= usize::MAX - bytes {
            self.total_bytes + bytes
        } else {
            usize::MAX
        };
        let ghost mid = self.assets.seq();
        evict(self, max_assets, max_bytes);
        proof {
            if !had {
                assert(mid == before.push((reference_text(self.next_reference as nat), a)));
                assert(fresh_asset(a, part.view(), reference_text(self.next_reference as nat), turn_id@, now));
            }
        }
        enriched
    }
}

/// Whether a session last touched at `last` is still live at `now`: the
/// saturating difference is below the TTL.
pub open spec fn live_at(last: i64, now: i64, ttl: i64) -> bool {
    let d = now - last;
    let sat: int = if d > i64::MAX {
        i64::MAX as int
    } else if d < i64::MIN {
        i64::MIN as int
    } else {
        d
    };
    sat < ttl
}

/// The sessions of `s` that are live at `now`, in order.
pub open spec fn live_sessions(s: Seq<(Seq<char>, SessionAssets)>, now: i64, ttl: i64) -> Seq<(Seq<char>, SessionAssets)>
    decreases s.len(),
{
    if s.len() == 0 {
        Seq::empty()
    } else {
        let rest = live_sessions(s.drop_last(), now, ttl);
        if live_at(s.last().1.last_accessed_at, now, ttl) {
            rest.push(s.last())
        } else {
            rest
        }
    }
}

/// The key of a session: the owner, a NUL, the session id.
pub open spec fn session_key_spec(owner: Seq<char>, session: Seq<char>) -> Seq<char> {
    owner + seq!['\0'] + session
}

/// The key of a session.
pub fn session_key(owner_id: &str, session_id: &str) -> (r: String)
    ensures
        r@ == session_key_spec(owner_id@, session_id@),
{
    let mut out = crate::chars::chars_of(owner_id);
    out.push('\0');
    let rest = crate::chars::chars_of(session_id);
    let mut i: usize = 0;
    while i < rest.len()
        invariant
            i <= rest@.len(),
            out@ == owner_id@ + seq!['\0'] + rest@.take(i as int),
        decreases rest.len() - i,
    {
        out.push(rest[i]);
        proof {
            assert(rest@.take(i + 1) =~= rest@.take(i as int).push(rest@[i as int]));
        }
        i = i + 1;
    }
    proof {
        assert(rest@.take(rest@.len() as int) =~= rest@);
    }
    string_from_chars(&out)
}

fn saturating_diff(now: i64, last: i64) -> (r: i64)
    ensures
        r as int == (if now - last > i64::MAX {
            i64::MAX as int
        } else if now - last < i64::MIN {
            i64::MIN as int
        } else {
            now - last
        }),
{
    let d: i128 = now as i128 - last as i128;
    if d > i64::MAX as i128 {
        i64::MAX
    } else if d < i64::MIN as i128 {
        i64::MIN
    } else {
        d as i64
    }
}

/// Whether `a` sorts before `b`, character by character.
pub open spec fn chars_before(a: Seq<char>, b: Seq<char>) -> bool
    decreases a.len(),
{
    if a.len() == 0 {
        b.len() > 0
    } else if b.len() == 0 {
        false
    } else if a[0] != b[0] {
        (a[0] as u32) < (b[0] as u32)
    } else {
        chars_before(a.drop_first(), b.drop_first())
    }
}

fn str_before(a: &str, b: &str) -> (r: bool)
    ensures
        r == chars_before(a@, b@),
{
    let x = crate::chars::chars_of(a);
    let y = crate::chars::chars_of(b);
    assert(x@.skip(0) =~= x@);
    assert(y@.skip(0) =~= y@);
    let mut i: usize = 0;
    while i < x.len() && i < y.len() && x[i] == y[i]
        invariant
            i <= x@.len() && i <= y@.len(),
            chars_before(x@, y@) == chars_before(x@.skip(i as int), y@.skip(i as int)),
        decreases x.len() - i,
    {
        proof {
            assert(x@.skip(i as int).drop_first() =~= x@.skip(i + 1));
            assert(y@.skip(i as int).drop_first() =~= y@.skip(i + 1));
        }
        i = i + 1;
    }
    if i == x.len() {
        i < y.len()
    } else if i == y.len() {
        false
    } else {
        (x[i] as u32) < (y[i] as u32)
    }
}

/// The per-session asset registry, reading the time from `C`.
pub struct InputAssetRegistry<C: Clock> {
    max_assets_per_session: usize,
    max_bytes_per_session: usize,
    max_sessions: usize,
    session_ttl_ms: i64,
    clock: C,
    sessions: SessionTable,
}

impl InputAssetRegistry<SystemClock> {
    /// A registry with the contract bounds and the system clock.
    pub fn new() -> (r: Self)
        ensures
            r.wf(),
            r.sessions_spec().len() == 0,
            r.max_assets_spec() == DEFAULT_MAX_ASSETS_PER_SESSION,
            r.max_bytes_spec() == DEFAULT_MAX_BYTES_PER_SESSION,
            r.max_sessions_spec() == DEFAULT_MAX_SESSIONS,
            r.ttl_spec() == DEFAULT_SESSION_TTL_MS,
    {
        InputAssetRegistry::with_clock(system_clock())
    }
}

impl<C: Clock> InputAssetRegistry<C> {
    /// The sessions, by key, in order.
    pub closed spec fn sessions_spec(&self) -> Seq<(Seq<char>, SessionAssets)> {
        self.sessions.seq()
    }

    /// The per-session attachment cap.
    pub closed spec fn max_assets_spec(&self) -> usize {
        self.max_assets_per_session
    }

    /// The per-session byte cap.
    pub closed spec fn max_bytes_spec(&self) -> usize {
        self.max_bytes_per_session
    }

    /// The session cap.
    pub closed spec fn max_sessions_spec(&self) -> usize {
        self.max_sessions
    }

    /// The session TTL.
    pub closed spec fn ttl_spec(&self) -> i64 {
        self.session_ttl_ms
    }

    /// The session tables are well formed.
    pub closed spec fn wf(&self) -> bool {
        &&& self.sessions.wf()
        &&& forall|k: Seq<char>| #[trigger] self.sessions@.contains_key(k) ==> self.sessions@[k].wf()
    }

    /// The sessions, by key.
    pub closed spec fn sessions_map(&self) -> Map<Seq<char>, SessionAssets> {
        self.sessions@
    }

    /// A registry with the contract bounds, driven by `clock`.
    pub fn with_clock(clock: C) -> (r: Self)
        ensures
            r.wf(),
            r.sessions_spec().len() == 0,
            r.max_assets_spec() == DEFAULT_MAX_ASSETS_PER_SESSION,
            r.max_bytes_spec() == DEFAULT_MAX_BYTES_PER_SESSION,
            r.max_sessions_spec() == DEFAULT_MAX_SESSIONS,
            r.ttl_spec() == DEFAULT_SESSION_TTL_MS,
    {
        InputAssetRegistry {
            max_assets_per_session: DEFAULT_MAX_ASSETS_PER_SESSION,
            max_bytes_per_session: DEFAULT_MAX_BYTES_PER_SESSION,
            max_sessions: DEFAULT_MAX_SESSIONS,
            session_ttl_ms: DEFAULT_SESSION_TTL_MS,
            clock,
            sessions: SessionTable::new(),
        }
    }

    /// Override the per-session attachment cap.
    pub fn max_assets_per_session(self, max: usize) -> (r: Self)
        ensures
            r.max_assets_spec() == max,
            r.max_bytes_spec() == self.max_bytes_spec(),
            r.max_sessions_spec() == self.max_sessions_spec(),
            r.ttl_spec() == self.ttl_spec(),
            r.sessions_spec() == self.sessions_spec(),
            r.wf() == self.wf(),
    {
        InputAssetRegistry { max_assets_per_session: max, ..self }
    }

    /// Override the per-session byte cap.
    pub fn max_bytes_per_session(self, max: usize) -> (r: Self)
        ensures
            r.max_bytes_spec() == max,
            r.max_assets_spec() == self.max_assets_spec(),
            r.max_sessions_spec() == self.max_sessions_spec(),
            r.ttl_spec() == self.ttl_spec(),
            r.sessions_spec() == self.sessions_spec(),
            r.wf() == self.wf(),
    {
        InputAssetRegistry { max_bytes_per_session: max, ..self }
    }

    /// Override the session cap.
    pub fn max_sessions(self, max: usize) -> (r: Self)
        ensures
            r.max_sessions_spec() == max,
            r.max_assets_spec() == self.max_assets_spec(),
            r.max_bytes_spec() == self.max_bytes_spec(),
            r.ttl_spec() == self.ttl_spec(),
            r.sessions_spec() == self.sessions_spec(),
            r.wf() == self.wf(),
    {
        InputAssetRegistry { max_sessions: max, ..self }
    }

    /// Override the session TTL.
    pub fn session_ttl_ms(self, ttl_ms: i64) -> (r: Self)
        ensures
            r.ttl_spec() == ttl_ms,
            r.max_assets_spec() == self.max_assets_spec(),
            r.max_bytes_spec() == self.max_bytes_spec(),
            r.max_sessions_spec() == self.max_sessions_spec(),
            r.sessions_spec() == self.sessions_spec(),
            r.wf() == self.wf(),
    {
        InputAssetRegistry { session_ttl_ms: ttl_ms, ..self }
    }

    /// Drop the sessions not touched within the TTL, as of `now`.
    pub fn prune_at(&mut self, now: i64)
        requires
            old(self).wf(),
        ensures
            final(self).wf(),
            final(self).sessions_spec() == live_sessions(old(self).sessions_spec(), now, old(self).ttl_spec()),
            final(self).max_assets_spec() == old(self).max_assets_spec(),
            final(self).max_bytes_spec() == old(self).max_bytes_spec(),
            final(self).max_sessions_spec() == old(self).max_sessions_spec(),
            final(self).ttl_spec() == old(self).ttl_spec(),
    {
        let ghost pre = self.sessions.seq();
        let mut i: usize = 0;
        let ghost mut j: int = 0;
        while i < self.sessions.len()
            invariant
                self.wf(),
                0 <= j <= pre.len(),
                self.sessions.seq() == live_sessions(pre.take(j), now, self.session_ttl_ms) + pre.skip(j),
                i == live_sessions(pre.take(j), now, self.session_ttl_ms).len(),
                self.max_assets_per_session == old(self).max_assets_per_session,
                self.max_bytes_per_session == old(self).max_bytes_per_session,
                self.max_sessions == old(self).max_sessions,
                self.session_ttl_ms == old(self).session_ttl_ms,
                pre == old(self).sessions.seq(),
            decreases pre.len() - j,
        {
            let ghost cur = self.sessions.seq();
            proof {
                assert(pre.take(j + 1).drop_last() =~= pre.take(j));
                assert(pre.take(j + 1).last() == pre[j]);
                assert(cur[i as int] == pre[j]);
            }
            let last = self.sessions.value_at(i).last_accessed_at;
            if saturating_diff(now, last) < self.session_ttl_ms {
                proof {
                    assert(cur =~= live_sessions(pre.take(j + 1), now, self.session_ttl_ms) + pre.skip(j + 1));
                }
                i = i + 1;
            } else {
                self.sessions.remove_at(i);
                proof {
                    assert(self.sessions.seq() =~= live_sessions(pre.take(j + 1), now, self.session_ttl_ms) + pre.skip(j + 1));
                }
            }
            proof {
                j = j + 1;
            }
        }
        proof {
            assert(pre.take(j) =~= pre);
            assert(pre.skip(j) =~= Seq::<(Seq<char>, SessionAssets)>::empty());
            assert(self.sessions.seq() =~= live_sessions(pre, now, self.session_ttl_ms));
        }
    }

    /// How many sessions the registry holds.
    pub fn session_count(&self) -> (r: usize)
        requires
            self.wf(),
        ensures
            r == self.sessions_spec().len(),
    {
        self.sessions.len()
    }

    /// How many attachments a session holds; none for an unknown session.
    pub fn asset_count(&self, owner_id: &str, session_id: &str) -> (r: usize)
        requires
            self.wf(),
        ensures
            ({
                let key = session_key_spec(owner_id@, session_id@);
                &&& crate::strmap::has_key(self.sessions_spec(), key) ==> r == crate::strmap::value_of(self.sessions_spec(), key).assets.seq().len()
                &&& !crate::strmap::has_key(self.sessions_spec(), key) ==> r == 0
            }),
    {
        let key = session_key(owner_id, session_id);
        match self.sessions.index_of(key.as_str()) {
            Some(i) => {
                proof {
                    crate::strmap::lemma_key_index(self.sessions.seq(), i as int);
                }
                proof {
                    crate::strmap::lemma_entries_map_index(self.sessions.seq(), i as int);
                }
                let state = self.sessions.value_at(i);
                state.assets.len()
            },
            None => 0,
        }
    }
}

/// `s` is a new, empty session touched at `now`.
pub open spec fn fresh_session(s: SessionAssets, now: i64) -> bool {
    &&& s.wf()
    &&& s.assets.seq().len() == 0
    &&& s.by_fingerprint.seq().len() == 0
    &&& s.next_reference == 0
    &&& s.total_bytes == 0
    &&& s.last_accessed_at == now
}

/// `s` is session `pre` touched at `now`.
pub open spec fn touched(s: SessionAssets, pre: SessionAssets, now: i64) -> bool {
    &&& s.assets == pre.assets
    &&& s.by_fingerprint == pre.by_fingerprint
    &&& s.next_reference == pre.next_reference
    &&& s.total_bytes == pre.total_bytes
    &&& s.last_accessed_at == now
}

/// Making room for session `key` in `pre` gives `post`: nothing changes
/// when it is already there; otherwise the least recently used sessions
/// are dropped until there is room under `max_sessions`, and `key` gets a
/// fresh session touched at `now`.
pub open spec fn session_ensured(pre: Map<Seq<char>, SessionAssets>, post: Map<Seq<char>, SessionAssets>, key: Seq<char>, now: i64, max_sessions: usize) -> bool {
    &&& pre.contains_key(key) ==> post == pre
    &&& !pre.contains_key(key) ==> ({
        &&& post.contains_key(key) && fresh_session(post[key], now)
        &&& forall|k: Seq<char>| k != key && #[trigger] post.contains_key(k) ==> pre.contains_key(k) && post[k] == pre[k]
        &&& forall|r: Seq<char>, k: Seq<char>|
            #![trigger pre.contains_key(r), post.contains_key(k)]
            pre.contains_key(r) && !post.contains_key(r) && post.contains_key(k) && k != key ==> pre[r].last_accessed_at
                <= post[k].last_accessed_at
        &&& post.dom().finite() && post.len() <= (if max_sessions == 0 { 1 } else { max_sessions as int })
    })
}

/// The handles asked for: trimmed, blanks dropped, duplicates collapsed
/// keeping the first.
pub open spec fn requested(refs: Seq<Seq<char>>) -> Seq<Seq<char>>
    decreases refs.len(),
{
    if refs.len() == 0 {
        Seq::empty()
    } else {
        let rest = requested(refs.drop_last());
        let t = trim_seq(refs.last());
        if t.len() == 0 || rest.contains(t) {
            rest
        } else {
            rest.push(t)
        }
    }
}

impl<C: Clock> InputAssetRegistry<C> {
    fn ensure_session(&mut self, key: &str, now: i64)
        requires
            old(self).wf(),
        ensures
            final(self).wf(),
            session_ensured(old(self).sessions_map(), final(self).sessions_map(), key@, now, old(self).max_sessions_spec()),
            final(self).max_assets_spec() == old(self).max_assets_spec(),
            final(self).max_bytes_spec() == old(self).max_bytes_spec(),
            final(self).max_sessions_spec() == old(self).max_sessions_spec(),
            final(self).ttl_spec() == old(self).ttl_spec(),
    {
        if self.sessions.index_of(key).is_some() {
            return;
        }
        let ghost pre = self.sessions@;
        proof {
            crate::strmap::lemma_entries_map_len(self.sessions.seq());
        }
        while self.sessions.len() >= self.max_sessions && self.sessions.len() > 0
            invariant
                self.wf(),
                !self.sessions@.contains_key(key@),
                self.max_assets_per_session == old(self).max_assets_per_session,
                self.max_bytes_per_session == old(self).max_bytes_per_session,
                self.max_sessions == old(self).max_sessions,
                self.session_ttl_ms == old(self).session_ttl_ms,
                pre == old(self).sessions@,
                forall|k: Seq<char>| #[trigger] self.sessions@.contains_key(k) ==> pre.contains_key(k) && self.sessions@[k] == pre[k],
                forall|r: Seq<char>, k: Seq<char>|
                    #![trigger pre.contains_key(r), self.sessions@.contains_key(k)]
                    pre.contains_key(r) && !self.sessions@.contains_key(r) && self.sessions@.contains_key(k) ==> pre[r].last_accessed_at
                        <= self.sessions@[k].last_accessed_at,
            decreases self.sessions.seq().len(),
        {
            let n = self.sessions.len();
            let mut best: usize = 0;
            let mut i: usize = 1;
            while i < n
                invariant
                    n == self.sessions.seq().len(),
                    best < n,
                    1 <= i <= n,
                    forall|j: int| 0 <= j < i ==> self.sessions.seq()[best as int].1.last_accessed_at <= (#[trigger] self.sessions.seq()[j]).1.last_accessed_at,
                decreases n - i,
            {
                let candidate = self.sessions.value_at(i).last_accessed_at;
                let current = self.sessions.value_at(best).last_accessed_at;
                if candidate < current || (candidate == current && str_before(self.sessions.key_at(i), self.sessions.key_at(best))) {
                    best = i;
                }
                i = i + 1;
            }
            let ghost cur = self.sessions.seq();
            let ghost cur_map = self.sessions@;
            let ghost m = cur[best as int];
            proof {
                assert forall|k: Seq<char>| #[trigger] cur_map.contains_key(k) implies m.1.last_accessed_at <= cur_map[k].last_accessed_at by {
                    let j = choose|j: int| 0 <= j < cur.len() && cur[j].0 == k;
                    crate::strmap::lemma_entries_map_index(cur, j);
                }
                crate::strmap::lemma_entries_map_index(cur, best as int);
            }
            self.sessions.remove_at(best);
            proof {
                assert forall|r: Seq<char>, k: Seq<char>|
                    #![trigger pre.contains_key(r), self.sessions@.contains_key(k)]
                    pre.contains_key(r) && !self.sessions@.contains_key(r) && self.sessions@.contains_key(k) implies pre[r].last_accessed_at
                        <= self.sessions@[k].last_accessed_at by {
                    if cur_map.contains_key(r) {
                        assert(r == m.0);
                        assert(cur_map.contains_key(k));
                    } else {
                        assert(cur_map.contains_key(k));
                    }
                }
            }
        }
        let ghost before = self.sessions@;
        proof {
            crate::strmap::lemma_entries_map_len(self.sessions.seq());
        }
        self.sessions.insert(key.to_owned(), SessionAssets::empty(now));
        proof {
            crate::strmap::lemma_entries_map_len(self.sessions.seq());
            assert forall|r: Seq<char>, k: Seq<char>|
                #![trigger pre.contains_key(r), self.sessions@.contains_key(k)]
                pre.contains_key(r) && !self.sessions@.contains_key(r) && self.sessions@.contains_key(k) && k != key@ implies pre[r].last_accessed_at
                    <= self.sessions@[k].last_accessed_at by {
                assert(before.contains_key(k));
                if before.contains_key(r) {
                    assert(self.sessions@.contains_key(r));
                }
            }
        }
    }
}

/// What registering `parts` for `(owner, session)` by turn `turn` at `now`
/// does, from `pre` to `post`, answering `out`: stale sessions are dropped,
/// room is made for this one, and the parts are registered in order in it.
pub open spec fn register_outcome<C: Clock>(
    pre: InputAssetRegistry<C>,
    post: InputAssetRegistry<C>,
    owner: Seq<char>,
    session: Seq<char>,
    turn: Seq<char>,
    parts: Seq<InputPartView>,
    now: i64,
    out: Seq<InputPartView>,
) -> bool {
    let key = session_key_spec(owner, session);
    let pruned = crate::strmap::entries_map(live_sessions(pre.sessions_spec(), now, pre.ttl_spec()));
    &&& post.wf()
    &&& post.max_assets_spec() == pre.max_assets_spec()
    &&& post.max_bytes_spec() == pre.max_bytes_spec()
    &&& post.max_sessions_spec() == pre.max_sessions_spec()
    &&& post.ttl_spec() == pre.ttl_spec()
    &&& exists|mid: Map<Seq<char>, SessionAssets>, start: SessionAssets|
        #![trigger session_ensured(pruned, mid, key, now, pre.max_sessions_spec()), working_session(pruned, key, now, start)]
        {
        &&& session_ensured(pruned, mid, key, now, pre.max_sessions_spec())
        &&& working_session(pruned, key, now, start)
        &&& post.sessions_map() == mid.insert(key, post.sessions_map()[key])
        &&& registered_in_order(start, parts, turn, now, pre.max_assets_spec(), pre.max_bytes_spec(), out, post.sessions_map()[key])
    }
}

/// What resolving `refs` for `(owner, session)` at `now` does, from `pre`
/// to `post`, answering `r`.
pub open spec fn resolve_outcome<C: Clock>(
    pre: InputAssetRegistry<C>,
    post: InputAssetRegistry<C>,
    owner: Seq<char>,
    session: Seq<char>,
    refs: Seq<Seq<char>>,
    now: i64,
    r: Result<Vec<InputPart>, AssetError>,
) -> bool {
    let key = session_key_spec(owner, session);
    let pruned = crate::strmap::entries_map(live_sessions(pre.sessions_spec(), now, pre.ttl_spec()));
    let u = requested(refs);
    &&& post.wf()
    &&& post.max_assets_spec() == pre.max_assets_spec()
    &&& post.max_bytes_spec() == pre.max_bytes_spec()
    &&& post.max_sessions_spec() == pre.max_sessions_spec()
    &&& post.ttl_spec() == pre.ttl_spec()
    &&& refs.len() == 0 ==> post.sessions_spec() == pre.sessions_spec() && (r matches Ok(v) && v@.len() == 0)
    &&& refs.len() > 0 ==> ({
        &&& !pruned.contains_key(key) ==> post.sessions_map() == pruned && r == Err::<Vec<InputPart>, AssetError>(
            AssetError { session_expired: true, reference: None },
        )
        &&& pruned.contains_key(key) ==> ({
            let s = pruned[key];
            let t = post.sessions_map()[key];
            &&& post.sessions_map() == pruned.insert(key, t)
            &&& t.last_accessed_at == now
            &&& forall|k: Seq<char>| #[trigger] t.assets@.contains_key(k) == s.assets@.contains_key(k)
            &&& forall|k: Seq<char>| #[trigger] t.assets@.contains_key(k) ==> t.assets@[k].part.view() == s.assets@[k].part.view()
            &&& (forall|i: int| 0 <= i < u.len() ==> s.assets@.contains_key(#[trigger] u[i])) ==> (r is Ok && r->Ok_0@.len() == u.len()
                && forall|i: int| 0 <= i < u.len() ==> (#[trigger] r->Ok_0@[i]).view() == s.assets@[u[i]].part.view())
            &&& forall|i: int| 0 <= i < u.len() && !s.assets@.contains_key(#[trigger] u[i]) && (forall|j: int| 0 <= j < i ==> s.assets@.contains_key(u[j]))
                ==> r == Err::<Vec<InputPart>, AssetError>(AssetError { session_expired: false, reference: Some(r->Err_0.reference->0) })
                && (r->Err_0.reference->0)@ == u[i]
        })
    })
}

/// Registering `parts` in order, from session `start` to `end`: each part
/// is one [`register_step`] from the state the previous one left.
pub open spec fn registered_in_order(
    start: SessionAssets,
    parts: Seq<InputPartView>,
    turn: Seq<char>,
    now: i64,
    max_assets: usize,
    max_bytes: usize,
    out: Seq<InputPartView>,
    end: SessionAssets,
) -> bool {
    exists|states: Seq<SessionAssets>| #![trigger states.len()] {
        &&& states.len() == parts.len() + 1
        &&& out.len() == parts.len()
        &&& states[0] == start
        &&& states.last() == end
        &&& forall|i: int| 0 <= i < parts.len() ==> register_step(
            #[trigger] states[i],
            parts[i],
            turn,
            now,
            max_assets,
            max_bytes,
            out[i],
            states[i + 1],
        )
    }
}

/// The session a call for `key` at `now` works on, in the pruned sessions:
/// the known one touched, or a fresh one.
pub open spec fn working_session(pruned: Map<Seq<char>, SessionAssets>, key: Seq<char>, now: i64, s: SessionAssets) -> bool {
    if pruned.contains_key(key) {
        touched(s, pruned[key], now)
    } else {
        fresh_session(s, now)
    }
}

impl<C: Clock> InputAssetRegistry<C> {
    /// Bind an `input_N` handle to every attachment in `parts`, at `now`.
    /// Stale sessions are dropped first, and room is made for this one. A
    /// fingerprint already registered reuses its handle, so the same
    /// screenshot pasted twice is one asset and one reference; text parts
    /// pass through untouched.
    pub fn register_parts_at(&mut self, owner_id: &str, session_id: &str, turn_id: &str, parts: &[InputPart], now: i64) -> (r: Vec<
        InputPart,
    >)
        requires
            old(self).wf(),
        ensures
            final(self).wf(),
            final(self).max_assets_spec() == old(self).max_assets_spec(),
            final(self).max_bytes_spec() == old(self).max_bytes_spec(),
            final(self).max_sessions_spec() == old(self).max_sessions_spec(),
            final(self).ttl_spec() == old(self).ttl_spec(),
            register_outcome(*old(self), *final(self), owner_id@, session_id@, turn_id@, part_views(parts@), now, part_views(r@)),
    {
        self.prune_at(now);
        let key = session_key(owner_id, session_id);
        let ghost pruned = self.sessions@;
        self.ensure_session(key.as_str(), now);
        let ghost mid = self.sessions@;
        let mut state = match self.sessions.remove(key.as_str()) {
            Some(state) => state,
            None => {
                return Vec::new();
            },
        };
        state.last_accessed_at = now;
        let ghost start = state;
        let ghost mut states: Seq<SessionAssets> = seq![state];
        let mut out: Vec<InputPart> = Vec::new();
        let mut i: usize = 0;
        while i < parts.len()
            invariant
                state.wf(),
                i <= parts@.len(),
                out@.len() == i,
                states.len() == i + 1,
                states[0] == start,
                states.last() == state,
                forall|j: int| 0 <= j < i ==> register_step(
                    #[trigger] states[j],
                    parts@[j].view(),
                    turn_id@,
                    now,
                    self.max_assets_per_session,
                    self.max_bytes_per_session,
                    out@[j].view(),
                    states[j + 1],
                ),
            decreases parts.len() - i,
        {
            let ghost before = state;
            let part = state.register_one(&parts[i], turn_id, now, self.max_assets_per_session, self.max_bytes_per_session);
            out.push(part);
            proof {
                states = states.push(state);
                assert(register_step(states[i as int], parts@[i as int].view(), turn_id@, now, self.max_assets_per_session, self.max_bytes_per_session, out@[i as int].view(), states[i + 1]));
            }
            i = i + 1;
        }
        let ghost end = state;
        self.sessions.insert(key, state);
        proof {
            assert(states.len() == parts@.len() + 1);
            assert(part_views(out@).len() == part_views(parts@).len());
            assert forall|j: int| 0 <= j < part_views(parts@).len() implies register_step(
                #[trigger] states[j],
                part_views(parts@)[j],
                turn_id@,
                now,
                self.max_assets_per_session,
                self.max_bytes_per_session,
                part_views(out@)[j],
                states[j + 1],
            ) by {
            }
            assert(self.sessions@ =~= mid.insert(key@, end));
            assert(working_session(pruned, key@, now, start));
            assert(session_ensured(pruned, mid, key@, now, self.max_sessions));
            assert(pruned == crate::strmap::entries_map(live_sessions(old(self).sessions_spec(), now, old(self).ttl_spec())));
            assert(registered_in_order(start, part_views(parts@), turn_id@, now, self.max_assets_per_session, self.max_bytes_per_session, part_views(out@), end));
        }
        out
    }
}

fn contains_str(v: &Vec<String>, x: &str) -> (r: bool)
    ensures
        r == string_views(v@).contains(x@),
{
    let mut i: usize = 0;
    while i < v.len()
        invariant
            i <= v@.len(),
            forall|j: int| 0 <= j < i ==> (#[trigger] v@[j])@ != x@,
        decreases v.len() - i,
    {
        if str_eq(v[i].as_str(), x) {
            assert(string_views(v@)[i as int] == x@);
            return true;
        }
        i = i + 1;
    }
    proof {
        if string_views(v@).contains(x@) {
            let j = choose|j: int| 0 <= j < string_views(v@).len() && string_views(v@)[j] == x@;
            assert(v@[j]@ == x@);
        }
    }
    false
}

fn requested_exec(references: &[String]) -> (r: Vec<String>)
    ensures
        string_views(r@) == requested(string_views(references@)),
{
    let ghost all = string_views(references@);
    let mut unique: Vec<String> = Vec::new();
    let mut i: usize = 0;
    while i < references.len()
        invariant
            i <= references@.len(),
            all == string_views(references@),
            string_views(unique@) == requested(all.take(i as int)),
        decreases references.len() - i,
    {
        proof {
            assert(all.take(i + 1).drop_last() =~= all.take(i as int));
            assert(all.take(i + 1).last() == references@[i as int]@);
        }
        let t = trim(references[i].as_str());
        if t.unicode_len() > 0 && !contains_str(&unique, t) {
            let ghost before = unique@;
            unique.push(t.to_owned());
            proof {
                assert(string_views(unique@) =~= string_views(before).push(t@));
            }
        }
        i = i + 1;
    }
    proof {
        assert(all.take(references@.len() as int) =~= all);
    }
    unique
}

impl<C: Clock> InputAssetRegistry<C> {
    /// Resolve `references` back to their attachments, at `now`. Empty
    /// input answers empty. An unknown session and an unknown handle are
    /// different errors: the first means start over, the second means the
    /// wrong one was named. Handles are trimmed, blanks dropped, and
    /// duplicates collapsed in first-seen order.
    pub fn resolve_at(&mut self, owner_id: &str, session_id: &str, references: &[String], now: i64) -> (r: Result<Vec<InputPart>, AssetError>)
        requires
            old(self).wf(),
        ensures
            final(self).wf(),
            final(self).max_assets_spec() == old(self).max_assets_spec(),
            final(self).max_bytes_spec() == old(self).max_bytes_spec(),
            final(self).max_sessions_spec() == old(self).max_sessions_spec(),
            final(self).ttl_spec() == old(self).ttl_spec(),
            resolve_outcome(*old(self), *final(self), owner_id@, session_id@, string_views(references@), now, r),
    {
        if references.len() == 0 {
            return Ok(Vec::new());
        }
        self.prune_at(now);
        let key = session_key(owner_id, session_id);
        let ghost pruned = self.sessions@;
        let mut state = match self.sessions.remove(key.as_str()) {
            Some(state) => state,
            None => {
                proof {
                    assert(self.sessions@ =~= pruned);
                }
                return Err(AssetError { session_expired: true, reference: None });
            },
        };
        let ghost s = state;
        state.last_accessed_at = now;
        let unique = requested_exec(references);
        let ghost u = string_views(unique@);
        let mut out: Vec<InputPart> = Vec::new();
        let mut i: usize = 0;
        while i < unique.len()
            invariant
                state.wf(),
                s.wf(),
                i <= unique@.len(),
                u == string_views(unique@),
                state.last_accessed_at == now,
                forall|k: Seq<char>| #[trigger] state.assets@.contains_key(k) == s.assets@.contains_key(k),
                forall|k: Seq<char>| #[trigger] state.assets@.contains_key(k) ==> state.assets@[k].part.view() == s.assets@[k].part.view(),
                forall|j: int| 0 <= j < i ==> s.assets@.contains_key(#[trigger] u[j]),
                out@.len() == i,
                forall|j: int| 0 <= j < i ==> (#[trigger] out@[j]).view() == s.assets@[u[j]].part.view(),
                !self.sessions@.contains_key(key@),
                self.sessions@ == pruned.remove(key@),
                references@.len() > 0,
                key@ == session_key_spec(owner_id@, session_id@),
                pruned == crate::strmap::entries_map(live_sessions(old(self).sessions_spec(), now, old(self).ttl_spec())),
                pruned.contains_key(key@),
                s == pruned[key@],
                u == requested(string_views(references@)),
                self.wf(),
                self.max_assets_per_session == old(self).max_assets_per_session,
                self.max_bytes_per_session == old(self).max_bytes_per_session,
                self.max_sessions == old(self).max_sessions,
                self.session_ttl_ms == old(self).session_ttl_ms,
            decreases unique.len() - i,
        {
            assert(u[i as int] == unique@[i as int]@);
            match state.assets.index_of(unique[i].as_str()) {
                None => {
                    let missing = unique[i].clone();
                    let ghost t = state;
                    self.sessions.insert(key, state);
                    proof {
                        assert(self.sessions@ =~= pruned.insert(key@, t));
                    }
                    return Err(AssetError { session_expired: false, reference: Some(missing) });
                },
                Some(j) => {
                    proof {
                        crate::strmap::lemma_entries_map_index(state.assets.seq(), j as int);
                    }
                    let known = state.assets.value_at(j);
                    let part = clone_part(&known.part);
                    let updated = Asset {
                        part: clone_part(&known.part),
                        fingerprint: known.fingerprint.clone(),
                        bytes: known.bytes,
                        last_seen_turn_id: clone_opt_string(&known.last_seen_turn_id),
                        last_accessed_at: now,
                    };
                    state.assets.set_value_at(j, updated);
                    out.push(part);
                },
            }
            i = i + 1;
        }
        let ghost t = state;
        self.sessions.insert(key, state);
        proof {
            assert(self.sessions@ =~= pruned.insert(key@, t));
        }
        Ok(out)
    }
}

/// The positions in `files` of the attachments that carry a handle.
pub open spec fn listed(files: Seq<InputPartView>) -> Seq<int>
    decreases files.len(),
{
    if files.len() == 0 {
        Seq::empty()
    } else {
        let rest = listed(files.drop_last());
        if files.last().reference().len() > 0 {
            rest.push(files.len() - 1)
        } else {
            rest
        }
    }
}

/// `m` describes attachment `f`, at position `index` among the attachments.
pub open spec fn describes(m: AssetMetadata, f: InputPartView, index: int) -> bool {
    &&& m.reference@ == f.reference()
    &&& m.kind@ == (if is_image(f) {
        "image"@
    } else {
        "file"@
    })
    &&& m.label@ == label_spec(f, index as nat)
    &&& (match m.filename {
        Some(n) => f.filename() == Some(n@),
        None => f.filename() is None,
    })
    &&& m.mime@ == f.mime()
}

/// The metadata for the attachments of `parts`. A part with no bound handle
/// contributes nothing: the model cannot reference what it has no handle
/// for, and listing it would invite a fabricated reference.
pub fn metadata_for_parts(parts: &[InputPart]) -> (r: Vec<AssetMetadata>)
    ensures
        ({
            let files = files_of(part_views(parts@));
            &&& r@.len() == listed(files).len()
            &&& forall|i: int| 0 <= i < r@.len() ==> describes(#[trigger] r@[i], files[listed(files)[i]], listed(files)[i])
        }),
{
    let files = input_file_parts(parts);
    let ghost fv = files_of(part_views(parts@));
    let mut out: Vec<AssetMetadata> = Vec::new();
    let mut i: usize = 0;
    while i < files.len()
        invariant
            i <= files@.len(),
            part_views(files@) == fv,
            out@.len() == listed(fv.take(i as int)).len(),
            forall|k: int| 0 <= k < out@.len() ==> describes(#[trigger] out@[k], fv[listed(fv.take(i as int))[k]], listed(fv.take(i as int))[k]),
            forall|k: int| 0 <= k < listed(fv.take(i as int)).len() ==> 0 <= #[trigger] listed(fv.take(i as int))[k] < i,
        decreases files.len() - i,
    {
        proof {
            assert(fv.take(i + 1).drop_last() =~= fv.take(i as int));
            assert(fv.take(i + 1).last() == fv[i as int]);
            assert(fv[i as int] == files@[i as int].view());
        }
        let part = &files[i];
        let reference = part.reference();
        if reference.unicode_len() > 0 {
            let kind: &'static str = if has_prefix(part.mime(), "image/") {
                "image"
            } else {
                "file"
            };
            let filename = match part.filename() {
                Some(f) => Some(f.to_owned()),
                None => None,
            };
            let m = AssetMetadata {
                reference: reference.to_owned(),
                kind,
                label: input_part_label(part, i),
                filename,
                mime: part.mime().to_owned(),
            };
            proof {
                reveal_strlit("image");
                reveal_strlit("file");
                reveal_strlit("image/");
            }
            out.push(m);
        }
        i = i + 1;
    }
    proof {
        assert(fv.take(files@.len() as int) =~= fv);
    }
    out
}

impl<C: Clock> InputAssetRegistry<C> {
    /// Drop the sessions not touched within the TTL.
    pub fn prune(&mut self)
        requires
            old(self).wf(),
        ensures
            final(self).wf(),
            exists|now: i64| final(self).sessions_spec() == live_sessions(old(self).sessions_spec(), now, old(self).ttl_spec()),
            final(self).max_assets_spec() == old(self).max_assets_spec(),
            final(self).max_bytes_spec() == old(self).max_bytes_spec(),
            final(self).max_sessions_spec() == old(self).max_sessions_spec(),
            final(self).ttl_spec() == old(self).ttl_spec(),
    {
        let now = self.clock.now_ms();
        self.prune_at(now);
    }

    /// [`InputAssetRegistry::register_parts_at`], at the clock's time.
    pub fn register_parts(&mut self, owner_id: &str, session_id: &str, turn_id: &str, parts: &[InputPart]) -> (r: Vec<InputPart>)
        requires
            old(self).wf(),
        ensures
            exists|now: i64| register_outcome(*old(self), *final(self), owner_id@, session_id@, turn_id@, part_views(parts@), now, part_views(r@)),
    {
        let now = self.clock.now_ms();
        self.register_parts_at(owner_id, session_id, turn_id, parts, now)
    }

    /// [`InputAssetRegistry::resolve_at`], at the clock's time.
    pub fn resolve(&mut self, owner_id: &str, session_id: &str, references: &[String]) -> (r: Result<Vec<InputPart>, AssetError>)
        requires
            old(self).wf(),
        ensures
            exists|now: i64| resolve_outcome(*old(self), *final(self), owner_id@, session_id@, string_views(references@), now, r),
    {
        let now = self.clock.now_ms();
        self.resolve_at(owner_id, session_id, references, now)
    }

    /// The metadata for the attachments in `parts`.
    pub fn metadata_for_parts(&self, parts: &[InputPart]) -> (r: Vec<AssetMetadata>)
        ensures
            ({
                let files = files_of(part_views(parts@));
                &&& r@.len() == listed(files).len()
                &&& forall|i: int| 0 <= i < r@.len() ==> describes(#[trigger] r@[i], files[listed(files)[i]], listed(files)[i])
            }),
    {
        metadata_for_parts(parts)
    }
}

/// A newly minted handle, while its asset is still held, resolves to the
/// part exactly as the registration answered it: what a later lookup reads
/// is what the registration wrote.
pub proof fn lemma_fresh_handle_resolves(
    pre: SessionAssets,
    part: InputPartView,
    turn: Seq<char>,
    now: i64,
    max_assets: usize,
    max_bytes: usize,
    out: InputPartView,
    post: SessionAssets,
)
    requires
        pre.wf(),
        register_step(pre, part, turn, now, max_assets, max_bytes, out, post),
        part.is_file(),
        !(pre.by_fingerprint@.contains_key(fingerprint_spec(part)) && pre.assets@.contains_key(
            pre.by_fingerprint@[fingerprint_spec(part)]@,
        )),
        !pre.assets@.contains_key(reference_text(next_number(pre.next_reference) as nat)),
        post.assets@.contains_key(out.reference()),
    ensures
        post.assets@[out.reference()].part.view() == out,
{
    let r = reference_text(next_number(pre.next_reference) as nat);
    lemma_reference_trimmed(next_number(pre.next_reference) as nat);
    assert(out.reference() == r);
    let a = choose|a: Asset| #[trigger] fresh_asset(a, part, r, turn, now) && evicted(
        pre.assets.seq().push((r, a)),
        post,
        max_assets,
        max_bytes,
    );
    let pushed = pre.assets.seq().push((r, a));
    let k = choose|k: int| #![trigger pushed.skip(k)] 0 <= k <= pushed.len() && post.assets.seq() == pushed.skip(k) && forall|i: int|
        0 <= i < k ==> !post.by_fingerprint@.contains_key((#[trigger] pushed[i]).1.fingerprint@);
    let ps = post.assets.seq();
    let j = choose|j: int| 0 <= j < ps.len() && ps[j].0 == r;
    if j + k < pushed.len() - 1 {
        assert(ps[j] == pushed[j + k]);
        assert(pushed[j + k] == pre.assets.seq()[j + k]);
        crate::strmap::lemma_entries_map_index(pre.assets.seq(), j + k);
        assert(false);
    }
    assert(ps[j] == pushed[pushed.len() - 1]);
    crate::strmap::lemma_entries_map_index(ps, j);
}

} // verus!
