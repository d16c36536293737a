//! SSE framing: a byte-to-event parser for the `text/event-stream` format.
//!
//! The parser is a state machine over single bytes. Lines are delimited by
//! CR, LF or CRLF (each counts once, also when the pair is split across
//! chunks); an empty line dispatches the pending event; within a line, the
//! bytes before the first `:` name the field and the bytes after it (less
//! one optional leading space) are the value. Recognized fields are
//! `event`, `data`, `id` and `retry`; a line without `:` is a field with
//! empty value, and a line starting with `:` is a comment. `data` values
//! accumulate with a newline between them, and one trailing newline is
//! stripped at dispatch. An event whose accumulated data is empty is not
//! dispatched. A completed line that is not valid UTF-8 fails the parser.

use vstd::prelude::*;

use vstd::utf8::{decode_utf8, encode_utf8, is_char_boundary, is_continuation_byte, valid_utf8};

use crate::error::{Error, ErrorV};

verus! {

broadcast use {
    vstd::utf8::is_char_boundary_iff_not_is_continuation_byte,
    vstd::utf8::valid_utf8_split,
    vstd::utf8::valid_utf8_concat,
    vstd::utf8::is_char_boundary_start_end_of_seq,
    vstd::utf8::encode_utf8_valid_utf8,
};

/// A Server-Sent Events (SSE) event.
#[derive(Debug, Clone, PartialEq)]
pub struct SseEvent {
    /// Event type; defaults to "message" when the stream named none.
    pub event_type: String,
    /// Event data.
    pub data: String,
    /// Event ID (empty when the stream named none).
    pub id: String,
    /// Retry delay in milliseconds (optional).
    pub retry: Option<u64>,
}

/// Abstract value of an `SseEvent`.
pub struct SseEventV {
    pub event_type: Seq<char>,
    pub data: Seq<char>,
    pub id: Seq<char>,
    pub retry: Option<u64>,
}

impl View for SseEvent {
    type V = SseEventV;

    open spec fn view(&self) -> SseEventV {
        SseEventV {
            event_type: self.event_type@,
            data: self.data@,
            id: self.id@,
            retry: self.retry,
        }
    }
}

impl DeepView for SseEvent {
    type V = SseEventV;

    open spec fn deep_view(&self) -> SseEventV {
        self@
    }
}

impl SseEvent {
    /// Create a new SSE event with just data.
    pub fn new(data: String) -> (r: SseEvent)
        ensures
            r@.data == data@,
            r@.event_type.len() == 0,
            r@.id.len() == 0,
            r@.retry is None,
    {
        SseEvent { event_type: String::new(), data, id: String::new(), retry: None }
    }

    /// Create a new SSE event with event type and data.
    pub fn with_type(event_type: String, data: String) -> (r: SseEvent)
        ensures
            r@.event_type == event_type@,
            r@.data == data@,
            r@.id.len() == 0,
            r@.retry is None,
    {
        SseEvent { event_type, data, id: String::new(), retry: None }
    }

    /// Whether every field is absent or empty.
    pub fn is_empty(&self) -> (r: bool)
        ensures
            r == (self@.data.len() == 0 && self@.event_type.len() == 0 && self@.id.len() == 0
                && self@.retry is None),
    {
        self.data.as_str().is_empty() && self.event_type.as_str().is_empty()
            && self.id.as_str().is_empty() && self.retry.is_none()
    }

    /// A field-by-field copy with the same abstract value.
    pub fn duplicate(&self) -> (r: SseEvent)
        ensures
            r@ == self@,
    {
        SseEvent {
            event_type: self.event_type.clone(),
            data: self.data.clone(),
            id: self.id.clone(),
            retry: self.retry,
        }
    }
}

impl Default for SseEvent {
    fn default() -> (r: SseEvent)
        ensures
            r@.data.len() == 0,
            r@.event_type.len() == 0,
            r@.id.len() == 0,
            r@.retry is None,
    {
        SseEvent {
            event_type: String::new(),
            data: String::new(),
            id: String::new(),
            retry: None,
        }
    }
}

// --- The abstract state machine ---

/// The fields of the event being assembled, as the raw bytes of the lines
/// that fed them.
pub struct PendingV {
    pub etype: Seq<u8>,
    pub data: Seq<u8>,
    pub id: Seq<u8>,
    pub retry: Option<u64>,
}

/// The pending event a fresh parser starts with.
pub open spec fn pending_init() -> PendingV {
    PendingV { etype: Seq::empty(), data: Seq::empty(), id: Seq::empty(), retry: None }
}

/// Whether no field of the pending event has been touched.
pub open spec fn pending_is_empty(p: PendingV) -> bool {
    p.etype.len() == 0 && p.data.len() == 0 && p.id.len() == 0 && p.retry is None
}

/// Abstract state of the framer: the bytes of the unfinished line, the
/// CR flag, the pending event, the events dispatched so far (a full
/// history; `delivered` counts how many the caller has taken), and the
/// sticky failure flag.
pub struct FramerV {
    pub line: Seq<u8>,
    pub last_cr: bool,
    pub pending: PendingV,
    pub events: Seq<SseEventV>,
    pub delivered: int,
    pub failed: bool,
}

/// The state a fresh framer starts in.
pub open spec fn framer_init() -> FramerV {
    FramerV {
        line: Seq::empty(),
        last_cr: false,
        pending: pending_init(),
        events: Seq::empty(),
        delivered: 0,
        failed: false,
    }
}

/// The index of the first occurrence of `b` in `s`, or `s.len()`.
pub open spec fn find_byte(s: Seq<u8>, b: u8) -> int
    decreases s.len(),
{
    if s.len() == 0 {
        0
    } else if s[0] == b {
        0
    } else {
        1 + find_byte(s.drop_first(), b)
    }
}

/// The retry value a `retry` field carries: the decoded value text,
/// trimmed of white space, read as one optional `+` and a nonempty run
/// of ASCII digits denoting a value that fits in a `u64`; anything
/// else carries nothing.
pub open spec fn parse_retry(v: Seq<u8>) -> Option<u64> {
    crate::strutil::retry_chars(crate::strutil::ws_trim(decode_utf8(v)))
}

/// The field-name bytes of a line: everything before the first `:`, or
/// the whole line when it has none.
pub open spec fn line_field(line: Seq<u8>) -> Seq<u8> {
    line.take(find_byte(line, 58))
}

/// The value bytes of a line: everything after the first `:`, less one
/// optional leading space; empty when the line has no `:`.
pub open spec fn line_value(line: Seq<u8>) -> Seq<u8> {
    let j = find_byte(line, 58);
    if j == line.len() {
        Seq::empty()
    } else {
        let v = line.skip(j + 1);
        if v.len() > 0 && v[0] == 32 {
            v.drop_first()
        } else {
            v
        }
    }
}

/// Field-name tests, written over the raw bytes ("event", "data", "id",
/// "retry").
pub open spec fn is_event_field(f: Seq<u8>) -> bool {
    f.len() == 5 && f[0] == 101 && f[1] == 118 && f[2] == 101 && f[3] == 110 && f[4] == 116
}

pub open spec fn is_data_field(f: Seq<u8>) -> bool {
    f.len() == 4 && f[0] == 100 && f[1] == 97 && f[2] == 116 && f[3] == 97
}

pub open spec fn is_id_field(f: Seq<u8>) -> bool {
    f.len() == 2 && f[0] == 105 && f[1] == 100
}

pub open spec fn is_retry_field(f: Seq<u8>) -> bool {
    f.len() == 5 && f[0] == 114 && f[1] == 101 && f[2] == 116 && f[3] == 114 && f[4] == 121
}

/// The accumulated data bytes with one trailing newline stripped.
pub open spec fn strip_nl(d: Seq<u8>) -> Seq<u8> {
    if d.len() > 0 && d.last() == 10 {
        d.drop_last()
    } else {
        d
    }
}

/// The events an empty line dispatches: none when the accumulated data is
/// empty, else one event decoded from the pending fields, with event type
/// "message" when none was named.
pub open spec fn dispatch_events(p: PendingV) -> Seq<SseEventV> {
    if p.data.len() == 0 {
        Seq::empty()
    } else {
        seq![
            SseEventV {
                event_type: if p.etype.len() == 0 {
                    "message"@
                } else {
                    decode_utf8(p.etype)
                },
                data: decode_utf8(strip_nl(p.data)),
                id: decode_utf8(p.id),
                retry: p.retry,
            },
        ]
    }
}

/// The pending event after an empty line: reset when an event was
/// dispatched, kept when not.
pub open spec fn dispatch_pending(p: PendingV) -> PendingV {
    if p.data.len() == 0 {
        p
    } else {
        pending_init()
    }
}

/// The state after one completed line. An invalid UTF-8 line fails the
/// parser; an empty line dispatches; otherwise the recognized field is
/// applied. The unfinished-line bytes and the CR flag are the byte
/// machine's concern and stay untouched here.
pub open spec fn process_line(st: FramerV, line: Seq<u8>) -> FramerV {
    if !valid_utf8(line) {
        FramerV { failed: true, ..st }
    } else if line.len() == 0 {
        FramerV {
            events: st.events + dispatch_events(st.pending),
            pending: dispatch_pending(st.pending),
            ..st
        }
    } else {
        let f = line_field(line);
        let v = line_value(line);
        if f.len() == 0 {
            st
        } else if is_event_field(f) {
            FramerV { pending: PendingV { etype: v, ..st.pending }, ..st }
        } else if is_data_field(f) {
            FramerV {
                pending: PendingV { data: st.pending.data + v + seq![10u8], ..st.pending },
                ..st
            }
        } else if is_id_field(f) {
            FramerV {
                pending: PendingV {
                    id: encode_utf8(crate::strutil::ws_trim(decode_utf8(v))),
                    ..st.pending
                },
                ..st
            }
        } else if is_retry_field(f) {
            match parse_retry(v) {
                Some(n) => FramerV { pending: PendingV { retry: Some(n), ..st.pending }, ..st },
                None => st,
            }
        } else {
            st
        }
    }
}

/// One byte of input. LF directly after CR is absorbed as the second
/// half of a CRLF terminator; CR and LF otherwise complete the line;
/// every other byte extends it.
pub open spec fn step(st: FramerV, b: u8) -> FramerV {
    if st.failed {
        st
    } else if b == 10 {
        if st.last_cr {
            FramerV { last_cr: false, ..st }
        } else {
            FramerV { line: Seq::empty(), last_cr: false, ..process_line(st, st.line) }
        }
    } else if b == 13 {
        FramerV { line: Seq::empty(), last_cr: true, ..process_line(st, st.line) }
    } else {
        FramerV { line: st.line.push(b), last_cr: false, ..st }
    }
}

/// The state after feeding a whole byte sequence, front to back.
pub open spec fn feed(st: FramerV, bytes: Seq<u8>) -> FramerV
    decreases bytes.len(),
{
    if bytes.len() == 0 {
        st
    } else {
        feed(step(st, bytes[0]), bytes.drop_first())
    }
}

/// Well-formedness carried by every reachable framer state: the stored
/// pending fields are valid UTF-8 (each was cut from a line that was),
/// and the caller has taken no more events than exist.
pub open spec fn framer_wf(st: FramerV) -> bool {
    &&& valid_utf8(st.pending.etype)
    &&& valid_utf8(st.pending.data)
    &&& valid_utf8(st.pending.id)
    &&& 0 <= st.delivered <= st.events.len()
}

// --- Validity lemmas ---

/// An ASCII head byte stands alone: the rest of a valid sequence is valid,
/// and validity of the whole follows from validity of the rest.
pub(crate) proof fn lemma_ascii_head(s: Seq<u8>)
    requires
        s.len() > 0,
        s[0] < 0x80,
    ensures
        valid_utf8(s) <==> valid_utf8(s.drop_first()),
{
    assert(vstd::utf8::is_leading_byte_width_1(s[0]));
    assert(vstd::utf8::valid_first_scalar(s)) by {
        let b0 = s[0];
        assert(vstd::utf8::decode_first_codepoint(s) == (b0 & 0x7F) as u32);
        assert(b0 & 0x7F == b0) by (bit_vector)
            requires
                b0 < 0x80,
        ;
    }
    assert(vstd::utf8::length_of_first_scalar(s) == 1);
    assert(vstd::utf8::pop_first_scalar(s) =~= s.drop_first());
}

/// A sequence of ASCII bytes is valid UTF-8.
pub(crate) proof fn lemma_ascii_valid(s: Seq<u8>)
    requires
        forall|i: int| 0 <= i < s.len() ==> #[trigger] s[i] < 0x80,
    ensures
        valid_utf8(s),
    decreases s.len(),
{
    if s.len() > 0 {
        lemma_ascii_valid(s.drop_first());
        lemma_ascii_head(s);
    }
}

/// In a valid sequence, a position directly after an ASCII byte is a
/// character boundary, and both cuts at an ASCII byte keep validity.
pub(crate) proof fn lemma_cut_after_ascii(s: Seq<u8>, i: int)
    requires
        valid_utf8(s),
        0 <= i < s.len(),
        s[i] < 0x80,
    ensures
        valid_utf8(s.take(i)),
        valid_utf8(s.skip(i + 1)),
    decreases s.len(),
{
    assert(!is_continuation_byte(s[i]));
    assert(is_char_boundary(s, i));
    assert(s.take(i) =~= s.subrange(0, i));
    assert(valid_utf8(s.subrange(0, i)));
    let rest = s.subrange(i, s.len() as int);
    assert(valid_utf8(rest));
    assert(rest.len() > 0 && rest[0] == s[i]);
    lemma_ascii_head(rest);
    assert(rest.drop_first() =~= s.skip(i + 1));
}

/// The value cut out of a valid line is valid.
proof fn lemma_line_value_valid(line: Seq<u8>)
    requires
        valid_utf8(line),
    ensures
        valid_utf8(line_value(line)),
        valid_utf8(line_field(line)),
{
    let j = find_byte(line, 58);
    lemma_find_byte_in_range(line, 58);
    if j == line.len() {
        assert(line_value(line) =~= Seq::<u8>::empty());
        assert(valid_utf8(Seq::<u8>::empty()));
        assert(line.take(j) =~= line);
    } else {
        lemma_find_byte_hits(line, 58);
        assert(line[j] == 58);
        lemma_cut_after_ascii(line, j);
        let v = line.skip(j + 1);
        if v.len() > 0 && v[0] == 32 {
            lemma_ascii_head(v);
            assert(line_value(line) == v.drop_first());
        }
    }
}

/// Stripping a trailing newline keeps validity.
pub(crate) proof fn lemma_strip_nl_valid(d: Seq<u8>)
    requires
        valid_utf8(d),
    ensures
        valid_utf8(strip_nl(d)),
{
    if d.len() > 0 && d.last() == 10 {
        lemma_cut_after_ascii(d, d.len() - 1);
        assert(d.take(d.len() - 1) =~= d.drop_last());
    }
}

/// `find_byte` stays within the sequence.
pub(crate) proof fn lemma_find_byte_in_range(s: Seq<u8>, b: u8)
    ensures
        0 <= find_byte(s, b) <= s.len(),
    decreases s.len(),
{
    if s.len() > 0 && s[0] != b {
        lemma_find_byte_in_range(s.drop_first(), b);
    }
}

/// When `find_byte` lands inside the sequence it lands on `b`, and
/// nothing before it is `b`.
pub(crate) proof fn lemma_find_byte_hits(s: Seq<u8>, b: u8)
    ensures
        find_byte(s, b) < s.len() ==> s[find_byte(s, b)] == b,
        forall|k: int| 0 <= k < find_byte(s, b) ==> #[trigger] s[k] != b,
    decreases s.len(),
{
    if s.len() > 0 && s[0] != b {
        lemma_find_byte_in_range(s.drop_first(), b);
        lemma_find_byte_hits(s.drop_first(), b);
        if find_byte(s, b) < s.len() {
            assert(s[find_byte(s, b)] == s.drop_first()[find_byte(s.drop_first(), b)]);
        }
        assert forall|k: int| 0 <= k < find_byte(s, b) implies #[trigger] s[k] != b by {
            if k > 0 {
                assert(s.drop_first()[k - 1] != b);
            }
        }
    }
}

/// A scan that saw no `b` before `n`, and `b` (or the end) at `n`,
/// settles `find_byte`.
pub(crate) proof fn lemma_find_byte_is(s: Seq<u8>, b: u8, n: int)
    requires
        0 <= n <= s.len(),
        forall|k: int| 0 <= k < n ==> #[trigger] s[k] != b,
        n < s.len() ==> s[n] == b,
    ensures
        find_byte(s, b) == n,
    decreases s.len(),
{
    if s.len() > 0 && s[0] != b {
        assert forall|k: int| 0 <= k < n - 1 implies #[trigger] s.drop_first()[k] != b by {
            assert(s[k + 1] != b);
        }
        lemma_find_byte_is(s.drop_first(), b, n - 1);
    }
}

/// Well-formedness survives one processed line.
proof fn lemma_process_line_wf(st: FramerV, line: Seq<u8>)
    requires
        framer_wf(st),
    ensures
        framer_wf(process_line(st, line)),
{
    if valid_utf8(line) && line.len() > 0 {
        let f = line_field(line);
        let v = line_value(line);
        lemma_line_value_valid(line);
        if is_data_field(f) {
            assert(valid_utf8(seq![10u8])) by {
                lemma_ascii_valid(seq![10u8]);
            }
            assert(valid_utf8(st.pending.data + v));
            assert(st.pending.data + v + seq![10u8] =~= (st.pending.data + v) + seq![10u8]);
        }
        if is_id_field(f) {
            assert(valid_utf8(encode_utf8(crate::strutil::ws_trim(decode_utf8(v)))));
        }
    }
}

/// Well-formedness survives one byte.
proof fn lemma_step_wf(st: FramerV, b: u8)
    requires
        framer_wf(st),
    ensures
        framer_wf(step(st, b)),
{
    if !st.failed && (b == 10 || b == 13) {
        lemma_process_line_wf(st, st.line);
    }
}

// --- Chunk-boundary independence ---

/// Feeding two byte sequences one after the other reaches the same state
/// as feeding their concatenation: the framer's behaviour does not depend
/// on where the input was cut.
pub proof fn lemma_feed_append(st: FramerV, a: Seq<u8>, b: Seq<u8>)
    ensures
        feed(feed(st, a), b) == feed(st, a + b),
    decreases a.len(),
{
    if a.len() == 0 {
        assert(a + b =~= b);
    } else {
        assert((a + b)[0] == a[0]);
        assert((a + b).drop_first() =~= a.drop_first() + b);
        lemma_feed_append(step(st, a[0]), a.drop_first(), b);
    }
}

/// The state after feeding a sequence and then one more byte.
pub proof fn lemma_feed_snoc(st: FramerV, a: Seq<u8>, b: u8)
    ensures
        feed(st, a.push(b)) == step(feed(st, a), b),
{
    lemma_feed_append(st, a, seq![b]);
    assert(a.push(b) =~= a + seq![b]);
    let s1 = seq![b];
    let mid = feed(st, a);
    assert(s1.len() == 1 && s1[0] == b);
    assert(s1.drop_first() =~= Seq::<u8>::empty());
    assert(feed(mid, s1) == feed(step(mid, b), s1.drop_first()));
    assert(feed(step(mid, b), Seq::<u8>::empty()) == step(mid, b));
}

/// The state after feeding a list of chunks, front to back.
pub open spec fn feed_all(st: FramerV, chunks: Seq<Seq<u8>>) -> FramerV
    decreases chunks.len(),
{
    if chunks.len() == 0 {
        st
    } else {
        feed_all(feed(st, chunks[0]), chunks.drop_first())
    }
}

/// Chopping a byte stream into chunks, at any boundaries whatever, does
/// not change what the framer computes: feeding the chunks one by one
/// ends in the state that feeding the concatenation reaches.
pub proof fn lemma_chunking_irrelevant(st: FramerV, chunks: Seq<Seq<u8>>)
    ensures
        feed_all(st, chunks) == feed(st, chunks.flatten()),
    decreases chunks.len(),
{
    if chunks.len() == 0 {
        assert(chunks.flatten() =~= Seq::<u8>::empty());
    } else {
        lemma_chunking_irrelevant(feed(st, chunks[0]), chunks.drop_first());
        lemma_feed_append(st, chunks[0], chunks.drop_first().flatten());
        assert(chunks.flatten() == chunks[0] + chunks.drop_first().flatten());
    }
}

// --- One well-formed data event ---

/// The bytes of `data: ` followed by a payload and a blank line.
pub open spec fn data_line(payload: Seq<u8>) -> Seq<u8> {
    seq![100u8, 97u8, 116u8, 97u8, 58u8, 32u8] + payload + seq![10u8, 10u8]
}

/// Feeding bytes that are no line terminators only extends the line.
proof fn lemma_feed_plain(st: FramerV, p: Seq<u8>)
    requires
        !st.failed,
        forall|i: int| 0 <= i < p.len() ==> #[trigger] p[i] != 10 && p[i] != 13,
    ensures
        feed(st, p) == (FramerV {
            line: st.line + p,
            last_cr: if p.len() > 0 {
                false
            } else {
                st.last_cr
            },
            ..st
        }),
    decreases p.len(),
{
    if p.len() == 0 {
        assert(st.line + p =~= st.line);
        assert(feed(st, p) == st);
    } else {
        let st1 = step(st, p[0]);
        assert(st1 == (FramerV { line: st.line.push(p[0]), last_cr: false, ..st }));
        lemma_feed_plain(st1, p.drop_first());
        assert(st.line.push(p[0]) + p.drop_first() =~= st.line + p);
    }
}

/// Feeding `data: {payload}` followed by a blank line to a fresh framer
/// dispatches exactly one event, whose data decodes the payload, whose
/// type is "message", and whose other fields are empty — for any payload
/// that is valid UTF-8 and free of line terminators. Together with
/// `lemma_chunking_irrelevant` this holds however the bytes are chopped.
pub proof fn lemma_single_data_event(payload: Seq<u8>)
    requires
        valid_utf8(payload),
        forall|i: int| 0 <= i < payload.len() ==> #[trigger] payload[i] != 10 && payload[i] != 13,
    ensures
        ({
            let end = feed(framer_init(), data_line(payload));
            &&& !end.failed
            &&& end.line.len() == 0
            &&& pending_is_empty(end.pending)
            &&& end.events =~= seq![
                SseEventV {
                    event_type: "message"@,
                    data: decode_utf8(payload),
                    id: Seq::empty(),
                    retry: None,
                },
            ]
        }),
{
    let prefix = seq![100u8, 97u8, 116u8, 97u8, 58u8, 32u8];
    let st0 = framer_init();
    // Feed the six prefix bytes and the payload: all plain bytes.
    assert(forall|i: int| 0 <= i < prefix.len() ==> #[trigger] prefix[i] != 10 && prefix[i] != 13);
    lemma_feed_plain(st0, prefix + payload);
    let st1 = feed(st0, prefix + payload);
    assert(st1.line =~= prefix + payload);
    assert(!st1.failed && !st1.last_cr);
    assert(st1.pending == pending_init());
    assert(st1.events =~= Seq::<SseEventV>::empty());
    // First LF: completes the data line.
    let line = prefix + payload;
    assert(valid_utf8(line)) by {
        lemma_ascii_valid(prefix);
        assert(valid_utf8(prefix + payload));
    }
    assert(find_byte(line, 58) == 4) by {
        assert(forall|k: int| 0 <= k < 4 ==> #[trigger] line[k] != 58);
        assert(line[4] == 58);
        lemma_find_byte_is(line, 58, 4);
    }
    let f = line_field(line);
    assert(f.len() == 4 && f[0] == 100 && f[1] == 97 && f[2] == 116 && f[3] == 97);
    assert(is_data_field(f));
    assert(!is_event_field(f));
    let v0 = line.skip(5);
    assert(v0.len() > 0 && v0[0] == 32);
    let v = line_value(line);
    assert(v =~= payload);
    let st2 = step(st1, 10);
    let p2 = st2.pending;
    assert(p2.data =~= payload + seq![10u8]);
    assert(p2.etype.len() == 0 && p2.id.len() == 0 && p2.retry is None);
    assert(st2.events =~= Seq::<SseEventV>::empty());
    assert(!st2.failed && !st2.last_cr && st2.line.len() == 0);
    // Second LF: the empty line dispatches.
    let st3 = step(st2, 10);
    assert(valid_utf8(Seq::<u8>::empty()));
    assert(p2.data.len() > 0);
    assert(strip_nl(p2.data) =~= payload);
    assert(st3.events =~= dispatch_events(p2));
    assert(dispatch_events(p2) =~= seq![
        SseEventV {
            event_type: "message"@,
            data: decode_utf8(payload),
            id: decode_utf8(Seq::empty()),
            retry: None,
        },
    ]);
    assert(decode_utf8(Seq::<u8>::empty()) =~= Seq::<char>::empty());
    assert(pending_is_empty(st3.pending));
    // Stitch: the whole input is the prefix+payload then the two LFs.
    lemma_feed_snoc(st0, prefix + payload, 10);
    lemma_feed_snoc(st0, (prefix + payload).push(10), 10);
    assert(data_line(payload) =~= (prefix + payload).push(10).push(10));
    assert(feed(st0, data_line(payload)) == st3);
}

// --- Trusted UTF-8 boundary ---

/// Relies on std's str::from_utf8: it accepts exactly the valid UTF-8
/// byte sequences.
#[verifier::external_body]
pub(crate) fn utf8_is_valid(v: &Vec<u8>) -> (r: bool)
    ensures
        r == valid_utf8(v@),
{
    core::str::from_utf8(v.as_slice()).is_ok()
}

/// Relies on std's String::from_utf8: it decodes valid UTF-8 bytes into
/// the character sequence they encode.
#[verifier::external_body]
pub(crate) fn utf8_to_string(v: &Vec<u8>) -> (r: String)
    requires
        valid_utf8(v@),
    ensures
        r@ == decode_utf8(v@),
{
    String::from_utf8(v.clone()).unwrap_or_default()
}

// --- Small byte-vector helpers ---

/// A copy of `v[from..to]`.
pub(crate) fn sub_vec(v: &Vec<u8>, from: usize, to: usize) -> (r: Vec<u8>)
    requires
        from <= to <= v@.len(),
    ensures
        r@ == v@.subrange(from as int, to as int),
{
    let mut r: Vec<u8> = Vec::new();
    let mut i = from;
    while i < to
        invariant
            from <= i <= to <= v@.len(),
            r@ =~= v@.subrange(from as int, i as int),
        decreases to - i,
    {
        r.push(v[i]);
        assert(r@ =~= v@.subrange(from as int, i + 1));
        i = i + 1;
    }
    r
}

/// Parse a retry value out of field bytes known to be valid UTF-8.
pub(crate) fn parse_retry_exec(v: &Vec<u8>) -> (r: Option<u64>)
    requires
        valid_utf8(v@),
    ensures
        r == parse_retry(v@),
{
    let s = utf8_to_string(v);
    crate::strutil::parse_retry_str(s.as_str())
}

/// The value bytes of a line whose first colon sits at `j`.
fn extract_value(line: &Vec<u8>, j: usize) -> (r: Vec<u8>)
    requires
        j as int == find_byte(line@, 58),
    ensures
        r@ == line_value(line@),
{
    proof {
        lemma_find_byte_in_range(line@, 58);
    }
    let n = line.len();
    if j == n {
        let r: Vec<u8> = Vec::new();
        assert(r@ =~= line_value(line@));
        r
    } else {
        let mut start = j + 1;
        if start < n && line[start] == 32 {
            start = start + 1;
        }
        let r = sub_vec(line, start, n);
        proof {
            let v = line@.skip(j + 1);
            if v.len() > 0 && v[0] == 32 {
                assert(line@[j + 1] == 32);
                assert(r@ =~= v.drop_first());
            } else {
                assert(r@ =~= v);
            }
        }
        r
    }
}

// --- The executable framer ---

/// A byte-to-event SSE parser. Bytes go in through `parse_buffer` in
/// chunks cut anywhere; completed events come out of `pop` in order.
/// `end_of_input` says whether the stream ended cleanly.
#[derive(Debug)]
pub struct SseStream {
    /// Bytes of the line in progress, after the most recent terminator.
    line: Vec<u8>,
    /// Whether the last byte seen was a CR, so that an LF directly after
    /// it is absorbed as part of the same CRLF terminator.
    last_cr: bool,
    /// Accumulated `event` field bytes of the pending event.
    etype: Vec<u8>,
    /// Accumulated `data` bytes of the pending event.
    data: Vec<u8>,
    /// Accumulated `id` bytes of the pending event.
    id: Vec<u8>,
    /// Accumulated retry value of the pending event.
    retry: Option<u64>,
    /// Every event dispatched so far.
    events: Vec<SseEvent>,
    /// How many of them the caller has taken.
    delivered: usize,
    /// Whether a completed line failed to decode.
    failed: bool,
}

impl View for SseStream {
    type V = FramerV;

    closed spec fn view(&self) -> FramerV {
        FramerV {
            line: self.line@,
            last_cr: self.last_cr,
            pending: PendingV {
                etype: self.etype@,
                data: self.data@,
                id: self.id@,
                retry: self.retry,
            },
            events: self.events.deep_view(),
            delivered: self.delivered as int,
            failed: self.failed,
        }
    }
}

impl SseStream {
    /// Create a new SSE parser.
    pub fn new() -> (r: SseStream)
        ensures
            r@ == framer_init(),
            framer_wf(r@),
    {
        let r = SseStream {
            line: Vec::new(),
            last_cr: false,
            etype: Vec::new(),
            data: Vec::new(),
            id: Vec::new(),
            retry: None,
            events: Vec::new(),
            delivered: 0,
            failed: false,
        };
        proof {
            assert(r@.line =~= framer_init().line);
            assert(r@.pending.etype =~= framer_init().pending.etype);
            assert(r@.pending.data =~= framer_init().pending.data);
            assert(r@.pending.id =~= framer_init().pending.id);
            assert(r@.events =~= framer_init().events);
        }
        r
    }

    /// Dispatch the pending event onto the output queue, if its data is
    /// nonempty, and reset the pending fields.
    fn dispatch_event(&mut self)
        requires
            framer_wf(old(self)@),
        ensures
            final(self)@ == (FramerV {
                events: old(self)@.events + dispatch_events(old(self)@.pending),
                pending: dispatch_pending(old(self)@.pending),
                ..old(self)@
            }),
            framer_wf(final(self)@),
    {
        let ghost p = self@.pending;
        if self.data.len() == 0 {
            proof {
                assert(old(self)@.events + dispatch_events(p) =~= old(self)@.events);
            }
            return ;
        }
        let n = self.data.len();
        let mut stripped = sub_vec(&self.data, 0, n);
        assert(stripped@ =~= p.data);
        if stripped[n - 1] == 10 {
            stripped.pop();
            assert(stripped@ =~= p.data.drop_last());
        }
        assert(stripped@ == strip_nl(p.data));
        proof {
            lemma_strip_nl_valid(p.data);
        }
        let data_str = utf8_to_string(&stripped);
        let type_str = if self.etype.len() == 0 {
            let s = String::from_str("message");
            proof {
                assert(decode_utf8(Seq::<u8>::empty()) =~= Seq::<char>::empty());
            }
            s
        } else {
            utf8_to_string(&self.etype)
        };
        let id_str = utf8_to_string(&self.id);
        let ev = SseEvent { event_type: type_str, data: data_str, id: id_str, retry: self.retry };
        let ghost evv = ev@;
        let ghost prevs = self.events.deep_view();
        self.events.push(ev);
        self.etype = Vec::new();
        self.data = Vec::new();
        self.id = Vec::new();
        self.retry = None;
        proof {
            assert(self.events.deep_view() =~= prevs.push(evv));
            assert(dispatch_events(p) =~= seq![evv]);
            assert(prevs.push(evv) =~= prevs + dispatch_events(p));
            assert(self@.pending.etype =~= pending_init().etype);
            assert(self@.pending.data =~= pending_init().data);
            assert(self@.pending.id =~= pending_init().id);
        }
    }

    /// Process the completed line held in `self.line` (without clearing
    /// it; the byte machine does that).
    fn process_line(&mut self)
        requires
            framer_wf(old(self)@),
            !old(self)@.failed,
        ensures
            final(self)@ == process_line(old(self)@, old(self)@.line),
            framer_wf(final(self)@),
    {
        proof {
            lemma_process_line_wf(old(self)@, old(self)@.line);
        }
        let ghost lineg = self@.line;
        if !utf8_is_valid(&self.line) {
            self.failed = true;
            return ;
        }
        let n = self.line.len();
        if n == 0 {
            self.dispatch_event();
            return ;
        }
        let mut j: usize = 0;
        while j < n && self.line[j] != 58
            invariant
                0 <= j <= n,
                n == self.line@.len(),
                self.line@ == lineg,
                forall|k: int| 0 <= k < j ==> #[trigger] lineg[k] != 58,
            decreases n - j,
        {
            j = j + 1;
        }
        proof {
            lemma_find_byte_is(lineg, 58, j as int);
        }
        let value = extract_value(&self.line, j);
        proof {
            lemma_line_value_valid(lineg);
        }
        let ghost f = line_field(lineg);
        assert(f.len() == j);
        assert(forall|k: int| 0 <= k < j ==> f[k] == lineg[k]);
        if j == 0 {
            return ;
        }
        let is_ev = j == 5 && self.line[0] == 101 && self.line[1] == 118 && self.line[2] == 101
            && self.line[3] == 110 && self.line[4] == 116;
        let is_da = j == 4 && self.line[0] == 100 && self.line[1] == 97 && self.line[2] == 116
            && self.line[3] == 97;
        let is_id = j == 2 && self.line[0] == 105 && self.line[1] == 100;
        let is_re = j == 5 && self.line[0] == 114 && self.line[1] == 101 && self.line[2] == 116
            && self.line[3] == 114 && self.line[4] == 121;
        assert(is_ev == is_event_field(f));
        assert(is_da == is_data_field(f));
        assert(is_id == is_id_field(f));
        assert(is_re == is_retry_field(f));
        if is_ev {
            self.etype = value;
        } else if is_da {
            let ghost before = self@.pending.data;
            let mut tail = value;
            self.data.append(&mut tail);
            self.data.push(10);
            proof {
                assert(self@.pending.data =~= before + line_value(lineg) + seq![10u8]);
            }
        } else if is_id {
            let decoded = utf8_to_string(&value);
            let trimmed = crate::strutil::ws_trim_exec(decoded.as_str());
            self.id = trimmed.as_str().as_bytes_vec();
        } else if is_re {
            match parse_retry_exec(&value) {
                Some(x) => {
                    self.retry = Some(x);
                },
                None => {},
            }
        }
    }

    /// Feed one byte into the state machine.
    fn step_byte(&mut self, b: u8)
        requires
            framer_wf(old(self)@),
        ensures
            final(self)@ == step(old(self)@, b),
            framer_wf(final(self)@),
    {
        proof {
            lemma_step_wf(old(self)@, b);
        }
        if self.failed {
            return ;
        }
        if b == 10 {
            if self.last_cr {
                self.last_cr = false;
            } else {
                self.process_line();
                self.line = Vec::new();
                self.last_cr = false;
                assert(self@.line =~= Seq::<u8>::empty());
            }
        } else if b == 13 {
            self.process_line();
            self.line = Vec::new();
            self.last_cr = true;
            assert(self@.line =~= Seq::<u8>::empty());
        } else {
            self.line.push(b);
            self.last_cr = false;
        }
    }

    /// Parse one chunk of bytes, cut anywhere — also in the middle of a
    /// CRLF pair or of a multi-byte character. Returns an error when a
    /// completed line was not valid UTF-8 (now or earlier: the failure
    /// is sticky); events parsed so far remain available through `pop`.
    pub fn parse_buffer(&mut self, buffer: &[u8]) -> (r: Result<(), Error>)
        requires
            framer_wf(old(self)@),
        ensures
            final(self)@ == feed(old(self)@, buffer@),
            framer_wf(final(self)@),
            r is Ok <==> !final(self)@.failed,
    {
        let ghost orig = self@;
        let n = buffer.len();
        let mut i: usize = 0;
        proof {
            assert(buffer@.take(0) =~= Seq::<u8>::empty());
        }
        while i < n
            invariant
                0 <= i <= n,
                n == buffer@.len(),
                self@ == feed(orig, buffer@.take(i as int)),
                framer_wf(self@),
            decreases n - i,
        {
            proof {
                lemma_feed_snoc(orig, buffer@.take(i as int), buffer@[i as int]);
                assert(buffer@.take(i + 1) =~= buffer@.take(i as int).push(buffer@[i as int]));
            }
            let b = buffer[i];
            self.step_byte(b);
            i = i + 1;
        }
        proof {
            assert(buffer@.take(n as int) =~= buffer@);
        }
        if self.failed {
            Err(Error::streaming("invalid UTF-8 in an SSE line"))
        } else {
            Ok(())
        }
    }

    /// Take the next parsed event, in arrival order.
    pub fn pop(&mut self) -> (r: Option<SseEvent>)
        ensures
            old(self)@.delivered < old(self)@.events.len() ==> (r matches Some(e) && e@ == old(
                self,
            )@.events[old(self)@.delivered] && final(self)@ == (FramerV {
                delivered: old(self)@.delivered + 1,
                ..old(self)@
            })),
            old(self)@.delivered >= old(self)@.events.len() ==> (r is None && final(self)@ == old(
                self,
            )@),
    {
        if self.delivered < self.events.len() {
            let e = self.events[self.delivered].duplicate();
            self.delivered = self.delivered + 1;
            Some(e)
        } else {
            None
        }
    }

    /// Check that the input ended cleanly: no unterminated line, and no
    /// event under assembly. A dangling partial line at end of input is
    /// an error — its bytes would otherwise be lost silently.
    pub fn end_of_input(&self) -> (r: Result<(), Error>)
        ensures
            r is Ok <==> (!self@.failed && self@.line.len() == 0 && pending_is_empty(
                self@.pending,
            )),
    {
        if self.failed {
            Err(Error::streaming("invalid UTF-8 in an SSE line"))
        } else if self.line.len() > 0 {
            Err(Error::streaming("incomplete line at end of stream"))
        } else if !(self.data.len() == 0 && self.etype.len() == 0 && self.id.len() == 0
            && self.retry.is_none()) {
            Err(Error::streaming("incomplete event at end of stream"))
        } else {
            Ok(())
        }
    }
}

} // verus!
