//! A simplified line-oriented reading of SSE text, kept beside the full
//! framer for whole-chunk inputs: each chunk is split into lines and only
//! `data:` / `event:` (and here `id:` / `retry:`) prefixes are read.

use vstd::prelude::*;

use vstd::utf8::{decode_utf8, encode_utf8, valid_utf8};

use crate::error::{Error, ErrorV};
use crate::sse::{find_byte, lemma_ascii_head, lemma_cut_after_ascii, lemma_find_byte_in_range,
    lemma_find_byte_is, sub_vec, utf8_is_valid, utf8_to_string};

verus! {

broadcast use {
    vstd::utf8::valid_utf8_split,
    vstd::utf8::valid_utf8_concat,
    vstd::utf8::is_char_boundary_iff_not_is_continuation_byte,
    vstd::utf8::encode_utf8_valid_utf8,
    vstd::utf8::encode_utf8_decode_utf8,
};

/// A Server-Sent Events (SSE) event, fields absent where the text named
/// none.
#[derive(Debug, Clone, PartialEq)]
pub struct SseEvent {
    /// Event type (optional).
    pub event_type: Option<String>,
    /// Event data.
    pub data: String,
    /// Event ID (optional).
    pub id: Option<String>,
    /// Retry delay in milliseconds (optional).
    pub retry: Option<u64>,
}

/// Abstract value of this module's `SseEvent`.
pub struct SseEventV {
    pub event_type: Option<Seq<char>>,
    pub data: Seq<char>,
    pub id: Option<Seq<char>>,
    pub retry: Option<u64>,
}

impl View for SseEvent {
    type V = SseEventV;

    open spec fn view(&self) -> SseEventV {
        SseEventV {
            event_type: match self.event_type {
                Some(ref s) => Some(s@),
                None => None,
            },
            data: self.data@,
            id: match self.id {
                Some(ref s) => Some(s@),
                None => None,
            },
            retry: self.retry,
        }
    }
}

impl DeepView for SseEvent {
    type V = SseEventV;

    open spec fn deep_view(&self) -> SseEventV {
        self@
    }
}

/// Whether `b` is an ASCII whitespace byte (space, tab, CR, LF).
pub open spec fn is_blank(b: u8) -> bool {
    b == 32 || b == 9 || b == 13 || b == 10
}

/// `s` with leading ASCII whitespace removed.
pub open spec fn blank_trim_front(s: Seq<u8>) -> Seq<u8>
    decreases s.len(),
{
    if s.len() > 0 && is_blank(s[0]) {
        blank_trim_front(s.drop_first())
    } else {
        s
    }
}

/// `s` with trailing ASCII whitespace removed.
pub open spec fn blank_trim_back(s: Seq<u8>) -> Seq<u8>
    decreases s.len(),
{
    if s.len() > 0 && is_blank(s.last()) {
        blank_trim_back(s.drop_last())
    } else {
        s
    }
}

/// `s` with ASCII whitespace removed at both ends.
pub open spec fn blank_trim(s: Seq<u8>) -> Seq<u8> {
    blank_trim_back(blank_trim_front(s))
}

/// Trimming ASCII whitespace off the front keeps validity.
proof fn lemma_blank_trim_front_valid(s: Seq<u8>)
    requires
        valid_utf8(s),
    ensures
        valid_utf8(blank_trim_front(s)),
    decreases s.len(),
{
    if s.len() > 0 && is_blank(s[0]) {
        lemma_ascii_head(s);
        lemma_blank_trim_front_valid(s.drop_first());
    }
}

/// Trimming ASCII whitespace off the back keeps validity.
proof fn lemma_blank_trim_back_valid(s: Seq<u8>)
    requires
        valid_utf8(s),
    ensures
        valid_utf8(blank_trim_back(s)),
    decreases s.len(),
{
    if s.len() > 0 && is_blank(s.last()) {
        lemma_cut_after_ascii(s, s.len() - 1);
        assert(s.take(s.len() - 1) =~= s.drop_last());
        lemma_blank_trim_back_valid(s.drop_last());
    }
}

/// `blank_trim_front` lands exactly where a forward scan stops.
proof fn lemma_blank_trim_front_skip(s: Seq<u8>, a: int)
    requires
        0 <= a <= s.len(),
        forall|k: int| 0 <= k < a ==> is_blank(#[trigger] s[k]),
        a < s.len() ==> !is_blank(s[a]),
    ensures
        blank_trim_front(s) == s.skip(a),
    decreases a,
{
    if a == 0 {
        assert(s.skip(0) =~= s);
    } else {
        assert(is_blank(s[0]));
        assert forall|k: int| 0 <= k < a - 1 implies is_blank(#[trigger] s.drop_first()[k]) by {
            assert(is_blank(s[k + 1]));
        }
        lemma_blank_trim_front_skip(s.drop_first(), a - 1);
        assert(s.drop_first().skip(a - 1) =~= s.skip(a));
    }
}

/// `blank_trim_back` lands exactly where a backward scan stops.
proof fn lemma_blank_trim_back_take(s: Seq<u8>, b: int)
    requires
        0 <= b <= s.len(),
        forall|k: int| b <= k < s.len() ==> is_blank(#[trigger] s[k]),
        b > 0 ==> !is_blank(s[b - 1]),
    ensures
        blank_trim_back(s) == s.take(b),
    decreases s.len() - b,
{
    if b == s.len() {
        if s.len() > 0 {
            assert(!is_blank(s.last()));
        }
        assert(s.take(b) =~= s);
    } else {
        assert(is_blank(s[s.len() - 1]));
        assert forall|k: int| b <= k < s.drop_last().len() implies is_blank(
            #[trigger] s.drop_last()[k],
        ) by {
            assert(is_blank(s[k]));
        }
        lemma_blank_trim_back_take(s.drop_last(), b);
        assert(s.drop_last().take(b) =~= s.take(b));
    }
}

/// A copy of `v` with ASCII whitespace removed at both ends.
pub(crate) fn blank_trim_exec(v: &Vec<u8>) -> (r: Vec<u8>)
    ensures
        r@ == blank_trim(v@),
{
    let n = v.len();
    let mut a: usize = 0;
    while a < n && (v[a] == 32 || v[a] == 9 || v[a] == 13 || v[a] == 10)
        invariant
            0 <= a <= n,
            n == v@.len(),
            forall|k: int| 0 <= k < a ==> is_blank(#[trigger] v@[k]),
        decreases n - a,
    {
        a = a + 1;
    }
    proof {
        lemma_blank_trim_front_skip(v@, a as int);
    }
    let mut b: usize = n;
    while b > a && (v[b - 1] == 32 || v[b - 1] == 9 || v[b - 1] == 13 || v[b - 1] == 10)
        invariant
            a <= b <= n,
            n == v@.len(),
            forall|k: int| b <= k < n ==> is_blank(#[trigger] v@[k]),
        decreases b,
    {
        b = b - 1;
    }
    proof {
        let s = v@.skip(a as int);
        assert forall|k: int| b - a <= k < s.len() implies is_blank(#[trigger] s[k]) by {
            assert(is_blank(v@[k + a]));
        }
        if b > a {
            assert(!is_blank(s[b - a - 1]));
        }
        lemma_blank_trim_back_take(s, b - a);
        assert(s.take(b - a) =~= v@.subrange(a as int, b as int));
    }
    sub_vec(v, a, b)
}

impl SseEvent {
    /// Create a new SSE event with just data.
    pub fn new(data: String) -> (r: SseEvent)
        ensures
            r@.data == data@,
            r@.event_type is None,
            r@.id is None,
            r@.retry is None,
    {
        SseEvent { event_type: None, data, id: None, retry: None }
    }

    /// Create a new SSE event with event type and data.
    pub fn with_type(event_type: String, data: String) -> (r: SseEvent)
        ensures
            r@.event_type matches Some(t) && t == event_type@,
            r@.data == data@,
            r@.id is None,
            r@.retry is None,
    {
        SseEvent { event_type: Some(event_type), data, id: None, retry: None }
    }

    /// Whether this is a `[DONE]` event (used to signal end of stream),
    /// judged on the data with surrounding white space ignored.
    pub fn is_done(&self) -> (r: bool)
        ensures
            r == (crate::strutil::ws_trim(self@.data) == crate::strutil::done_chars()),
    {
        crate::strutil::data_is_done(self.data.as_str())
    }
}

/// The event one trimmed line yields, if any: a `data: ` line yields a
/// data event, an `event: ` line an event-type event, and everything
/// else (blank lines, comments, other fields) nothing.
pub open spec fn line_event(t: Seq<u8>) -> Option<SseEventV> {
    if t.len() == 0 || t[0] == 58 {
        None
    } else if t.len() >= 6 && t[0] == 100 && t[1] == 97 && t[2] == 116 && t[3] == 97 && t[4] == 58
        && t[5] == 32 {
        Some(
            SseEventV {
                event_type: None,
                data: decode_utf8(t.skip(6)),
                id: None,
                retry: None,
            },
        )
    } else if t.len() >= 7 && t[0] == 101 && t[1] == 118 && t[2] == 101 && t[3] == 110 && t[4]
        == 116 && t[5] == 58 && t[6] == 32 {
        Some(
            SseEventV {
                event_type: Some(decode_utf8(t.skip(7))),
                data: Seq::empty(),
                id: None,
                retry: None,
            },
        )
    } else {
        None
    }
}


/// `l` with one trailing CR removed.
pub open spec fn drop_cr(l: Seq<u8>) -> Seq<u8> {
    if l.len() > 0 && l.last() == 13 {
        l.drop_last()
    } else {
        l
    }
}

/// The lines of a byte text, split at LF, each with one trailing CR
/// removed.
pub open spec fn split_lines(s: Seq<u8>) -> Seq<Seq<u8>>
    decreases s.len(),
{
    if s.len() == 0 {
        Seq::empty()
    } else {
        let j = find_byte(s, 10);
        if 0 <= j < s.len() {
            seq![drop_cr(s.take(j))] + split_lines(s.skip(j + 1))
        } else {
            seq![drop_cr(s)]
        }
    }
}

/// The events of a list of lines, in order: each line is trimmed and
/// read by `line_event`.
pub open spec fn lines_events(lines: Seq<Seq<u8>>) -> Seq<SseEventV>
    decreases lines.len(),
{
    if lines.len() == 0 {
        Seq::empty()
    } else {
        (match line_event(blank_trim(lines[0])) {
            Some(e) => seq![e],
            None => Seq::empty(),
        }) + lines_events(lines.drop_first())
    }
}

/// Split a byte vector into its lines.
fn split_lines_exec(v: &Vec<u8>) -> (r: Vec<Vec<u8>>)
    ensures
        r@.len() == split_lines(v@).len(),
        forall|i: int| 0 <= i < r@.len() ==> (#[trigger] r@[i])@ == split_lines(v@)[i],
        valid_utf8(v@) ==> forall|i: int|
            0 <= i < r@.len() ==> valid_utf8((#[trigger] r@[i])@),
    decreases v@.len(),
{
    let mut r: Vec<Vec<u8>> = Vec::new();
    let ghost mut lv: Seq<Seq<u8>> = Seq::empty();
    let n = v.len();
    let mut pos: usize = 0;
    proof {
        assert(v@.skip(0) =~= v@);
        assert(lv + split_lines(v@.skip(0)) =~= split_lines(v@));
    }
    while pos < n
        invariant
            0 <= pos <= n,
            n == v@.len(),
            r@.len() == lv.len(),
            forall|i: int| 0 <= i < r@.len() ==> (#[trigger] r@[i])@ == lv[i],
            lv + split_lines(v@.skip(pos as int)) =~= split_lines(v@),
            valid_utf8(v@) ==> forall|i: int| 0 <= i < lv.len() ==> valid_utf8(#[trigger] lv[i]),
            valid_utf8(v@) ==> valid_utf8(v@.skip(pos as int)),
        decreases n - pos,
    {
        let ghost rest = v@.skip(pos as int);
        let mut j = pos;
        while j < n && v[j] != 10
            invariant
                pos <= j <= n,
                n == v@.len(),
                forall|k: int| pos <= k < j ==> #[trigger] v@[k] != 10,
            decreases n - j,
        {
            j = j + 1;
        }
        proof {
            assert forall|k: int| 0 <= k < j - pos implies #[trigger] rest[k] != 10 by {
                assert(v@[pos + k] != 10);
            }
            lemma_find_byte_is(rest, 10, j - pos);
        }
        let mut line = sub_vec(v, pos, j);
        let ghost rawline = line@;
        proof {
            assert(rawline =~= rest.take(j - pos));
            if valid_utf8(v@) {
                if j < n {
                    lemma_cut_after_ascii(rest, j - pos);
                    assert(valid_utf8(rest.take(j - pos)));
                } else {
                    assert(rest.take(j - pos) =~= rest);
                }
            }
        }
        if line.len() > 0 && line[line.len() - 1] == 13 {
            proof {
                if valid_utf8(v@) {
                    lemma_cut_after_ascii(rawline, rawline.len() - 1);
                }
                assert(rawline.take(rawline.len() - 1) =~= rawline.drop_last());
            }
            line.pop();
        }
        proof {
            assert(line@ == drop_cr(rawline));
        }
        let ghost linev = line@;
        r.push(line);
        proof {
            lv = lv.push(linev);
            let tail_rest = split_lines(v@.skip(pos as int));
            if j < n {
                assert(rest[j - pos] == 10);
                assert(find_byte(rest, 10) == j - pos);
                assert(tail_rest == seq![drop_cr(rest.take(j - pos))] + split_lines(
                    rest.skip(j - pos + 1),
                ));
                assert(rest.skip(j - pos + 1) =~= v@.skip(j + 1));
                assert(lv + split_lines(v@.skip(j + 1)) =~= split_lines(v@));
                if valid_utf8(v@) {
                    lemma_cut_after_ascii(rest, j - pos);
                    assert(valid_utf8(v@.skip(j + 1)));
                }
            } else {
                assert(find_byte(rest, 10) == rest.len());
                lemma_find_byte_in_range(rest, 10);
                assert(tail_rest == seq![drop_cr(rest)]);
                assert(rest.take(j - pos) =~= rest);
                assert(v@.skip(n as int).len() == 0);
                assert(split_lines(v@.skip(n as int)) =~= Seq::<Seq<u8>>::empty());
                assert(lv + split_lines(v@.skip(n as int)) =~= split_lines(v@));
            }
        }
        if j < n {
            pos = j + 1;
        } else {
            pos = n;
        }
    }
    proof {
        assert(split_lines(v@.skip(n as int)) =~= Seq::<Seq<u8>>::empty());
        assert(lv =~= split_lines(v@));
    }
    r
}

/// Read one trimmed line as an event, if it carries one.
fn line_event_exec(t: &Vec<u8>) -> (r: Option<SseEvent>)
    requires
        valid_utf8(t@),
    ensures
        (match line_event(t@) {
            Some(e) => r matches Some(x) && x@ == e,
            None => r is None,
        }),
{
    let n = t.len();
    if n == 0 || t[0] == 58 {
        return None;
    }
    let is_da = n >= 6 && t[0] == 100 && t[1] == 97 && t[2] == 116 && t[3] == 97 && t[4] == 58
        && t[5] == 32;
    if is_da {
        proof {
            lemma_cut_after_ascii(t@, 5);
        }
        let rest = sub_vec(t, 6, n);
        assert(rest@ =~= t@.skip(6));
        let s = utf8_to_string(&rest);
        return Some(SseEvent::new(s));
    }
    let is_ev = n >= 7 && t[0] == 101 && t[1] == 118 && t[2] == 101 && t[3] == 110 && t[4] == 116
        && t[5] == 58 && t[6] == 32;
    if is_ev {
        proof {
            lemma_cut_after_ascii(t@, 6);
        }
        let rest = sub_vec(t, 7, n);
        assert(rest@ =~= t@.skip(7));
        let s = utf8_to_string(&rest);
        return Some(SseEvent::with_type(s, String::new()));
    }
    None
}

/// Convert one chunk of bytes to SSE events, line by line: `data: `
/// lines become data events and `event: ` lines become typed events;
/// blank lines, comments and other fields yield nothing. Fails exactly
/// when the chunk is not valid UTF-8.
pub fn parse_sse_chunk(chunk: &[u8]) -> (r: Result<Vec<SseEvent>, Error>)
    ensures
        (match r {
            Ok(events) => valid_utf8(chunk@) && events.deep_view() == lines_events(
                split_lines(chunk@),
            ),
            Err(e) => !valid_utf8(chunk@) && e@ is Streaming,
        }),
{
    let mut bytes: Vec<u8> = Vec::new();
    let n = chunk.len();
    for i in 0..n
        invariant
            n == chunk@.len(),
            bytes@ =~= chunk@.take(i as int),
    {
        bytes.push(chunk[i]);
        assert(bytes@ =~= chunk@.take(i + 1));
    }
    proof {
        assert(chunk@.take(n as int) =~= chunk@);
    }
    if !utf8_is_valid(&bytes) {
        return Err(Error::streaming("invalid UTF-8 in SSE text"));
    }
    let lines = split_lines_exec(&bytes);
    let ghost linesg = split_lines(bytes@);
    let mut events: Vec<SseEvent> = Vec::new();
    let m = lines.len();
    let mut i: usize = 0;
    proof {
        assert(linesg.skip(0) =~= linesg);
        assert(events.deep_view() + lines_events(linesg) =~= lines_events(linesg));
    }
    while i < m
        invariant
            0 <= i <= m,
            m == lines@.len(),
            m == linesg.len(),
            forall|k: int| 0 <= k < m ==> (#[trigger] lines@[k])@ == linesg[k],
            forall|k: int| 0 <= k < m ==> valid_utf8((#[trigger] lines@[k])@),
            bytes@ == chunk@,
            linesg == split_lines(chunk@),
            events.deep_view() + lines_events(linesg.skip(i as int)) =~= lines_events(linesg),
        decreases m - i,
    {
        let ghost restl = linesg.skip(i as int);
        proof {
            assert(restl[0] == linesg[i as int]);
            assert(restl.drop_first() =~= linesg.skip(i + 1));
        }
        let t = blank_trim_exec(&lines[i]);
        proof {
            lemma_blank_trim_front_valid(linesg[i as int]);
            lemma_blank_trim_back_valid(blank_trim_front(linesg[i as int]));
        }
        match line_event_exec(&t) {
            Some(e) => {
                let ghost prev = events.deep_view();
                let ghost ev = e@;
                events.push(e);
                proof {
                    assert(events.deep_view() =~= prev.push(ev));
                    assert(prev.push(ev) + lines_events(linesg.skip(i + 1)) =~= prev + (seq![ev]
                        + lines_events(linesg.skip(i + 1))));
                }
            },
            None => {},
        }
        i = i + 1;
    }
    proof {
        assert(linesg.skip(m as int) =~= Seq::<Seq<u8>>::empty());
        assert(events.deep_view() =~= lines_events(linesg));
    }
    Ok(events)
}

/// Read a single SSE line: a `data: ` line yields a data event, an
/// `event: ` line a typed one, anything else nothing. The line is not
/// trimmed here.
pub fn parse_sse_line(line: &str) -> (r: Option<SseEvent>)
    ensures
        (match line_event(encode_utf8(line@)) {
            Some(e) => r matches Some(x) && x@ == e,
            None => r is None,
        }),
{
    let bytes = line.as_bytes_vec();
    line_event_exec(&bytes)
}

/// The fields a full multi-line event carries: the last `event: `,
/// `data: ` (all of them, in order), `id: ` and `retry: ` values among
/// the trimmed lines, prefixes read with their one following space.
pub open spec fn full_event_fields(lines: Seq<Seq<u8>>) -> (Option<Seq<u8>>, Seq<Seq<u8>>, Option<
    Seq<u8>,
>, Option<u64>)
    decreases lines.len(),
{
    if lines.len() == 0 {
        (None, Seq::empty(), None, None)
    } else {
        let (et, ds, id, re) = full_event_fields(lines.drop_last());
        let t = blank_trim(lines.last());
        if t.len() >= 7 && t[0] == 101 && t[1] == 118 && t[2] == 101 && t[3] == 110 && t[4] == 116
            && t[5] == 58 && t[6] == 32 {
            (Some(t.skip(7)), ds, id, re)
        } else if t.len() >= 6 && t[0] == 100 && t[1] == 97 && t[2] == 116 && t[3] == 97 && t[4]
            == 58 && t[5] == 32 {
            (et, ds.push(t.skip(6)), id, re)
        } else if t.len() >= 4 && t[0] == 105 && t[1] == 100 && t[2] == 58 && t[3] == 32 {
            (et, ds, Some(t.skip(4)), re)
        } else if t.len() >= 7 && t[0] == 114 && t[1] == 101 && t[2] == 116 && t[3] == 114 && t[4]
            == 121 && t[5] == 58 && t[6] == 32 {
            (et, ds, id, crate::sse::parse_retry(t.skip(7)))
        } else {
            (et, ds, id, re)
        }
    }
}

/// The data lines joined with a newline between them.
pub open spec fn join_nl(ds: Seq<Seq<u8>>) -> Seq<u8>
    decreases ds.len(),
{
    if ds.len() == 0 {
        Seq::empty()
    } else if ds.len() == 1 {
        ds[0]
    } else {
        join_nl(ds.drop_last()) + seq![10u8] + ds.last()
    }
}

/// Parse a full SSE event from multiple lines, reading `event: `,
/// `data: `, `id: ` and `retry: ` prefixes; data lines join with
/// newlines. Yields nothing when no line carried data.
pub fn parse_sse_event(lines: &Vec<String>) -> (r: Option<SseEvent>)
    ensures
        ({
            let flds = full_event_fields(
                lines.deep_view().map_values(|s: Seq<char>| encode_utf8(s)),
            );
            match r {
                Some(e) => flds.1.len() > 0 && e@.data == decode_utf8(join_nl(flds.1)) && (match (
                    flds.0,
                    e@.event_type,
                ) {
                    (Some(tb), Some(tc)) => tc == decode_utf8(tb),
                    (None, None) => true,
                    _ => false,
                }) && (match (flds.2, e@.id) {
                    (Some(ib), Some(ic)) => ic == decode_utf8(ib),
                    (None, None) => true,
                    _ => false,
                }) && e@.retry == flds.3,
                None => flds.1.len() == 0,
            }
        }),
{
    let ghost linesb = lines.deep_view().map_values(|s: Seq<char>| encode_utf8(s));
    let mut event_type: Option<Vec<u8>> = None;
    let mut data_lines: Vec<Vec<u8>> = Vec::new();
    let ghost mut ds: Seq<Seq<u8>> = Seq::empty();
    let mut id: Option<Vec<u8>> = None;
    let mut retry: Option<u64> = None;
    let n = lines.len();
    let mut i: usize = 0;
    proof {
        assert(linesb.take(0) =~= Seq::<Seq<u8>>::empty());
    }
    while i < n
        invariant
            0 <= i <= n,
            n == lines@.len(),
            linesb == lines.deep_view().map_values(|s: Seq<char>| encode_utf8(s)),
            linesb.len() == n,
            ds.len() == data_lines@.len(),
            forall|k: int| 0 <= k < ds.len() ==> (#[trigger] data_lines@[k])@ == ds[k],
            forall|k: int| 0 <= k < ds.len() ==> valid_utf8(#[trigger] ds[k]),
            ({
                let flds = full_event_fields(linesb.take(i as int));
                &&& (match (flds.0, event_type) {
                    (Some(tb), Some(ref tv)) => tv@ == tb && valid_utf8(tv@),
                    (None, None) => true,
                    _ => false,
                })
                &&& ds == flds.1
                &&& (match (flds.2, id) {
                    (Some(ib), Some(ref iv)) => iv@ == ib && valid_utf8(iv@),
                    (None, None) => true,
                    _ => false,
                })
                &&& retry == flds.3
            }),
        decreases n - i,
    {
        let bytes = lines[i].as_str().as_bytes_vec();
        let t = blank_trim_exec(&bytes);
        proof {
            assert(linesb[i as int] == encode_utf8(lines@[i as int].deep_view()));
            assert(lines@[i as int].deep_view() == lines@[i as int]@);
            assert(linesb.take(i + 1).drop_last() =~= linesb.take(i as int));
            assert(linesb.take(i + 1).last() == linesb[i as int]);
            lemma_blank_trim_front_valid(linesb[i as int]);
            lemma_blank_trim_back_valid(blank_trim_front(linesb[i as int]));
        }
        let m = t.len();
        let is_ev = m >= 7 && t[0] == 101 && t[1] == 118 && t[2] == 101 && t[3] == 110 && t[4]
            == 116 && t[5] == 58 && t[6] == 32;
        let is_da = m >= 6 && t[0] == 100 && t[1] == 97 && t[2] == 116 && t[3] == 97 && t[4] == 58
            && t[5] == 32;
        let is_id = m >= 4 && t[0] == 105 && t[1] == 100 && t[2] == 58 && t[3] == 32;
        let is_re = m >= 7 && t[0] == 114 && t[1] == 101 && t[2] == 116 && t[3] == 114 && t[4]
            == 121 && t[5] == 58 && t[6] == 32;
        if is_ev {
            proof {
                lemma_cut_after_ascii(t@, 6);
            }
            let v = sub_vec(&t, 7, m);
            assert(v@ =~= t@.skip(7));
            event_type = Some(v);
        } else if is_da {
            proof {
                lemma_cut_after_ascii(t@, 5);
            }
            let v = sub_vec(&t, 6, m);
            assert(v@ =~= t@.skip(6));
            let ghost vv = v@;
            data_lines.push(v);
            proof {
                ds = ds.push(vv);
            }
        } else if is_id {
            proof {
                lemma_cut_after_ascii(t@, 3);
            }
            let v = sub_vec(&t, 4, m);
            assert(v@ =~= t@.skip(4));
            id = Some(v);
        } else if is_re {
            proof {
                lemma_cut_after_ascii(t@, 6);
            }
            let v = sub_vec(&t, 7, m);
            assert(v@ =~= t@.skip(7));
            retry = crate::sse::parse_retry_exec(&v);
        }
        i = i + 1;
    }
    proof {
        assert(linesb.take(n as int) =~= linesb);
    }
    if data_lines.len() == 0 {
        return None;
    }
    // Join the data lines with newlines.
    let first_len = data_lines[0].len();
    let mut joined: Vec<u8> = sub_vec(&data_lines[0], 0, first_len);
    proof {
        assert(joined@ =~= ds[0]);
        assert(ds.take(1).len() == 1);
        assert(ds.take(1)[0] == ds[0]);
        assert(join_nl(ds.take(1)) == ds[0]);
    }
    let dn = data_lines.len();
    let mut i2: usize = 1;
    while i2 < dn
        invariant
            1 <= i2 <= dn,
            dn == data_lines@.len(),
            dn == ds.len(),
            forall|k: int| 0 <= k < ds.len() ==> (#[trigger] data_lines@[k])@ == ds[k],
            forall|k: int| 0 <= k < ds.len() ==> valid_utf8(#[trigger] ds[k]),
            joined@ == join_nl(ds.take(i2 as int)),
            valid_utf8(joined@),
        decreases dn - i2,
    {
        joined.push(10);
        let next_len = data_lines[i2].len();
        let mut k: usize = 0;
        let ghost basej = joined@;
        while k < next_len
            invariant
                0 <= k <= next_len,
                i2 < dn == data_lines@.len(),
                next_len == data_lines@[i2 as int]@.len(),
                joined@ =~= basej + data_lines@[i2 as int]@.take(k as int),
            decreases next_len - k,
        {
            let b = data_lines[i2][k];
            joined.push(b);
            assert(joined@ =~= basej + data_lines@[i2 as int]@.take(k + 1));
            k = k + 1;
        }
        proof {
            assert(data_lines@[i2 as int]@.take(next_len as int) =~= ds[i2 as int]);
            assert(ds.take(i2 + 1).drop_last() =~= ds.take(i2 as int));
            assert(ds.take(i2 + 1).last() == ds[i2 as int]);
            assert(joined@ =~= join_nl(ds.take(i2 as int)) + seq![10u8] + ds[i2 as int]);
            assert(valid_utf8(seq![10u8])) by {
                crate::sse::lemma_ascii_valid(seq![10u8]);
            }
            assert(valid_utf8(join_nl(ds.take(i2 as int)) + seq![10u8]));
            assert(joined@ == (join_nl(ds.take(i2 as int)) + seq![10u8]) + ds[i2 as int]);
        }
        i2 = i2 + 1;
    }
    proof {
        assert(ds.take(dn as int) =~= ds);
    }
    let data_str = utf8_to_string(&joined);
    let et = match event_type {
        Some(v) => Some(utf8_to_string(&v)),
        None => None,
    };
    let id_str = match id {
        Some(v) => Some(utf8_to_string(&v)),
        None => None,
    };
    Some(SseEvent { event_type: et, data: data_str, id: id_str, retry })
}

} // verus!
