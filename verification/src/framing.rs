//! LSP-style `Content-Length` framing of JSON messages.
//!
//! A frame on the wire is
//! `Content-Length: <N>\r\nContent-Type: application/json\r\n\r\n` followed by `N` body bytes.
//! Reading goes line by line through [`FrameHeader::feed_line`], so that a caller holding an
//! asynchronous reader can drive it, and [`decode_frame`] runs the same steps over a buffer.

use vstd::prelude::*;
use vstd::string::*;
use crate::errors::{StdioError, StdioErrorView};
use crate::text::{spec_decimal, spec_parse_usize, parse_usize, write_decimal, lemma_parse_decimal, lemma_decimal_value, all_digits, is_digit};

verus! {

/// Largest body, in bytes, that a frame may announce (64 MiB).
pub const MAX_FRAME_SIZE: usize = 67108864;

/// `Content-Length: `
pub open spec fn content_length_prefix() -> Seq<u8> {
    seq![67u8, 111, 110, 116, 101, 110, 116, 45, 76, 101, 110, 103, 116, 104, 58, 32]
}

/// `\r\nContent-Type: application/json\r\n\r\n`
pub open spec fn header_tail() -> Seq<u8> {
    seq![13u8, 10, 67, 111, 110, 116, 101, 110, 116, 45, 84, 121, 112, 101, 58, 32, 97, 112, 112,
        108, 105, 99, 97, 116, 105, 111, 110, 47, 106, 115, 111, 110, 13, 10, 13, 10]
}

/// The bytes that writing a frame with this body puts on the wire.
pub open spec fn spec_encode_frame(body: Seq<u8>) -> Seq<u8> {
    content_length_prefix() + spec_decimal(body.len()) + header_tail() + body
}

/// Bytes as characters, one for one (for ASCII text).
pub open spec fn ascii_chars(b: Seq<u8>) -> Seq<char> {
    b.map_values(|x: u8| x as char)
}

/// The line with every trailing `\r` and `\n` removed (`trim_end_matches(['\r', '\n'])`).
pub open spec fn trim_line_end(s: Seq<u8>) -> Seq<u8>
    decreases s.len(),
{
    if s.len() > 0 && (s.last() == 13u8 || s.last() == 10u8) {
        trim_line_end(s.drop_last())
    } else {
        s
    }
}

pub open spec fn has_prefix(s: Seq<u8>, p: Seq<u8>) -> bool {
    s.len() >= p.len() && s.subrange(0, p.len() as int) == p
}

/// Message of the error for a header without `Content-Length`.
pub open spec fn missing_length_text() -> Seq<char> {
    "missing Content-Length header"@
}

/// Message of the error for a `Content-Length` above [`MAX_FRAME_SIZE`].
pub open spec fn oversized_text(n: usize) -> Seq<char> {
    "Content-Length "@ + ascii_chars(spec_decimal(n as nat)) + " exceeds maximum frame size "@
        + ascii_chars(spec_decimal(MAX_FRAME_SIZE as nat))
}

/// What `String::from_utf8_lossy` makes of these bytes.
pub uninterp spec fn spec_utf8_lossy(b: Seq<u8>) -> Seq<char>;

/// Message of the error for a `Content-Length` value that is not a number.
pub open spec fn invalid_length_text(value: Seq<u8>) -> Seq<char> {
    "invalid Content-Length value: "@ + spec_utf8_lossy(value)
}

/// What one header line does to the reader.
pub enum HeaderStep {
    /// The line was read; read the next one.
    Continue,
    /// The stream ended before a frame began (`read_line` read nothing).
    EndOfStream,
    /// The headers are complete; read this many body bytes.
    Body(usize),
    /// The header is malformed.
    Failed(StdioError),
}

pub enum HeaderStepView {
    Continue,
    EndOfStream,
    Body(usize),
    Failed(StdioErrorView),
}

impl View for HeaderStep {
    type V = HeaderStepView;

    open spec fn view(&self) -> HeaderStepView {
        match self {
            HeaderStep::Continue => HeaderStepView::Continue,
            HeaderStep::EndOfStream => HeaderStepView::EndOfStream,
            HeaderStep::Body(n) => HeaderStepView::Body(*n),
            HeaderStep::Failed(e) => HeaderStepView::Failed(e@),
        }
    }
}

/// The effect of one header line (as `read_line` returns it, `\n` included) on the
/// `Content-Length` seen so far: the new value and the step.
pub open spec fn spec_feed_line(length: Option<usize>, line: Seq<u8>) -> (Option<usize>, HeaderStepView) {
    if line.len() == 0 {
        (length, HeaderStepView::EndOfStream)
    } else {
        let t = trim_line_end(line);
        if t.len() == 0 {
            match length {
                None => (length, HeaderStepView::Failed(StdioErrorView::InvalidHeader(missing_length_text()))),
                Some(n) => if n > MAX_FRAME_SIZE {
                    (length, HeaderStepView::Failed(StdioErrorView::InvalidHeader(oversized_text(n))))
                } else {
                    (length, HeaderStepView::Body(n))
                },
            }
        } else if has_prefix(t, content_length_prefix()) {
            let value = t.subrange(16, t.len() as int);
            match spec_parse_usize(value) {
                Some(n) => (Some(n), HeaderStepView::Continue),
                None => (length, HeaderStepView::Failed(StdioErrorView::InvalidHeader(invalid_length_text(value)))),
            }
        } else {
            (length, HeaderStepView::Continue)
        }
    }
}

/// The state of a frame reader between header lines.
pub struct FrameHeader {
    pub content_length: Option<usize>,
}

/// `String::from_utf8_lossy`: the text of the bytes, where each invalid sequence
/// becomes U+FFFD; on valid UTF-8 it is the decoded text.
#[verifier::external_body]
fn utf8_lossy(b: &[u8]) -> (res: String)
    ensures
        res@ == spec_utf8_lossy(b@),
        vstd::utf8::valid_utf8(b@) ==> res@ == vstd::utf8::decode_utf8(b@),
{
    String::from_utf8_lossy(b).into_owned()
}

fn content_length_prefix_bytes() -> (res: Vec<u8>)
    ensures
        res@ == content_length_prefix(),
{
    let res = vec![67u8, 111, 110, 116, 101, 110, 116, 45, 76, 101, 110, 103, 116, 104, 58, 32];
    assert(res@ =~= content_length_prefix());
    res
}

fn header_tail_bytes() -> (res: Vec<u8>)
    ensures
        res@ == header_tail(),
{
    let res = vec![13u8, 10, 67, 111, 110, 116, 101, 110, 116, 45, 84, 121, 112, 101, 58, 32, 97,
        112, 112, 108, 105, 99, 97, 116, 105, 111, 110, 47, 106, 115, 111, 110, 13, 10, 13, 10];
    assert(res@ =~= header_tail());
    res
}

/// Appends `b` to `out` byte for byte.
fn append_bytes(out: &mut Vec<u8>, b: &[u8])
    ensures
        final(out)@ == old(out)@ + b@,
{
    let mut i: usize = 0;
    while i < b.len()
        invariant
            i <= b@.len(),
            out@ == old(out)@ + b@.subrange(0, i as int),
        decreases b.len() - i,
    {
        out.push(b[i]);
        i += 1;
    }
    assert(b@.subrange(0, b@.len() as int) =~= b@);
}

/// ASCII bytes as a string.
fn ascii_string(b: &[u8]) -> (res: String)
    ensures
        res@ == ascii_chars(b@),
{
    let mut s = String::new();
    let mut i: usize = 0;
    while i < b.len()
        invariant
            i <= b@.len(),
            s@ =~= ascii_chars(b@.subrange(0, i as int)),
        decreases b.len() - i,
    {
        crate::text::push_char(&mut s, b[i] as char);
        assert(ascii_chars(b@.subrange(0, i + 1)) =~= ascii_chars(b@.subrange(0, i as int)).push(
            b[i as int] as char,
        ));
        i += 1;
    }
    assert(b@.subrange(0, b@.len() as int) =~= b@);
    s
}

/// The decimal rendering of `n` as a string.
pub fn decimal_string(n: usize) -> (res: String)
    ensures
        res@ == ascii_chars(spec_decimal(n as nat)),
{
    let mut digits: Vec<u8> = Vec::new();
    write_decimal(n, &mut digits);
    assert(digits@ =~= spec_decimal(n as nat));
    ascii_string(digits.as_slice())
}

/// Length of `trim_line_end` of `line[0..len]`.
fn trimmed_len(line: &[u8]) -> (res: usize)
    ensures
        res <= line@.len(),
        trim_line_end(line@) == line@.subrange(0, res as int),
{
    let mut n = line.len();
    assert(line@.subrange(0, n as int) =~= line@);
    while n > 0 && (line[n - 1] == 13u8 || line[n - 1] == 10u8)
        invariant
            n <= line@.len(),
            trim_line_end(line@) == trim_line_end(line@.subrange(0, n as int)),
        decreases n,
    {
        assert(line@.subrange(0, n as int).drop_last() =~= line@.subrange(0, n - 1));
        n -= 1;
    }
    n
}

/// Whether `line[0..t]` begins with `p`.
fn starts_with_bytes(line: &[u8], t: usize, p: &Vec<u8>) -> (res: bool)
    requires
        t <= line@.len(),
    ensures
        res == has_prefix(line@.subrange(0, t as int), p@),
{
    if t < p.len() {
        return false;
    }
    let mut i: usize = 0;
    while i < p.len()
        invariant
            p@.len() <= t <= line@.len(),
            i <= p@.len(),
            forall|j: int| 0 <= j < i ==> line@[j] == p@[j],
        decreases p.len() - i,
    {
        if line[i] != p[i] {
            assert(line@.subrange(0, t as int).subrange(0, p@.len() as int)[i as int] != p@[i as int]);
            return false;
        }
        i += 1;
    }
    assert(line@.subrange(0, t as int).subrange(0, p@.len() as int) =~= p@);
    true
}

/// A copy of `b[start..end]`.
pub fn slice_range(b: &[u8], start: usize, end: usize) -> (res: Vec<u8>)
    requires
        start <= end <= b@.len(),
    ensures
        res@ == b@.subrange(start as int, end as int),
{
    let mut v: Vec<u8> = Vec::new();
    let mut i = start;
    while i < end
        invariant
            start <= i <= end <= b@.len(),
            v@ == b@.subrange(start as int, i as int),
        decreases end - i,
    {
        v.push(b[i]);
        i += 1;
    }
    v
}

impl FrameHeader {
    /// A reader that has seen no header line yet.
    pub fn new() -> (res: FrameHeader)
        ensures
            res.content_length == None::<usize>,
    {
        FrameHeader { content_length: None }
    }

    /// Takes one header line as `read_line` returned it (the empty slice when it read
    /// nothing) and says what comes next.
    pub fn feed_line(&mut self, line: &[u8]) -> (res: HeaderStep)
        ensures
            (final(self).content_length, res@) == spec_feed_line(old(self).content_length, line@),
    {
        if line.len() == 0 {
            return HeaderStep::EndOfStream;
        }
        let t = trimmed_len(line);
        if t == 0 {
            match self.content_length {
                None => {
                    return HeaderStep::Failed(
                        StdioError::InvalidHeader(String::from_str("missing Content-Length header")),
                    );
                },
                Some(n) => {
                    if n > MAX_FRAME_SIZE {
                        let msg = String::from_str("Content-Length ").concat(
                            decimal_string(n).as_str(),
                        ).concat(" exceeds maximum frame size ").concat(
                            decimal_string(MAX_FRAME_SIZE).as_str(),
                        );
                        return HeaderStep::Failed(StdioError::InvalidHeader(msg));
                    }
                    return HeaderStep::Body(n);
                },
            }
        }
        let prefix = content_length_prefix_bytes();
        let ghost tl = line@.subrange(0, t as int);
        if t >= 16 && starts_with_bytes(line, t, &prefix) {
            let value = slice_range(line, 16, t);
            assert(value@ =~= tl.subrange(16, tl.len() as int));
            match parse_usize(value.as_slice()) {
                Some(n) => {
                    self.content_length = Some(n);
                    HeaderStep::Continue
                },
                None => {
                    let msg = String::from_str("invalid Content-Length value: ").concat(
                        utf8_lossy(value.as_slice()).as_str(),
                    );
                    HeaderStep::Failed(StdioError::InvalidHeader(msg))
                },
            }
        } else {
            HeaderStep::Continue
        }
    }
}


/// Writes the header of a frame with this body and then the body: the bytes that
/// `write_frame` sends.
pub fn encode_frame(body: &[u8]) -> (res: Vec<u8>)
    ensures
        res@ == spec_encode_frame(body@),
{
    let mut out = content_length_prefix_bytes();
    write_decimal(body.len(), &mut out);
    let tail = header_tail_bytes();
    append_bytes(&mut out, tail.as_slice());
    append_bytes(&mut out, body);
    out
}

/// Index just past the end of the line that starts at `pos` (past its `\n`, or the end
/// of the input when there is none).
pub open spec fn line_end(input: Seq<u8>, pos: int) -> int
    decreases input.len() - pos,
{
    if pos >= input.len() {
        input.len() as int
    } else if input[pos] == 10u8 {
        pos + 1
    } else {
        line_end(input, pos + 1)
    }
}

/// What reading one frame from a stream that holds `input` gives.
pub enum DecodeView {
    Frame(Seq<u8>),
    EndOfStream,
    Failed(StdioErrorView),
}

/// Message of the I/O error for a header line that is not UTF-8.
pub open spec fn invalid_utf8_text() -> Seq<char> {
    "stream did not contain valid UTF-8"@
}

/// Message of the I/O error for a body cut short by the end of the stream.
pub open spec fn short_body_text() -> Seq<char> {
    "failed to fill whole buffer"@
}

/// Reading a frame from `input` at `pos`, with `length` the `Content-Length` seen so far:
/// the outcome and the index where reading stopped.
pub open spec fn spec_decode_from(input: Seq<u8>, pos: int, length: Option<usize>) -> (DecodeView, int)
    decreases input.len() - pos,
{
    if pos < 0 || pos > input.len() {
        (DecodeView::EndOfStream, pos)
    } else {
        let e = line_end(input, pos);
        let line = input.subrange(pos, e);
        if !vstd::utf8::valid_utf8(line) {
            (DecodeView::Failed(StdioErrorView::Io(invalid_utf8_text())), e)
        } else {
            let (next, step) = spec_feed_line(length, line);
            match step {
                HeaderStepView::Continue => if pos < e <= input.len() {
                    spec_decode_from(input, e, next)
                } else {
                    (DecodeView::EndOfStream, pos)
                },
                HeaderStepView::EndOfStream => (DecodeView::EndOfStream, pos),
                HeaderStepView::Failed(err) => (DecodeView::Failed(err), e),
                HeaderStepView::Body(n) => if input.len() - e >= n {
                    (DecodeView::Frame(input.subrange(e, e + n)), e + n)
                } else {
                    (DecodeView::Failed(StdioErrorView::Io(short_body_text())), input.len() as int)
                },
            }
        }
    }
}

/// Reading a frame from the start of `input`.
pub open spec fn spec_decode_frame(input: Seq<u8>) -> (DecodeView, int) {
    spec_decode_from(input, 0, None)
}

/// The view of what [`decode_frame`] returns.
pub open spec fn decode_result_view(r: (Result<Option<Vec<u8>>, StdioError>, usize)) -> (DecodeView, int) {
    (
        match r.0 {
            Ok(Some(b)) => DecodeView::Frame(b@),
            Ok(None) => DecodeView::EndOfStream,
            Err(e) => DecodeView::Failed(e@),
        },
        r.1 as int,
    )
}

/// Whether the bytes are valid UTF-8 (`std::str::from_utf8(..).is_ok()`).
#[verifier::external_body]
fn is_valid_utf8(b: &[u8]) -> (res: bool)
    ensures
        res == vstd::utf8::valid_utf8(b@),
{
    std::str::from_utf8(b).is_ok()
}

fn find_line_end(input: &[u8], pos: usize) -> (res: usize)
    requires
        pos <= input@.len(),
    ensures
        res as int == line_end(input@, pos as int),
        pos <= res <= input@.len(),
        pos < input@.len() ==> pos < res,
{
    let mut i = pos;
    while i < input.len() && input[i] != 10u8
        invariant
            pos <= i <= input@.len(),
            line_end(input@, pos as int) == line_end(input@, i as int),
        decreases input.len() - i,
    {
        i += 1;
    }
    if i < input.len() {
        i + 1
    } else {
        i
    }
}

/// Reads one frame from the start of `input`, as `read_frame` reads it from a stream that
/// holds these bytes: the body (or `None` at the end of the stream, or the error) and how
/// many bytes were consumed.
pub fn decode_frame(input: &[u8]) -> (res: (Result<Option<Vec<u8>>, StdioError>, usize))
    ensures
        decode_result_view(res) == spec_decode_frame(input@),
{
    let mut header = FrameHeader::new();
    let mut pos: usize = 0;
    loop
        invariant
            pos <= input@.len(),
            spec_decode_frame(input@) == spec_decode_from(input@, pos as int, header.content_length),
        decreases input@.len() - pos,
    {
        let e = find_line_end(input, pos);
        let line = slice_range(input, pos, e);
        if !is_valid_utf8(line.as_slice()) {
            return (Err(StdioError::Io(String::from_str("stream did not contain valid UTF-8"))), e);
        }
        let ghost before = header.content_length;
        let step = header.feed_line(line.as_slice());
        match step {
            HeaderStep::Continue => {
                assert(line@.len() > 0);
                pos = e;
            },
            HeaderStep::EndOfStream => {
                return (Ok(None), pos);
            },
            HeaderStep::Failed(err) => {
                return (Err(err), e);
            },
            HeaderStep::Body(n) => {
                if input.len() - e >= n {
                    let body = slice_range(input, e, e + n);
                    return (Ok(Some(body)), e + n);
                } else {
                    return (Err(StdioError::Io(String::from_str("failed to fill whole buffer"))), input.len());
                }
            },
        }
    }
}

proof fn lemma_ascii_valid_utf8(s: Seq<u8>)
    requires
        forall|i: int| 0 <= i < s.len() ==> #[trigger] s[i] < 128u8,
    ensures
        vstd::utf8::valid_utf8(s),
    decreases s.len(),
{
    if s.len() > 0 {
        let rest = vstd::utf8::pop_first_scalar(s);
        assert(s[0] < 128u8);
        assert(vstd::utf8::length_of_first_scalar(s) == 1);
        assert(rest =~= s.subrange(1, s.len() as int));
        assert forall|i: int| 0 <= i < rest.len() implies #[trigger] rest[i] < 128u8 by {
            assert(s[i + 1] < 128u8);
        }
        lemma_ascii_valid_utf8(rest);
    }
}

proof fn lemma_line_end(input: Seq<u8>, pos: int, k: int)
    requires
        0 <= pos <= k < input.len(),
        input[k] == 10u8,
        forall|j: int| pos <= j < k ==> #[trigger] input[j] != 10u8,
    ensures
        line_end(input, pos) == k + 1,
    decreases k - pos,
{
    if pos < k {
        lemma_line_end(input, pos + 1, k);
    }
}

proof fn lemma_trim_crlf(s: Seq<u8>)
    requires
        s.len() > 0,
        s.last() != 13u8,
        s.last() != 10u8,
    ensures
        trim_line_end(s + seq![13u8, 10u8]) == s,
{
    let a = s + seq![13u8, 10u8];
    assert(a.drop_last() =~= s.push(13u8));
    assert(s.push(13u8).drop_last() =~= s);
    assert(trim_line_end(s.push(13u8)) == trim_line_end(s));
    assert(trim_line_end(s) == s);
}

/// Reading a frame back from what writing it produced gives the same body, and stops
/// exactly at the end of the frame, whatever follows it.
pub proof fn lemma_decode_encode(body: Seq<u8>, rest: Seq<u8>)
    requires
        body.len() <= MAX_FRAME_SIZE,
    ensures
        spec_decode_frame(spec_encode_frame(body) + rest) == (
            DecodeView::Frame(body),
            spec_encode_frame(body).len() as int,
        ),
{
    let n = body.len() as usize;
    let p = content_length_prefix();
    let d = spec_decimal(n as nat);
    let t = header_tail();
    let input = spec_encode_frame(body) + rest;
    lemma_decimal_value(n as nat);
    lemma_parse_decimal(n);
    let dl = d.len() as int;
    assert(input =~= p + d + t + body + rest);
    // positions of the three header lines and of the body
    let e1 = 16 + dl + 2;
    let e2 = e1 + 32;
    let e3 = e2 + 2;
    assert forall|j: int| 0 <= j < 16 + dl implies #[trigger] input[j] != 10u8 && input[j] < 128u8 by {
        if j < 16 {
            assert(input[j] == p[j]);
        } else {
            assert(input[j] == d[j - 16]);
            assert(is_digit(d[j - 16]));
        }
    }
    assert(input[16 + dl] == 13u8);
    assert(input[16 + dl + 1] == 10u8);
    lemma_line_end(input, 0, 16 + dl + 1);
    let line1 = input.subrange(0, e1);
    assert(line1 =~= (p + d) + seq![13u8, 10u8]);
    assert forall|i: int| 0 <= i < line1.len() implies #[trigger] line1[i] < 128u8 by {
        if i < 16 + dl {
            assert(input[i] < 128u8);
        }
    }
    lemma_ascii_valid_utf8(line1);
    assert((p + d).last() == d.last());
    assert(is_digit(d[dl - 1]));
    lemma_trim_crlf(p + d);
    assert((p + d).subrange(0, 16) =~= p);
    assert((p + d).subrange(16, (p + d).len() as int) =~= d);
    assert(spec_feed_line(None, line1) == (Some(n), HeaderStepView::Continue));
    assert(spec_decode_frame(input) == spec_decode_from(input, e1, Some(n)));
    // second line: `Content-Type: application/json\r\n`
    assert forall|j: int| e1 <= j < e1 + 31 implies #[trigger] input[j] != 10u8 && input[j] < 128u8 by {
        assert(input[j] == t[j - (16 + dl)]);
    }
    assert(input[e1 + 31] == 10u8);
    lemma_line_end(input, e1, e1 + 31);
    let line2 = input.subrange(e1, e2);
    let ct = t.subrange(2, 32);
    assert(line2 =~= ct + seq![13u8, 10u8]);
    assert forall|i: int| 0 <= i < line2.len() implies #[trigger] line2[i] < 128u8 by {
        assert(input[e1 + i] < 128u8 || e1 + i == e1 + 30 || e1 + i == e1 + 31);
    }
    lemma_ascii_valid_utf8(line2);
    lemma_trim_crlf(ct);
    assert(ct[8] != p[8]);
    assert(ct.subrange(0, 16)[8] != p[8]);
    assert(!has_prefix(ct, p));
    assert(spec_feed_line(Some(n), line2) == (Some(n), HeaderStepView::Continue));
    assert(spec_decode_from(input, e1, Some(n)) == spec_decode_from(input, e2, Some(n)));
    // third line: the empty line that ends the header
    assert(input[e2] == 13u8);
    assert(input[e2 + 1] == 10u8);
    lemma_line_end(input, e2, e2 + 1);
    let line3 = input.subrange(e2, e3);
    assert(line3 =~= seq![13u8, 10u8]);
    lemma_ascii_valid_utf8(line3);
    assert(line3.drop_last() =~= seq![13u8]);
    assert(seq![13u8].drop_last() =~= Seq::<u8>::empty());
    assert(trim_line_end(Seq::<u8>::empty()) =~= Seq::<u8>::empty());
    assert(trim_line_end(seq![13u8]) == trim_line_end(Seq::<u8>::empty()));
    assert(trim_line_end(line3) == trim_line_end(seq![13u8]));
    assert(trim_line_end(line3).len() == 0);
    assert(spec_feed_line(Some(n), line3) == (Some(n), HeaderStepView::Body(n)));
    assert(input.subrange(e3, e3 + n) =~= body);
}

/// A header line other than `Content-Length` and other than the empty line that ends the
/// header (an unknown header, kept for forward compatibility) is read past: the
/// `Content-Length` seen so far stays as it was, whatever the line says.
pub proof fn lemma_other_header_keeps_length(length: Option<usize>, line: Seq<u8>)
    requires
        trim_line_end(line).len() > 0,
        !has_prefix(trim_line_end(line), content_length_prefix()),
    ensures
        spec_feed_line(length, line) == (length, HeaderStepView::Continue),
{
    if line.len() == 0 {
        assert(trim_line_end(line) == line);
    }
}

/// A header line's text (without its line end) that the reader reads past: not empty once
/// trimmed, not a `Content-Length` header, without a line feed, and UTF-8.
pub open spec fn is_other_header(h: Seq<u8>) -> bool {
    &&& forall|i: int| 0 <= i < h.len() ==> #[trigger] h[i] != 10u8
    &&& trim_line_end(h).len() > 0
    &&& !has_prefix(trim_line_end(h), content_length_prefix())
    &&& vstd::utf8::valid_utf8(h)
}

/// Header lines, each followed by `\r\n`.
pub open spec fn header_lines(hs: Seq<Seq<u8>>) -> Seq<u8>
    decreases hs.len(),
{
    if hs.len() == 0 {
        Seq::empty()
    } else {
        hs[0] + seq![13u8, 10u8] + header_lines(hs.drop_first())
    }
}

proof fn lemma_trim_append_crlf(h: Seq<u8>)
    ensures
        trim_line_end(h + seq![13u8, 10u8]) == trim_line_end(h),
{
    let a = h + seq![13u8, 10u8];
    assert(a.drop_last() =~= h.push(13u8));
    assert(h.push(13u8).drop_last() =~= h);
    assert(a.last() == 10u8);
    assert(trim_line_end(a) == trim_line_end(h.push(13u8)));
    assert(h.push(13u8).last() == 13u8);
    assert(trim_line_end(h.push(13u8)) == trim_line_end(h));
}

/// Reading past one header line of another kind at `pos` keeps the `Content-Length`.
proof fn lemma_skip_header(input: Seq<u8>, pos: int, h: Seq<u8>, length: Option<usize>)
    requires
        0 <= pos,
        pos + h.len() + 2 <= input.len(),
        input.subrange(pos, pos + h.len() + 2) == h + seq![13u8, 10u8],
        is_other_header(h),
    ensures
        spec_decode_from(input, pos, length) == spec_decode_from(input, pos + h.len() + 2, length),
{
    let crlf = seq![13u8, 10u8];
    let k = pos + h.len() + 1;
    assert forall|j: int| pos <= j < k implies #[trigger] input[j] != 10u8 by {
        assert(input[j] == input.subrange(pos, pos + h.len() + 2)[j - pos]);
        if j < pos + h.len() {
            assert((h + crlf)[j - pos] == h[j - pos]);
        }
    }
    assert(input[k] == input.subrange(pos, pos + h.len() + 2)[h.len() + 1int]);
    lemma_line_end(input, pos, k);
    let line = input.subrange(pos, k + 1);
    assert(line == h + crlf);
    assert forall|i: int| 0 <= i < crlf.len() implies #[trigger] crlf[i] < 128u8 by {}
    lemma_ascii_valid_utf8(crlf);
    vstd::utf8::valid_utf8_concat(h, crlf);
    lemma_trim_append_crlf(h);
    lemma_other_header_keeps_length(length, line);
}

/// Reading past header lines of other kinds at `pos` keeps the `Content-Length`.
proof fn lemma_skip_headers(input: Seq<u8>, pos: int, hs: Seq<Seq<u8>>, length: Option<usize>)
    requires
        0 <= pos,
        pos + header_lines(hs).len() <= input.len(),
        input.subrange(pos, pos + header_lines(hs).len()) == header_lines(hs),
        forall|i: int| 0 <= i < hs.len() ==> is_other_header(#[trigger] hs[i]),
    ensures
        spec_decode_from(input, pos, length) == spec_decode_from(input, pos + header_lines(hs).len(), length),
    decreases hs.len(),
{
    if hs.len() > 0 {
        let h = hs[0];
        let tail = hs.drop_first();
        let crlf = seq![13u8, 10u8];
        let all = header_lines(hs);
        assert(all == h + crlf + header_lines(tail));
        let m: int = h.len() as int + 2;
        assert(input.subrange(pos, pos + m) =~= all.subrange(0, m));
        assert(all.subrange(0, m) =~= h + crlf);
        assert(is_other_header(hs[0]));
        lemma_skip_header(input, pos, h, length);
        assert(input.subrange(pos + m, pos + m + header_lines(tail).len()) =~= all.subrange(m, all.len() as int));
        assert(all.subrange(m, all.len() as int) =~= header_lines(tail));
        assert forall|i: int| 0 <= i < tail.len() implies is_other_header(#[trigger] tail[i]) by {
            assert(tail[i] == hs[i + 1]);
        }
        lemma_skip_headers(input, pos + m, tail, length);
    }
}

/// Reading the line `Content-Length: <n>` at `pos` sets the length to `n`.
proof fn lemma_length_line(input: Seq<u8>, pos: int, n: usize, length: Option<usize>)
    requires
        0 <= pos,
        pos + 16 + spec_decimal(n as nat).len() + 2 <= input.len(),
        input.subrange(pos, pos + 16 + spec_decimal(n as nat).len() + 2)
            == content_length_prefix() + spec_decimal(n as nat) + seq![13u8, 10u8],
    ensures
        spec_decode_from(input, pos, length)
            == spec_decode_from(input, pos + 16 + spec_decimal(n as nat).len() + 2, Some(n)),
{
    let p = content_length_prefix();
    let d = spec_decimal(n as nat);
    let crlf = seq![13u8, 10u8];
    lemma_decimal_value(n as nat);
    lemma_parse_decimal(n);
    let dl = d.len() as int;
    let whole = p + d + crlf;
    let sub = input.subrange(pos, pos + 16 + dl + 2);
    assert forall|j: int| pos <= j < pos + 16 + dl implies #[trigger] input[j] != 10u8 && input[j] < 128u8 by {
        assert(input[j] == sub[j - pos]);
        if j - pos < 16 {
            assert(sub[j - pos] == p[j - pos]);
        } else {
            assert(sub[j - pos] == d[j - pos - 16]);
            assert(is_digit(d[j - pos - 16]));
        }
    }
    assert(input[pos + 16 + dl] == sub[16 + dl]);
    assert(input[pos + 16 + dl + 1] == sub[16 + dl + 1]);
    lemma_line_end(input, pos, pos + 16 + dl + 1);
    let line = input.subrange(pos, pos + 16 + dl + 2);
    assert(line =~= (p + d) + crlf);
    assert forall|i: int| 0 <= i < line.len() implies #[trigger] line[i] < 128u8 by {
        if i < 16 + dl {
            assert(input[pos + i] < 128u8);
        }
    }
    lemma_ascii_valid_utf8(line);
    assert((p + d).last() == d.last());
    assert(is_digit(d[dl - 1]));
    lemma_trim_crlf(p + d);
    assert((p + d).subrange(0, 16) =~= p);
    assert((p + d).subrange(16, (p + d).len() as int) =~= d);
    assert(spec_feed_line(length, line) == (Some(n), HeaderStepView::Continue));
}

/// Reading the empty line at `pos` with the length `n` set reads the `n` bytes after it.
proof fn lemma_end_line(input: Seq<u8>, pos: int, n: usize)
    requires
        0 <= pos,
        n <= MAX_FRAME_SIZE,
        pos + 2 + n <= input.len(),
        input.subrange(pos, pos + 2) == seq![13u8, 10u8],
    ensures
        spec_decode_from(input, pos, Some(n))
            == (DecodeView::Frame(input.subrange(pos + 2, pos + 2 + n)), pos + 2 + n),
{
    let crlf = seq![13u8, 10u8];
    assert(input[pos] == input.subrange(pos, pos + 2)[0]);
    assert(input[pos + 1] == input.subrange(pos, pos + 2)[1]);
    lemma_line_end(input, pos, pos + 1);
    let line = input.subrange(pos, pos + 2);
    assert forall|i: int| 0 <= i < line.len() implies #[trigger] line[i] < 128u8 by {}
    lemma_ascii_valid_utf8(line);
    assert(line.drop_last() =~= seq![13u8]);
    assert(seq![13u8].drop_last() =~= Seq::<u8>::empty());
    assert(trim_line_end(Seq::<u8>::empty()) =~= Seq::<u8>::empty());
    assert(trim_line_end(seq![13u8]) == trim_line_end(Seq::<u8>::empty()));
    assert(trim_line_end(line) == trim_line_end(seq![13u8]));
    assert(spec_feed_line(Some(n), line) == (Some(n), HeaderStepView::Body(n)));
}

/// Headers other than `Content-Length` are ignored, wherever they stand: reading a frame
/// whose header has any such lines before and after `Content-Length: <n>`, then the empty
/// line, gives the `n` body bytes and stops right after them, whatever follows.
pub proof fn lemma_decode_ignores_other_headers(
    before: Seq<Seq<u8>>,
    after: Seq<Seq<u8>>,
    body: Seq<u8>,
    rest: Seq<u8>,
)
    requires
        body.len() <= MAX_FRAME_SIZE,
        forall|i: int| 0 <= i < before.len() ==> is_other_header(#[trigger] before[i]),
        forall|i: int| 0 <= i < after.len() ==> is_other_header(#[trigger] after[i]),
    ensures
        spec_decode_frame(
            header_lines(before) + content_length_prefix() + spec_decimal(body.len()) + seq![13u8, 10u8]
                + header_lines(after) + seq![13u8, 10u8] + body + rest,
        ) == (
            DecodeView::Frame(body),
            (header_lines(before).len() + 16 + spec_decimal(body.len()).len() + 2 + header_lines(after).len() + 2
                + body.len()) as int,
        ),
{
    let n = body.len() as usize;
    let crlf = seq![13u8, 10u8];
    let l1 = header_lines(before);
    let cl = content_length_prefix() + spec_decimal(n as nat) + crlf;
    let l2 = header_lines(after);
    let input = l1 + cl + l2 + crlf + body + rest;
    assert(input =~= l1 + content_length_prefix() + spec_decimal(body.len()) + crlf + l2 + crlf + body + rest);
    let p1 = l1.len() as int;
    let p2 = p1 + cl.len();
    let p3 = p2 + l2.len();
    assert(input.subrange(0, p1) =~= l1);
    lemma_skip_headers(input, 0, before, None);
    assert(cl.len() == 16 + spec_decimal(n as nat).len() + 2);
    assert(input.subrange(p1, p2) =~= cl);
    lemma_length_line(input, p1, n, None);
    assert(input.subrange(p2, p3) =~= l2);
    lemma_skip_headers(input, p2, after, Some(n));
    assert(input.subrange(p3, p3 + 2) =~= crlf);
    lemma_end_line(input, p3, n);
    assert(input.subrange(p3 + 2, p3 + 2 + n) =~= body);
}

/// The bytes that writing these bodies one after another puts on the wire.
pub open spec fn spec_encode_frames(bodies: Seq<Seq<u8>>) -> Seq<u8>
    decreases bodies.len(),
{
    if bodies.len() == 0 {
        Seq::empty()
    } else {
        spec_encode_frame(bodies[0]) + spec_encode_frames(bodies.drop_first())
    }
}

/// Reading `n` frames one after another from `input`: what each read gives.
pub open spec fn spec_decode_frames(input: Seq<u8>, n: nat) -> Seq<DecodeView>
    decreases n,
{
    if n == 0 {
        Seq::empty()
    } else {
        let (first, used) = spec_decode_frame(input);
        seq![first] + if 0 <= used <= input.len() {
            spec_decode_frames(input.subrange(used, input.len() as int), (n - 1) as nat)
        } else {
            Seq::empty()
        }
    }
}

/// Frames written one after another read back one after another, each with its body, and
/// then the stream ends.
pub proof fn lemma_decode_encode_frames(bodies: Seq<Seq<u8>>)
    requires
        forall|i: int| 0 <= i < bodies.len() ==> #[trigger] bodies[i].len() <= MAX_FRAME_SIZE,
    ensures
        spec_decode_frames(spec_encode_frames(bodies), bodies.len() + 1)
            == bodies.map_values(|b: Seq<u8>| DecodeView::Frame(b)).push(DecodeView::EndOfStream),
    decreases bodies.len(),
{
    let input = spec_encode_frames(bodies);
    if bodies.len() == 0 {
        assert(input =~= Seq::<u8>::empty());
        assert(spec_decode_frame(input).0 == DecodeView::EndOfStream);
        assert(spec_decode_frame(input).1 == 0);
        assert(spec_decode_frames(input.subrange(0, 0), 0) =~= Seq::<DecodeView>::empty());
        assert(spec_decode_frames(input, 1) =~= seq![DecodeView::EndOfStream]);
        assert(bodies.map_values(|b: Seq<u8>| DecodeView::Frame(b)) =~= Seq::<DecodeView>::empty());
    } else {
        let tail = bodies.drop_first();
        let enc = spec_encode_frame(bodies[0]);
        let rest = spec_encode_frames(tail);
        assert(input == enc + rest);
        lemma_decode_encode(bodies[0], rest);
        assert((enc + rest).subrange(enc.len() as int, (enc + rest).len() as int) =~= rest);
        assert forall|i: int| 0 <= i < tail.len() implies #[trigger] tail[i].len() <= MAX_FRAME_SIZE by {
            assert(tail[i] == bodies[i + 1]);
        }
        lemma_decode_encode_frames(tail);
        assert(bodies.map_values(|b: Seq<u8>| DecodeView::Frame(b)).push(DecodeView::EndOfStream) =~= seq![DecodeView::Frame(bodies[0])]
            + tail.map_values(|b: Seq<u8>| DecodeView::Frame(b)).push(DecodeView::EndOfStream));
    }
}

} // verus!
