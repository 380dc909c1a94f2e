//! The wire format of the protocol: header lines that end in CR LF, a blank line, and as
//! many bytes of payload as the `Content-Length` header said.

use crate::text::{
    chars_of, decimal, decimal_text, is_digit, law_size_roundtrip, lemma_decimal, parse_size,
    parsed_size, string_of, trim, trimmed, trimmed_end, trimmed_start, utf8_text,
};
use vstd::prelude::*;
use vstd::string::*;
use vstd::utf8::*;

verus! {

/// Why no frame could be read.
#[derive(Debug, Clone, Copy, PartialEq, Eq, Structural)]
pub enum FrameError {
    /// The stream ended within the header lines.
    EndInHeader,
    /// A header line is not UTF-8.
    HeaderNotUtf8,
    /// The value of a `Content-Length` header is not a size.
    BadContentLength,
    /// The blank line came and no `Content-Length` header had.
    MissingContentLength,
    /// The stream ended within the payload.
    EndInBody,
}

impl FrameError {
    /// What the error says.
    pub open spec fn text(self) -> Seq<char> {
        match self {
            FrameError::EndInHeader => "EOF while reading LSP header line"@,
            FrameError::HeaderNotUtf8 => "LSP header not UTF-8"@,
            FrameError::BadContentLength => "parsing Content-Length"@,
            FrameError::MissingContentLength => "LSP frame missing Content-Length header"@,
            FrameError::EndInBody => "reading body"@,
        }
    }

    /// Says what is wrong with the frame.
    pub fn message(self) -> (r: &'static str)
        ensures
            r@ == self.text(),
    {
        match self {
            FrameError::EndInHeader => "EOF while reading LSP header line",
            FrameError::HeaderNotUtf8 => "LSP header not UTF-8",
            FrameError::BadContentLength => "parsing Content-Length",
            FrameError::MissingContentLength => "LSP frame missing Content-Length header",
            FrameError::EndInBody => "reading body",
        }
    }
}

/// What a reader wants after a byte of the header.
#[derive(Debug, Clone, Copy, PartialEq, Eq, Structural)]
pub enum HeaderStep {
    /// The next byte of the header.
    More,
    /// The payload: this many bytes follow.
    Body(usize),
    /// Nothing more: the frame is broken.
    Failed(FrameError),
}

/// The header that announces a payload of `n` bytes, with the blank line behind it.
pub open spec fn header_text(n: nat) -> Seq<char> {
    "Content-Length: "@ + decimal(n) + "\r\n\r\n"@
}

/// The frame around a payload.
pub open spec fn framed(payload: Seq<u8>) -> Seq<u8> {
    encode_utf8(header_text(payload.len())) + payload
}

/// Puts the frame around a payload.
pub fn frame(payload: &[u8]) -> (r: Vec<u8>)
    ensures
        r@ == framed(payload@),
{
    let mut header: String = "Content-Length: ".to_owned();
    let length: String = decimal_text(payload.len() as u64);
    header.append(length.as_str());
    header.append("\r\n\r\n");
    let mut out: Vec<u8> = Vec::new();
    out.extend_from_slice(header.as_str().as_bytes());
    out.extend_from_slice(payload);
    assert(out@ =~= framed(payload@));
    out
}

/// Whether the first `n` bytes of a stream end in CR LF.
pub open spec fn ends_line(s: Seq<u8>, n: int) -> bool {
    2 <= n <= s.len() && s[n - 2] == 13 && s[n - 1] == 10
}

/// The length of the first line of a stream, its CR LF counted.
pub open spec fn line_len(s: Seq<u8>) -> Option<int>
    decreases s.len(),
{
    if s.len() < 2 {
        None
    } else if s[0] == 13 && s[1] == 10 {
        Some(2)
    } else {
        match line_len(s.skip(1)) {
            Some(n) => Some(n + 1),
            None => None,
        }
    }
}

/// What a header line says of the payload's length: nothing where it is another header,
/// `Some(None)` where its value is no size.
pub open spec fn announced_length(line: Seq<char>) -> Option<Option<usize>> {
    if "Content-Length:"@.is_prefix_of(line) {
        Some(parsed_size(trimmed(line.skip("Content-Length:"@.len() as int))))
    } else {
        None
    }
}

/// What follows from a whole header line, where `length` is what the lines before it
/// announced: what the reader wants next, and what is announced from here on.
pub open spec fn line_outcome(line: Seq<u8>, length: Option<usize>) -> (
    HeaderStep,
    Option<usize>,
) {
    if line.len() == 2 {
        match length {
            Some(n) => (HeaderStep::Body(n), length),
            None => (HeaderStep::Failed(FrameError::MissingContentLength), length),
        }
    } else if !valid_utf8(line) {
        (HeaderStep::Failed(FrameError::HeaderNotUtf8), length)
    } else {
        match announced_length(decode_utf8(line)) {
            None => (HeaderStep::More, length),
            Some(None) => (HeaderStep::Failed(FrameError::BadContentLength), length),
            Some(Some(n)) => (HeaderStep::More, Some(n)),
        }
    }
}

/// The first frame of a stream that ends where `s` ends: its payload and the number of
/// bytes up to its end. `length` is what header lines before `s` announced.
pub open spec fn first_frame(s: Seq<u8>, length: Option<usize>) -> Result<
    (Seq<u8>, int),
    FrameError,
>
    decreases s.len(),
{
    match line_len(s) {
        None => Err(FrameError::EndInHeader),
        Some(n) => {
            proof {
                lemma_line_len(s);
            }
            match line_outcome(s.take(n), length) {
                (HeaderStep::Failed(e), _) => Err(e),
                (HeaderStep::Body(k), _) => if n + k <= s.len() {
                    Ok((s.subrange(n, n + k), n + k))
                } else {
                    Err(FrameError::EndInBody)
                },
                (HeaderStep::More, l) => match first_frame(s.skip(n), l) {
                    Ok((body, end)) => Ok((body, n + end)),
                    Err(e) => Err(e),
                },
            }
        },
    }
}

/// The first line ends at the first CR LF.
pub proof fn lemma_line_len(s: Seq<u8>)
    ensures
        match line_len(s) {
            Some(n) => ends_line(s, n) && forall|m: int| m < n ==> !ends_line(s, m),
            None => forall|m: int| !ends_line(s, m),
        },
    decreases s.len(),
{
    if s.len() >= 2 && !(s[0] == 13 && s[1] == 10) {
        lemma_line_len(s.skip(1));
        assert forall|m: int| ends_line(s, m) implies ends_line(s.skip(1), m - 1) by {}
        assert forall|m: int| ends_line(s.skip(1), m) implies ends_line(s, m + 1) by {}
        match line_len(s.skip(1)) {
            Some(n) => {
                assert(ends_line(s, n + 1));
            },
            None => {},
        }
    }
}

/// A first CR LF that ends at `n` makes the first line `n` bytes long.
proof fn lemma_line_len_is(s: Seq<u8>, n: int)
    requires
        ends_line(s, n),
        forall|m: int| m < n ==> !ends_line(s, m),
    ensures
        line_len(s) == Some(n),
{
    lemma_line_len(s);
    match line_len(s) {
        Some(k) => {
            if k < n {
                assert(!ends_line(s, k));
            }
            if n < k {
                assert(!ends_line(s, n));
            }
        },
        None => {
            assert(!ends_line(s, n));
        },
    }
}

/// A reader of one frame's header, fed byte by byte.
pub struct FrameReader {
    /// The bytes of the header line that is being read.
    pub line: Vec<u8>,
    /// The payload's length, once a header line has announced it.
    pub content_length: Option<usize>,
}

impl FrameReader {
    /// A reader at the start of a frame.
    pub fn new() -> (r: FrameReader)
        ensures
            r.line@ == Seq::<u8>::empty(),
            r.content_length is None,
    {
        FrameReader { line: Vec::new(), content_length: None }
    }

    /// Takes the next byte of the header.
    pub fn push(&mut self, byte: u8) -> (r: HeaderStep)
        ensures
            ({
                let line = old(self).line@.push(byte);
                if ends_line(line, line.len() as int) {
                    let (step, length) = line_outcome(line, old(self).content_length);
                    &&& r == step
                    &&& final(self).line@ == Seq::<u8>::empty()
                    &&& final(self).content_length == length
                } else {
                    &&& r == HeaderStep::More
                    &&& final(self).line@ == line
                    &&& final(self).content_length == old(self).content_length
                }
            }),
    {
        self.line.push(byte);
        let n: usize = self.line.len();
        if !(n >= 2 && self.line[n - 2] == 13 && self.line[n - 1] == 10) {
            return HeaderStep::More;
        }
        let mut line: Vec<u8> = Vec::new();
        std::mem::swap(&mut line, &mut self.line);
        if n == 2 {
            return match self.content_length {
                Some(length) => HeaderStep::Body(length),
                None => HeaderStep::Failed(FrameError::MissingContentLength),
            };
        }
        match utf8_text(line.as_slice()) {
            None => HeaderStep::Failed(FrameError::HeaderNotUtf8),
            Some(text) => match content_length(text) {
                None => HeaderStep::More,
                Some(None) => HeaderStep::Failed(FrameError::BadContentLength),
                Some(Some(length)) => {
                    self.content_length = Some(length);
                    HeaderStep::More
                },
            },
        }
    }
}

/// Reads the length that a header line announces.
fn content_length(line: &str) -> (r: Option<Option<usize>>)
    ensures
        r == announced_length(line@),
{
    let prefix: Vec<char> = chars_of("Content-Length:");
    let chars: Vec<char> = chars_of(line);
    if chars.len() < prefix.len() {
        return None;
    }
    let mut i: usize = 0;
    while i < prefix.len()
        invariant
            i <= prefix@.len() <= chars@.len(),
            prefix@ == "Content-Length:"@,
            chars@ == line@,
            forall|j: int| 0 <= j < i ==> prefix@[j] == chars@[j],
        decreases prefix@.len() - i,
    {
        if chars[i] != prefix[i] {
            return None;
        }
        i += 1;
    }
    assert(prefix@ =~= chars@.subrange(0, prefix@.len() as int));
    let value: String = string_of(&chars, i, chars.len());
    assert(value@ =~= line@.skip(prefix@.len() as int));
    Some(parse_size(trim(value.as_str()).as_str()))
}

/// Reads the first frame of a stream that ends where `input` ends: its payload and the
/// number of bytes up to its end.
pub fn read_frame(input: &[u8]) -> (r: Result<(Vec<u8>, usize), FrameError>)
    ensures
        match r {
            Ok((body, end)) => first_frame(input@, None) == Ok::<_, FrameError>(
                (body@, end as int),
            ),
            Err(e) => first_frame(input@, None) == Err::<(Seq<u8>, int), _>(e),
        },
{
    let mut reader: FrameReader = FrameReader::new();
    let mut at: usize = 0;
    let ghost mut start: int = 0;
    assert(input@.skip(0) == input@);
    while at < input.len()
        invariant
            0 <= start <= at <= input@.len(),
            reader.line@ == input@.subrange(start, at as int),
            forall|m: int| !ends_line(reader.line@, m),
            first_frame(input@, None) == (match first_frame(
                input@.skip(start),
                reader.content_length,
            ) {
                Ok((body, end)) => Ok((body, start + end)),
                Err(e) => Err(e),
            }),
        decreases input@.len() - at,
    {
        let ghost begun = reader.line@;
        let ghost line = begun.push(input@[at as int]);
        let ghost tail = input@.skip(start);
        let step: HeaderStep = reader.push(input[at]);
        at += 1;
        proof {
            assert(line == input@.subrange(start, at as int));
            assert forall|m: int| m < line.len() implies !ends_line(line, m) by {
                assert(!ends_line(begun, m));
            }
            if ends_line(line, line.len() as int) {
                assert(tail.take(line.len() as int) == line);
                assert(ends_line(tail, line.len() as int));
                assert forall|m: int| m < line.len() implies !ends_line(tail, m) by {
                    assert(!ends_line(line, m));
                }
                lemma_line_len_is(tail, line.len() as int);
                assert(tail.skip(line.len() as int) == input@.skip(at as int));
            }
        }
        match step {
            HeaderStep::Failed(e) => {
                return Err(e);
            },
            HeaderStep::Body(n) => {
                if n <= input.len() - at {
                    let body: Vec<u8> = vstd::slice::slice_to_vec(
                        vstd::slice::slice_subrange(input, at, at + n),
                    );
                    assert(tail.subrange(line.len() as int, line.len() + n) == body@);
                    return Ok((body, at + n));
                }
                return Err(FrameError::EndInBody);
            },
            HeaderStep::More => {
                proof {
                    if ends_line(line, line.len() as int) {
                        start = at as int;
                    } else {
                        assert forall|m: int| !ends_line(reader.line@, m) by {
                            if m == line.len() {
                            } else if m < line.len() {
                                assert(!ends_line(line, m));
                            }
                        }
                    }
                }
            },
        }
    }
    proof {
        let tail = input@.skip(start);
        assert(tail == reader.line@);
        lemma_line_len(tail);
    }
    Err(FrameError::EndInHeader)
}

/// Reading a stream that begins with a frame gives back the payload that was framed, and
/// stops right behind it, whatever follows.
pub proof fn law_frame_roundtrip(payload: Seq<u8>, rest: Seq<u8>)
    requires
        payload.len() <= usize::MAX,
    ensures
        first_frame(framed(payload) + rest, None) == Ok::<_, FrameError>(
            (payload, framed(payload).len() as int),
        ),
{
    let n = payload.len();
    let stream = framed(payload) + rest;
    let header = header_text(n);
    reveal_strlit("Content-Length: ");
    reveal_strlit("Content-Length:");
    reveal_strlit("\r\n\r\n");
    reveal_strlit("\r\n");
    lemma_decimal(n);
    let digits = decimal(n);
    let size = digits.len() as int;
    let line = "Content-Length: "@ + digits + "\r\n"@;
    // The header is ASCII, so its bytes are its characters.
    assert forall|i: int| 0 <= i < header.len() implies '\0' <= #[trigger] header[i] <= '\u{7f}' by {
        if 16 <= i < 16 + size {
            assert(is_digit(digits[i - 16]));
        }
    }
    assert forall|i: int| 0 <= i < line.len() implies '\0' <= #[trigger] line[i] <= '\u{7f}' by {
        assert(line[i] == header[i]);
    }
    is_ascii_chars_encode_utf8(header);
    is_ascii_chars_encode_utf8(line);
    encode_utf8_valid_utf8(line);
    encode_utf8_decode_utf8(line);
    let first = 18 + size;
    // The first line is the `Content-Length` header.
    assert(stream.take(first) =~= encode_utf8(line));
    assert(ends_line(stream, first));
    assert forall|m: int| m < first implies !ends_line(stream, m) by {
        if 2 <= m {
            assert(stream[m - 2] == header[m - 2] as u8);
            assert(stream[m - 1] == header[m - 1] as u8);
            if 16 <= m - 2 < 16 + size {
                assert(is_digit(digits[m - 2 - 16]));
            }
        }
    }
    lemma_line_len_is(stream, first);
    lemma_header_value(n as usize);
    assert(line.skip(15) =~= " "@ + digits + "\r\n"@) by {
        reveal_strlit(" ");
    }
    assert("Content-Length:"@.is_prefix_of(line)) by {
        assert(line.subrange(0, 15) =~= "Content-Length:"@);
    }
    assert(announced_length(line) == Some(Some(n as usize)));
    // The second line is blank, and the payload follows it.
    let tail = stream.skip(first);
    assert(tail[0] == header[first] as u8 && tail[1] == header[first + 1] as u8);
    lemma_line_len_is(tail, 2);
    assert(tail.subrange(2, 2 + n as int) =~= payload);
    assert(first_frame(tail, Some(n as usize)) == Ok::<_, FrameError>((payload, 2 + n as int)));
}

/// The stream of a row of framed payloads.
pub open spec fn stream_of(payloads: Seq<Seq<u8>>) -> Seq<u8>
    decreases payloads.len(),
{
    if payloads.len() == 0 {
        Seq::empty()
    } else {
        framed(payloads[0]) + stream_of(payloads.skip(1))
    }
}

/// The payloads that `n` reads, one after the other, take from a stream.
pub open spec fn first_frames(s: Seq<u8>, n: nat) -> Option<Seq<Seq<u8>>>
    decreases n,
{
    if n == 0 {
        Some(Seq::empty())
    } else {
        match first_frame(s, None) {
            Err(_) => None,
            Ok((body, end)) => match first_frames(s.skip(end), (n - 1) as nat) {
                Some(bodies) => Some(seq![body] + bodies),
                None => None,
            },
        }
    }
}

/// Payloads that were framed one after the other are read back in their order.
pub proof fn law_frames_keep_their_order(payloads: Seq<Seq<u8>>)
    requires
        forall|i: int| 0 <= i < payloads.len() ==> (#[trigger] payloads[i]).len() <= usize::MAX,
    ensures
        first_frames(stream_of(payloads), payloads.len()) == Some(payloads),
    decreases payloads.len(),
{
    if payloads.len() > 0 {
        let rest = payloads.skip(1);
        law_frames_keep_their_order(rest);
        law_frame_roundtrip(payloads[0], stream_of(rest));
        assert(stream_of(payloads).skip(framed(payloads[0]).len() as int) =~= stream_of(rest));
        assert(seq![payloads[0]] + rest =~= payloads);
    } else {
        assert(payloads =~= Seq::empty());
    }
}

/// The value of the header that `frame` writes is the payload's length.
proof fn lemma_header_value(n: usize)
    ensures
        parsed_size(trimmed(" "@ + decimal(n as nat) + "\r\n"@)) == Some(n),
{
    reveal_strlit(" ");
    reveal_strlit("\r\n");
    lemma_decimal(n as nat);
    law_size_roundtrip(n);
    let digits = decimal(n as nat);
    assert(is_digit(digits[0]));
    assert(is_digit(digits.last()));
    let s = " "@ + digits + "\r\n"@;
    reveal_with_fuel(trimmed_start, 2);
    reveal_with_fuel(trimmed_end, 3);
    assert(s.skip(1) =~= digits + "\r\n"@);
    let t = digits + "\r\n"@;
    assert(trimmed_start(s) == t);
    assert(t.drop_last().drop_last() =~= digits);
}

/// A frame is the text `Content-Length: `, the number of bytes of the payload as a decimal
/// numeral, a line end, a blank line, and the payload.
pub proof fn law_frames_are_header_and_payload(payload: Seq<u8>, i: int)
    ensures
        ({
            let digits = decimal(payload.len());
            let header = "Content-Length: "@ + digits + seq!['\r', '\n', '\r', '\n'];
            &&& framed(payload).len() == header.len() + payload.len()
            &&& framed(payload).skip(header.len() as int) == payload
            &&& 0 <= i < header.len() ==> framed(payload)[i] == header[i] as u8
        }),
{
    let n = payload.len();
    let digits = decimal(n);
    let header = header_text(n);
    reveal_strlit("Content-Length: ");
    reveal_strlit("\r\n\r\n");
    lemma_decimal(n);
    assert("\r\n\r\n"@ =~= seq!['\r', '\n', '\r', '\n']);
    assert forall|k: int| 0 <= k < header.len() implies '\0' <= #[trigger] header[k] <= '\u{7f}' by {
        if 16 <= k < 16 + digits.len() {
            assert(is_digit(digits[k - 16]));
        }
    }
    is_ascii_chars_encode_utf8(header);
    assert(framed(payload).skip(header.len() as int) =~= payload);
}

/// A line ends at the first CR LF and nowhere else.
pub proof fn law_lines_end_at_cr_lf(s: Seq<u8>, n: int)
    ensures
        ends_line(s, n) <==> 2 <= n <= s.len() && s[n - 2] == 13 && s[n - 1] == 10,
        line_len(s) == Some(n) <==> ends_line(s, n) && forall|m: int| m < n ==> !ends_line(s, m),
        line_len(s) is None <==> forall|m: int| !ends_line(s, m),
{
    lemma_line_len(s);
    if ends_line(s, n) && forall|m: int| m < n ==> !ends_line(s, m) {
        lemma_line_len_is(s, n);
    }
    if forall|m: int| !ends_line(s, m) {
        match line_len(s) {
            Some(k) => {
                assert(ends_line(s, k));
            },
            None => {},
        }
    }
}

/// What a header line means: the blank line asks for the payload that was announced, a
/// `Content-Length` line announces what stands behind its colon, and any other line means
/// nothing.
pub proof fn law_header_lines_mean_one_thing(
    text: Seq<char>,
    value: Seq<char>,
    length: Option<usize>,
    n: usize,
)
    requires
        encode_utf8(text).len() > 2,
    ensures
        line_outcome(seq![13u8, 10u8], Some(n)) == (HeaderStep::Body(n), Some(n)),
        line_outcome(seq![13u8, 10u8], None) == (
            HeaderStep::Failed(FrameError::MissingContentLength),
            None::<usize>,
        ),
        text == "Content-Length:"@ + value && parsed_size(trimmed(value)) == Some(n)
            ==> line_outcome(encode_utf8(text), length) == (HeaderStep::More, Some(n)),
        text == "Content-Length:"@ + value && parsed_size(trimmed(value)) is None ==> line_outcome(
            encode_utf8(text),
            length,
        ).0 == HeaderStep::Failed(FrameError::BadContentLength),
        !"Content-Length:"@.is_prefix_of(text) ==> line_outcome(encode_utf8(text), length) == (
            HeaderStep::More,
            length,
        ),
{
    encode_utf8_valid_utf8(text);
    encode_utf8_decode_utf8(text);
    if text == "Content-Length:"@ + value {
        let prefix = "Content-Length:"@;
        assert(text.skip(prefix.len() as int) =~= value);
        assert(text.subrange(0, prefix.len() as int) =~= prefix);
        assert(prefix.is_prefix_of(text));
    }
}

/// A header line that is not UTF-8 breaks the frame.
pub proof fn law_header_lines_are_utf8(line: Seq<u8>, length: Option<usize>)
    requires
        line.len() != 2,
        !valid_utf8(line),
    ensures
        line_outcome(line, length).0 == HeaderStep::Failed(FrameError::HeaderNotUtf8),
{
}

/// A frame is read line by line, and then as many bytes as were announced: they are the
/// payload, and the frame ends behind them.
pub proof fn law_frames_are_read_line_by_line(
    line: Seq<u8>,
    rest: Seq<u8>,
    length: Option<usize>,
    next: Option<usize>,
    n: usize,
    e: FrameError,
)
    requires
        ends_line(line, line.len() as int),
        forall|m: int| m < line.len() ==> !ends_line(line, m),
    ensures
        line_outcome(line, length).0 == HeaderStep::Failed(e) ==> first_frame(line + rest, length)
            == Err::<(Seq<u8>, int), _>(e),
        line_outcome(line, length).0 == HeaderStep::Body(n) && n <= rest.len() ==> first_frame(
            line + rest,
            length,
        ) == Ok::<_, FrameError>((rest.take(n as int), line.len() + n as int)),
        line_outcome(line, length).0 == HeaderStep::Body(n) && n > rest.len() ==> first_frame(
            line + rest,
            length,
        ) == Err::<(Seq<u8>, int), _>(FrameError::EndInBody),
        line_outcome(line, length) == (HeaderStep::More, next) ==> first_frame(line + rest, length)
            == (match first_frame(rest, next) {
            Ok((body, end)) => Ok((body, line.len() + end)),
            Err(e) => Err(e),
        }),
{
    let s = line + rest;
    let k = line.len() as int;
    assert(ends_line(s, k));
    assert forall|m: int| m < k implies !ends_line(s, m) by {
        assert(!ends_line(line, m));
    }
    lemma_line_len_is(s, k);
    assert(s.take(k) =~= line);
    assert(s.skip(k) =~= rest);
    if n <= rest.len() {
        assert(s.subrange(k, k + n) =~= rest.take(n as int));
    }
}

/// A stream that ends within a header line has no frame.
pub proof fn law_streams_do_not_end_in_a_header(s: Seq<u8>, length: Option<usize>)
    requires
        forall|m: int| !ends_line(s, m),
    ensures
        first_frame(s, length) == Err::<(Seq<u8>, int), _>(FrameError::EndInHeader),
{
    law_lines_end_at_cr_lf(s, 0);
}

/// The payload of a frame is what stands right before the frame's end.
pub proof fn law_payloads_stand_at_the_end(s: Seq<u8>, length: Option<usize>)
    ensures
        first_frame(s, length) matches Ok((body, end)) ==> {
            &&& body.len() + 2 <= end <= s.len()
            &&& s.subrange(end - body.len(), end) == body
            &&& ends_line(s, end - body.len())
        },
    decreases s.len(),
{
    lemma_line_len(s);
    if let Some(n) = line_len(s) {
        if let (HeaderStep::More, next) = line_outcome(s.take(n), length) {
            let rest = s.skip(n);
            law_payloads_stand_at_the_end(rest, next);
            if let Ok((body, end)) = first_frame(rest, next) {
                assert(rest.subrange(end - body.len(), end) =~= s.subrange(
                    n + end - body.len(),
                    n + end,
                ));
                assert(ends_line(rest, end - body.len()));
            }
        }
    }
}

/// The errors of broken frames say what is wrong with them.
pub proof fn law_frame_errors_say_what_is_wrong()
    ensures
        FrameError::EndInHeader.text() == "EOF while reading LSP header line"@,
        FrameError::HeaderNotUtf8.text() == "LSP header not UTF-8"@,
        FrameError::BadContentLength.text() == "parsing Content-Length"@,
        FrameError::MissingContentLength.text() == "LSP frame missing Content-Length header"@,
        FrameError::EndInBody.text() == "reading body"@,
{
}

} // verus!
