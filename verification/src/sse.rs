//! Reading OpenRouter's server-sent event stream: what one line means, and
//! the decoder that cuts the byte stream into lines.
use vstd::prelude::*;

use crate::json::{
    as_str, as_u64, first_item, get, json_as_str, json_as_u64, json_first_item, json_get,
    json_parse, parse_json, JsonValue,
};
use crate::provider::{OpenRouterStreamLine, ProviderError, ProviderErrorView, StreamLineView};
use vstd::utf8::{decode_utf8, valid_utf8};

use crate::text::{
    all_whitespace, char_count, lemma_blank_iff_all_whitespace, chars_of, digits_value, has_prefix, is_ascii_digit, digit_value, parse_u64_spec, unsigned_digits,
    str_eq, string_from_range, trim, trimmed,
};

verus! {

/// The status carried by an error chunk: its `code` member read as a `u64`
/// (a number, or a string of digits), when that fits in a `u16`; `502`
/// (Bad Gateway) otherwise.
pub open spec fn error_chunk_status(error: JsonValue) -> u16 {
    let code = match json_get(error, "code"@) {
        None => None,
        Some(c) => match json_as_u64(c) {
            Some(n) => Some(n),
            None => match json_as_str(c) {
                Some(s) => parse_u64_spec(s),
                None => None,
            },
        },
    };
    match code {
        Some(n) => if n <= 65535 {
            n as u16
        } else {
            502
        },
        None => 502,
    }
}

/// The message of an error chunk, with a fixed text when it has none.
pub open spec fn error_chunk_message(error: JsonValue) -> Seq<char> {
    match json_get(error, "message"@) {
        Some(m) => match json_as_str(m) {
            Some(s) => s,
            None => "provider returned an error"@,
        },
        None => "provider returned an error"@,
    }
}

/// The provider error that an error chunk reports: a rate limit for status
/// `429`, and an upstream failure with status and message otherwise.
pub open spec fn error_chunk_error(error: JsonValue) -> ProviderErrorView {
    if error_chunk_status(error) == 429 {
        ProviderErrorView::RateLimited
    } else {
        ProviderErrorView::UpstreamStatus {
            status: error_chunk_status(error),
            message: error_chunk_message(error),
        }
    }
}

/// The text of `choices[0].delta.content`, or of `choices[0].message.content`
/// when the first choice has no `delta`.
pub open spec fn chunk_content(v: JsonValue) -> Option<Seq<char>> {
    match json_get(v, "choices"@) {
        None => None,
        Some(choices) => match json_first_item(choices) {
            None => None,
            Some(choice) => {
                let message = match json_get(choice, "delta"@) {
                    Some(d) => Some(d),
                    None => json_get(choice, "message"@),
                };
                match message {
                    None => None,
                    Some(m) => match json_get(m, "content"@) {
                        None => None,
                        Some(c) => json_as_str(c),
                    },
                }
            },
        },
    }
}

/// What the JSON payload of a `data:` line means: a parse failure is an
/// invalid response, an `error` member is the error it reports, non-empty
/// content is content, and anything else is skipped.
pub open spec fn sse_payload(parsed: Result<JsonValue, Seq<char>>) -> Result<StreamLineView, ProviderErrorView> {
    match parsed {
        Err(e) => Err(ProviderErrorView::InvalidResponse(e)),
        Ok(v) => match json_get(v, "error"@) {
            Some(error) => Err(error_chunk_error(error)),
            None => match chunk_content(v) {
                Some(c) => if c.len() > 0 {
                    Ok(StreamLineView::Content(c))
                } else {
                    Ok(StreamLineView::Skip)
                },
                None => Ok(StreamLineView::Skip),
            },
        },
    }
}

/// What one line of the event stream means. Blank lines, comments (`:`)
/// and lines that are not `data:` lines are skipped; `data: [DONE]` ends the
/// stream; any other data is JSON read by `sse_payload`.
pub open spec fn sse_line(line: Seq<char>) -> Result<StreamLineView, ProviderErrorView> {
    let l = trim(line);
    let prefix = "data:"@;
    if l.len() == 0 || l[0] == ':' {
        Ok(StreamLineView::Skip)
    } else if !(prefix.len() <= l.len() && l.take(prefix.len() as int) == prefix) {
        Ok(StreamLineView::Skip)
    } else {
        let data = trim(l.skip(prefix.len() as int));
        if data == "[DONE]"@ {
            Ok(StreamLineView::Done)
        } else {
            sse_payload(json_parse(data))
        }
    }
}

/// A data payload that reports no error and whose first choice carries a
/// non-empty text is that text exactly, however much of it is whitespace:
/// a token that is only a space or a line break is streamed as it is.
pub proof fn lemma_nonempty_content_is_kept(v: JsonValue, c: Seq<char>)
    requires
        json_get(v, "error"@) is None,
        chunk_content(v) == Some(c),
        c.len() > 0,
    ensures
        sse_payload(Ok(v)) == Ok::<StreamLineView, ProviderErrorView>(StreamLineView::Content(c)),
{
}

/// A `data:` line (surrounding whitespace aside) whose JSON reports no error
/// and carries a non-empty text in its first choice is read as that text.
pub proof fn lemma_data_line_content(line: Seq<char>, v: JsonValue, c: Seq<char>)
    requires
        trim(line).len() >= 5,
        trim(line).take(5) == "data:"@,
        trim(trim(line).skip(5)) != "[DONE]"@,
        json_parse(trim(trim(line).skip(5))) == Ok::<JsonValue, Seq<char>>(v),
        json_get(v, "error"@) is None,
        chunk_content(v) == Some(c),
        c.len() > 0,
    ensures
        sse_line(line) == Ok::<StreamLineView, ProviderErrorView>(StreamLineView::Content(c)),
{
    reveal_strlit("data:");
    assert(trim(line)[0] == trim(line).take(5)[0]);
}

/// Lines that carry nothing are skipped: blank lines, comments (starting
/// with `:` after leading whitespace) and lines that are not `data:` lines;
/// a `data:` line whose payload is `[DONE]` ends the stream, and one whose
/// payload is not JSON is an invalid response with the parser's message.
pub proof fn lemma_line_kinds(line: Seq<char>)
    ensures
        all_whitespace(line) ==> sse_line(line) == Ok::<StreamLineView, ProviderErrorView>(StreamLineView::Skip),
        trim(line).len() > 0 && trim(line)[0] == ':' ==> sse_line(line) == Ok::<StreamLineView, ProviderErrorView>(
            StreamLineView::Skip,
        ),
        !(trim(line).len() >= 5 && trim(line).take(5) == "data:"@) ==> sse_line(line) == Ok::<
            StreamLineView,
            ProviderErrorView,
        >(StreamLineView::Skip),
        trim(line).len() >= 5 && trim(line).take(5) == "data:"@ && trim(trim(line).skip(5)) == "[DONE]"@
            ==> sse_line(line) == Ok::<StreamLineView, ProviderErrorView>(StreamLineView::Done),
        (trim(line).len() >= 5 && trim(line).take(5) == "data:"@ && trim(trim(line).skip(5)) != "[DONE]"@
            && json_parse(trim(trim(line).skip(5))) is Err) ==> sse_line(line) == Err::<
            StreamLineView,
            ProviderErrorView,
        >(ProviderErrorView::InvalidResponse(json_parse(trim(trim(line).skip(5)))->Err_0)),
{
    reveal_strlit("data:");
    lemma_blank_iff_all_whitespace(line);
    if trim(line).len() >= 5 {
        assert(trim(line)[0] == trim(line).take(5)[0]);
    }
}

/// An error chunk is a rate limit exactly when its status is `429`; with
/// any other status it is an upstream failure carrying that status and the
/// chunk's message.
pub proof fn lemma_error_chunk_rate_limit_only_at_429(error: JsonValue)
    ensures
        (error_chunk_error(error) is RateLimited) <==> error_chunk_status(error) == 429,
        error_chunk_status(error) != 429 ==> error_chunk_error(error) == (ProviderErrorView::UpstreamStatus {
            status: error_chunk_status(error),
            message: error_chunk_message(error),
        }),
{
}

/// The status of an error chunk is its numeric `code` when that fits in a
/// `u16`, and `502` when it has no code; its message is its `message` text.
pub proof fn lemma_error_chunk_fields(error: JsonValue, n: u64, m: Seq<char>)
    ensures
        json_get(error, "code"@) == Some(JsonValue::Number(Some(n))) && n <= 65535 ==> error_chunk_status(error)
            == n,
        json_get(error, "code"@) is None ==> error_chunk_status(error) == 502,
        json_get(error, "message"@) matches Some(x) && json_as_str(x) == Some(m) ==> error_chunk_message(error)
            == m,
{
}

/// A `data:` line whose JSON has an `error` member is the error that
/// member reports, whatever else the line holds.
pub proof fn lemma_data_line_error(line: Seq<char>, v: JsonValue, error: JsonValue)
    requires
        trim(line).len() >= 5,
        trim(line).take(5) == "data:"@,
        trim(trim(line).skip(5)) != "[DONE]"@,
        json_parse(trim(trim(line).skip(5))) == Ok::<JsonValue, Seq<char>>(v),
        json_get(v, "error"@) == Some(error),
    ensures
        sse_line(line) == Err::<StreamLineView, ProviderErrorView>(error_chunk_error(error)),
{
    reveal_strlit("data:");
    assert(trim(line)[0] == trim(line).take(5)[0]);
}

pub open spec fn line_result_view(r: Result<OpenRouterStreamLine, ProviderError>) -> Result<StreamLineView, ProviderErrorView> {
    match r {
        Ok(x) => Ok(x@),
        Err(e) => Err(e@),
    }
}

pub open spec fn parsed_view(r: Result<JsonValue, String>) -> Result<JsonValue, Seq<char>> {
    match r {
        Ok(v) => Ok(v),
        Err(e) => Err(e@),
    }
}

proof fn lemma_digits_value_monotone(s: Seq<char>, k: int)
    requires
        0 <= k <= s.len(),
    ensures
        digits_value(s.take(k)) <= digits_value(s),
    decreases s.len() - k,
{
    if k < s.len() {
        lemma_digits_value_monotone(s, k + 1);
        assert(s.take(k + 1).drop_last() =~= s.take(k));
    } else {
        assert(s.take(k) =~= s);
    }
}

/// `str::parse::<u64>`.
pub fn parse_u64(s: &str) -> (r: Option<u64>)
    ensures
        r == parse_u64_spec(s@),
{
    let chars = chars_of(s);
    let start: usize = if chars.len() > 0 && chars[0] == '+' {
        1
    } else {
        0
    };
    let ghost digits = unsigned_digits(s@);
    assert(digits =~= chars@.skip(start as int));
    if start >= chars.len() {
        return None;
    }
    let mut acc: u64 = 0;
    let mut i: usize = start;
    while i < chars.len()
        invariant
            start <= i <= chars.len(),
            start < chars.len(),
            digits == chars@.skip(start as int),
            digits == unsigned_digits(s@),
            forall|j: int| 0 <= j < i - start ==> is_ascii_digit(#[trigger] digits[j]),
            acc == digits_value(digits.take(i - start)),
        decreases chars.len() - i,
    {
        let c = chars[i];
        assert(digits[i - start] == c);
        let v: u32 = c as u32;
        if !(48 <= v && v <= 57) {
            assert(!is_ascii_digit(digits[i - start]));
            return None;
        }
        let d = (v - 48) as u64;
        assert(digits.take(i - start + 1).drop_last() =~= digits.take(i - start));
        if acc > (u64::MAX - d) / 10 {
            proof {
                assert(digits_value(digits.take(i - start + 1)) == acc * 10 + digit_value(c));
                assert(acc * 10 + d > u64::MAX) by (nonlinear_arith)
                    requires
                        acc > (u64::MAX - d) / 10,
                        d <= 9,
                ;
                lemma_digits_value_monotone(digits, i - start + 1);
            }
            return None;
        }
        proof {
            assert(acc * 10 + d <= u64::MAX) by (nonlinear_arith)
                requires
                    acc <= (u64::MAX - d) / 10,
                    d <= 9,
            ;
        }
        acc = acc * 10 + d;
        i += 1;
    }
    assert(digits.take(digits.len() as int) =~= digits);
    Some(acc)
}

/// The error that an `error` member of a stream chunk reports.
pub fn parse_provider_error_chunk(error: &JsonValue) -> (e: ProviderError)
    ensures
        e@ == error_chunk_error(*error),
{
    let code: Option<u64> = match get(error, "code") {
        None => None,
        Some(c) => match as_u64(c) {
            Some(n) => Some(n),
            None => match as_str(c) {
                Some(s) => parse_u64(s),
                None => None,
            },
        },
    };
    let status: u16 = match code {
        Some(n) => if n <= 65535 {
            n as u16
        } else {
            502
        },
        None => 502,
    };
    let message: String = match get(error, "message") {
        Some(m) => match as_str(m) {
            Some(s) => s.to_owned(),
            None => "provider returned an error".to_owned(),
        },
        None => "provider returned an error".to_owned(),
    };
    if status == 429 {
        ProviderError::RateLimited
    } else {
        ProviderError::UpstreamStatus { status, message }
    }
}

fn chunk_content_of(v: &JsonValue) -> (r: Option<&str>)
    ensures
        match r {
            Some(c) => chunk_content(*v) == Some(c@),
            None => chunk_content(*v) is None,
        },
{
    let choices = get(v, "choices")?;
    let choice = first_item(choices)?;
    let message = match get(choice, "delta") {
        Some(d) => d,
        None => get(choice, "message")?,
    };
    let content = get(message, "content")?;
    as_str(content)
}

/// What the parsed JSON payload of a `data:` line means (see `sse_payload`).
pub fn interpret_sse_payload(parsed: Result<JsonValue, String>) -> (r: Result<OpenRouterStreamLine, ProviderError>)
    ensures
        line_result_view(r) == sse_payload(parsed_view(parsed)),
{
    match parsed {
        Err(e) => Err(ProviderError::InvalidResponse(e)),
        Ok(v) => match get(&v, "error") {
            Some(error) => Err(parse_provider_error_chunk(error)),
            None => match chunk_content_of(&v) {
                Some(c) => if char_count(c) > 0 {
                    Ok(OpenRouterStreamLine::Content(c.to_owned()))
                } else {
                    Ok(OpenRouterStreamLine::Skip)
                },
                None => Ok(OpenRouterStreamLine::Skip),
            },
        },
    }
}

/// Reads one line of OpenRouter's event stream (see `sse_line`).
pub fn parse_openrouter_sse_line(line: &str) -> (r: Result<OpenRouterStreamLine, ProviderError>)
    ensures
        line_result_view(r) == sse_line(line@),
{
    let l = trimmed(line);
    let chars = chars_of(l.as_str());
    if chars.len() == 0 || chars[0] == ':' {
        return Ok(OpenRouterStreamLine::Skip);
    }
    if !has_prefix(&chars, "data:") {
        return Ok(OpenRouterStreamLine::Skip);
    }
    let prefix_len = char_count("data:");
    let rest = string_from_range(&chars, prefix_len, chars.len());
    assert(rest@ =~= l@.skip("data:"@.len() as int));
    let data = trimmed(rest.as_str());
    if str_eq(data.as_str(), "[DONE]") {
        return Ok(OpenRouterStreamLine::Done);
    }
    interpret_sse_payload(parse_json(data.as_str()))
}


/// The `Display` text of the error `String::from_utf8` gives for `bytes`.
pub uninterp spec fn utf8_error_text(bytes: Seq<u8>) -> Seq<char>;

/// `String::from_utf8`: its documentation says it fails exactly when the
/// bytes are not valid UTF-8, and otherwise holds the decoded text. The
/// error is returned as its `Display` text, named by `utf8_error_text`.
#[verifier::external_body]
fn decode_utf8_line(bytes: Vec<u8>) -> (r: Result<String, String>)
    ensures
        r is Ok <==> valid_utf8(bytes@),
        r matches Ok(s) ==> s@ == decode_utf8(bytes@),
        r matches Err(e) ==> e@ == utf8_error_text(bytes@),
{
    String::from_utf8(bytes).map_err(|error| error.to_string())
}

/// What one raw line of the stream means: text that is not UTF-8 is an
/// invalid response, and valid text is read by `sse_line`.
pub open spec fn line_outcome(bytes: Seq<u8>) -> Result<StreamLineView, ProviderErrorView> {
    if valid_utf8(bytes) {
        sse_line(decode_utf8(bytes))
    } else {
        Err(ProviderErrorView::InvalidResponse(utf8_error_text(bytes)))
    }
}

/// The index of the first `\n` in `buf` at or after `i`, or `buf.len()`.
pub open spec fn newline_from(buf: Seq<u8>, i: int) -> int
    decreases buf.len() - i,
{
    if i >= buf.len() {
        buf.len() as int
    } else if buf[i] == 10u8 {
        i
    } else {
        newline_from(buf, i + 1)
    }
}

pub proof fn lemma_newline_from(buf: Seq<u8>, i: int)
    requires
        0 <= i,
    ensures
        i <= newline_from(buf, i) || (i > buf.len() && newline_from(buf, i) == buf.len()),
        newline_from(buf, i) <= buf.len() || i > buf.len(),
        newline_from(buf, i) < buf.len() ==> buf[newline_from(buf, i)] == 10u8,
        forall|j: int| i <= j < newline_from(buf, i) && j < buf.len() ==> buf[j] != 10u8,
    decreases buf.len() - i,
{
    if i < buf.len() && buf[i] != 10u8 {
        lemma_newline_from(buf, i + 1);
    }
}

/// What the decoder reports of the bytes after a position: the contents of
/// the complete lines, in order, up to the first failing line (`error`) or
/// the `[DONE]` line (`done`), and the bytes left after the last line read.
pub struct ScanView {
    pub contents: Seq<Seq<char>>,
    pub error: Option<ProviderErrorView>,
    pub done: bool,
    pub rest: Seq<u8>,
}

/// Reads the complete (newline-terminated) lines of `buf` from `pos` on.
pub open spec fn scan(buf: Seq<u8>, pos: int) -> ScanView
    decreases buf.len() - pos,
{
    if pos < 0 {
        ScanView { contents: seq![], error: None, done: false, rest: buf }
    } else if pos >= buf.len() {
        ScanView { contents: seq![], error: None, done: false, rest: seq![] }
    } else {
        let i = newline_from(buf, pos);
        if i >= buf.len() {
            ScanView { contents: seq![], error: None, done: false, rest: buf.skip(pos) }
        } else {
            proof {
                lemma_newline_from(buf, pos);
            }
            let line = buf.subrange(pos, i + 1);
            match line_outcome(line) {
                Err(e) => ScanView {
                    contents: seq![],
                    error: Some(e),
                    done: false,
                    rest: buf.skip(i + 1),
                },
                Ok(StreamLineView::Done) => ScanView {
                    contents: seq![],
                    error: None,
                    done: true,
                    rest: buf.skip(i + 1),
                },
                Ok(StreamLineView::Skip) => scan(buf, i + 1),
                Ok(StreamLineView::Content(c)) => {
                    let r = scan(buf, i + 1);
                    ScanView { contents: seq![c].add(r.contents), error: r.error, done: r.done, rest: r.rest }
                },
            }
        }
    }
}

/// `u8::is_ascii_whitespace`: space, tab, line feed, form feed, carriage return.
pub open spec fn is_ascii_whitespace_byte(b: u8) -> bool {
    b == 0x20u8 || b == 0x09u8 || b == 0x0au8 || b == 0x0cu8 || b == 0x0du8
}

pub open spec fn interrupted_error() -> ProviderErrorView {
    ProviderErrorView::Interrupted("stream ended before [DONE]"@)
}

/// What the end of the stream gives: nothing once `[DONE]` was read;
/// otherwise the bytes left over are read as a last line (unless they are
/// all ASCII whitespace), and the stream was interrupted unless that line
/// is `[DONE]`.
pub open spec fn finish_spec(done: bool, rest: Seq<u8>) -> (Seq<Seq<char>>, Option<ProviderErrorView>) {
    if done {
        (seq![], None)
    } else if forall|j: int| 0 <= j < rest.len() ==> is_ascii_whitespace_byte(#[trigger] rest[j]) {
        (seq![], Some(interrupted_error()))
    } else {
        match line_outcome(rest) {
            Err(e) => (seq![], Some(e)),
            Ok(StreamLineView::Content(c)) => (seq![c], Some(interrupted_error())),
            Ok(StreamLineView::Done) => (seq![], None),
            Ok(StreamLineView::Skip) => (seq![], Some(interrupted_error())),
        }
    }
}

/// What the decoder hands on after reading bytes: the contents to emit in
/// order, then the error that ends the stream, if any; `done` once the
/// `[DONE]` line was read.
#[derive(Debug, Clone, PartialEq, Eq)]
pub struct SseBatch {
    pub contents: Vec<String>,
    pub error: Option<ProviderError>,
    pub done: bool,
}

pub open spec fn contents_view(contents: Seq<String>) -> Seq<Seq<char>> {
    contents.map_values(|c: String| c@)
}

pub open spec fn error_view(error: Option<ProviderError>) -> Option<ProviderErrorView> {
    match error {
        Some(e) => Some(e@),
        None => None,
    }
}

/// Cuts OpenRouter's event stream, which arrives in chunks of bytes, into
/// lines, and reads each complete line as it arrives.
pub struct SseDecoder {
    buffer: Vec<u8>,
    done: bool,
    failed: bool,
}

impl SseDecoder {
    /// The bytes received after the last complete line.
    pub closed spec fn pending(&self) -> Seq<u8> {
        self.buffer@
    }

    /// Whether the `[DONE]` line was read.
    pub closed spec fn is_done(&self) -> bool {
        self.done
    }

    /// Whether a line failed, which ends the stream.
    pub closed spec fn has_failed(&self) -> bool {
        self.failed
    }

    pub fn new() -> (d: SseDecoder)
        ensures
            d.pending() == Seq::<u8>::empty(),
            !d.is_done(),
            !d.has_failed(),
    {
        SseDecoder { buffer: Vec::new(), done: false, failed: false }
    }

    /// Whether the `[DONE]` line was read.
    pub fn done(&self) -> (b: bool)
        ensures
            b == self.is_done(),
    {
        self.done
    }

    /// Reads a chunk: the complete lines of the pending bytes and the chunk
    /// are read in order (see `scan`); the bytes after the last of them stay
    /// pending.
    pub fn push_chunk(&mut self, chunk: &[u8]) -> (out: SseBatch)
        requires
            !old(self).is_done(),
            !old(self).has_failed(),
        ensures
            ({
                let s = scan(old(self).pending() + chunk@, 0);
                &&& contents_view(out.contents@) == s.contents
                &&& error_view(out.error) == s.error
                &&& out.done == s.done
                &&& final(self).pending() == s.rest
                &&& final(self).is_done() == s.done
                &&& final(self).has_failed() == (s.error is Some)
            }),
    {
        let mut buf: Vec<u8> = Vec::new();
        let mut k: usize = 0;
        while k < self.buffer.len()
            invariant
                k <= self.buffer.len(),
                buf@ == self.buffer@.take(k as int),
            decreases self.buffer.len() - k,
        {
            buf.push(self.buffer[k]);
            k += 1;
            assert(self.buffer@.take(k as int) =~= self.buffer@.take((k - 1) as int).push(self.buffer@[k - 1]));
        }
        assert(self.buffer@.take(k as int) =~= self.buffer@);
        let mut k: usize = 0;
        while k < chunk.len()
            invariant
                k <= chunk.len(),
                buf@ == old(self).buffer@ + chunk@.take(k as int),
            decreases chunk.len() - k,
        {
            buf.push(chunk[k]);
            k += 1;
            assert(chunk@.take(k as int) =~= chunk@.take((k - 1) as int).push(chunk@[k - 1]));
        }
        assert(chunk@.take(k as int) =~= chunk@);
        let ghost all = buf@;
        assert(all == old(self).pending() + chunk@);
        let mut contents: Vec<String> = Vec::new();
        let mut pos: usize = 0;
        assert(contents_view(contents@) =~= Seq::<Seq<char>>::empty());
        assert(scan(all, 0).contents =~= contents_view(contents@) + scan(all, 0).contents);
        loop
            invariant
                buf@ == all,
                all == old(self).pending() + chunk@,
                pos <= buf.len(),
                scan(all, 0).contents == contents_view(contents@) + scan(all, pos as int).contents,
                scan(all, 0).error == scan(all, pos as int).error,
                scan(all, 0).done == scan(all, pos as int).done,
                scan(all, 0).rest == scan(all, pos as int).rest,
            decreases buf.len() - pos,
        {
            let i = find_newline(&buf, pos);
            proof {
                lemma_newline_from(all, pos as int);
            }
            if i >= buf.len() {
                self.buffer = copy_range(&buf, pos, buf.len());
                assert(all.subrange(pos as int, all.len() as int) =~= all.skip(pos as int));
                self.done = false;
                self.failed = false;
                assert(contents_view(contents@) + seq![] =~= contents_view(contents@));
                return SseBatch { contents, error: None, done: false };
            }
            let line = copy_range(&buf, pos, i + 1);
            let outcome = match decode_utf8_line(line) {
                Err(text) => Err(ProviderError::InvalidResponse(text)),
                Ok(text) => parse_openrouter_sse_line(text.as_str()),
            };
            assert(line_result_view(outcome) == line_outcome(all.subrange(pos as int, i + 1)));
            match outcome {
                Err(e) => {
                    self.buffer = copy_range(&buf, i + 1, buf.len());
                    assert(all.subrange(i + 1, all.len() as int) =~= all.skip(i + 1));
                    self.done = false;
                    self.failed = true;
                    assert(contents_view(contents@) + seq![] =~= contents_view(contents@));
                    return SseBatch { contents, error: Some(e), done: false };
                },
                Ok(OpenRouterStreamLine::Done) => {
                    self.buffer = copy_range(&buf, i + 1, buf.len());
                    assert(all.subrange(i + 1, all.len() as int) =~= all.skip(i + 1));
                    self.done = true;
                    self.failed = false;
                    assert(contents_view(contents@) + seq![] =~= contents_view(contents@));
                    return SseBatch { contents, error: None, done: true };
                },
                Ok(OpenRouterStreamLine::Skip) => {},
                Ok(OpenRouterStreamLine::Content(c)) => {
                    let ghost before = contents_view(contents@);
                    let ghost cv = c@;
                    contents.push(c);
                    assert(contents_view(contents@) =~= before.push(cv));
                    assert(before + (seq![cv] + scan(all, i + 1).contents) =~= before.push(cv) + scan(
                        all,
                        i + 1,
                    ).contents);
                },
            }
            pos = i + 1;
        }
    }

    /// The end of the stream (see `finish_spec`).
    pub fn finish(self) -> (out: SseBatch)
        requires
            !self.has_failed(),
        ensures
            contents_view(out.contents@) == finish_spec(self.is_done(), self.pending()).0,
            error_view(out.error) == finish_spec(self.is_done(), self.pending()).1,
            out.done == (self.is_done() || finish_spec(self.is_done(), self.pending()).1 is None),
    {
        let mut contents: Vec<String> = Vec::new();
        if self.done {
            assert(contents_view(contents@) =~= Seq::<Seq<char>>::empty());
            return SseBatch { contents, error: None, done: true };
        }
        let mut all_space = true;
        let mut k: usize = 0;
        while k < self.buffer.len()
            invariant
                k <= self.buffer.len(),
                all_space == (forall|j: int| 0 <= j < k ==> is_ascii_whitespace_byte(#[trigger] self.buffer@[j])),
            decreases self.buffer.len() - k,
        {
            let b = self.buffer[k];
            if !(b == 0x20u8 || b == 0x09u8 || b == 0x0au8 || b == 0x0cu8 || b == 0x0du8) {
                all_space = false;
            }
            k += 1;
        }
        if all_space {
            assert(contents_view(contents@) =~= Seq::<Seq<char>>::empty());
            return SseBatch {
                contents,
                error: Some(ProviderError::Interrupted("stream ended before [DONE]".to_owned())),
                done: false,
            };
        }
        let outcome = match decode_utf8_line(self.buffer) {
            Err(text) => Err(ProviderError::InvalidResponse(text)),
            Ok(text) => parse_openrouter_sse_line(text.as_str()),
        };
        match outcome {
            Err(e) => {
                assert(contents_view(contents@) =~= Seq::<Seq<char>>::empty());
                SseBatch { contents, error: Some(e), done: false }
            },
            Ok(OpenRouterStreamLine::Done) => {
                assert(contents_view(contents@) =~= Seq::<Seq<char>>::empty());
                SseBatch { contents, error: None, done: true }
            },
            Ok(OpenRouterStreamLine::Skip) => {
                assert(contents_view(contents@) =~= Seq::<Seq<char>>::empty());
                SseBatch {
                    contents,
                    error: Some(ProviderError::Interrupted("stream ended before [DONE]".to_owned())),
                    done: false,
                }
            },
            Ok(OpenRouterStreamLine::Content(c)) => {
                let ghost cv = c@;
                contents.push(c);
                assert(contents_view(contents@) =~= seq![cv]);
                SseBatch {
                    contents,
                    error: Some(ProviderError::Interrupted("stream ended before [DONE]".to_owned())),
                    done: false,
                }
            },
        }
    }
}

fn find_newline(buf: &Vec<u8>, from: usize) -> (i: usize)
    requires
        from <= buf.len(),
    ensures
        i == newline_from(buf@, from as int),
{
    let mut i = from;
    while i < buf.len() && buf[i] != 10u8
        invariant
            from <= i <= buf.len(),
            newline_from(buf@, from as int) == newline_from(buf@, i as int),
        decreases buf.len() - i,
    {
        i += 1;
    }
    i
}

fn copy_range(buf: &Vec<u8>, start: usize, end: usize) -> (out: Vec<u8>)
    requires
        start <= end <= buf.len(),
    ensures
        out@ == buf@.subrange(start as int, end as int),
{
    let mut out: Vec<u8> = Vec::new();
    let mut k = start;
    while k < end
        invariant
            start <= k <= end <= buf.len(),
            out@ == buf@.subrange(start as int, k as int),
        decreases end - k,
    {
        out.push(buf[k]);
        k += 1;
        assert(buf@.subrange(start as int, k as int) =~= buf@.subrange(start as int, (k - 1) as int).push(
            buf@[k - 1],
        ));
    }
    out
}


proof fn lemma_newline_shift(x: Seq<u8>, p: int, k: int)
    requires
        0 <= p <= x.len(),
        0 <= k,
    ensures
        newline_from(x, p + k) == p + newline_from(x.skip(p), k),
    decreases x.len() - p - k,
{
    if p + k < x.len() {
        assert(x.skip(p)[k] == x[p + k]);
        if x[p + k] != 10u8 {
            lemma_newline_shift(x, p, k + 1);
        }
    }
}

proof fn lemma_scan_shift(x: Seq<u8>, p: int, k: int)
    requires
        0 <= p <= x.len(),
        0 <= k,
    ensures
        scan(x, p + k) == scan(x.skip(p), k),
    decreases x.len() - p - k,
{
    let y = x.skip(p);
    if p + k >= x.len() {
    } else {
        lemma_newline_shift(x, p, k);
        lemma_newline_from(x, p + k);
        let i = newline_from(x, p + k);
        if i < x.len() {
            assert(x.subrange(p + k, i + 1) =~= y.subrange(k, i - p + 1));
            assert(x.skip(i + 1) =~= y.skip(i - p + 1));
            lemma_scan_shift(x, p, i - p + 1);
        } else {
            assert(x.skip(p + k) =~= y.skip(k));
        }
    }
}

proof fn lemma_newline_prefix(a: Seq<u8>, b: Seq<u8>, pos: int)
    requires
        0 <= pos,
        newline_from(a, pos) < a.len(),
    ensures
        newline_from(a + b, pos) == newline_from(a, pos),
    decreases a.len() - pos,
{
    if pos < a.len() && a[pos] != 10u8 {
        lemma_newline_prefix(a, b, pos + 1);
    }
}

proof fn lemma_scan_split(a: Seq<u8>, b: Seq<u8>, pos: int)
    requires
        0 <= pos <= a.len(),
        scan(a, pos).error is None,
        !scan(a, pos).done,
    ensures
        ({
            let first = scan(a, pos);
            let second = scan(first.rest + b, 0);
            let whole = scan(a + b, pos);
            &&& whole.contents == first.contents + second.contents
            &&& whole.error == second.error
            &&& whole.done == second.done
            &&& whole.rest == second.rest
        }),
    decreases a.len() - pos,
{
    let first = scan(a, pos);
    lemma_newline_from(a, pos);
    let i = newline_from(a, pos);
    if pos == a.len() || i >= a.len() {
        assert((a + b).skip(pos) =~= a.skip(pos) + b);
        lemma_scan_shift(a + b, pos, 0);
        assert(first.contents =~= Seq::<Seq<char>>::empty());
        assert(first.contents + scan(first.rest + b, 0).contents =~= scan(first.rest + b, 0).contents);
    } else {
        lemma_newline_prefix(a, b, pos);
        assert((a + b).subrange(pos, i + 1) =~= a.subrange(pos, i + 1));
        lemma_scan_split(a, b, i + 1);
        match line_outcome(a.subrange(pos, i + 1)) {
            Ok(StreamLineView::Content(c)) => {
                let r = scan(a, i + 1);
                let second = scan(r.rest + b, 0);
                assert(seq![c] + (r.contents + second.contents) =~= (seq![c] + r.contents)
                    + second.contents);
            },
            _ => {},
        }
    }
}

/// Whether `s` holds no line feed.
pub open spec fn no_newline(s: Seq<u8>) -> bool {
    forall|j: int| 0 <= j < s.len() ==> s[j] != 10u8
}

/// What a decoder holding `pending` reads from `chunks` handed to
/// `push_chunk` one after another: each chunk is read with the bytes left
/// pending before it, and the first failing line or `[DONE]` ends the
/// reading, after which no chunk is read.
pub open spec fn feed(pending: Seq<u8>, chunks: Seq<Seq<u8>>) -> ScanView
    decreases chunks.len(),
{
    if chunks.len() == 0 {
        ScanView { contents: seq![], error: None, done: false, rest: pending }
    } else {
        let first = scan(pending + chunks[0], 0);
        if first.error is Some || first.done {
            first
        } else {
            let next = feed(first.rest, chunks.drop_first());
            ScanView {
                contents: first.contents + next.contents,
                error: next.error,
                done: next.done,
                rest: next.rest,
            }
        }
    }
}

/// What a whole stream gives once its bytes have ended: the contents read,
/// then those of `finish` unless a failing line or `[DONE]` already ended
/// it, and the error that ends it, if any.
pub open spec fn stream_outcome(s: ScanView) -> (Seq<Seq<char>>, Option<ProviderErrorView>) {
    if s.error is Some || s.done {
        (s.contents, s.error)
    } else {
        let last = finish_spec(false, s.rest);
        (s.contents + last.0, last.1)
    }
}

proof fn lemma_scan_no_newline(s: Seq<u8>)
    requires
        no_newline(s),
    ensures
        scan(s, 0) == (ScanView { contents: seq![], error: None, done: false, rest: s }),
{
    if s.len() == 0 {
        assert(s =~= seq![]);
    } else {
        lemma_newline_from(s, 0);
        assert(s.skip(0) =~= s);
    }
}

proof fn lemma_scan_rest_no_newline(buf: Seq<u8>, pos: int)
    requires
        0 <= pos,
        scan(buf, pos).error is None,
        !scan(buf, pos).done,
    ensures
        no_newline(scan(buf, pos).rest),
    decreases buf.len() - pos,
{
    if pos < buf.len() {
        lemma_newline_from(buf, pos);
        let i = newline_from(buf, pos);
        if i >= buf.len() {
            assert forall|j: int| 0 <= j < buf.skip(pos).len() implies buf.skip(pos)[j] != 10u8 by {
                assert(buf.skip(pos)[j] == buf[pos + j]);
            }
        } else {
            lemma_scan_rest_no_newline(buf, i + 1);
        }
    }
}

proof fn lemma_scan_stop(a: Seq<u8>, b: Seq<u8>, pos: int)
    requires
        0 <= pos,
        scan(a, pos).error is Some || scan(a, pos).done,
    ensures
        scan(a + b, pos).contents == scan(a, pos).contents,
        scan(a + b, pos).error == scan(a, pos).error,
        scan(a + b, pos).done == scan(a, pos).done,
    decreases a.len() - pos,
{
    lemma_newline_from(a, pos);
    let i = newline_from(a, pos);
    lemma_newline_prefix(a, b, pos);
    lemma_newline_from(a + b, pos);
    assert((a + b).subrange(pos, i + 1) =~= a.subrange(pos, i + 1));
    match line_outcome(a.subrange(pos, i + 1)) {
        Ok(StreamLineView::Skip) => {
            lemma_scan_stop(a, b, i + 1);
        },
        Ok(StreamLineView::Content(c)) => {
            lemma_scan_stop(a, b, i + 1);
        },
        _ => {},
    }
}

proof fn lemma_feed_scan(pending: Seq<u8>, chunks: Seq<Seq<u8>>)
    requires
        no_newline(pending),
    ensures
        ({
            let fed = feed(pending, chunks);
            let whole = scan(pending + chunks.flatten(), 0);
            &&& fed.contents == whole.contents
            &&& fed.error == whole.error
            &&& fed.done == whole.done
            &&& (whole.error is None && !whole.done) ==> fed.rest == whole.rest
        }),
    decreases chunks.len(),
{
    if chunks.len() == 0 {
        assert(pending + chunks.flatten() =~= pending);
        lemma_scan_no_newline(pending);
    } else {
        let a = pending + chunks[0];
        let b = chunks.drop_first().flatten();
        assert(pending + chunks.flatten() =~= a + b);
        let first = scan(a, 0);
        if first.error is Some || first.done {
            lemma_scan_stop(a, b, 0);
        } else {
            lemma_scan_split(a, b, 0);
            lemma_scan_rest_no_newline(a, 0);
            lemma_feed_scan(first.rest, chunks.drop_first());
        }
    }
}

/// Cutting the stream into chunks does not change what is read of it: a
/// new decoder fed any chunks reads the contents, error and `[DONE]` that
/// reading all their bytes at once gives (and, while the stream goes on,
/// keeps the same bytes pending), and so the whole stream, once ended,
/// gives the same contents and error.
pub proof fn lemma_chunking_does_not_matter(chunks: Seq<Seq<u8>>)
    ensures
        ({
            let fed = feed(seq![], chunks);
            let whole = scan(chunks.flatten(), 0);
            &&& fed.contents == whole.contents
            &&& fed.error == whole.error
            &&& fed.done == whole.done
            &&& (whole.error is None && !whole.done) ==> fed.rest == whole.rest
            &&& stream_outcome(fed) == stream_outcome(whole)
        }),
{
    assert(Seq::<u8>::empty() + chunks.flatten() =~= chunks.flatten());
    lemma_feed_scan(seq![], chunks);
}

/// Two ways of cutting the same bytes into chunks give the same stream:
/// the same contents, error and `[DONE]` while reading, and the same
/// contents and error once it has ended.
pub proof fn lemma_same_bytes_same_stream(x: Seq<Seq<u8>>, y: Seq<Seq<u8>>)
    requires
        x.flatten() == y.flatten(),
    ensures
        feed(seq![], x).contents == feed(seq![], y).contents,
        feed(seq![], x).error == feed(seq![], y).error,
        feed(seq![], x).done == feed(seq![], y).done,
        stream_outcome(feed(seq![], x)) == stream_outcome(feed(seq![], y)),
{
    lemma_chunking_does_not_matter(x);
    lemma_chunking_does_not_matter(y);
}

} // verus!
