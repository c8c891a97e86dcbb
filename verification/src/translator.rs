//! The AI channel: request details for an OpenAI-compatible chat endpoint and
//! the decoder for its streamed (server-sent events) reply.
use vstd::prelude::*;

use crate::json::{json_str_at, json_string_at, key, path_of, JsonPathItem, JsonStep};
use crate::text::{blank, chars_of, chars_eq, is_blank, trim, trim_str};

verus! {

/// Error when no API key is configured.
pub const MISSING_API_KEY: &'static str = "尚未配置 API Key，请在托盘图标 → 设置中填写";

/// Refuses to call the API without a key.
pub fn check_api_key(api_key: &str) -> (r: Result<(), String>)
    ensures
        is_blank(api_key@) ==> r is Err && r->Err_0@ == MISSING_API_KEY@,
        !is_blank(api_key@) ==> r is Ok,
{
    if blank(api_key) {
        Err(String::from_str(MISSING_API_KEY))
    } else {
        Ok(())
    }
}

/// The path of the chat endpoint.
pub const CHAT_COMPLETIONS_PATH: &'static str = "/chat/completions";

/// `s` without its trailing `c` characters.
pub open spec fn strip_trailing(s: Seq<char>, c: char) -> Seq<char>
    decreases s.len(),
{
    if s.len() > 0 && s.last() == c {
        strip_trailing(s.drop_last(), c)
    } else {
        s
    }
}

/// Whether `s` ends with `suffix`.
pub open spec fn ends_with(s: Seq<char>, suffix: Seq<char>) -> bool {
    s.len() >= suffix.len() && s.subrange(s.len() - suffix.len(), s.len() as int) == suffix
}

/// The chat endpoint for a configured base address: the address trimmed and
/// without trailing slashes, followed by `/chat/completions` unless it already
/// ends with it.
pub open spec fn spec_chat_url(api_base: Seq<char>) -> Seq<char> {
    let base = strip_trailing(trim(api_base), '/');
    if ends_with(base, CHAT_COMPLETIONS_PATH@) {
        base
    } else {
        base + CHAT_COMPLETIONS_PATH@
    }
}

/// The chat endpoint URL; accepts both "https://host/v1" and the full
/// ".../chat/completions" address.
pub fn chat_completions_url(api_base: &str) -> (r: String)
    ensures
        r@ == spec_chat_url(api_base@),
{
    let t = trim_str(api_base);
    let v = chars_of(t);
    let mut j: usize = v.len();
    assert(v@.take(j as int) =~= v@);
    while j > 0 && v[j - 1] == '/'
        invariant
            v@ == t@,
            j <= v@.len(),
            strip_trailing(t@, '/') == strip_trailing(v@.take(j as int), '/'),
        decreases j,
    {
        assert(v@.take(j as int).drop_last() =~= v@.take(j - 1));
        j = j - 1;
    }
    let base = t.substring_char(0, j);
    assert(base@ =~= v@.take(j as int));
    let suffix = chars_of(CHAT_COMPLETIONS_PATH);
    let n = suffix.len();
    let mut ends = j >= n;
    if ends {
        let mut k: usize = 0;
        while k < n
            invariant
                v@ == t@,
                j <= v@.len(),
                n == suffix@.len(),
                j >= n,
                k <= n,
                ends == forall|m: int| 0 <= m < k ==> v@[j - n + m] == suffix@[m],
            decreases n - k,
        {
            if v[j - n + k] != suffix[k] {
                ends = false;
            }
            k = k + 1;
        }
        assert(ends == (base@.subrange(base@.len() - n, base@.len() as int) =~= suffix@));
    }
    let mut r = String::from_str(base);
    if !ends {
        r.append(CHAT_COMPLETIONS_PATH);
    }
    r
}

/// Extra system instruction for a screenshot: read the text in the image
/// first, then translate it by the same rules.
pub const IMAGE_INSTRUCTION: &'static str = "用户消息是一张屏幕截图：先识别图中文字，再按上述规则翻译；忽略按钮、菜单等界面装饰元素，只输出正文的译文。";

/// The system prompt for translating a screenshot: the configured prompt, a
/// line break, then `IMAGE_INSTRUCTION`.
pub fn image_system_prompt(system_prompt: &str) -> (r: String)
    ensures
        r@ == system_prompt@ + "\n"@ + IMAGE_INSTRUCTION@,
{
    let mut r = String::from_str(system_prompt);
    r.append("\n");
    r.append(IMAGE_INSTRUCTION);
    r
}

/// The data URL under which a PNG screenshot is sent.
pub fn png_data_url(png_base64: &str) -> (r: String)
    ensures
        r@ == "data:image/png;base64,"@ + png_base64@,
{
    let mut r = String::from_str("data:image/png;base64,");
    r.append(png_base64);
    r
}

/// Hint added to a 4xx error of a screenshot translation: most likely the
/// model does not take images.
pub const VISION_HINT: &'static str = "\n\n若提示不支持图片输入，请在设置中更换支持视觉的模型（如 gpt-5.5、qwen-vl-max、glm-4.5v）";

/// Errors that start with this came with a 4xx status.
pub const CLIENT_ERROR_PREFIX: &'static str = "接口返回 4";

/// Whether `s` begins with `prefix`.
pub open spec fn starts_with(s: Seq<char>, prefix: Seq<char>) -> bool {
    s.len() >= prefix.len() && s.take(prefix.len() as int) == prefix
}

/// Whether the characters of `s` begin with those of `prefix`.
pub fn has_prefix(s: &[char], prefix: &[char]) -> (r: bool)
    ensures
        r == starts_with(s@, prefix@),
{
    if s.len() < prefix.len() {
        return false;
    }
    let mut k: usize = 0;
    while k < prefix.len()
        invariant
            s@.len() >= prefix@.len(),
            k <= prefix@.len(),
            forall|m: int| 0 <= m < k ==> s@[m] == prefix@[m],
        decreases prefix@.len() - k,
    {
        if s[k] != prefix[k] {
            assert(s@.take(prefix@.len() as int)[k as int] != prefix@[k as int]);
            return false;
        }
        k = k + 1;
    }
    assert(s@.take(prefix@.len() as int) =~= prefix@);
    true
}

/// The error shown for a failed screenshot translation: a 4xx error gets the
/// hint about vision models appended.
pub fn image_error_message(msg: String) -> (r: String)
    ensures
        starts_with(msg@, CLIENT_ERROR_PREFIX@) ==> r@ == msg@ + VISION_HINT@,
        !starts_with(msg@, CLIENT_ERROR_PREFIX@) ==> r@ == msg@,
{
    let v = chars_of(msg.as_str());
    let p = chars_of(CLIENT_ERROR_PREFIX);
    if has_prefix(v.as_slice(), p.as_slice()) {
        let mut r = msg;
        r.append(VISION_HINT);
        r
    } else {
        msg
    }
}

/// How many characters of an error body the AI channel quotes.
pub const AI_ERROR_DETAIL_CHARS: usize = 300;

/// Prefix of the error when the request cannot be sent.
pub const REQUEST_FAILED: &'static str = "请求失败：";

/// Prefix of the error when the reply stream breaks off.
pub const STREAM_FAILED: &'static str = "读取响应流失败：";

/// Error when the stream ends without any text.
pub const EMPTY_REPLY: &'static str = "接口未返回内容，请检查接口地址与模型名是否正确";


/// What `String::from_utf8_lossy` gives for `bytes` (invalid sequences become
/// U+FFFD), a function of `bytes` alone.
pub uninterp spec fn lossy_utf8(bytes: Seq<u8>) -> Seq<char>;

/// Whether every byte is below 128 (ASCII).
pub open spec fn ascii_bytes(bytes: Seq<u8>) -> bool {
    forall|i: int| 0 <= i < bytes.len() ==> bytes[i] < 128
}

/// The characters that ASCII bytes encode, one per byte.
pub open spec fn ascii_chars(bytes: Seq<u8>) -> Seq<char> {
    bytes.map_values(|b: u8| b as char)
}

/// The text of `bytes` decoded as UTF-8, invalid sequences replaced: ASCII
/// bytes give one character each; other bytes follow `lossy_utf8`.
pub open spec fn decoded(bytes: Seq<u8>) -> Seq<char> {
    if ascii_bytes(bytes) {
        ascii_chars(bytes)
    } else {
        lossy_utf8(bytes)
    }
}

/// Calls `String::from_utf8_lossy`. Valid UTF-8 comes back unchanged, so ASCII
/// bytes give one character each; for other bytes the text is taken to be
/// `lossy_utf8(bytes)`.
#[verifier::external_body]
fn decode_lossy(bytes: &[u8]) -> (r: String)
    ensures
        ascii_bytes(bytes@) ==> r@ == ascii_chars(bytes@),
        !ascii_bytes(bytes@) ==> r@ == lossy_utf8(bytes@),
{
    String::from_utf8_lossy(bytes).into_owned()
}

/// Where a streamed event's JSON payload carries the new text:
/// `choices[0].delta.content`.
pub open spec fn sse_content_path() -> Seq<JsonPathItem> {
    seq![
        JsonPathItem::Key("choices"@),
        JsonPathItem::Index(0),
        JsonPathItem::Key("delta"@),
        JsonPathItem::Key("content"@),
    ]
}

/// The path `choices / 0 / delta / content`.
pub fn content_path() -> (p: Vec<JsonStep>)
    ensures
        path_of(p@) == sse_content_path(),
{
    let mut p: Vec<JsonStep> = Vec::new();
    p.push(key("choices"));
    p.push(JsonStep::Index(0));
    p.push(key("delta"));
    p.push(key("content"));
    assert(path_of(p@) =~= sse_content_path());
    p
}

/// What one line of the stream means.
pub enum SseLine {
    /// Not a data line, or one without text.
    Skip,
    /// The end-of-stream marker.
    Done,
    /// A piece of the translation.
    Text(Seq<char>),
}

/// The marker that ends the stream.
pub const DONE_MARKER: &'static str = "[DONE]";

/// The field name that starts a data line.
pub const DATA_FIELD: &'static str = "data:";

/// The payload of a decoded line: after trimming it must start with `data:`;
/// what follows, trimmed, is the payload.
pub open spec fn sse_payload_of(text: Seq<char>) -> Option<Seq<char>> {
    let t = trim(text);
    if starts_with(t, DATA_FIELD@) {
        Some(trim(t.skip(DATA_FIELD@.len() as int)))
    } else {
        None
    }
}

/// The payload of a line of the stream, decoded as UTF-8 (lossily).
pub open spec fn sse_data(line: Seq<u8>) -> Option<Seq<char>> {
    sse_payload_of(decoded(line))
}

/// The meaning of a line: `[DONE]` ends the stream; a payload with a
/// non-empty text adds that text; everything else is skipped.
pub open spec fn sse_line(line: Seq<u8>) -> SseLine {
    match sse_data(line) {
        None => SseLine::Skip,
        Some(d) => if d == DONE_MARKER@ {
            SseLine::Done
        } else {
            match json_string_at(d, sse_content_path()) {
                Some(t) => if t.len() > 0 {
                    SseLine::Text(t)
                } else {
                    SseLine::Skip
                },
                None => SseLine::Skip,
            }
        },
    }
}

/// The complete lines of a byte stream (each with its `\n`) and the
/// incomplete tail after the last `\n`.
pub open spec fn split_stream(bytes: Seq<u8>) -> (Seq<Seq<u8>>, Seq<u8>)
    decreases bytes.len(),
{
    if bytes.len() == 0 {
        (Seq::<Seq<u8>>::empty(), Seq::<u8>::empty())
    } else {
        let (lines, tail) = split_stream(bytes.drop_last());
        let t = tail.push(bytes.last());
        if bytes.last() == 10u8 {
            (lines.push(t), Seq::<u8>::empty())
        } else {
            (lines, t)
        }
    }
}

/// The texts that complete lines yield, in order, and whether the end marker
/// came; lines after the marker are ignored.
pub open spec fn sse_read(lines: Seq<Seq<u8>>) -> (Seq<Seq<char>>, bool)
    decreases lines.len(),
{
    if lines.len() == 0 {
        (Seq::<Seq<char>>::empty(), false)
    } else {
        let (texts, done) = sse_read(lines.drop_last());
        if done {
            (texts, true)
        } else {
            match sse_line(lines.last()) {
                SseLine::Skip => (texts, false),
                SseLine::Done => (texts, true),
                SseLine::Text(t) => (texts.push(t), false),
            }
        }
    }
}

/// The texts a byte stream yields so far, and whether it has ended.
pub open spec fn sse_progress(bytes: Seq<u8>) -> (Seq<Seq<char>>, bool) {
    sse_read(split_stream(bytes).0)
}

/// The pieces of `xs` one after another.
pub open spec fn concat(xs: Seq<Seq<char>>) -> Seq<char>
    decreases xs.len(),
{
    if xs.len() == 0 {
        Seq::<char>::empty()
    } else {
        concat(xs.drop_last()) + xs.last()
    }
}

/// What the decoder found on one line.
#[derive(Debug)]
pub enum SseEvent {
    Skip,
    Done,
    Text(String),
}

/// The payload of a decoded line, if it is a data line.
pub fn sse_payload(text: &str) -> (r: Option<&str>)
    ensures
        match sse_payload_of(text@) {
            Some(d) => r is Some && r->0@ == d,
            None => r is None,
        },
{
    let t = trim_str(text);
    let tv = chars_of(t);
    let field = chars_of(DATA_FIELD);
    if !has_prefix(tv.as_slice(), field.as_slice()) {
        return None;
    }
    let rest = t.substring_char(field.len(), tv.len());
    assert(rest@ =~= t@.skip(DATA_FIELD@.len() as int));
    Some(trim_str(rest))
}

/// Reads one complete line of the stream.
pub fn read_sse_line(line: &[u8]) -> (r: SseEvent)
    ensures
        match sse_line(line@) {
            SseLine::Skip => r is Skip,
            SseLine::Done => r is Done,
            SseLine::Text(t) => r matches SseEvent::Text(u) && u@ == t,
        },
{
    let text = decode_lossy(line);
    let data = match sse_payload(text.as_str()) {
        Some(d) => d,
        None => {
            return SseEvent::Skip;
        },
    };
    let dv = chars_of(data);
    let marker = chars_of(DONE_MARKER);
    if chars_eq(dv.as_slice(), marker.as_slice()) {
        return SseEvent::Done;
    }
    let path = content_path();
    match json_str_at(data, path.as_slice()) {
        Some(piece) => if piece.as_str().is_empty() {
            SseEvent::Skip
        } else {
            SseEvent::Text(piece)
        },
        None => SseEvent::Skip,
    }
}

/// Every non-empty text at the content path of a data line is passed on as
/// it is: a piece made only of whitespace, such as a line break, is kept like
/// any other, so the layout of the reply survives. Only an empty piece is
/// skipped.
pub proof fn lemma_nonempty_delta_kept(line: Seq<u8>, d: Seq<char>, t: Seq<char>)
    requires
        sse_data(line) == Some(d),
        d != DONE_MARKER@,
        json_string_at(d, sse_content_path()) == Some(t),
    ensures
        t.len() > 0 ==> sse_line(line) == SseLine::Text(t),
        t.len() == 0 ==> sse_line(line) is Skip,
{
}

/// Reading one more complete line before the end marker: a line with a
/// non-empty text appends exactly that text to what has been read, whatever
/// characters it holds.
pub proof fn lemma_read_appends_delta(lines: Seq<Seq<u8>>, line: Seq<u8>, d: Seq<char>, t: Seq<char>)
    requires
        !sse_read(lines).1,
        sse_data(line) == Some(d),
        d != DONE_MARKER@,
        json_string_at(d, sse_content_path()) == Some(t),
        t.len() > 0,
    ensures
        sse_read(lines.push(line)) == (sse_read(lines).0.push(t), false),
        concat(sse_read(lines.push(line)).0) == concat(sse_read(lines).0) + t,
{
    assert(lines.push(line).drop_last() =~= lines);
    let texts = sse_read(lines).0;
    assert(texts.push(t).drop_last() =~= texts);
}

/// Once the end marker has come, later bytes change nothing.
pub proof fn lemma_done_is_final(bytes: Seq<u8>, more: Seq<u8>)
    requires
        sse_progress(bytes).1,
    ensures
        sse_progress(bytes + more) == sse_progress(bytes),
    decreases more.len(),
{
    if more.len() > 0 {
        lemma_done_is_final(bytes, more.drop_last());
        let c = bytes + more;
        assert(c.drop_last() =~= bytes + more.drop_last());
        let (ls, tail) = split_stream(c.drop_last());
        if c.last() == 10u8 {
            let l = tail.push(c.last());
            assert(ls.push(l).drop_last() =~= ls);
            assert(ls.push(l).last() == l);
        }
    } else {
        assert(bytes + more =~= bytes);
    }
}

/// The result of a whole reply: its text, once the end marker came or the
/// stream ended with some text; an error when it ended with none.
pub open spec fn spec_sse_result(bytes: Seq<u8>) -> Result<Seq<char>, Seq<char>> {
    let (texts, done) = sse_progress(bytes);
    if done || concat(texts).len() > 0 {
        Ok(concat(texts))
    } else {
        Err(EMPTY_REPLY@)
    }
}

/// Decodes a streamed chat reply chunk by chunk. Lines are decoded only once
/// complete, so a chunk boundary inside a multi-byte character garbles nothing.
pub struct SseDecoder {
    buf: Vec<u8>,
    full: String,
    done: bool,
    texts: Ghost<Seq<Seq<char>>>,
    fed: Ghost<Seq<u8>>,
}

impl SseDecoder {
    /// The decoder's state matches the bytes it was fed.
    pub closed spec fn wf(&self) -> bool {
        &&& sse_progress(self.fed@) == (self.texts@, self.done)
        &&& self.full@ == concat(self.texts@)
        &&& !self.done ==> self.buf@ == split_stream(self.fed@).1
    }

    /// The bytes fed so far.
    pub closed spec fn fed(&self) -> Seq<u8> {
        self.fed@
    }

    /// The texts decoded so far.
    pub closed spec fn texts(&self) -> Seq<Seq<char>> {
        self.texts@
    }

    /// Whether the end marker has come.
    pub closed spec fn done(&self) -> bool {
        self.done
    }

    /// The decoder's texts and end flag are those of the bytes it was fed.
    pub proof fn lemma_state(self)
        requires
            self.wf(),
        ensures
            (self.texts(), self.done()) == sse_progress(self.fed()),
    {
    }

    /// A decoder that has seen nothing.
    pub fn new() -> (d: Self)
        ensures
            d.wf(),
            d.fed() == Seq::<u8>::empty(),
            d.texts() == Seq::<Seq<char>>::empty(),
            !d.done(),
    {
        SseDecoder {
            buf: Vec::new(),
            full: String::new(),
            done: false,
            texts: Ghost(Seq::empty()),
            fed: Ghost(Seq::empty()),
        }
    }

    /// Whether the end marker has come.
    pub fn is_done(&self) -> (r: bool)
        ensures
            r == self.done(),
    {
        self.done
    }

    /// Feeds the next chunk of the reply; gives back the texts that the lines
    /// completed by it yield, in order.
    pub fn feed(&mut self, chunk: &[u8]) -> (r: Vec<String>)
        requires
            old(self).wf(),
        ensures
            final(self).wf(),
            final(self).fed() == old(self).fed() + chunk@,
            final(self).texts() == old(self).texts() + r@.map_values(|t: String| t@),
    {
        let ghost start = self.fed@;
        let ghost texts0 = self.texts@;
        let mut out: Vec<String> = Vec::new();
        if self.done {
            proof {
                lemma_done_is_final(start, chunk@);
            }
            self.fed = Ghost(start + chunk@);
            assert(out@.map_values(|t: String| t@) =~= Seq::<Seq<char>>::empty());
            assert(texts0 + Seq::<Seq<char>>::empty() =~= texts0);
            return out;
        }
        let mut i: usize = 0;
        assert(chunk@.take(0) =~= Seq::<u8>::empty());
        assert(start + Seq::<u8>::empty() =~= start);
        assert(out@.map_values(|t: String| t@) =~= Seq::<Seq<char>>::empty());
        assert(texts0 + Seq::<Seq<char>>::empty() =~= texts0);
        while i < chunk.len() && !self.done
            invariant
                self.wf(),
                i <= chunk@.len(),
                self.fed@ == start + chunk@.take(i as int),
                self.texts@ == texts0 + out@.map_values(|t: String| t@),
                self.done ==> sse_progress(start + chunk@) == sse_progress(self.fed@),
            decreases chunk@.len() - i,
        {
            let b = chunk[i];
            let ghost prev = self.fed@;
            self.fed = Ghost(prev.push(b));
            assert(start + chunk@.take(i + 1) =~= prev.push(b));
            assert(self.fed@.drop_last() =~= prev);
            self.buf.push(b);
            if b == 10u8 {
                let mut line: Vec<u8> = Vec::new();
                std::mem::swap(&mut line, &mut self.buf);
                let ghost lines = split_stream(self.fed@).0;
                assert(lines.drop_last() =~= split_stream(prev).0);
                assert(lines.last() == line@);
                match read_sse_line(line.as_slice()) {
                    SseEvent::Skip => {
                        assert(split_stream(self.fed@).1 =~= Seq::<u8>::empty());
                    },
                    SseEvent::Done => {
                        self.done = true;
                        proof {
                            lemma_done_is_final(self.fed@, chunk@.skip(i + 1));
                            assert(self.fed@ + chunk@.skip(i + 1) =~= start + chunk@);
                        }
                    },
                    SseEvent::Text(piece) => {
                        let ghost old_texts = self.texts@;
                        let ghost old_out = out@;
                        self.full.append(piece.as_str());
                        let ghost t = piece@;
                        self.texts = Ghost(old_texts.push(t));
                        out.push(piece);
                        assert(self.texts@.drop_last() =~= old_texts);
                        assert(concat(self.texts@) =~= concat(old_texts) + t);
                        assert(out@.map_values(|t: String| t@) =~= old_out.map_values(
                            |t: String| t@,
                        ).push(t));
                        assert(self.texts@ =~= texts0 + out@.map_values(|t: String| t@));
                        assert(split_stream(self.fed@).1 =~= Seq::<u8>::empty());
                    },
                }
            } else {
                assert(split_stream(self.fed@).1 == split_stream(prev).1.push(b));
            }
            i = i + 1;
        }
        if !self.done {
            assert(chunk@.take(chunk@.len() as int) =~= chunk@);
            assert(self.fed@ == start + chunk@);
        }
        self.fed = Ghost(start + chunk@);
        out
    }

    /// The outcome once the stream has ended (or the end marker came).
    pub fn finish(&self) -> (r: Result<String, String>)
        requires
            self.wf(),
        ensures
            match spec_sse_result(self.fed()) {
                Ok(t) => r is Ok && r->Ok_0@ == t,
                Err(m) => r is Err && r->Err_0@ == m,
            },
    {
        if self.done || !self.full.as_str().is_empty() {
            Ok(self.full.clone())
        } else {
            Err(String::from_str(EMPTY_REPLY))
        }
    }
}

} // verus!
