//! OpenAI-compatible chat agent: request shape and streaming (SSE) response
//! decoding. The HTTP exchange itself is carried out by the runtime.
use vstd::prelude::*;
use crate::json::{
    JsonDoc, JsonDocV, JsonNode, JsonNodeV, json_parse, json_quoted, lookup, number_u64, doc_member,
    member_str, parse_json, json_error_text, object_json, array_json, quoted_json, object_text,
    array_text, number_as_u64, get_str,
};
use crate::models::{ModelError, AgentContext, answers_context, is_answered_context};
use crate::text::{
    trimmed, has_prefix, trim, strip_prefix, string_of, text_eq, trim_end_char, trim_end_matches_char,
    is_blank, blank, string_from_chars, string_from_range, chars_of,
};

verus! {

/// Array index a JSON-pointer token names: decimal digits without a leading zero.
pub open spec fn array_index(token: Seq<char>) -> Option<u64> {
    if token.len() > 1 && token[0] == '0' {
        None
    } else {
        number_u64(token)
    }
}

/// One JSON-pointer step from a document: the member or item text `token` names.
pub open spec fn pointer_step(d: JsonDocV, token: Seq<char>) -> Option<Seq<char>> {
    match d.node {
        JsonNodeV::Object(ms) => lookup(ms, token),
        JsonNodeV::Array(items) => match array_index(token) {
            Some(i) => if i < items.len() { Some(items[i as int]) } else { None },
            None => None,
        },
        _ => None,
    }
}

/// One JSON-pointer step from a JSON text.
pub open spec fn text_step(t: Seq<char>, token: Seq<char>) -> Option<Seq<char>> {
    match json_parse(t) {
        Some(d) => pointer_step(d, token),
        None => None,
    }
}

/// The non-empty string at `/choices/0/delta/content` of a streamed chunk.
pub open spec fn delta_content(d: JsonDocV) -> Option<Seq<char>> {
    match pointer_step(d, "choices"@) {
        Some(t1) => match text_step(t1, "0"@) {
            Some(t2) => match text_step(t2, "delta"@) {
                Some(t3) => match json_parse(t3) {
                    Some(d3) => match member_str(d3, "content"@) {
                        Some(c) => if c.len() > 0 { Some(c) } else { None },
                        None => None,
                    },
                    None => None,
                },
                None => None,
            },
            None => None,
        },
        None => None,
    }
}

/// A chunk's content is kept exactly when it is non-empty, whatever
/// characters it holds: a delta of only spaces or line breaks is content too.
pub proof fn law_chunk_content_kept_iff_nonempty(
    d: JsonDocV,
    t1: Seq<char>,
    t2: Seq<char>,
    t3: Seq<char>,
    d3: JsonDocV,
    c: Seq<char>,
)
    requires
        pointer_step(d, "choices"@) == Some(t1),
        text_step(t1, "0"@) == Some(t2),
        text_step(t2, "delta"@) == Some(t3),
        json_parse(t3) == Some(d3),
        member_str(d3, "content"@) == Some(c),
    ensures
        c.len() > 0 ==> delta_content(d) == Some(c),
        c.len() == 0 ==> delta_content(d) is None,
{
}

/// A chunk without a string at `/choices/0/delta/content` has no content.
pub proof fn law_chunk_without_string_content(d: JsonDocV, t1: Seq<char>, t2: Seq<char>, t3: Seq<char>, d3: JsonDocV)
    requires
        pointer_step(d, "choices"@) == Some(t1),
        text_step(t1, "0"@) == Some(t2),
        text_step(t2, "delta"@) == Some(t3),
        json_parse(t3) == Some(d3),
        member_str(d3, "content"@) is None,
    ensures
        delta_content(d) is None,
{
}

/// Outcome of one SSE line: `Ok(Some(content))`, `Ok(None)` for keep-alives,
/// comments, `[DONE]` and chunks without content, `Err` for a data line that
/// is not JSON.
pub open spec fn sse_line(line: Seq<char>) -> Result<Option<Seq<char>>, ()> {
    let t = trimmed(line);
    if t.len() == 0 || t[0] == ':' {
        Ok(None)
    } else if !has_prefix(t, "data:"@) {
        Ok(None)
    } else {
        let data = trimmed(t.skip(5));
        if data.len() == 0 || data == "[DONE]"@ {
            Ok(None)
        } else {
            match json_parse(data) {
                Some(d) => Ok(delta_content(d)),
                None => Err(()),
            }
        }
    }
}

/// The item or member text `token` names in a parsed document.
pub fn doc_step(d: &JsonDoc, token: &str) -> (r: Option<String>)
    ensures
        match r {
            Some(t) => pointer_step(d@, token@) == Some(t@),
            None => pointer_step(d@, token@) is None,
        },
{
    match &d.node {
        JsonNode::Object(_) => d.member(token),
        JsonNode::Array(items) => {
            let x = chars_of(token);
            let idx = if x.len() > 1 && x[0] == '0' {
                None
            } else {
                number_as_u64(token)
            };
            match idx {
                Some(i) => {
                    if i < items.len() as u64 {
                        assert(d@.node == JsonNodeV::Array(items@.map_values(|t: String| t@)));
                        Some(items[i as usize].clone())
                    } else {
                        None
                    }
                },
                None => None,
            }
        },
        _ => None,
    }
}

/// The item or member text `token` names in a JSON text.
pub fn step_text(t: &str, token: &str) -> (r: Option<String>)
    ensures
        match r {
            Some(x) => text_step(t@, token@) == Some(x@),
            None => text_step(t@, token@) is None,
        },
{
    match parse_json(t) {
        Ok(d) => doc_step(&d, token),
        Err(_) => None,
    }
}

/// The non-empty streamed content of a chunk document.
pub fn chunk_content(d: &JsonDoc) -> (r: Option<String>)
    ensures
        match r {
            Some(c) => delta_content(d@) == Some(c@),
            None => delta_content(d@) is None,
        },
{
    let t1 = match doc_step(d, "choices") {
        Some(t) => t,
        None => return None,
    };
    let t2 = match step_text(t1.as_str(), "0") {
        Some(t) => t,
        None => return None,
    };
    let t3 = match step_text(t2.as_str(), "delta") {
        Some(t) => t,
        None => return None,
    };
    let d3 = match parse_json(t3.as_str()) {
        Ok(d) => d,
        Err(_) => return None,
    };
    match get_str(&d3, "content") {
        Some(c) => {
            if c.as_str().unicode_len() > 0 {
                Some(c)
            } else {
                None
            }
        },
        None => None,
    }
}

/// Parse one SSE line of a chat-completions stream.
pub fn parse_sse_data_line(line: &str) -> (r: Result<Option<String>, ModelError>)
    ensures
        match r {
            Ok(Some(c)) => sse_line(line@) == Ok::<Option<Seq<char>>, ()>(Some(c@)),
            Ok(None) => sse_line(line@) == Ok::<Option<Seq<char>>, ()>(None),
            Err(e) => sse_line(line@) == Err::<Option<Seq<char>>, ()>(()) && e is Message,
        },
{
    let t = trim(line);
    let tc = chars_of(t);
    if tc.len() == 0 || tc[0] == ':' {
        return Ok(None);
    }
    let rest = match strip_prefix(t, "data:") {
        Some(rest) => rest,
        None => return Ok(None),
    };
    proof {
        reveal_strlit("data:");
    }
    let data = trim(rest);
    if data.unicode_len() == 0 || text_eq(data, "[DONE]") {
        return Ok(None);
    }
    match parse_json(data) {
        Ok(d) => Ok(chunk_content(&d)),
        Err(e) => {
            let mut msg = string_of("invalid SSE JSON: ");
            let detail = json_error_text(&e);
            msg.append(detail.as_str());
            Err(ModelError::Message(msg))
        },
    }
}

/// Decoder state after taking every complete line out of `buf`: the remaining
/// partial line and the contents found, or `Err` at the first bad line.
pub open spec fn drain(buf: Seq<char>, parts: Seq<Seq<char>>) -> Result<(Seq<char>, Seq<Seq<char>>), ()>
    decreases buf.len(),
{
    let k = first_newline(buf);
    if k < buf.len() {
        proof {
            lemma_first_newline(buf);
        }
        let raw = buf.take(k);
        let line = if raw.len() > 0 && raw.last() == '\r' { raw.drop_last() } else { raw };
        match sse_line(line) {
            Err(_) => Err(()),
            Ok(None) => drain(buf.skip(k + 1), parts),
            Ok(Some(c)) => drain(buf.skip(k + 1), parts.push(c)),
        }
    } else {
        Ok((buf, parts))
    }
}

/// Index of the first line break of `buf` (its length when it has none).
pub open spec fn first_newline(buf: Seq<char>) -> int
    decreases buf.len(),
{
    if buf.len() == 0 {
        0
    } else if buf[0] == '\n' {
        0
    } else {
        1 + first_newline(buf.drop_first())
    }
}

pub proof fn lemma_first_newline(buf: Seq<char>)
    ensures
        0 <= first_newline(buf) <= buf.len(),
        first_newline(buf) < buf.len() ==> buf[first_newline(buf)] == '\n',
        forall|j: int| 0 <= j < first_newline(buf) ==> buf[j] != '\n',
    decreases buf.len(),
{
    if buf.len() > 0 && buf[0] != '\n' {
        lemma_first_newline(buf.drop_first());
        assert forall|j: int| 0 <= j < first_newline(buf) implies buf[j] != '\n' by {
            if j > 0 {
                assert(buf[j] == buf.drop_first()[j - 1]);
            }
        }
    }
}

proof fn lemma_first_newline_append(t: Seq<char>, c: Seq<char>)
    requires
        first_newline(t) < t.len(),
    ensures
        first_newline(t + c) == first_newline(t),
    decreases t.len(),
{
    if t[0] != '\n' {
        assert((t + c).drop_first() =~= t.drop_first() + c);
        lemma_first_newline_append(t.drop_first(), c);
    }
}

/// How the body is cut into chunks does not change what is decoded: feeding
/// `t` and then `c` gives the same state as feeding `t + c` at once.
pub proof fn law_sse_chunking(t: Seq<char>, c: Seq<char>, parts: Seq<Seq<char>>)
    ensures
        drain(t + c, parts) == match drain(t, parts) {
            Ok((rest, p)) => drain(rest + c, p),
            Err(_) => Err(()),
        },
    decreases t.len(),
{
    lemma_first_newline(t);
    let k = first_newline(t);
    if k < t.len() {
        lemma_first_newline_append(t, c);
        lemma_first_newline(t + c);
        assert((t + c).take(k) =~= t.take(k));
        assert((t + c).skip(k + 1) =~= t.skip(k + 1) + c);
        let raw = t.take(k);
        let line = if raw.len() > 0 && raw.last() == '\r' { raw.drop_last() } else { raw };
        match sse_line(line) {
            Err(_) => {},
            Ok(None) => {
                law_sse_chunking(t.skip(k + 1), c, parts);
            },
            Ok(Some(x)) => {
                law_sse_chunking(t.skip(k + 1), c, parts.push(x));
            },
        }
    } else {
        assert(drain(t, parts) == Ok::<(Seq<char>, Seq<Seq<char>>), ()>((t, parts)));
    }
}

/// The contents a finished stream yields: those of every line, including a
/// last line without a line break (trailing carriage returns dropped).
pub open spec fn finish_stream(rest: Seq<char>, parts: Seq<Seq<char>>) -> Result<Seq<Seq<char>>, ()> {
    if blank(rest) {
        Ok(parts)
    } else {
        match sse_line(trim_end_char(rest, '\r')) {
            Err(_) => Err(()),
            Ok(None) => Ok(parts),
            Ok(Some(c)) => Ok(parts.push(c)),
        }
    }
}

/// Incremental decoder of a chat-completions SSE body.
pub struct SseDecoder {
    pub buffer: Vec<char>,
    pub parts: Vec<String>,
}

impl SseDecoder {
    pub open spec fn parts_view(&self) -> Seq<Seq<char>> {
        self.parts@.map_values(|s: String| s@)
    }

    /// No complete line is left undecoded.
    pub open spec fn wf(&self) -> bool {
        forall|k: int| 0 <= k < self.buffer@.len() ==> self.buffer@[k] != '\n'
    }

    pub fn new() -> (r: SseDecoder)
        ensures
            r.buffer@.len() == 0,
            r.parts@.len() == 0,
            r.wf(),
    {
        SseDecoder { buffer: Vec::new(), parts: Vec::new() }
    }

    /// Feed the next piece of the body text.
    pub fn push_chunk(&mut self, chunk: &str) -> (r: Result<(), ModelError>)
        requires
            old(self).wf(),
        ensures
            match drain(old(self).buffer@ + chunk@, old(self).parts_view()) {
                Ok((rest, parts)) => r is Ok && final(self).buffer@ == rest && final(self).parts_view() == parts
                    && final(self).wf(),
                Err(_) => r matches Err(e) && e is Message,
            },
    {
        let cs = chars_of(chunk);
        let mut i: usize = 0;
        while i < cs.len()
            invariant
                i <= cs@.len(),
                cs@ == chunk@,
                self.buffer@ + cs@.skip(i as int) == old(self).buffer@ + chunk@,
                self.parts == old(self).parts,
            decreases cs@.len() - i,
        {
            self.buffer.push(cs[i]);
            i = i + 1;
            assert(self.buffer@ + cs@.skip(i as int) =~= old(self).buffer@ + chunk@);
        }
        assert(cs@.skip(cs@.len() as int) =~= Seq::<char>::empty());
        assert(self.buffer@ =~= old(self).buffer@ + chunk@);
        self.drain_lines()
    }

    /// Decode every complete line in the buffer.
    fn drain_lines(&mut self) -> (r: Result<(), ModelError>)
        ensures
            match drain(old(self).buffer@, old(self).parts_view()) {
                Ok((rest, parts)) => r is Ok && final(self).buffer@ == rest && final(self).parts_view() == parts
                    && final(self).wf(),
                Err(_) => r matches Err(e) && e is Message,
            },
        decreases old(self).buffer@.len(),
    {
        let mut k: usize = 0;
        while k < self.buffer.len() && self.buffer[k] != '\n'
            invariant
                k <= self.buffer@.len(),
                forall|j: int| 0 <= j < k ==> self.buffer@[j] != '\n',
            decreases self.buffer@.len() - k,
        {
            k = k + 1;
        }
        proof {
            lemma_first_newline(self.buffer@);
            let f = first_newline(self.buffer@);
            if f < k {
                assert(self.buffer@[f] == '\n');
            }
            if k < f {
                assert(self.buffer@[k as int] != '\n');
            }
            assert(f == k);
        }
        if k == self.buffer.len() {
            return Ok(());
        }
        let ghost buf = self.buffer@;
        let mut end = k;
        if end > 0 && self.buffer[end - 1] == '\r' {
            end = end - 1;
        }
        let line = string_from_range(self.buffer.as_slice(), 0, end);
        proof {
            let raw = buf.take(k as int);
            if raw.len() > 0 && raw.last() == '\r' {
                assert(line@ =~= raw.drop_last());
            } else {
                assert(line@ =~= raw);
            }
        }
        let mut rest: Vec<char> = Vec::new();
        let mut j: usize = k + 1;
        while j < self.buffer.len()
            invariant
                k + 1 <= j <= self.buffer@.len(),
                self.buffer@ == buf,
                rest@ == buf.subrange(k + 1, j as int),
            decreases self.buffer@.len() - j,
        {
            rest.push(self.buffer[j]);
            j = j + 1;
            assert(rest@ =~= buf.subrange(k + 1, j as int));
        }
        assert(rest@ =~= buf.skip(k + 1));
        match parse_sse_data_line(line.as_str()) {
            Err(e) => Err(e),
            Ok(c) => {
                self.buffer = rest;
                match c {
                    Some(content) => {
                        self.parts.push(content);
                    },
                    None => {},
                }
                assert(self.parts_view() =~= match sse_line(line@) {
                    Ok(Some(cv)) => old(self).parts_view().push(cv),
                    _ => old(self).parts_view(),
                });
                self.drain_lines()
            },
        }
    }

    /// The contents of the whole body once it has ended.
    pub fn finish(&self) -> (r: Result<Vec<String>, ModelError>)
        ensures
            match finish_stream(self.buffer@, self.parts_view()) {
                Ok(parts) => r matches Ok(v) && v@.map_values(|s: String| s@) == parts,
                Err(_) => r matches Err(e) && e is Message,
            },
    {
        let rest = string_from_chars(self.buffer.as_slice());
        let mut out: Vec<String> = Vec::new();
        let mut i: usize = 0;
        while i < self.parts.len()
            invariant
                i <= self.parts@.len(),
                out@.len() == i,
                out@.map_values(|s: String| s@) == self.parts_view().take(i as int),
            decreases self.parts@.len() - i,
        {
            let c = self.parts[i].clone();
            assert(c@ == self.parts_view()[i as int]);
            let ghost prev = out@;
            out.push(c);
            proof {
                assert forall|j: int| 0 <= j < i + 1 implies out@.map_values(|s: String| s@)[j]
                    == self.parts_view().take(i + 1)[j] && #[trigger] out@[j] == out@[j] by {
                    if j < i {
                        assert(out@[j] == prev[j]);
                        assert(prev.map_values(|s: String| s@)[j] == self.parts_view().take(i as int)[j]);
                    }
                }
            }
            i = i + 1;
            assert(out@.map_values(|s: String| s@) =~= self.parts_view().take(i as int));
        }
        assert(self.parts_view().take(self.parts@.len() as int) =~= self.parts_view());
        if is_blank(rest.as_str()) {
            return Ok(out);
        }
        let line = trim_end_matches_char(rest.as_str(), '\r');
        match parse_sse_data_line(line) {
            Err(e) => Err(e),
            Ok(Some(c)) => {
                out.push(c);
                assert(out@.map_values(|s: String| s@) =~= self.parts_view().push(c@));
                Ok(out)
            },
            Ok(None) => Ok(out),
        }
    }
}

/// JSON text of a streaming chat-completions request for `model` with one
/// user message holding `text`, keys in the order `serde_json` writes them.
pub open spec fn request_body_text(model: Seq<char>, text: Seq<char>) -> Seq<char> {
    object_text(
        seq![
            ("messages"@, array_text(seq![object_text(seq![("content"@, json_quoted(text)), ("role"@, json_quoted("user"@))])])),
            ("model"@, json_quoted(model)),
            ("stream"@, "true"@),
        ],
    )
}

/// Connection settings of an OpenAI-compatible `/chat/completions` endpoint.
#[derive(Debug, Clone)]
pub struct HttpChatAgent {
    pub base_url: String,
    pub api_key: String,
    pub model: String,
}

impl HttpChatAgent {
    /// Settings for `base_url` (such as `https://api.openai.com/v1`; trailing
    /// slashes are dropped), `api_key` and `model`.
    pub fn new(base_url: &str, api_key: String, model: String) -> (r: HttpChatAgent)
        ensures
            r.base_url@ == trim_end_char(base_url@, '/'),
            r.api_key@ == api_key@,
            r.model@ == model@,
    {
        HttpChatAgent {
            base_url: string_of(trim_end_matches_char(base_url, '/')),
            api_key,
            model,
        }
    }

    /// URL of the streaming chat-completions endpoint.
    pub fn completions_url(&self) -> (r: String)
        ensures
            r@ == self.base_url@ + "/chat/completions"@,
    {
        let mut s = self.base_url.clone();
        s.append("/chat/completions");
        s
    }

    /// JSON body of a streaming request with one user message holding `text`
    /// (keys in the order `serde_json` writes them).
    pub fn request_body(&self, text: &str) -> (r: String)
        ensures
            r@ == request_body_text(self.model@, text@),
    {
        let mut msg: Vec<(String, String)> = Vec::new();
        msg.push((string_of("content"), quoted_json(text)));
        msg.push((string_of("role"), quoted_json("user")));
        let message = object_json(&msg);
        let mut items: Vec<String> = Vec::new();
        items.push(message);
        let messages = array_json(&items);
        let mut body: Vec<(String, String)> = Vec::new();
        body.push((string_of("messages"), messages));
        body.push((string_of("model"), quoted_json(self.model.as_str())));
        body.push((string_of("stream"), string_of("true")));
        let r = object_json(&body);
        assert(msg@.map_values(|m: (String, String)| (m.0@, m.1@)) =~= seq![("content"@, json_quoted(text@)), ("role"@, json_quoted("user"@))]);
        assert(items@.map_values(|t: String| t@) =~= seq![message@]);
        assert(body@.map_values(|m: (String, String)| (m.0@, m.1@)) =~= seq![
            ("messages"@, messages@),
            ("model"@, json_quoted(self.model@)),
            ("stream"@, "true"@),
        ]);
        r
    }

    /// What a turn with `ctx` sends: an error when the turn is already
    /// cancelled, nothing for a context the agent does not answer, and
    /// otherwise the request body for the context's text.
    pub fn request_for(&self, ctx: &AgentContext, cancelled: bool) -> (r: Result<Option<String>, ModelError>)
        ensures
            cancelled ==> (r matches Err(e) && e is Cancelled),
            !cancelled && !answers_context(ctx.context_type@) ==> r matches Ok(None),
            !cancelled && answers_context(ctx.context_type@) ==> (r matches Ok(Some(b)) && b@ == request_body_text(self.model@, ctx.text@)),
    {
        if cancelled {
            return Err(ModelError::Cancelled);
        }
        if !is_answered_context(ctx.context_type.as_str()) {
            return Ok(None);
        }
        Ok(Some(self.request_body(ctx.text.as_str())))
    }
}

} // verus!
