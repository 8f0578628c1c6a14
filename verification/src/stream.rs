//! Streamed-response handling: each backend's line framing, the buffering
//! parser that turns raw chunks into ordered text fragments, and the
//! aggregator that reassembles the full answer.
//!
//! The parser is specified by `drain`, a model over the concatenated byte
//! stream alone; `lemma_chunk_boundary` and `lemma_chunking_irrelevant`
//! show the model does not depend on where chunk boundaries fall.

use vstd::prelude::*;
use crate::error::LumenError;
use crate::json::decode_json_string;
use crate::json::decode_json_string_at;
use crate::provider::ProviderVariant;
use crate::text::{contains, contains_sub, find_sub, first_occur, has_prefix, lemma_first_occur,
    occurs_at, str_eq};

verus! {

/// Variants framed as server-sent events (`data: ` lines); Ollama sends
/// bare JSON lines instead.
pub open spec fn sse_framed(v: ProviderVariant) -> bool {
    v != ProviderVariant::Ollama
}

/// Variants whose terminal signal is the sentinel line `data: [DONE]`.
pub open spec fn openai_style(v: ProviderVariant) -> bool {
    v == ProviderVariant::Openai || v == ProviderVariant::Groq || v == ProviderVariant::Phind
}

/// The JSON key that precedes fragment text in a payload of `v`.
pub open spec fn frag_key(v: ProviderVariant) -> Seq<char> {
    if v == ProviderVariant::Claude {
        "\"text\":\""@
    } else {
        "\"content\":\""@
    }
}

/// What one complete line of the stream means.
pub ghost enum LineEvent {
    /// Nothing for the aggregator: an empty line, an event line, a payload
    /// without fragment text.
    Skip,
    /// A fragment of answer text.
    Frag(Seq<char>),
    /// The backend's end-of-stream signal.
    Done,
    /// A backend-embedded error payload or malformed fragment framing;
    /// carries the offending text.
    Fail(Seq<char>),
}

/// Fragment extraction from one payload: the JSON string after the
/// variant's fragment key; a payload with a broken string literal is
/// malformed; one without the key is an error when it embeds an error
/// object and ignorable otherwise.
pub open spec fn extract_frag(v: ProviderVariant, payload: Seq<char>) -> LineEvent {
    match first_occur(payload, frag_key(v)) {
        Some(i) => match decode_json_string(payload.skip(i + frag_key(v).len())) {
            Some(p) => LineEvent::Frag(p.0),
            None => LineEvent::Fail(payload),
        },
        None => if contains_sub(payload, "\"error\""@) {
            LineEvent::Fail(payload)
        } else {
            LineEvent::Skip
        },
    }
}

/// The meaning of one complete line under variant `v`.
pub open spec fn parse_line(v: ProviderVariant, line: Seq<char>) -> LineEvent {
    if line.len() == 0 {
        LineEvent::Skip
    } else if sse_framed(v) {
        if openai_style(v) && line == "data: [DONE]"@ {
            LineEvent::Done
        } else if occurs_at(line, "data: "@, 0) {
            let payload = line.skip("data: "@.len() as int);
            if v == ProviderVariant::Claude && contains_sub(
                payload,
                "\"type\":\"message_stop\""@,
            ) {
                LineEvent::Done
            } else {
                extract_frag(v, payload)
            }
        } else {
            LineEvent::Skip
        }
    } else {
        if contains_sub(line, "\"done\":true"@) {
            LineEvent::Done
        } else {
            extract_frag(v, line)
        }
    }
}

/// The outcome of processing every complete line of a buffer.
pub ghost struct DrainOut {
    /// Fragments emitted, in arrival order.
    pub frags: Seq<Seq<char>>,
    /// What stays buffered: the partial line after the last newline, or
    /// everything after the line that failed.
    pub rest: Seq<char>,
    /// Whether the terminal signal has been seen.
    pub done: bool,
    /// The offending line of the first protocol violation, if any.
    pub err: Option<Seq<char>>,
}

/// Processes the complete lines of `buf` in order, given that the terminal
/// signal has (`done`) or has not yet been seen. A fragment after the
/// terminal signal is a protocol violation; processing stops at the first
/// violation, and fragments already emitted stand.
pub open spec fn drain(v: ProviderVariant, buf: Seq<char>, done: bool) -> DrainOut
    decreases buf.len(),
{
    let fo = first_occur(buf, seq!['\n']);
    if fo is Some && 0 <= fo->0 < buf.len() {
        let i = fo->0;
        let line = buf.take(i);
        let tail = buf.skip(i + 1);
        match parse_line(v, line) {
            LineEvent::Skip => drain(v, tail, done),
            LineEvent::Frag(f) => if done {
                DrainOut { frags: Seq::empty(), rest: tail, done, err: Some(line) }
            } else {
                let d = drain(v, tail, done);
                DrainOut { frags: seq![f] + d.frags, rest: d.rest, done: d.done, err: d.err }
            },
            LineEvent::Done => drain(v, tail, true),
            LineEvent::Fail(m) => DrainOut {
                frags: Seq::empty(),
                rest: tail,
                done,
                err: Some(m),
            },
        }
    } else {
        DrainOut { frags: Seq::empty(), rest: buf, done, err: None }
    }
}

proof fn lemma_occurs_single(x: Seq<char>, c: char, j: int)
    ensures
        occurs_at(x, seq![c], j) <==> (0 <= j < x.len() && x[j] == c),
{
    if 0 <= j && j + 1 <= x.len() {
        if x[j] == c {
            assert(x.subrange(j, j + 1) =~= seq![c]);
        } else {
            assert(x.subrange(j, j + 1)[0] == x[j]);
        }
    }
}

proof fn lemma_first_newline_extend(s: Seq<char>, b: Seq<char>, i: int)
    requires
        first_occur(s, seq!['\n']) == Some(i),
    ensures
        first_occur(s + b, seq!['\n']) == Some(i),
{
    lemma_first_occur(s, seq!['\n']);
    lemma_first_occur(s + b, seq!['\n']);
    lemma_occurs_single(s, '\n', i);
    lemma_occurs_single(s + b, '\n', i);
    assert((s + b)[i] == s[i]);
    assert(occurs_at(s + b, seq!['\n'], i));
    match first_occur(s + b, seq!['\n']) {
        Some(k) => {
            lemma_occurs_single(s + b, '\n', k);
            if k < i {
                lemma_occurs_single(s, '\n', k);
                assert((s + b)[k] == s[k]);
                assert(occurs_at(s, seq!['\n'], k));
                assert(false);
            }
            if i < k {
                assert(false);
            }
        },
        None => {
            assert(false);
        },
    }
}

/// Chunk-boundary invariance: processing a stream in two pieces — all of
/// `s`, then the leftover plus `b` — yields, on any error-free stream,
/// exactly the fragments of processing `s + b` whole, in the same order,
/// with the same leftover and the same terminal state. Where the chunk
/// boundaries fall therefore never changes the parsed text.
pub proof fn lemma_chunk_boundary(v: ProviderVariant, s: Seq<char>, b: Seq<char>, done: bool)
    ensures
        ({
            let whole = drain(v, s + b, done);
            let first = drain(v, s, done);
            let second = drain(v, first.rest + b, first.done);
            whole.err is None ==> {
                &&& first.err is None
                &&& second.err is None
                &&& first.frags + second.frags == whole.frags
                &&& second.rest == whole.rest
                &&& second.done == whole.done
            }
        }),
    decreases s.len(),
{
    let nl = seq!['\n'];
    let whole = drain(v, s + b, done);
    let first = drain(v, s, done);
    match first_occur(s, nl) {
        None => {
            assert(first.rest == s && first.done == done && first.err is None);
            assert(first.frags =~= Seq::<Seq<char>>::empty());
            assert(first.frags + drain(v, s + b, done).frags =~= drain(v, s + b, done).frags);
        },
        Some(i) => {
            lemma_first_occur(s, nl);
            lemma_occurs_single(s, '\n', i);
            lemma_first_newline_extend(s, b, i);
            let line = s.take(i);
            assert((s + b).take(i) =~= line);
            let tail = s.skip(i + 1);
            assert((s + b).skip(i + 1) =~= tail + b);
            lemma_chunk_boundary(v, tail, b, done);
            lemma_chunk_boundary(v, tail, b, true);
            match parse_line(v, line) {
                LineEvent::Skip => {},
                LineEvent::Frag(f) => {
                    if !done {
                        let whole_t = drain(v, tail + b, done);
                        let first_t = drain(v, tail, done);
                        let second_t = drain(v, first_t.rest + b, first_t.done);
                        if whole.err is None {
                            assert(whole_t.err is None);
                            assert((seq![f] + first_t.frags) + second_t.frags =~= seq![f] + (
                            first_t.frags + second_t.frags));
                        }
                    }
                },
                LineEvent::Done => {},
                LineEvent::Fail(_) => {},
            }
        },
    }
}

proof fn lemma_drain_rest_lineless(v: ProviderVariant, buf: Seq<char>, done: bool)
    ensures
        drain(v, buf, done).err is None ==> first_occur(
            drain(v, buf, done).rest,
            seq!['\n'],
        ) is None,
    decreases buf.len(),
{
    let nl = seq!['\n'];
    match first_occur(buf, nl) {
        None => {},
        Some(i) => {
            lemma_first_occur(buf, nl);
            lemma_occurs_single(buf, '\n', i);
            let tail = buf.skip(i + 1);
            lemma_drain_rest_lineless(v, tail, done);
            lemma_drain_rest_lineless(v, tail, true);
        },
    }
}

/// The outcome of feeding each chunk in turn, starting from a buffered
/// remainder: the fragments of every feed joined in order, stopping at
/// the first violation.
pub open spec fn drain_all(
    v: ProviderVariant,
    chunks: Seq<Seq<char>>,
    buf: Seq<char>,
    done: bool,
) -> DrainOut
    decreases chunks.len(),
{
    if chunks.len() == 0 {
        DrainOut { frags: Seq::empty(), rest: buf, done, err: None }
    } else {
        let d = drain(v, buf + chunks[0], done);
        if d.err is Some {
            d
        } else {
            let r = drain_all(v, chunks.drop_first(), d.rest, d.done);
            DrainOut { frags: d.frags + r.frags, rest: r.rest, done: r.done, err: r.err }
        }
    }
}

/// Chunk-boundary invariance in full: feeding a body in arbitrarily many
/// pieces — however the cuts fall, mid-line included — yields exactly the
/// fragment sequence of parsing the whole body at once, whenever the
/// whole parse is error-free.
pub proof fn lemma_chunking_irrelevant(
    v: ProviderVariant,
    chunks: Seq<Seq<char>>,
    buf: Seq<char>,
    done: bool,
)
    requires
        first_occur(buf, seq!['\n']) is None,
    ensures
        ({
            let all = drain(v, buf + chunks.flatten(), done);
            let pw = drain_all(v, chunks, buf, done);
            all.err is None ==> {
                &&& pw.frags == all.frags
                &&& pw.rest == all.rest
                &&& pw.done == all.done
                &&& pw.err is None
            }
        }),
    decreases chunks.len(),
{
    if chunks.len() == 0 {
        assert(chunks.flatten() =~= Seq::<char>::empty());
        assert(buf + chunks.flatten() =~= buf);
        let all = drain(v, buf, done);
        assert(all.frags =~= Seq::<Seq<char>>::empty());
    } else {
        let c0 = chunks[0];
        let rest = chunks.drop_first();
        assert(chunks.flatten() == c0 + rest.flatten());
        assert(buf + chunks.flatten() =~= (buf + c0) + rest.flatten());
        lemma_chunk_boundary(v, buf + c0, rest.flatten(), done);
        let d = drain(v, buf + c0, done);
        let all = drain(v, buf + chunks.flatten(), done);
        if all.err is None {
            lemma_drain_rest_lineless(v, buf + c0, done);
            lemma_chunking_irrelevant(v, rest, d.rest, d.done);
            let second = drain(v, d.rest + rest.flatten(), d.done);
            let pwr = drain_all(v, rest, d.rest, d.done);
            assert(pwr.frags == second.frags);
            assert(d.frags + pwr.frags == all.frags);
        }
    }
}

/// Executable counterpart of `LineEvent`.
enum ParsedLine {
    Skip,
    Frag(String),
    Done,
    Fail(String),
}

fn extract_frag_ex(v: ProviderVariant, payload: &str) -> (r: ParsedLine)
    ensures
        match r {
            ParsedLine::Skip => extract_frag(v, payload@) == LineEvent::Skip,
            ParsedLine::Frag(s) => extract_frag(v, payload@) matches LineEvent::Frag(f) && s@
                == f,
            ParsedLine::Done => extract_frag(v, payload@) == LineEvent::Done,
            ParsedLine::Fail(m) => extract_frag(v, payload@) matches LineEvent::Fail(mm) && m@
                == mm,
        },
{
    let key: &str = match v {
        ProviderVariant::Claude => "\"text\":\"",
        _ => "\"content\":\"",
    };
    proof {
        assert(key@ == frag_key(v));
    }
    match find_sub(payload, key) {
        Some(i) => {
            let pn = payload.unicode_len();
            proof {
                lemma_first_occur(payload@, key@);
                assert(occurs_at(payload@, key@, i as int));
            }
            let start = i + key.unicode_len();
            match decode_json_string_at(payload, start) {
                Some(s) => ParsedLine::Frag(s),
                None => ParsedLine::Fail(String::from_str(payload)),
            }
        },
        None => {
            if contains(payload, "\"error\"") {
                ParsedLine::Fail(String::from_str(payload))
            } else {
                ParsedLine::Skip
            }
        },
    }
}

fn parse_line_ex(v: ProviderVariant, line: &str) -> (r: ParsedLine)
    ensures
        match r {
            ParsedLine::Skip => parse_line(v, line@) == LineEvent::Skip,
            ParsedLine::Frag(s) => parse_line(v, line@) matches LineEvent::Frag(f) && s@ == f,
            ParsedLine::Done => parse_line(v, line@) == LineEvent::Done,
            ParsedLine::Fail(m) => parse_line(v, line@) matches LineEvent::Fail(mm) && m@ == mm,
        },
{
    let n = line.unicode_len();
    if n == 0 {
        return ParsedLine::Skip;
    }
    let sse = match v {
        ProviderVariant::Ollama => false,
        _ => true,
    };
    if sse {
        let oai = match v {
            ProviderVariant::Openai | ProviderVariant::Groq | ProviderVariant::Phind => true,
            _ => false,
        };
        if oai && str_eq(line, "data: [DONE]") {
            return ParsedLine::Done;
        }
        if has_prefix(line, "data: ") {
            proof {
                reveal_strlit("data: ");
            }
            let payload = line.substring_char(6, n);
            proof {
                assert(payload@ =~= line@.skip("data: "@.len() as int));
            }
            let claude = match v {
                ProviderVariant::Claude => true,
                _ => false,
            };
            if claude && contains(payload, "\"type\":\"message_stop\"") {
                return ParsedLine::Done;
            }
            extract_frag_ex(v, payload)
        } else {
            ParsedLine::Skip
        }
    } else {
        if contains(line, "\"done\":true") {
            return ParsedLine::Done;
        }
        extract_frag_ex(v, line)
    }
}

/// Everything one call of `StreamParser::feed` produced: the fragments of
/// this chunk in order, whether the stream has reached its terminal
/// signal, and the first protocol violation if one was hit. Fragments
/// emitted before a violation stand.
pub struct FeedResult {
    pub fragments: Vec<String>,
    pub done: bool,
    pub error: Option<LumenError>,
}

/// The buffering stream parser of one request: raw chunks in, ordered
/// fragments out. A partial line at a chunk boundary is buffered, never
/// emitted.
pub struct StreamParser {
    pub variant: ProviderVariant,
    pub buf: String,
    pub done: bool,
    pub failed: bool,
}

impl StreamParser {
    pub fn new(variant: ProviderVariant) -> (r: StreamParser)
        ensures
            r.variant == variant,
            r.buf@.len() == 0,
            !r.done,
            !r.failed,
    {
        StreamParser { variant, buf: String::new(), done: false, failed: false }
    }

    /// Feeds one raw chunk: processes every line it completes, exactly as
    /// `drain` says over the buffered text plus the chunk.
    pub fn parse_stream_chunk(&mut self, chunk: &str) -> (r: FeedResult)
        requires
            !old(self).failed,
        ensures
            ({
                let d = drain(old(self).variant, old(self).buf@ + chunk@, old(self).done);
                &&& final(self).variant == old(self).variant
                &&& final(self).buf@ == d.rest
                &&& final(self).done == d.done
                &&& r.done == d.done
                &&& r.fragments@.map_values(|s: String| s@) == d.frags
                &&& match d.err {
                    Some(m) => {
                        &&& r.error matches Some(e)
                        &&& e matches LumenError::ProviderProtocolError { status, message }
                            && status is None && message@ == m
                        &&& final(self).failed
                    },
                    None => r.error is None && !final(self).failed,
                }
            }),
    {
        let ghost d0 = drain(old(self).variant, old(self).buf@ + chunk@, old(self).done);
        self.buf.append(chunk);
        let mut frags: Vec<String> = Vec::new();
        loop
            invariant
                self.variant == old(self).variant,
                !self.failed,
                d0 == drain(old(self).variant, old(self).buf@ + chunk@, old(self).done),
                ({
                    let dc = drain(self.variant, self.buf@, self.done);
                    &&& d0.frags == frags@.map_values(|s: String| s@) + dc.frags
                    &&& d0.rest == dc.rest
                    &&& d0.done == dc.done
                    &&& d0.err == dc.err
                }),
            decreases self.buf@.len(),
        {
            let ghost buf_pre = self.buf@;
            let ghost done_pre = self.done;
            let nl = find_sub(self.buf.as_str(), "\n");
            proof {
                reveal_strlit("\n");
                assert("\n"@ =~= seq!['\n']);
            }
            let i = match nl {
                Some(i) => i,
                None => {
                    proof {
                        let dc = drain(self.variant, self.buf@, self.done);
                        assert(first_occur(self.buf@, seq!['\n']) is None);
                        assert(dc.frags =~= Seq::<Seq<char>>::empty());
                        assert(d0.frags =~= frags@.map_values(|s: String| s@));
                    }
                    return FeedResult { fragments: frags, done: self.done, error: None };
                },
            };
            proof {
                lemma_first_occur(buf_pre, seq!['\n']);
                assert(occurs_at(buf_pre, seq!['\n'], i as int));
            }
            let bl = self.buf.as_str().unicode_len();
            let line = String::from_str(self.buf.as_str().substring_char(0, i));
            let tail = String::from_str(self.buf.as_str().substring_char(i + 1, bl));
            proof {
                assert(line@ =~= buf_pre.take(i as int));
                assert(tail@ =~= buf_pre.skip(i + 1));
            }
            self.buf = tail;
            let ev = parse_line_ex(self.variant, line.as_str());
            match ev {
                ParsedLine::Skip => {
                },
                ParsedLine::Frag(s) => {
                    if self.done {
                        self.failed = true;
                        return FeedResult {
                            fragments: frags,
                            done: self.done,
                            error: Some(
                                LumenError::ProviderProtocolError {
                                    status: None,
                                    message: line,
                                },
                            ),
                        };
                    } else {
                        let ghost frags_pre = frags@;
                        frags.push(s);
                        proof {
                            let f = parse_line(self.variant, line@)->Frag_0;
                            let dt = drain(self.variant, self.buf@, self.done);
                            assert(frags@.map_values(|x: String| x@) =~= frags_pre.map_values(
                                |x: String| x@,
                            ).push(s@));
                            assert(frags_pre.map_values(|x: String| x@) + (seq![f] + dt.frags)
                                =~= frags@.map_values(|x: String| x@) + dt.frags);
                        }
                    }
                },
                ParsedLine::Done => {
                    self.done = true;
                },
                ParsedLine::Fail(m) => {
                    self.failed = true;
                    proof {
                        let dc = drain(self.variant, buf_pre, done_pre);
                        assert(dc.err matches Some(mm) && m@ == mm);
                    }
                    return FeedResult {
                        fragments: frags,
                        done: self.done,
                        error: Some(
                            LumenError::ProviderProtocolError { status: None, message: m },
                        ),
                    };
                },
            }
        }
    }
}

} // verus!
