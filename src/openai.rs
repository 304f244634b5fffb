//! The OpenAI-style backend: reading stream fragments and replies, and
//! writing requests.

use vstd::prelude::*;
use crate::json::{
    JsonValue, JsonView, elements, index_number, lemma_array_view, lemma_index_number_nonneg, opt_text, parse_json, read_index,
    read_opt_text,
};
use crate::message::{
    AgentResponse, CallView, Message, MessageView, ToolCall, conversation, nonempty_calls, opt_calls,
    opt_str, record_reply, reply_response, reply_turn,
};
use crate::json::{ArrayBuilder, ObjectBuilder, json_of, json_parses, text_or_null};
use crate::tools::{function_tool, registry_view, tool_defs};
use crate::stream::{
    AccView, Accumulator, CallDeltaView, DecoderView, DeltaView, SseDecoder, StreamDelta,
    ToolCallDelta, extra, final_calls, final_content, final_response, scan, step,
};

verus! {

// ---------------------------------------------------------------------------
// Stream fragments
// ---------------------------------------------------------------------------

/// The optional text member `key`, when it fits.
pub open spec fn text_member(v: JsonView, key: Seq<char>) -> Option<Option<Seq<char>>> {
    opt_text(v.field(key))
}

/// A tool-call fragment: an object with a numeric `index`, an optional text
/// `id`, and an optional `function` object with optional text `name` and
/// `arguments`.
pub open spec fn call_delta_of(v: JsonView) -> Option<CallDeltaView> {
    let idx = v.field("index"@);
    let f = v.field("function"@);
    if !(v is Object) || !(idx matches Some(JsonView::Number(t)) && index_number(t) is Some) {
        None
    } else if text_member(v, "id"@) is None {
        None
    } else {
        let index = index_number(idx->0->Number_0)->0;
        let id = text_member(v, "id"@)->0;
        match f {
            None => Some(CallDeltaView { index, id, name: None, arguments: None }),
            Some(JsonView::Null) => Some(CallDeltaView { index, id, name: None, arguments: None }),
            Some(JsonView::Object(..)) => {
                let fv = f->0;
                if text_member(fv, "name"@) is None || text_member(fv, "arguments"@) is None {
                    None
                } else {
                    Some(
                        CallDeltaView {
                            index,
                            id,
                            name: text_member(fv, "name"@)->0,
                            arguments: text_member(fv, "arguments"@)->0,
                        },
                    )
                }
            },
            _ => None,
        }
    }
}

/// Whether every element reads as a tool-call fragment.
pub open spec fn all_call_deltas(ts: Seq<JsonView>) -> bool {
    forall|k: int| 0 <= k < ts.len() ==> (#[trigger] call_delta_of(ts[k])) is Some
}

/// The delta of one stream chunk: the `delta` object of the first entry of
/// `choices`, with optional text `content` and an optional array of tool-call
/// fragments `tool_calls`. A chunk that does not fit is no delta.
pub open spec fn delta_of(v: JsonView) -> Option<DeltaView> {
    match v.field("choices"@) {
        Some(JsonView::Array(cs)) => if cs.len() == 0 {
            None
        } else {
            match cs[0].field("delta"@) {
                Some(JsonView::Object(..)) => {
                    let d = cs[0].field("delta"@)->0;
                    let content = text_member(d, "content"@);
                    if content is None {
                        None
                    } else {
                        match d.field("tool_calls"@) {
                            None => Some(DeltaView { text: content->0, calls: Seq::empty() }),
                            Some(JsonView::Null) => Some(
                                DeltaView { text: content->0, calls: Seq::empty() },
                            ),
                            Some(JsonView::Array(ts)) => if all_call_deltas(ts) {
                                Some(
                                    DeltaView {
                                        text: content->0,
                                        calls: Seq::new(ts.len(), |k: int| call_delta_of(ts[k])->0),
                                    },
                                )
                            } else {
                                None
                            },
                            _ => None,
                        }
                    }
                },
                _ => None,
            }
        },
        _ => None,
    }
}

fn read_call_delta(v: &JsonValue) -> (r: Option<ToolCallDelta>)
    ensures
        match r {
            Some(c) => call_delta_of(v@) == Some(c@),
            None => call_delta_of(v@) is None,
        },
{
    if !(v matches JsonValue::Object(_)) {
        return None;
    }
    let index = match v.get("index") {
        Some(n) => match read_index(n) {
            Some(i) => i,
            None => return None,
        },
        None => return None,
    };
    let id = match read_opt_text(v.get("id")) {
        Some(x) => x,
        None => return None,
    };
    match v.get("function") {
        None => Some(ToolCallDelta { index, id, name: None, arguments: None }),
        Some(JsonValue::Null) => Some(ToolCallDelta { index, id, name: None, arguments: None }),
        Some(f) => {
            if !(f matches JsonValue::Object(_)) {
                return None;
            }
            let name = match read_opt_text(f.get("name")) {
                Some(x) => x,
                None => return None,
            };
            let arguments = match read_opt_text(f.get("arguments")) {
                Some(x) => x,
                None => return None,
            };
            Some(ToolCallDelta { index, id, name, arguments })
        },
    }
}

fn read_call_deltas(ts: &Vec<JsonValue>) -> (r: Option<Vec<ToolCallDelta>>)
    ensures
        match r {
            Some(out) => all_call_deltas(elements(ts@)) && out@.len() == ts@.len() && forall|k: int|
                0 <= k < ts@.len() ==> call_delta_of(elements(ts@)[k]) == Some(#[trigger] out@[k]@),
            None => !all_call_deltas(elements(ts@)),
        },
{
    let ghost tsv = elements(ts@);
    let mut out: Vec<ToolCallDelta> = Vec::new();
    let mut i: usize = 0;
    while i < ts.len()
        invariant
            i <= ts@.len(),
            tsv == elements(ts@),
            out@.len() == i,
            forall|k: int| 0 <= k < i ==> call_delta_of(tsv[k]) == Some(#[trigger] out@[k]@),
        decreases ts@.len() - i,
    {
        match read_call_delta(&ts[i]) {
            Some(c) => out.push(c),
            None => {
                assert(call_delta_of(tsv[i as int]) is None);
                return None;
            },
        }
        i = i + 1;
    }
    proof {
        assert forall|k: int| 0 <= k < tsv.len() implies (#[trigger] call_delta_of(tsv[k])) is Some by {
            assert(call_delta_of(tsv[k]) == Some(out@[k]@));
        }
    }
    Some(out)
}

/// Reads the delta of one stream chunk.
pub fn read_delta(v: &JsonValue) -> (r: Option<StreamDelta>)
    ensures
        match r {
            Some(d) => delta_of(v@) == Some(d@),
            None => delta_of(v@) is None,
        },
{
    let cs = match v.get("choices") {
        Some(JsonValue::Array(cs)) => cs,
        _ => return None,
    };
    if cs.len() == 0 {
        return None;
    }
    let ghost csv = match v@.field("choices"@) {
        Some(JsonView::Array(x)) => x,
        _ => Seq::empty(),
    };
    assert(csv[0] == cs@[0]@);
    let d = match cs[0].get("delta") {
        Some(d) => d,
        None => return None,
    };
    if !(d matches JsonValue::Object(_)) {
        return None;
    }
    let content = match read_opt_text(d.get("content")) {
        Some(x) => x,
        None => return None,
    };
    match d.get("tool_calls") {
        None => {
            let r = StreamDelta { content, tool_calls: Vec::new() };
            assert(r@.calls =~= Seq::<CallDeltaView>::empty());
            Some(r)
        },
        Some(JsonValue::Null) => {
            let r = StreamDelta { content, tool_calls: Vec::new() };
            assert(r@.calls =~= Seq::<CallDeltaView>::empty());
            Some(r)
        },
        Some(JsonValue::Array(ts)) => {
            proof {
                lemma_array_view(*ts);
            }
            match read_call_deltas(ts) {
                Some(out) => {
                    let r = StreamDelta { content, tool_calls: out };
                    proof {
                        assert(r@.calls =~= Seq::new(
                            elements(ts@).len(),
                            |k: int| call_delta_of(elements(ts@)[k])->0,
                        ));
                    }
                    Some(r)
                },
                None => None,
            }
        },
        _ => None,
    }
}

// ---------------------------------------------------------------------------
// A streamed model call
// ---------------------------------------------------------------------------

pub ghost struct StreamTurnView {
    pub decoder: DecoderView,
    pub acc: AccView,
}

/// One streamed model call in progress: the framer and the accumulator.
pub struct StreamTurn {
    decoder: SseDecoder,
    acc: Accumulator,
}

impl View for StreamTurn {
    type V = StreamTurnView;

    closed spec fn view(&self) -> StreamTurnView {
        StreamTurnView { decoder: self.decoder@, acc: self.acc@ }
    }
}

/// Texts, concatenated.
pub open spec fn joined(ts: Seq<Seq<char>>) -> Seq<char>
    decreases ts.len(),
{
    if ts.len() == 0 {
        Seq::empty()
    } else {
        joined(ts.drop_last()) + ts.last()
    }
}

/// The delta a payload carries: it parses as JSON, and the document is a
/// stream chunk with a delta.
pub open spec fn payload_delta(p: Seq<char>) -> Option<DeltaView> {
    if json_parses(p) {
        delta_of(json_of(p))
    } else {
        None
    }
}

/// Payloads applied in order; one without a delta changes nothing.
pub open spec fn absorb_all(acc: AccView, ps: Seq<Seq<char>>) -> AccView
    decreases ps.len(),
{
    if ps.len() == 0 {
        acc
    } else {
        let a = absorb_all(acc, ps.drop_last());
        match payload_delta(ps.last()) {
            Some(d) => step(a, d),
            None => a,
        }
    }
}

/// The non-empty texts of the payloads' deltas, in order.
pub open spec fn shown_texts(ps: Seq<Seq<char>>) -> Seq<Seq<char>>
    decreases ps.len(),
{
    if ps.len() == 0 {
        Seq::empty()
    } else {
        let t = shown_texts(ps.drop_last());
        match payload_delta(ps.last()) {
            Some(d) => if extra(d.text).len() > 0 {
                t.push(extra(d.text))
            } else {
                t
            },
            None => t,
        }
    }
}

proof fn lemma_absorb_concat(acc: AccView, a: Seq<Seq<char>>, b: Seq<Seq<char>>)
    ensures
        absorb_all(acc, a + b) == absorb_all(absorb_all(acc, a), b),
        shown_texts(a + b) == shown_texts(a) + shown_texts(b),
    decreases b.len(),
{
    if b.len() == 0 {
        assert(a + b =~= a);
        assert(shown_texts(a) + shown_texts(b) =~= shown_texts(a));
    } else {
        lemma_absorb_concat(acc, a, b.drop_last());
        assert((a + b).drop_last() =~= a + b.drop_last());
        assert((a + b).last() == b.last());
        let t = shown_texts(a) + shown_texts(b.drop_last());
        match payload_delta(b.last()) {
            Some(d) => {
                if extra(d.text).len() > 0 {
                    assert(t.push(extra(d.text)) =~= shown_texts(a) + shown_texts(b.drop_last()).push(
                        extra(d.text),
                    ));
                }
            },
            None => {},
        }
    }
}

/// The deltas of the payloads that carry one, in order.
pub open spec fn payload_deltas(ps: Seq<Seq<char>>) -> Seq<DeltaView>
    decreases ps.len(),
{
    if ps.len() == 0 {
        Seq::empty()
    } else {
        let ds = payload_deltas(ps.drop_last());
        match payload_delta(ps.last()) {
            Some(d) => ds.push(d),
            None => ds,
        }
    }
}

proof fn lemma_delta_indexes(v: JsonView)
    ensures
        delta_of(v) matches Some(d) ==> crate::stream::indexes_valid(d.calls),
{
    if delta_of(v) is Some {
        let d = delta_of(v)->0;
        assert forall|k: int| 0 <= k < d.calls.len() implies #[trigger] d.calls[k].index >= 0 by {
            let cs = v.field("choices"@)->0->Array_0;
            let dv = cs[0].field("delta"@)->0;
            match dv.field("tool_calls"@) {
                Some(JsonView::Array(ts)) => {
                    let c = ts[k];
                    assert(call_delta_of(c) is Some);
                    lemma_index_number_nonneg(c.field("index"@)->0->Number_0);
                },
                _ => {},
            }
        }
    }
}

proof fn lemma_absorb_is_fold(ps: Seq<Seq<char>>)
    ensures
        absorb_all(crate::stream::empty_acc(), ps) == crate::stream::fold(payload_deltas(ps)),
        crate::stream::deltas_valid(payload_deltas(ps)),
    decreases ps.len(),
{
    if ps.len() > 0 {
        lemma_absorb_is_fold(ps.drop_last());
        let ds = payload_deltas(ps.drop_last());
        match payload_delta(ps.last()) {
            Some(d) => {
                let e = ds.push(d);
                assert(e.drop_last() =~= ds);
                lemma_delta_indexes(json_of(ps.last()));
                assert forall|k: int| 0 <= k < e.len() implies crate::stream::indexes_valid(
                    #[trigger] e[k].calls,
                ) by {
                    if k < ds.len() {
                        assert(e[k] == ds[k]);
                    }
                }
            },
            None => {},
        }
    }
}

/// A whole streamed reply, as the payloads that reached the accumulator: the
/// text is the concatenation of the deltas' texts in arrival order, and the
/// tool-call table has one slot for each index up to the largest seen, each
/// holding the last non-empty id and name given for its index and all its
/// argument text in arrival order; an index no delta named is a placeholder
/// `call_<index>` with empty name and arguments.
pub proof fn lemma_stream_reconstruction(ps: Seq<Seq<char>>)
    ensures
        absorb_all(crate::stream::empty_acc(), ps).text == crate::stream::all_text(payload_deltas(ps)),
        crate::stream::described(
            absorb_all(crate::stream::empty_acc(), ps).slots,
            crate::stream::all_calls(payload_deltas(ps)),
        ),
        forall|i: int|
            0 <= i < crate::stream::table_len(crate::stream::all_calls(payload_deltas(ps))) && (forall|k: int|
                0 <= k < crate::stream::all_calls(payload_deltas(ps)).len() ==> #[trigger] crate::stream::all_calls(
                    payload_deltas(ps),
                )[k].index != i) ==> #[trigger] crate::stream::final_calls(
                absorb_all(crate::stream::empty_acc(), ps),
            )->0[i] == (CallView {
                id: "call_"@ + crate::text::decimal(i as nat),
                kind: "function"@,
                name: Seq::empty(),
                arguments: Seq::empty(),
            }),
{
    lemma_absorb_is_fold(ps);
    crate::stream::lemma_reconstruction(payload_deltas(ps));
    let ds = payload_deltas(ps);
    assert forall|i: int|
        0 <= i < crate::stream::table_len(crate::stream::all_calls(ds)) && (forall|k: int|
            0 <= k < crate::stream::all_calls(ds).len() ==> #[trigger] crate::stream::all_calls(ds)[k].index
                != i) implies #[trigger] crate::stream::final_calls(absorb_all(crate::stream::empty_acc(), ps))->0[i]
        == (CallView {
        id: "call_"@ + crate::text::decimal(i as nat),
        kind: "function"@,
        name: Seq::empty(),
        arguments: Seq::empty(),
    }) by {
        crate::stream::lemma_gap_placeholder(ds, i);
    }
}

/// The result of a streamed call does not depend on how its bytes are split
/// into chunks: feeding `a` and then `x` applies and shows the same as feeding
/// `a + x` at once.
pub proof fn lemma_stream_chunking(acc: AccView, a: Seq<u8>, x: Seq<u8>)
    requires
        !scan(a).done,
    ensures
        absorb_all(acc, scan(a + x).payloads) == absorb_all(
            absorb_all(acc, scan(a).payloads),
            scan(scan(a).rest + x).payloads,
        ),
        shown_texts(scan(a + x).payloads) == shown_texts(scan(a).payloads) + shown_texts(
            scan(scan(a).rest + x).payloads,
        ),
        scan(a + x).done == scan(scan(a).rest + x).done,
        scan(a + x).rest == scan(scan(a).rest + x).rest,
{
    crate::stream::lemma_scan_split(a, x);
    lemma_absorb_concat(acc, scan(a).payloads, scan(scan(a).rest + x).payloads);
}

/// A stream that ends with the termination line, after complete lines with
/// no termination line among them, leaves the accumulator and the shown texts
/// as a connection that closes right after those lines; nothing after the
/// termination line counts.
pub proof fn lemma_stream_sentinel_same_as_close(acc: AccView, a: Seq<u8>, line: Seq<u8>, more: Seq<u8>)
    requires
        !scan(a).done,
        scan(a).rest.len() == 0,
        line.len() > 0,
        line.last() == 10u8,
        forall|k: int| 0 <= k < line.len() - 1 ==> line[k] != 10u8,
        crate::stream::line_kind(line) == crate::stream::LineKind::Done,
    ensures
        absorb_all(acc, scan(a + (line + more)).payloads) == absorb_all(acc, scan(a).payloads),
        shown_texts(scan(a + (line + more)).payloads) == shown_texts(scan(a).payloads),
        scan(a + (line + more)).done,
{
    crate::stream::lemma_sentinel_same_as_close(a, line, more);
}

impl StreamTurn {
    pub fn new() -> (r: StreamTurn)
        ensures
            r@.decoder == (DecoderView { pending: Seq::empty(), done: false }),
            r@.acc == crate::stream::empty_acc(),
    {
        StreamTurn { decoder: SseDecoder::new(), acc: Accumulator::new() }
    }

    /// Whether the termination line has been seen.
    pub fn is_done(&self) -> (r: bool)
        ensures
            r == self@.decoder.done,
    {
        self.decoder.is_done()
    }

    /// Applies one parsed chunk. A chunk that holds a delta updates the
    /// accumulator, and its non-empty text is returned, to be shown at once;
    /// any other chunk is skipped.
    pub fn absorb(&mut self, v: &JsonValue) -> (r: Option<String>)
        ensures
            final(self)@.decoder == old(self)@.decoder,
            match delta_of(v@) {
                Some(d) => {
                    &&& final(self)@.acc == step(old(self)@.acc, d)
                    &&& match r {
                        Some(t) => d.text == Some(t@) && t@.len() > 0,
                        None => extra(d.text).len() == 0,
                    }
                },
                None => final(self)@.acc == old(self)@.acc && r is None,
            },
    {
        match read_delta(v) {
            Some(d) => {
                self.acc.apply(&d);
                match d.content {
                    Some(t) => if t.as_str().is_empty() {
                        None
                    } else {
                        Some(t)
                    },
                    None => None,
                }
            },
            None => None,
        }
    }

    /// Takes the next bytes of the response body. The data payloads they
    /// complete are applied in order: each that parses as JSON and holds a
    /// delta updates the accumulator, any other is skipped. The returned texts
    /// are the non-empty texts of those deltas, in order, to be shown at once.
    pub fn feed(&mut self, chunk: &[u8]) -> (r: Vec<String>)
        ensures
            old(self)@.decoder.done ==> final(self)@ == old(self)@ && r@.len() == 0,
            !old(self)@.decoder.done ==> ({
                let s = scan(old(self)@.decoder.pending + chunk@);
                &&& final(self)@.decoder == (DecoderView { pending: s.rest, done: s.done })
                &&& final(self)@.acc == absorb_all(old(self)@.acc, s.payloads)
                &&& r@.map_values(|t: String| t@) == shown_texts(s.payloads)
            }),
    {
        let payloads = self.decoder.push(chunk);
        let ghost pv = payloads@.map_values(|t: String| t@);
        let mut out: Vec<String> = Vec::new();
        let ghost dec = self@.decoder;
        let ghost acc0 = self@.acc;
        let mut i: usize = 0;
        proof {
            assert(out@.map_values(|t: String| t@) =~= Seq::<Seq<char>>::empty());
            assert(pv.subrange(0, 0) =~= Seq::<Seq<char>>::empty());
        }
        while i < payloads.len()
            invariant
                i <= payloads@.len(),
                pv == payloads@.map_values(|t: String| t@),
                self@.decoder == dec,
                old(self)@.decoder.done ==> payloads@.len() == 0 && self@ == old(self)@,
                self@.acc == absorb_all(acc0, pv.subrange(0, i as int)),
                out@.map_values(|t: String| t@) == shown_texts(pv.subrange(0, i as int)),
            decreases payloads@.len() - i,
        {
            let ghost before = out@.map_values(|t: String| t@);
            proof {
                let sub = pv.subrange(0, i + 1);
                assert(sub.drop_last() =~= pv.subrange(0, i as int));
                assert(sub.last() == payloads@[i as int]@);
            }
            match parse_json(payloads[i].as_str()) {
                Ok(v) => {
                    let shown = self.absorb(&v);
                    match shown {
                        Some(t) => {
                            out.push(t);
                            proof {
                                assert(out@.map_values(|t: String| t@) =~= before.push(out@[out@.len() - 1]@));
                            }
                        },
                        None => {},
                    }
                },
                Err(_) => {},
            }
            i = i + 1;
        }
        proof {
            assert(pv.subrange(0, pv.len() as int) =~= pv);
        }
        out
    }

    /// Ends the call, by the termination line or by the connection closing:
    /// appends one assistant turn and answers as the accumulator does.
    pub fn finish(self, messages: &mut Vec<Message>) -> (r: AgentResponse)
        ensures
            conversation(final(messages)@) == conversation(old(messages)@).push(
                reply_turn(final_content(self@.acc), final_calls(self@.acc)),
            ),
            r@ == final_response(self@.acc),
    {
        self.acc.finish(messages)
    }
}

// ---------------------------------------------------------------------------
// Requests
// ---------------------------------------------------------------------------

/// Which model to ask and the fixed instruction that opens every request.
pub struct AgentConfig {
    pub model: String,
    pub system_prompt: String,
}

/// A tool call as the wire carries it.
pub open spec fn wire_call(c: CallView) -> JsonView {
    JsonView::Object(
        seq!["id"@, "type"@, "function"@],
        seq![
            JsonView::Str(c.id),
            JsonView::Str(c.kind),
            JsonView::Object(seq!["name"@, "arguments"@], seq![JsonView::Str(c.name), JsonView::Str(c.arguments)]),
        ],
    )
}

/// A turn as the wire carries it.
pub open spec fn wire_message(m: MessageView) -> JsonView {
    match m {
        MessageView::Role { role, content } => JsonView::Object(
            seq!["role"@, "content"@],
            seq![JsonView::Str(role), JsonView::Str(content)],
        ),
        MessageView::Assistant { role, content, tool_calls } => match tool_calls {
            None => JsonView::Object(seq!["role"@, "content"@], seq![JsonView::Str(role), text_or_null(content)]),
            Some(cs) => JsonView::Object(
                seq!["role"@, "content"@, "tool_calls"@],
                seq![
                    JsonView::Str(role),
                    text_or_null(content),
                    JsonView::Array(cs.map_values(|c: CallView| wire_call(c))),
                ],
            ),
        },
        MessageView::ToolResult { role, tool_call_id, content, .. } => JsonView::Object(
            seq!["role"@, "tool_call_id"@, "content"@],
            seq![JsonView::Str(role), JsonView::Str(tool_call_id), JsonView::Str(content)],
        ),
    }
}

/// A message of the given role and text.
pub open spec fn plain_message(role: Seq<char>, text: Seq<char>) -> JsonView {
    JsonView::Object(seq!["role"@, "content"@], seq![JsonView::Str(role), JsonView::Str(text)])
}

/// A chat request: the system instruction, then the conversation, with the
/// six tools offered and left to the model's choice; streamed when asked.
pub open spec fn chat_request_view(
    model: Seq<char>,
    system: Seq<char>,
    msgs: Seq<MessageView>,
    stream: bool,
) -> JsonView {
    let names = seq!["model"@, "messages"@, "tools"@, "tool_choice"@];
    let values = seq![
        JsonView::Str(model),
        JsonView::Array(seq![plain_message("system"@, system)] + msgs.map_values(|m: MessageView| wire_message(m))),
        JsonView::Array(registry_view().map_values(|t| function_tool(t))),
        JsonView::Str("auto"@),
    ];
    if stream {
        JsonView::Object(names.push("stream"@), values.push(JsonView::Bool(true)))
    } else {
        JsonView::Object(names, values)
    }
}

/// A completion request without tools: one system and one user message.
pub open spec fn completion_request_view(model: Seq<char>, system: Seq<char>, user: Seq<char>) -> JsonView {
    JsonView::Object(
        seq!["model"@, "messages"@],
        seq![
            JsonView::Str(model),
            JsonView::Array(seq![plain_message("system"@, system), plain_message("user"@, user)]),
        ],
    )
}

fn build_call(c: &ToolCall) -> (r: JsonValue)
    ensures
        r@ == wire_call(c@),
{
    let mut f = ObjectBuilder::new();
    f.add_text("name", c.function.name.as_str());
    f.add_text("arguments", c.function.arguments.as_str());
    proof {
        assert(f.names() =~= seq!["name"@, "arguments"@]);
        assert(f.values() =~= seq![JsonView::Str(c.function.name@), JsonView::Str(c.function.arguments@)]);
    }
    let f = f.build();
    let mut o = ObjectBuilder::new();
    o.add_text("id", c.id.as_str());
    o.add_text("type", c.type_.as_str());
    o.add("function", f);
    proof {
        assert(o.names() =~= seq!["id"@, "type"@, "function"@]);
        assert(o.values() =~= seq![
            JsonView::Str(c.id@),
            JsonView::Str(c.type_@),
            JsonView::Object(seq!["name"@, "arguments"@], seq![JsonView::Str(c.function.name@), JsonView::Str(c.function.arguments@)]),
        ]);
    }
    o.build()
}

fn build_plain(role: &str, text: &str) -> (r: JsonValue)
    ensures
        r@ == plain_message(role@, text@),
{
    let mut o = ObjectBuilder::new();
    o.add_text("role", role);
    o.add_text("content", text);
    proof {
        assert(o.names() =~= seq!["role"@, "content"@]);
        assert(o.values() =~= seq![JsonView::Str(role@), JsonView::Str(text@)]);
    }
    o.build()
}

/// A turn in wire form.
pub fn build_message(m: &Message) -> (r: JsonValue)
    ensures
        r@ == wire_message(m@),
{
    match m {
        Message::Role { role, content } => build_plain(role.as_str(), content.as_str()),
        Message::Assistant { role, content, tool_calls } => {
            let mut o = ObjectBuilder::new();
            o.add_text("role", role.as_str());
            o.add("content", JsonValue::text_or_null(content));
            match tool_calls {
                None => {
                    proof {
                        assert(o.names() =~= seq!["role"@, "content"@]);
                        assert(o.values() =~= seq![JsonView::Str(role@), text_or_null(opt_str(*content))]);
                    }
                },
                Some(cs) => {
                    let mut a = ArrayBuilder::new();
                    let mut i: usize = 0;
                    while i < cs.len()
                        invariant
                            i <= cs@.len(),
                            a@ == crate::message::calls_view(cs@).subrange(0, i as int).map_values(
                                |c: CallView| wire_call(c),
                            ),
                        decreases cs@.len() - i,
                    {
                        a.add(build_call(&cs[i]));
                        proof {
                            let cv = crate::message::calls_view(cs@);
                            assert(cv.subrange(0, i + 1).map_values(|c: CallView| wire_call(c)) =~= cv.subrange(
                                0,
                                i as int,
                            ).map_values(|c: CallView| wire_call(c)).push(wire_call(cs@[i as int]@)));
                        }
                        i = i + 1;
                    }
                    let ghost cv = crate::message::calls_view(cs@);
                    assert(cv.subrange(0, cv.len() as int) =~= cv);
                    o.add("tool_calls", a.build());
                    proof {
                        assert(o.names() =~= seq!["role"@, "content"@, "tool_calls"@]);
                        assert(o.values() =~= seq![
                            JsonView::Str(role@),
                            text_or_null(opt_str(*content)),
                            JsonView::Array(cv.map_values(|c: CallView| wire_call(c))),
                        ]);
                    }
                },
            }
            o.build()
        },
        Message::ToolResult { role, tool_call_id, content, .. } => {
            let mut o = ObjectBuilder::new();
            o.add_text("role", role.as_str());
            o.add_text("tool_call_id", tool_call_id.as_str());
            o.add_text("content", content.as_str());
            proof {
                assert(o.names() =~= seq!["role"@, "tool_call_id"@, "content"@]);
                assert(o.values() =~= seq![JsonView::Str(role@), JsonView::Str(tool_call_id@), JsonView::Str(content@)]);
            }
            o.build()
        },
    }
}

/// The body of a chat request for the conversation so far.
pub fn chat_request(config: &AgentConfig, messages: &Vec<Message>, stream: bool) -> (r: JsonValue)
    ensures
        r@ == chat_request_view(config.model@, config.system_prompt@, conversation(messages@), stream),
{
    let mut msgs = ArrayBuilder::new();
    msgs.add(build_plain("system", config.system_prompt.as_str()));
    let ghost head = seq![plain_message("system"@, config.system_prompt@)];
    let ghost conv = conversation(messages@);
    let mut i: usize = 0;
    while i < messages.len()
        invariant
            i <= messages@.len(),
            conv == conversation(messages@),
            msgs@ == head + conv.subrange(0, i as int).map_values(|m: MessageView| wire_message(m)),
        decreases messages@.len() - i,
    {
        msgs.add(build_message(&messages[i]));
        proof {
            assert(conv.subrange(0, i + 1).map_values(|m: MessageView| wire_message(m)) =~= conv.subrange(
                0,
                i as int,
            ).map_values(|m: MessageView| wire_message(m)).push(wire_message(messages@[i as int]@)));
            assert(head + conv.subrange(0, i + 1).map_values(|m: MessageView| wire_message(m)) =~= (head
                + conv.subrange(0, i as int).map_values(|m: MessageView| wire_message(m))).push(
                wire_message(messages@[i as int]@),
            ));
        }
        i = i + 1;
    }
    assert(conv.subrange(0, conv.len() as int) =~= conv);
    assert(msgs@ == head + conv.map_values(|m: MessageView| wire_message(m)));
    let defs = tool_defs();
    let mut tools = ArrayBuilder::new();
    let mut rest = defs;
    while rest.len() > 0
        invariant
            rest@.len() + tools@.len() == registry_view().len(),
            forall|k: int| 0 <= k < tools@.len() ==> #[trigger] tools@[k] == function_tool(registry_view()[k]),
            forall|k: int| 0 <= k < rest@.len() ==> #[trigger] rest@[k]@ == function_tool(
                registry_view()[k + tools@.len()],
            ),
        decreases rest@.len(),
    {
        let ghost prev = rest@;
        let d = rest.remove(0);
        proof {
            assert(d@ == function_tool(registry_view()[tools@.len() as int]));
        }
        tools.add(d);
        proof {
            assert forall|k: int| 0 <= k < rest@.len() implies #[trigger] rest@[k]@ == function_tool(
                registry_view()[k + tools@.len()],
            ) by {
                assert(rest@[k] == prev[k + 1]);
            }
        }
    }
    proof {
        assert(tools@ =~= registry_view().map_values(|t| function_tool(t)));
    }
    let mut o = ObjectBuilder::new();
    let mv = msgs.build();
    let tv = tools.build();
    o.add_text("model", config.model.as_str());
    o.add("messages", mv);
    o.add("tools", tv);
    o.add_text("tool_choice", "auto");
    proof {
        let names = seq!["model"@, "messages"@, "tools"@, "tool_choice"@];
        let values = seq![
            JsonView::Str(config.model@),
            JsonView::Array(head + conv.map_values(|m: MessageView| wire_message(m))),
            JsonView::Array(registry_view().map_values(|t| function_tool(t))),
            JsonView::Str("auto"@),
        ];
        assert(o.names() =~= names);
        assert(o.values() =~= values);
    }
    if stream {
        o.add("stream", JsonValue::Bool(true));
    }
    o.build()
}

/// The body of a completion request without tools.
pub fn completion_request(model: &str, system: &str, user: &str) -> (r: JsonValue)
    ensures
        r@ == completion_request_view(model@, system@, user@),
{
    let mut msgs = ArrayBuilder::new();
    msgs.add(build_plain("system", system));
    msgs.add(build_plain("user", user));
    assert(msgs@ =~= seq![plain_message("system"@, system@), plain_message("user"@, user@)]);
    let mut o = ObjectBuilder::new();
    o.add_text("model", model);
    let mv = msgs.build();
    o.add("messages", mv);
    proof {
        assert(o.names() =~= seq!["model"@, "messages"@]);
        assert(o.values() =~= seq![
            JsonView::Str(model@),
            JsonView::Array(seq![plain_message("system"@, system@), plain_message("user"@, user@)]),
        ]);
    }
    o.build()
}

// ---------------------------------------------------------------------------
// Replies
// ---------------------------------------------------------------------------

/// A tool call of a reply: text `id`, optional text `type` (`function` when
/// absent), and a `function` object with text `name` and `arguments`.
pub open spec fn tool_call_of(v: JsonView) -> Option<CallView> {
    let f = v.field("function"@);
    let kind = match v.field("type"@) {
        None => Some("function"@),
        Some(JsonView::Str(t)) => Some(t),
        _ => None,
    };
    let id = v.field("id"@);
    if !(id matches Some(JsonView::Str(_))) || kind is None || !(f matches Some(JsonView::Object(..))) {
        None
    } else {
        let name = f->0.field("name"@);
        let args = f->0.field("arguments"@);
        if !(name matches Some(JsonView::Str(_))) || !(args matches Some(JsonView::Str(_))) {
            None
        } else {
            Some(
                CallView {
                    id: id->0->Str_0,
                    kind: kind->0,
                    name: name->0->Str_0,
                    arguments: args->0->Str_0,
                },
            )
        }
    }
}

/// What a reply body says.
pub ghost enum ReplyView {
    /// It does not have the shape of a reply.
    Malformed,
    /// It has no choice.
    Empty,
    /// The message of its first choice.
    Reply { content: Option<Seq<char>>, tool_calls: Option<Seq<CallView>> },
}

/// A reply: an array `choices` whose first entry holds a `message` object with
/// optional text `content` and an optional array of tool calls `tool_calls`.
pub open spec fn reply_of(v: JsonView) -> ReplyView {
    match v.field("choices"@) {
        Some(JsonView::Array(cs)) => if cs.len() == 0 {
            ReplyView::Empty
        } else {
            let m = cs[0].field("message"@);
            if !(m matches Some(JsonView::Object(..))) || text_member(m->0, "content"@) is None {
                ReplyView::Malformed
            } else {
                let content = text_member(m->0, "content"@)->0;
                match m->0.field("tool_calls"@) {
                    None => ReplyView::Reply { content, tool_calls: None },
                    Some(JsonView::Null) => ReplyView::Reply { content, tool_calls: None },
                    Some(JsonView::Array(ts)) => if forall|k: int|
                        0 <= k < ts.len() ==> (#[trigger] tool_call_of(ts[k])) is Some {
                        ReplyView::Reply {
                            content,
                            tool_calls: Some(Seq::new(ts.len(), |k: int| tool_call_of(ts[k])->0)),
                        }
                    } else {
                        ReplyView::Malformed
                    },
                    _ => ReplyView::Malformed,
                }
            }
        },
        _ => ReplyView::Malformed,
    }
}

fn read_tool_call(v: &JsonValue) -> (r: Option<ToolCall>)
    ensures
        match r {
            Some(c) => tool_call_of(v@) == Some(c@),
            None => tool_call_of(v@) is None,
        },
{
    let id = match v.get("id") {
        Some(JsonValue::Str(id)) => id,
        _ => return None,
    };
    let kind = match v.get("type") {
        None => crate::message::default_tool_type(),
        Some(JsonValue::Str(t)) => t.clone(),
        _ => return None,
    };
    let f = match v.get("function") {
        Some(f) => f,
        None => return None,
    };
    if !(f matches JsonValue::Object(_)) {
        return None;
    }
    let name = match f.get("name") {
        Some(JsonValue::Str(n)) => n,
        _ => return None,
    };
    let args = match f.get("arguments") {
        Some(JsonValue::Str(a)) => a,
        _ => return None,
    };
    Some(ToolCall {
        id: id.clone(),
        type_: kind,
        function: crate::message::FunctionCall { name: name.clone(), arguments: args.clone() },
    })
}

fn read_tool_calls(ts: &Vec<JsonValue>) -> (r: Option<Vec<ToolCall>>)
    ensures
        match r {
            Some(out) => (forall|k: int|
                0 <= k < ts@.len() ==> (#[trigger] tool_call_of(elements(ts@)[k])) is Some)
                && crate::message::calls_view(out@) == Seq::new(
                ts@.len(),
                |k: int| tool_call_of(elements(ts@)[k])->0,
            ),
            None => !(forall|k: int|
                0 <= k < ts@.len() ==> (#[trigger] tool_call_of(elements(ts@)[k])) is Some),
        },
{
    let ghost tsv = elements(ts@);
    let mut out: Vec<ToolCall> = Vec::new();
    let mut i: usize = 0;
    while i < ts.len()
        invariant
            i <= ts@.len(),
            tsv == elements(ts@),
            out@.len() == i,
            forall|k: int| 0 <= k < i ==> tool_call_of(tsv[k]) == Some(#[trigger] out@[k]@),
        decreases ts@.len() - i,
    {
        match read_tool_call(&ts[i]) {
            Some(c) => out.push(c),
            None => {
                assert(tool_call_of(tsv[i as int]) is None);
                return None;
            },
        }
        i = i + 1;
    }
    proof {
        assert forall|k: int| 0 <= k < tsv.len() implies (#[trigger] tool_call_of(tsv[k])) is Some by {
            assert(tool_call_of(tsv[k]) == Some(out@[k]@));
        }
        assert(crate::message::calls_view(out@) =~= Seq::new(
            ts@.len(),
            |k: int| tool_call_of(tsv[k])->0,
        ));
    }
    Some(out)
}

/// The parts of a reply, or why there are none.
pub enum ReplyParts {
    Malformed,
    Empty,
    Reply { content: Option<String>, tool_calls: Option<Vec<ToolCall>> },
}

pub open spec fn parts_view(p: ReplyParts) -> ReplyView {
    match p {
        ReplyParts::Malformed => ReplyView::Malformed,
        ReplyParts::Empty => ReplyView::Empty,
        ReplyParts::Reply { content, tool_calls } => ReplyView::Reply {
            content: opt_str(content),
            tool_calls: opt_calls(tool_calls),
        },
    }
}

/// Reads a reply body.
pub fn read_reply(v: &JsonValue) -> (r: ReplyParts)
    ensures
        parts_view(r) == reply_of(v@),
{
    let cs = match v.get("choices") {
        Some(JsonValue::Array(cs)) => cs,
        _ => return ReplyParts::Malformed,
    };
    if cs.len() == 0 {
        return ReplyParts::Empty;
    }
    proof {
        lemma_array_view(*cs);
    }
    let m = match cs[0].get("message") {
        Some(m) => m,
        None => return ReplyParts::Malformed,
    };
    if !(m matches JsonValue::Object(_)) {
        return ReplyParts::Malformed;
    }
    let content = match read_opt_text(m.get("content")) {
        Some(c) => c,
        None => return ReplyParts::Malformed,
    };
    match m.get("tool_calls") {
        None => ReplyParts::Reply { content, tool_calls: None },
        Some(JsonValue::Null) => ReplyParts::Reply { content, tool_calls: None },
        Some(JsonValue::Array(ts)) => {
            proof {
                lemma_array_view(*ts);
            }
            match read_tool_calls(ts) {
                Some(calls) => ReplyParts::Reply { content, tool_calls: Some(calls) },
                None => ReplyParts::Malformed,
            }
        },
        _ => ReplyParts::Malformed,
    }
}

/// The message of a body that has no choice.
pub open spec fn no_response_message() -> Seq<char> {
    "No response"@
}

/// The message of a body that is not a reply.
pub open spec fn malformed_message() -> Seq<char> {
    "malformed response body"@
}

/// The message of a failed request: the body follows the prefix.
pub open spec fn api_error_message(body: Seq<char>) -> Seq<char> {
    "API error: "@ + body
}

/// The error of a request that the server refused.
pub fn api_error(body: &str) -> (r: String)
    ensures
        r@ == api_error_message(body@),
{
    String::from_str("API error: ").concat(body)
}

/// Records a parsed reply body: on a reply, one assistant turn is appended and
/// the response returned; otherwise the conversation is left as it was.
pub fn chat_reply(messages: &mut Vec<Message>, v: &JsonValue) -> (r: Result<AgentResponse, String>)
    ensures
        match reply_of(v@) {
            ReplyView::Reply { content, tool_calls } => {
                &&& r is Ok
                &&& conversation(final(messages)@) == conversation(old(messages)@).push(
                    reply_turn(content, nonempty_calls(tool_calls)),
                )
                &&& r->Ok_0@ == reply_response(content, nonempty_calls(tool_calls))
            },
            ReplyView::Empty => r is Err && r->Err_0@ == no_response_message() && final(messages)@
                == old(messages)@,
            ReplyView::Malformed => r is Err && r->Err_0@ == malformed_message() && final(messages)@
                == old(messages)@,
        },
{
    match read_reply(v) {
        ReplyParts::Reply { content, tool_calls } => Ok(record_reply(messages, content, tool_calls)),
        ReplyParts::Empty => Err(String::from_str("No response")),
        ReplyParts::Malformed => Err(String::from_str("malformed response body")),
    }
}

/// Records the outcome of a chat request from its status and body. A failed
/// status, a body that is not JSON, or one that is not a reply, leaves the
/// conversation as it was and is an error; a reply appends one assistant turn.
pub fn chat_outcome(messages: &mut Vec<Message>, status_ok: bool, body: &str) -> (r: Result<
    AgentResponse,
    String,
>)
    ensures
        !status_ok ==> r is Err && r->Err_0@ == api_error_message(body@),
        status_ok && !json_parses(body@) ==> r is Err,
        r is Err ==> final(messages)@ == old(messages)@,
        r is Ok ==> conversation(final(messages)@).drop_last() == conversation(old(messages)@)
            && final(messages)@.len() == old(messages)@.len() + 1,
        status_ok && json_parses(body@) ==> match reply_of(json_of(body@)) {
            ReplyView::Reply { content, tool_calls } => {
                &&& r is Ok
                &&& conversation(final(messages)@) == conversation(old(messages)@).push(
                    reply_turn(content, nonempty_calls(tool_calls)),
                )
                &&& r->Ok_0@ == reply_response(content, nonempty_calls(tool_calls))
            },
            ReplyView::Empty => r is Err && r->Err_0@ == no_response_message(),
            ReplyView::Malformed => r is Err && r->Err_0@ == malformed_message(),
        },
{
    if !status_ok {
        return Err(api_error(body));
    }
    match parse_json(body) {
        Err(e) => Err(e),
        Ok(v) => {
            let r = chat_reply(messages, &v);
            proof {
                if r is Ok {
                    assert(conversation(final(messages)@).drop_last() =~= conversation(old(messages)@));
                }
            }
            r
        },
    }
}

/// The text of a completion reply: its content, or empty when it has none.
pub fn completion_reply(v: &JsonValue) -> (r: Result<String, String>)
    ensures
        match reply_of(v@) {
            ReplyView::Reply { content, .. } => r is Ok && r->Ok_0@ == extra(content),
            ReplyView::Empty => r is Err && r->Err_0@ == no_response_message(),
            ReplyView::Malformed => r is Err && r->Err_0@ == malformed_message(),
        },
{
    match read_reply(v) {
        ReplyParts::Reply { content, .. } => match content {
            Some(c) => Ok(c),
            None => Ok(String::new()),
        },
        ReplyParts::Empty => Err(String::from_str("No response")),
        ReplyParts::Malformed => Err(String::from_str("malformed response body")),
    }
}

/// The outcome of a completion request from its status and body.
pub fn completion_outcome(status_ok: bool, body: &str) -> (r: Result<String, String>)
    ensures
        !status_ok ==> r is Err && r->Err_0@ == api_error_message(body@),
        status_ok && !json_parses(body@) ==> r is Err,
        status_ok && json_parses(body@) ==> match reply_of(json_of(body@)) {
            ReplyView::Reply { content, .. } => r is Ok && r->Ok_0@ == extra(content),
            ReplyView::Empty => r is Err && r->Err_0@ == no_response_message(),
            ReplyView::Malformed => r is Err && r->Err_0@ == malformed_message(),
        },
{
    if !status_ok {
        return Err(api_error(body));
    }
    match parse_json(body) {
        Err(e) => Err(e),
        Ok(v) => completion_reply(&v),
    }
}

} // verus!
