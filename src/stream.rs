//! Rebuilding a reply from a server-sent event stream: framing the byte stream
//! into event payloads, and accumulating text and tool-call fragments.

use vstd::prelude::*;
use crate::message::{
    AgentResponse, CallView, Message, ResponseView, ToolCall, calls_view, conversation, nonempty_calls,
    opt_calls, opt_str, record_reply, reply_response, reply_turn,
};
use crate::text::{chars_of, decimal, decode_utf8, same_text, slice_text, starts_with, trim_text, trimmed, utf8_decoded, with_number};

verus! {

// ---------------------------------------------------------------------------
// Fragments
// ---------------------------------------------------------------------------

/// One incremental update to one tool call.
#[derive(Clone, Debug)]
pub struct ToolCallDelta {
    /// The position of the call within the reply.
    pub index: usize,
    pub id: Option<String>,
    pub name: Option<String>,
    /// More characters of the arguments text.
    pub arguments: Option<String>,
}

/// One incremental update of a streamed reply.
#[derive(Clone, Debug)]
pub struct StreamDelta {
    /// More reply text.
    pub content: Option<String>,
    pub tool_calls: Vec<ToolCallDelta>,
}

pub ghost struct CallDeltaView {
    pub index: int,
    pub id: Option<Seq<char>>,
    pub name: Option<Seq<char>>,
    pub arguments: Option<Seq<char>>,
}

pub ghost struct DeltaView {
    pub text: Option<Seq<char>>,
    pub calls: Seq<CallDeltaView>,
}

impl View for ToolCallDelta {
    type V = CallDeltaView;

    open spec fn view(&self) -> CallDeltaView {
        CallDeltaView {
            index: self.index as int,
            id: opt_str(self.id),
            name: opt_str(self.name),
            arguments: opt_str(self.arguments),
        }
    }
}

impl View for StreamDelta {
    type V = DeltaView;

    open spec fn view(&self) -> DeltaView {
        DeltaView {
            text: opt_str(self.content),
            calls: self.tool_calls@.map_values(|c: ToolCallDelta| c@),
        }
    }
}

// ---------------------------------------------------------------------------
// The accumulator as a function of the fragments
// ---------------------------------------------------------------------------

/// What is known so far of one tool call.
pub ghost struct SlotView {
    pub id: Seq<char>,
    pub name: Seq<char>,
    pub arguments: Seq<char>,
}

/// Accumulated text and tool-call slots, by index.
pub ghost struct AccView {
    pub text: Seq<char>,
    pub slots: Seq<SlotView>,
}

/// A supplied non-empty value replaces the old one.
pub open spec fn overwrite(old: Seq<char>, new: Option<Seq<char>>) -> Seq<char> {
    match new {
        Some(n) => if n.len() > 0 {
            n
        } else {
            old
        },
        None => old,
    }
}

/// The text an optional fragment contributes.
pub open spec fn extra(t: Option<Seq<char>>) -> Seq<char> {
    match t {
        Some(x) => x,
        None => Seq::empty(),
    }
}

pub open spec fn empty_slot() -> SlotView {
    SlotView { id: Seq::empty(), name: Seq::empty(), arguments: Seq::empty() }
}

/// The table extended with empty slots to at least `n` entries.
pub open spec fn grow(slots: Seq<SlotView>, n: int) -> Seq<SlotView> {
    if n <= slots.len() {
        slots
    } else {
        slots + Seq::new((n - slots.len()) as nat, |k: int| empty_slot())
    }
}

/// Whether a table of `usize`-indexed slots can hold index `i`.
pub open spec fn addressable(i: int) -> bool {
    0 <= i < usize::MAX
}

/// One tool-call fragment applied to the table.
pub open spec fn apply_call(slots: Seq<SlotView>, c: CallDeltaView) -> Seq<SlotView> {
    if !addressable(c.index) {
        slots
    } else {
        let g = grow(slots, c.index + 1);
        g.update(
            c.index,
            SlotView {
                id: overwrite(g[c.index].id, c.id),
                name: overwrite(g[c.index].name, c.name),
                arguments: g[c.index].arguments + extra(c.arguments),
            },
        )
    }
}

/// Tool-call fragments applied in order.
pub open spec fn apply_calls(slots: Seq<SlotView>, cs: Seq<CallDeltaView>) -> Seq<SlotView>
    decreases cs.len(),
{
    if cs.len() == 0 {
        slots
    } else {
        apply_call(apply_calls(slots, cs.drop_last()), cs.last())
    }
}

/// One fragment applied to the accumulated state.
pub open spec fn step(a: AccView, d: DeltaView) -> AccView {
    AccView { text: a.text + extra(d.text), slots: apply_calls(a.slots, d.calls) }
}

pub open spec fn empty_acc() -> AccView {
    AccView { text: Seq::empty(), slots: Seq::empty() }
}

/// The state after a sequence of fragments.
pub open spec fn fold(ds: Seq<DeltaView>) -> AccView
    decreases ds.len(),
{
    if ds.len() == 0 {
        empty_acc()
    } else {
        step(fold(ds.drop_last()), ds.last())
    }
}

// ---------------------------------------------------------------------------
// The same state, described directly
// ---------------------------------------------------------------------------

/// The text fragments, concatenated in arrival order.
pub open spec fn all_text(ds: Seq<DeltaView>) -> Seq<char>
    decreases ds.len(),
{
    if ds.len() == 0 {
        Seq::empty()
    } else {
        all_text(ds.drop_last()) + extra(ds.last().text)
    }
}

/// The tool-call fragments of all fragments, in arrival order.
pub open spec fn all_calls(ds: Seq<DeltaView>) -> Seq<CallDeltaView>
    decreases ds.len(),
{
    if ds.len() == 0 {
        Seq::empty()
    } else {
        all_calls(ds.drop_last()) + ds.last().calls
    }
}

/// The last non-empty id given for index `i`, or empty.
pub open spec fn last_id(cs: Seq<CallDeltaView>, i: int) -> Seq<char>
    decreases cs.len(),
{
    if cs.len() == 0 {
        Seq::empty()
    } else if cs.last().index == i && extra(cs.last().id).len() > 0 {
        extra(cs.last().id)
    } else {
        last_id(cs.drop_last(), i)
    }
}

/// The last non-empty name given for index `i`, or empty.
pub open spec fn last_name(cs: Seq<CallDeltaView>, i: int) -> Seq<char>
    decreases cs.len(),
{
    if cs.len() == 0 {
        Seq::empty()
    } else if cs.last().index == i && extra(cs.last().name).len() > 0 {
        extra(cs.last().name)
    } else {
        last_name(cs.drop_last(), i)
    }
}

/// All argument fragments for index `i`, concatenated in arrival order.
pub open spec fn all_arguments(cs: Seq<CallDeltaView>, i: int) -> Seq<char>
    decreases cs.len(),
{
    if cs.len() == 0 {
        Seq::empty()
    } else if cs.last().index == i {
        all_arguments(cs.drop_last(), i) + extra(cs.last().arguments)
    } else {
        all_arguments(cs.drop_last(), i)
    }
}

/// One more than the largest addressable index seen, or zero.
pub open spec fn table_len(cs: Seq<CallDeltaView>) -> int
    decreases cs.len(),
{
    if cs.len() == 0 {
        0
    } else {
        let rest = table_len(cs.drop_last());
        let c = cs.last();
        if addressable(c.index) && c.index + 1 > rest {
            c.index + 1
        } else {
            rest
        }
    }
}

/// The table that the tool-call fragments `cs` describe.
pub open spec fn described(slots: Seq<SlotView>, cs: Seq<CallDeltaView>) -> bool {
    &&& slots.len() == table_len(cs)
    &&& forall|i: int|
        0 <= i < slots.len() ==> #[trigger] slots[i] == SlotView {
            id: last_id(cs, i),
            name: last_name(cs, i),
            arguments: all_arguments(cs, i),
        }
}

/// Indexes are never negative.
pub open spec fn indexes_valid(cs: Seq<CallDeltaView>) -> bool {
    forall|k: int| 0 <= k < cs.len() ==> #[trigger] cs[k].index >= 0
}

proof fn lemma_table_len_bound(cs: Seq<CallDeltaView>)
    ensures
        0 <= table_len(cs) <= usize::MAX,
    decreases cs.len(),
{
    if cs.len() > 0 {
        lemma_table_len_bound(cs.drop_last());
    }
}

proof fn lemma_beyond_table(cs: Seq<CallDeltaView>, i: int)
    requires
        i >= table_len(cs),
        i < usize::MAX,
        indexes_valid(cs),
    ensures
        last_id(cs, i) == Seq::<char>::empty(),
        last_name(cs, i) == Seq::<char>::empty(),
        all_arguments(cs, i) == Seq::<char>::empty(),
        table_len(cs) >= 0,
    decreases cs.len(),
{
    if cs.len() > 0 {
        let t = cs.drop_last();
        assert(indexes_valid(t)) by {
            assert forall|k: int| 0 <= k < t.len() implies #[trigger] t[k].index >= 0 by {
                assert(t[k] == cs[k]);
            }
        }
        lemma_beyond_table(t, i);
        assert(cs[cs.len() - 1].index >= 0);
    }
}

proof fn lemma_apply_call_described(slots: Seq<SlotView>, cs: Seq<CallDeltaView>, c: CallDeltaView)
    requires
        described(slots, cs),
        indexes_valid(cs.push(c)),
    ensures
        described(apply_call(slots, c), cs.push(c)),
{
    let cs2 = cs.push(c);
    assert(cs2.drop_last() =~= cs);
    assert(cs2.last() == c);
    assert(cs2[cs2.len() - 1].index >= 0);
    assert(indexes_valid(cs)) by {
        assert forall|k: int| 0 <= k < cs.len() implies #[trigger] cs[k].index >= 0 by {
            assert(cs2[k] == cs[k]);
        }
    }
    let r = apply_call(slots, c);
    lemma_table_len_bound(cs);
    if !addressable(c.index) {
        assert forall|i: int| 0 <= i < r.len() implies #[trigger] r[i] == SlotView {
            id: last_id(cs2, i),
            name: last_name(cs2, i),
            arguments: all_arguments(cs2, i),
        } by {
            assert(slots[i] == SlotView {
                id: last_id(cs, i),
                name: last_name(cs, i),
                arguments: all_arguments(cs, i),
            });
        }
    } else {
        let g = grow(slots, c.index + 1);
        assert forall|i: int| 0 <= i < r.len() implies #[trigger] r[i] == SlotView {
            id: last_id(cs2, i),
            name: last_name(cs2, i),
            arguments: all_arguments(cs2, i),
        } by {
            if i < slots.len() {
                assert(g[i] == slots[i]);
                assert(slots[i] == SlotView {
                    id: last_id(cs, i),
                    name: last_name(cs, i),
                    arguments: all_arguments(cs, i),
                });
            } else {
                lemma_beyond_table(cs, i);
                assert(g[i] == empty_slot());
            }
            if i == c.index {
                assert(extra(None::<Seq<char>>) =~= Seq::<char>::empty());
                assert(all_arguments(cs, i) + Seq::<char>::empty() =~= all_arguments(cs, i));
            }
        }
    }
}

proof fn lemma_apply_calls_described(cs: Seq<CallDeltaView>)
    requires
        indexes_valid(cs),
    ensures
        described(apply_calls(Seq::empty(), cs), cs),
    decreases cs.len(),
{
    if cs.len() > 0 {
        let t = cs.drop_last();
        assert(indexes_valid(t)) by {
            assert forall|k: int| 0 <= k < t.len() implies #[trigger] t[k].index >= 0 by {
                assert(t[k] == cs[k]);
            }
        }
        lemma_apply_calls_described(t);
        assert(t.push(cs.last()) =~= cs);
        lemma_apply_call_described(apply_calls(Seq::empty(), t), t, cs.last());
    }
}

proof fn lemma_apply_calls_concat(s: Seq<SlotView>, a: Seq<CallDeltaView>, b: Seq<CallDeltaView>)
    ensures
        apply_calls(s, a + b) == apply_calls(apply_calls(s, a), b),
    decreases b.len(),
{
    if b.len() == 0 {
        assert(a + b =~= a);
    } else {
        lemma_apply_calls_concat(s, a, b.drop_last());
        assert((a + b).drop_last() =~= a + b.drop_last());
        assert((a + b).last() == b.last());
    }
}

/// Fragments from `usize` values.
pub open spec fn deltas_valid(ds: Seq<DeltaView>) -> bool {
    forall|k: int| 0 <= k < ds.len() ==> indexes_valid(#[trigger] ds[k].calls)
}

proof fn lemma_fold_slots(ds: Seq<DeltaView>)
    requires
        deltas_valid(ds),
    ensures
        fold(ds).slots == apply_calls(Seq::empty(), all_calls(ds)),
        indexes_valid(all_calls(ds)),
    decreases ds.len(),
{
    if ds.len() > 0 {
        let t = ds.drop_last();
        assert(deltas_valid(t)) by {
            assert forall|k: int| 0 <= k < t.len() implies indexes_valid(#[trigger] t[k].calls) by {
                assert(t[k] == ds[k]);
            }
        }
        lemma_fold_slots(t);
        lemma_apply_calls_concat(Seq::empty(), all_calls(t), ds.last().calls);
        assert(indexes_valid(ds[ds.len() - 1].calls));
        let all = all_calls(ds);
        assert forall|k: int| 0 <= k < all.len() implies #[trigger] all[k].index >= 0 by {
            if k < all_calls(t).len() {
                assert(all[k] == all_calls(t)[k]);
            } else {
                assert(all[k] == ds.last().calls[k - all_calls(t).len()]);
            }
        }
    }
}

proof fn lemma_fold_text(ds: Seq<DeltaView>)
    ensures
        fold(ds).text == all_text(ds),
    decreases ds.len(),
{
    if ds.len() > 0 {
        lemma_fold_text(ds.drop_last());
    }
}

/// Whatever fragments arrive, the accumulated text is the concatenation of
/// their text in arrival order, and the tool-call table has one slot for each
/// index up to the largest seen; each slot holds the last non-empty id and
/// name given for its index, and all argument text given for it, concatenated
/// in arrival order.
pub proof fn lemma_reconstruction(ds: Seq<DeltaView>)
    requires
        deltas_valid(ds),
    ensures
        fold(ds).text == all_text(ds),
        described(fold(ds).slots, all_calls(ds)),
{
    lemma_fold_text(ds);
    lemma_fold_slots(ds);
    lemma_apply_calls_described(all_calls(ds));
}

// ---------------------------------------------------------------------------
// Finalizing
// ---------------------------------------------------------------------------

/// The final tool call of slot `i`: a slot that never got an id is named `call_<i>`.
pub open spec fn finalized_call(s: SlotView, i: int) -> CallView {
    CallView {
        id: if s.id.len() == 0 {
            "call_"@ + decimal(i as nat)
        } else {
            s.id
        },
        kind: "function"@,
        name: s.name,
        arguments: s.arguments,
    }
}

/// The text of a finished stream: none when nothing was said.
pub open spec fn final_content(a: AccView) -> Option<Seq<char>> {
    if a.text.len() == 0 {
        None
    } else {
        Some(a.text)
    }
}

/// The tool calls of a finished stream, by index: none when the table is empty.
pub open spec fn final_calls(a: AccView) -> Option<Seq<CallView>> {
    if a.slots.len() == 0 {
        None
    } else {
        Some(Seq::new(a.slots.len(), |i: int| finalized_call(a.slots[i], i)))
    }
}

/// What a finished stream answers its caller.
pub open spec fn final_response(a: AccView) -> ResponseView {
    reply_response(final_content(a), final_calls(a))
}

/// Whenever the tool-call table is not empty, the response carries no text,
/// whatever text was accumulated.
pub proof fn lemma_calls_withhold_text(a: AccView)
    ensures
        a.slots.len() > 0 ==> final_response(a).content is None,
        a.slots.len() > 0 ==> final_response(a).tool_calls is Some,
{
}

/// An index below the largest seen that no fragment named still gets a call:
/// a placeholder with the id `call_<index>` and empty name and arguments, at
/// its place in index order.
pub proof fn lemma_gap_placeholder(ds: Seq<DeltaView>, i: int)
    requires
        deltas_valid(ds),
        0 <= i < table_len(all_calls(ds)),
        forall|k: int| 0 <= k < all_calls(ds).len() ==> #[trigger] all_calls(ds)[k].index != i,
    ensures
        final_calls(fold(ds)) is Some,
        final_calls(fold(ds))->0.len() == table_len(all_calls(ds)),
        final_calls(fold(ds))->0[i] == (CallView {
            id: "call_"@ + decimal(i as nat),
            kind: "function"@,
            name: Seq::empty(),
            arguments: Seq::empty(),
        }),
{
    lemma_reconstruction(ds);
    lemma_untouched(all_calls(ds), i);
}

proof fn lemma_untouched(cs: Seq<CallDeltaView>, i: int)
    requires
        forall|k: int| 0 <= k < cs.len() ==> #[trigger] cs[k].index != i,
    ensures
        last_id(cs, i) == Seq::<char>::empty(),
        last_name(cs, i) == Seq::<char>::empty(),
        all_arguments(cs, i) == Seq::<char>::empty(),
    decreases cs.len(),
{
    if cs.len() > 0 {
        let t = cs.drop_last();
        assert forall|k: int| 0 <= k < t.len() implies #[trigger] t[k].index != i by {
            assert(t[k] == cs[k]);
        }
        lemma_untouched(t, i);
        assert(cs[cs.len() - 1].index != i);
    }
}

// ---------------------------------------------------------------------------
// The accumulator
// ---------------------------------------------------------------------------

struct Slot {
    id: String,
    name: String,
    arguments: String,
}

impl View for Slot {
    type V = SlotView;

    closed spec fn view(&self) -> SlotView {
        SlotView { id: self.id@, name: self.name@, arguments: self.arguments@ }
    }
}

impl Slot {
    fn empty() -> (r: Slot)
        ensures
            r@ == empty_slot(),
    {
        Slot { id: String::new(), name: String::new(), arguments: String::new() }
    }
}

/// The reply of one streamed model call, as far as its fragments have arrived.
pub struct Accumulator {
    text: String,
    slots: Vec<Slot>,
}

spec fn slots_view(v: Seq<Slot>) -> Seq<SlotView> {
    v.map_values(|s: Slot| s@)
}

impl View for Accumulator {
    type V = AccView;

    closed spec fn view(&self) -> AccView {
        AccView { text: self.text@, slots: slots_view(self.slots@) }
    }
}

impl Accumulator {
    /// Nothing received yet.
    pub fn new() -> (r: Accumulator)
        ensures
            r@ == empty_acc(),
    {
        let r = Accumulator { text: String::new(), slots: Vec::new() };
        proof {
            assert(slots_view(r.slots@) =~= Seq::<SlotView>::empty());
        }
        r
    }

    /// Applies one fragment: its text is appended, and each tool-call fragment
    /// updates the slot at its index, growing the table to cover it.
    pub fn apply(&mut self, d: &StreamDelta)
        ensures
            final(self)@ == step(old(self)@, d@),
    {
        if let Some(t) = &d.content {
            self.text.append(t.as_str());
        } else {
            proof {
                assert(self.text@ + extra(None::<Seq<char>>) =~= self.text@);
            }
        }
        let ghost calls = d@.calls;
        let ghost start = self@;
        let mut i: usize = 0;
        while i < d.tool_calls.len()
            invariant
                i <= d.tool_calls@.len(),
                calls == d.tool_calls@.map_values(|c: ToolCallDelta| c@),
                self@.text == start.text,
                self@.slots == apply_calls(start.slots, calls.subrange(0, i as int)),
            decreases d.tool_calls@.len() - i,
        {
            self.apply_call(&d.tool_calls[i]);
            proof {
                let sub = calls.subrange(0, i + 1);
                assert(sub.drop_last() =~= calls.subrange(0, i as int));
                assert(sub.last() == d.tool_calls@[i as int]@);
            }
            i = i + 1;
        }
        proof {
            assert(calls.subrange(0, calls.len() as int) =~= calls);
        }
    }

    fn apply_call(&mut self, c: &ToolCallDelta)
        ensures
            final(self)@ == (AccView { text: old(self)@.text, slots: apply_call(old(self)@.slots, c@) }),
    {
        if c.index == usize::MAX {
            return;
        }
        let ghost start = slots_view(self.slots@);
        while self.slots.len() <= c.index
            invariant
                c.index < usize::MAX,
                start.len() <= self.slots@.len(),
                self.slots@.len() <= c.index + 1 || self.slots@.len() == start.len(),
                slots_view(self.slots@) =~= grow(start, self.slots@.len() as int),
                self@.text == old(self)@.text,
            decreases c.index + 1 - self.slots@.len(),
        {
            let ghost prev = self.slots@;
            let e = Slot::empty();
            assert(e@ == empty_slot());
            self.slots.push(e);
            proof {
                assert(slots_view(self.slots@) =~= slots_view(prev).push(empty_slot()));
                assert(grow(start, self.slots@.len() as int) =~= grow(start, prev.len() as int).push(
                    empty_slot(),
                ));
            }
        }
        proof {
            assert(grow(start, self.slots@.len() as int) =~= grow(start, c.index + 1));
        }
        let idx = c.index;
        let mut slot = Slot::empty();
        self.slots.set_and_swap(idx, &mut slot);
        if let Some(id) = &c.id {
            if !id.as_str().is_empty() {
                slot.id = id.clone();
            }
        }
        if let Some(name) = &c.name {
            if !name.as_str().is_empty() {
                slot.name = name.clone();
            }
        }
        if let Some(a) = &c.arguments {
            slot.arguments.append(a.as_str());
        } else {
            proof {
                assert(slot.arguments@ + extra(None::<Seq<char>>) =~= slot.arguments@);
            }
        }
        self.slots.set_and_swap(idx, &mut slot);
        proof {
            assert(slots_view(self.slots@) =~= apply_call(old(self)@.slots, c@));
        }
    }

    /// Whether any tool-call fragment has arrived.
    pub fn has_tool_calls(&self) -> (r: bool)
        ensures
            r == (self@.slots.len() > 0),
    {
        self.slots.len() > 0
    }

    /// Ends the stream, by its termination line or by the connection closing:
    /// appends one assistant turn holding the accumulated text and the tool
    /// calls in index order, and answers with the calls, or with the text when
    /// there are none.
    pub fn finish(self, messages: &mut Vec<Message>) -> (r: AgentResponse)
        ensures
            conversation(final(messages)@) == conversation(old(messages)@).push(
                reply_turn(final_content(self@), final_calls(self@)),
            ),
            r@ == final_response(self@),
    {
        let ghost a = self@;
        let Accumulator { text, slots } = self;
        let n = slots.len();
        let mut calls: Vec<ToolCall> = Vec::new();
        let mut i: usize = 0;
        while i < n
            invariant
                n == slots@.len(),
                a.slots == slots_view(slots@),
                i <= n,
                calls@.len() == i,
                forall|k: int| 0 <= k < i ==> #[trigger] calls@[k]@ == finalized_call(a.slots[k], k),
            decreases n - i,
        {
            let s = &slots[i];
            let id = if s.id.as_str().is_empty() {
                with_number("call_", i)
            } else {
                s.id.clone()
            };
            calls.push(ToolCall::function_call(id, s.name.clone(), s.arguments.clone()));
            i = i + 1;
        }
        let content = if text.as_str().is_empty() {
            None
        } else {
            Some(text)
        };
        let tool_calls = if n == 0 {
            None
        } else {
            Some(calls)
        };
        proof {
            assert(opt_str(content) == final_content(a));
            if n > 0 {
                assert(calls_view(calls@) =~= final_calls(a)->0);
            }
            assert(opt_calls(tool_calls) == final_calls(a));
            assert(nonempty_calls(final_calls(a)) == final_calls(a));
        }
        record_reply(messages, content, tool_calls)
    }
}

// ---------------------------------------------------------------------------
// Framing the byte stream into event payloads
// ---------------------------------------------------------------------------

/// What one line of the event stream means.
pub ghost enum LineKind {
    /// Not UTF-8, or not an event-data line.
    Skip,
    /// The payload of an event-data line.
    Data(Seq<char>),
    /// The termination line.
    Done,
}

/// The prefix of an event-data line.
pub open spec fn data_prefix() -> Seq<char> {
    "data: "@
}

/// The payload that ends the stream.
pub open spec fn done_payload() -> Seq<char> {
    "[DONE]"@
}

/// A line, terminator included: decoded, trimmed, and read by its prefix.
pub open spec fn line_kind(line: Seq<u8>) -> LineKind {
    match utf8_decoded(line) {
        None => LineKind::Skip,
        Some(t) => {
            let tt = trimmed(t);
            let p = data_prefix();
            if tt.len() >= p.len() && tt.subrange(0, p.len() as int) == p {
                let d = tt.subrange(p.len() as int, tt.len() as int);
                if d == done_payload() {
                    LineKind::Done
                } else {
                    LineKind::Data(d)
                }
            } else {
                LineKind::Skip
            }
        },
    }
}

/// The position of the first line terminator at or after `i`, or -1.
pub open spec fn find_nl(b: Seq<u8>, i: int) -> int
    decreases b.len() - i,
{
    if i < 0 || i >= b.len() {
        -1
    } else if b[i] == 10u8 {
        i
    } else {
        find_nl(b, i + 1)
    }
}

/// The payloads of the complete lines of a byte sequence, whether the
/// termination line was among them, and the bytes left over.
pub ghost struct ScanView {
    pub payloads: Seq<Seq<char>>,
    pub done: bool,
    pub rest: Seq<u8>,
}

/// Scanning from position `i`: payloads in order up to the termination line,
/// after which nothing is kept.
pub open spec fn scan_from(b: Seq<u8>, i: int) -> ScanView
    decreases b.len() - i,
{
    let p = find_nl(b, i);
    if 0 <= i <= p < b.len() {
        match line_kind(b.subrange(i, p + 1)) {
            LineKind::Done => ScanView { payloads: Seq::empty(), done: true, rest: Seq::empty() },
            LineKind::Skip => scan_from(b, p + 1),
            LineKind::Data(d) => {
                let s = scan_from(b, p + 1);
                ScanView { payloads: seq![d] + s.payloads, done: s.done, rest: s.rest }
            },
        }
    } else {
        ScanView { payloads: Seq::empty(), done: false, rest: b.subrange(i, b.len() as int) }
    }
}

pub open spec fn scan(b: Seq<u8>) -> ScanView {
    scan_from(b, 0)
}

/// Payloads found earlier, followed by a later scan.
pub open spec fn after(ps: Seq<Seq<char>>, s: ScanView) -> ScanView {
    ScanView { payloads: ps + s.payloads, done: s.done, rest: s.rest }
}

proof fn lemma_find_nl_range(b: Seq<u8>, i: int)
    requires
        0 <= i,
    ensures
        find_nl(b, i) == -1 || i <= find_nl(b, i) < b.len(),
        find_nl(b, i) == -1 ==> forall|k: int| i <= k < b.len() ==> b[k] != 10u8,
        find_nl(b, i) != -1 ==> b[find_nl(b, i)] == 10u8 && forall|k: int|
            i <= k < find_nl(b, i) ==> b[k] != 10u8,
    decreases b.len() - i,
{
    if i < b.len() && b[i] != 10u8 {
        lemma_find_nl_range(b, i + 1);
    }
}

proof fn lemma_find_nl_shift(pre: Seq<u8>, y: Seq<u8>, j: int)
    requires
        0 <= j <= y.len(),
    ensures
        find_nl(pre + y, pre.len() + j) == if find_nl(y, j) < 0 {
            -1
        } else {
            find_nl(y, j) + pre.len()
        },
    decreases y.len() - j,
{
    if j < y.len() {
        assert((pre + y)[pre.len() + j] == y[j]);
        if y[j] != 10u8 {
            lemma_find_nl_shift(pre, y, j + 1);
        }
    }
}

proof fn lemma_scan_shift(pre: Seq<u8>, y: Seq<u8>, j: int)
    requires
        0 <= j <= y.len(),
    ensures
        scan_from(pre + y, pre.len() + j) == scan_from(y, j),
    decreases y.len() - j,
{
    let b = pre + y;
    lemma_find_nl_shift(pre, y, j);
    lemma_find_nl_range(y, j);
    let p = find_nl(y, j);
    if p >= 0 {
        assert(b.subrange(pre.len() + j, pre.len() + p + 1) =~= y.subrange(j, p + 1));
        lemma_scan_shift(pre, y, p + 1);
    } else {
        assert(b.subrange(pre.len() + j, b.len() as int) =~= y.subrange(j, y.len() as int));
    }
}

proof fn lemma_find_nl_extend(a: Seq<u8>, x: Seq<u8>, i: int)
    requires
        0 <= i <= a.len(),
        find_nl(a, i) >= 0,
    ensures
        find_nl(a + x, i) == find_nl(a, i),
    decreases a.len() - i,
{
    assert((a + x)[i] == a[i]);
    if a[i] != 10u8 {
        lemma_find_nl_extend(a, x, i + 1);
    }
}

proof fn lemma_scan_from_split(a: Seq<u8>, x: Seq<u8>, i: int)
    requires
        0 <= i <= a.len(),
        !scan_from(a, i).done,
    ensures
        scan_from(a + x, i) == after(scan_from(a, i).payloads, scan(scan_from(a, i).rest + x)),
    decreases a.len() - i,
{
    let b = a + x;
    lemma_find_nl_range(a, i);
    let p = find_nl(a, i);
    if p >= 0 {
        lemma_find_nl_extend(a, x, i);
        assert(b.subrange(i, p + 1) =~= a.subrange(i, p + 1));
        lemma_scan_from_split(a, x, p + 1);
        let s = scan_from(a, p + 1);
        let t = scan(s.rest + x);
        match line_kind(a.subrange(i, p + 1)) {
            LineKind::Data(d) => {
                assert(seq![d] + (s.payloads + t.payloads) =~= (seq![d] + s.payloads) + t.payloads);
            },
            _ => {},
        }
    } else {
        let pre = a.subrange(0, i);
        let y = a.subrange(i, a.len() as int) + x;
        assert(b =~= pre + y);
        lemma_scan_shift(pre, y, 0);
        assert(Seq::<Seq<char>>::empty() + scan(y).payloads =~= scan(y).payloads);
    }
}

/// Bytes can arrive in any split: scanning what arrived first and then the
/// left-over bytes with what follows finds the same payloads as scanning all
/// at once.
pub proof fn lemma_scan_split(a: Seq<u8>, x: Seq<u8>)
    requires
        !scan(a).done,
    ensures
        scan(a + x) == after(scan(a).payloads, scan(scan(a).rest + x)),
{
    lemma_scan_from_split(a, x, 0);
}

/// After complete lines with no termination line among them, a stream that
/// ends with the termination line yields the same payloads, and leaves no
/// bytes over, as a connection that closes right after those lines.
pub proof fn lemma_sentinel_same_as_close(a: Seq<u8>, line: Seq<u8>, more: Seq<u8>)
    requires
        !scan(a).done,
        scan(a).rest.len() == 0,
        line.len() > 0,
        line.last() == 10u8,
        forall|k: int| 0 <= k < line.len() - 1 ==> line[k] != 10u8,
        line_kind(line) == LineKind::Done,
    ensures
        scan(a + (line + more)).payloads == scan(a).payloads,
        scan(a + (line + more)).done,
        scan(a + (line + more)).rest.len() == 0,
{
    lemma_scan_split(a, line + more);
    let y = line + more;
    assert(scan(a).rest + y =~= y);
    assert forall|k: int| 0 <= k < line.len() - 1 implies y[k] != 10u8 by {
        assert(y[k] == line[k]);
    }
    assert(y[line.len() - 1] == 10u8);
    lemma_find_nl_range(y, 0);
    assert(find_nl(y, 0) == line.len() - 1);
    assert(y.subrange(0, line.len() as int) =~= line);
    assert(scan(a).payloads + Seq::<Seq<char>>::empty() =~= scan(a).payloads);
}

/// What one line means, as the framer computes it.
enum LineEvent {
    Skip,
    Data(String),
    Done,
}

fn classify(line: &[u8]) -> (r: LineEvent)
    ensures
        match line_kind(line@) {
            LineKind::Skip => r is Skip,
            LineKind::Done => r is Done,
            LineKind::Data(d) => r is Data && r->Data_0@ == d,
        },
{
    match decode_utf8(line) {
        None => LineEvent::Skip,
        Some(t) => {
            let tt = trim_text(t.as_str());
            let cs = chars_of(tt.as_str());
            let prefix = chars_of("data: ");
            if starts_with(cs.as_slice(), prefix.as_slice()) {
                let d = slice_text(cs.as_slice(), prefix.len(), cs.len());
                if same_text(d.as_str(), "[DONE]") {
                    LineEvent::Done
                } else {
                    LineEvent::Data(d)
                }
            } else {
                LineEvent::Skip
            }
        },
    }
}

pub ghost struct DecoderView {
    /// Bytes of a line not yet complete.
    pub pending: Seq<u8>,
    /// Whether the termination line has been seen.
    pub done: bool,
}

/// Splits an event stream into lines and hands out the payloads of its data
/// lines, up to the termination line.
pub struct SseDecoder {
    pending: Vec<u8>,
    done: bool,
}

impl View for SseDecoder {
    type V = DecoderView;

    closed spec fn view(&self) -> DecoderView {
        DecoderView { pending: self.pending@, done: self.done }
    }
}

impl SseDecoder {
    /// Nothing received yet.
    pub fn new() -> (r: SseDecoder)
        ensures
            r@ == (DecoderView { pending: Seq::empty(), done: false }),
    {
        SseDecoder { pending: Vec::new(), done: false }
    }

    /// Whether the termination line has been seen.
    pub fn is_done(&self) -> (r: bool)
        ensures
            r == self@.done,
    {
        self.done
    }

    /// Takes the next bytes of the stream and returns the payloads of the data
    /// lines they complete, in order. The termination line ends the stream:
    /// what follows it, and any later bytes, are dropped.
    pub fn push(&mut self, chunk: &[u8]) -> (r: Vec<String>)
        ensures
            old(self)@.done ==> final(self)@ == old(self)@ && r@.len() == 0,
            !old(self)@.done ==> ({
                let s = scan(old(self)@.pending + chunk@);
                &&& r@.map_values(|t: String| t@) == s.payloads
                &&& final(self)@ == (DecoderView { pending: s.rest, done: s.done })
            }),
    {
        let mut out: Vec<String> = Vec::new();
        if self.done {
            return out;
        }
        let mut buf: Vec<u8> = Vec::new();
        std::mem::swap(&mut buf, &mut self.pending);
        buf.extend_from_slice(chunk);
        let ghost b = buf@;
        proof {
            assert(b =~= old(self)@.pending + chunk@);
        }
        let n = buf.len();
        let mut start: usize = 0;
        let mut more = true;
        while more
            invariant
                !more ==> find_nl(b, start as int) < 0,
                n == b.len(),
                buf@ == b,
                start <= n,
                scan(b) == after(out@.map_values(|t: String| t@), scan_from(b, start as int)),
                !self.done,
                !old(self)@.done,
                b == old(self)@.pending + chunk@,
                self.pending@ == Seq::<u8>::empty(),
            decreases n - start + if more { 1int } else { 0int },
        {
            let mut j: usize = start;
            while j < n && buf[j] != 10u8
                invariant
                    n == b.len(),
                    buf@ == b,
                    start <= j <= n,
                    find_nl(b, start as int) == find_nl(b, j as int),
                decreases n - j,
            {
                j = j + 1;
            }
            if j == n {
                more = false;
                proof {
                    lemma_find_nl_range(b, n as int);
                }
                continue;
            }
            let line = vstd::slice::slice_subrange(buf.as_slice(), start, j + 1);
            let ev = classify(line);
            let ghost s_next = scan_from(b, j + 1);
            let ghost before = out@.map_values(|t: String| t@);
            match ev {
                LineEvent::Done => {
                    self.done = true;
                    proof {
                        assert(before + Seq::<Seq<char>>::empty() =~= before);
                    }
                    return out;
                },
                LineEvent::Skip => {},
                LineEvent::Data(d) => {
                    out.push(d);
                    proof {
                        assert(out@.map_values(|t: String| t@) =~= before.push(
                            out@[out@.len() - 1]@,
                        ));
                        assert(before + (seq![out@[out@.len() - 1]@] + s_next.payloads) =~= before.push(
                            out@[out@.len() - 1]@,
                        ) + s_next.payloads);
                    }
                },
            }
            start = j + 1;
        }
        proof {
            lemma_find_nl_range(b, start as int);
            assert(out@.map_values(|t: String| t@) + Seq::<Seq<char>>::empty() =~= out@.map_values(
                |t: String| t@,
            ));
        }
        let rest = vstd::slice::slice_subrange(buf.as_slice(), start, n);
        self.pending = vstd::slice::slice_to_vec(rest);
        out
    }
}

} // verus!
