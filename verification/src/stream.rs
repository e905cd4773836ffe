//! Decoding of an OpenAI-compatible server-sent-event completion stream.
//!
//! Each `data: …` line carries a JSON chunk whose choices hold a text delta,
//! tool-call fragments keyed by a call index, and an optional finish reason.
//! Text deltas are handed out as they come; tool-call fragments are
//! accumulated per index (ids and names are replaced, argument text is
//! appended) and handed out together, ordered by index, when the
//! `data: [DONE]` line arrives.
use vstd::prelude::*;
use std::collections::HashMap;
use vstd::std_specs::iter::IteratorSpec;
use crate::json::{canonical_json, json_canonical};
use crate::message::ToolCall;
use crate::provider::LlmChunk;
use crate::text::{chars_of, from_utf8_lossy, lines_of, split_lines, str_eq, string_from_range, trim, trim_str, utf8_lossy};

verus! {

/// A fragment of a function call inside a tool-call delta.
#[derive(Debug)]
pub struct StreamFunctionDelta {
    pub name: Option<String>,
    pub arguments: Option<String>,
}

/// A fragment of the tool call with position `index` in the response.
#[derive(Debug)]
pub struct StreamToolCallDelta {
    pub index: usize,
    pub id: Option<String>,
    pub function: Option<StreamFunctionDelta>,
}

/// The delta part of one streamed choice.
#[derive(Debug)]
pub struct StreamDelta {
    pub content: Option<String>,
    pub tool_calls: Option<Vec<StreamToolCallDelta>>,
}

/// One streamed choice.
#[derive(Debug)]
pub struct StreamChoice {
    pub delta: StreamDelta,
    pub finish_reason: Option<String>,
}

/// One decoded `data:` payload of the stream.
#[derive(Debug)]
pub struct ChatStreamChunk {
    pub choices: Vec<StreamChoice>,
}

/// The tool call being assembled for one call index.
#[derive(Debug)]
pub struct PartialToolCall {
    pub id: String,
    pub name: String,
    pub arguments: String,
}

/// Abstract value of a partial call: id, name and argument text.
pub type PartialView = (Seq<char>, Seq<char>, Seq<char>);

pub open spec fn partial_view(p: PartialToolCall) -> PartialView {
    (p.id@, p.name@, p.arguments@)
}

/// Abstract accumulator: the partial call assembled so far for each call
/// index seen.
pub type CallsView = Map<usize, PartialView>;

/// What a call index that has not been seen starts from: no id, no name, no
/// argument text.
pub open spec fn empty_partial() -> PartialView {
    (Seq::empty(), Seq::empty(), Seq::empty())
}

/// The partial call assembled for index `k`, or the empty one.
pub open spec fn entry_or_empty(acc: CallsView, k: usize) -> PartialView {
    if acc.contains_key(k) {
        acc[k]
    } else {
        empty_partial()
    }
}

/// A partial call after one delta: a present id or name replaces the
/// stored one, present argument text is appended.
pub open spec fn delta_applied(p: PartialView, d: StreamToolCallDelta) -> PartialView {
    let id = match d.id {
        Some(s) => s@,
        None => p.0,
    };
    match d.function {
        Some(f) => (
            id,
            match f.name {
                Some(n) => n@,
                None => p.1,
            },
            match f.arguments {
                Some(a) => p.2 + a@,
                None => p.2,
            },
        ),
        None => (id, p.1, p.2),
    }
}

/// The accumulator after one delta: the entry for the delta's index (an
/// empty one when the index is new) is updated.
pub open spec fn apply_delta(acc: CallsView, d: StreamToolCallDelta) -> CallsView {
    acc.insert(d.index, delta_applied(entry_or_empty(acc, d.index), d))
}

/// The accumulator after a sequence of deltas, applied in order.
pub open spec fn apply_deltas(acc: CallsView, ds: Seq<StreamToolCallDelta>) -> CallsView
    decreases ds.len(),
{
    if ds.len() == 0 {
        acc
    } else {
        apply_delta(apply_deltas(acc, ds.drop_last()), ds.last())
    }
}

/// The tool-call deltas of a choice.
pub open spec fn choice_deltas(c: StreamChoice) -> Seq<StreamToolCallDelta> {
    match c.delta.tool_calls {
        Some(v) => v@,
        None => Seq::empty(),
    }
}

/// The accumulator after the choices of one chunk, in order.
pub open spec fn apply_choices(acc: CallsView, cs: Seq<StreamChoice>) -> CallsView
    decreases cs.len(),
{
    if cs.len() == 0 {
        acc
    } else {
        apply_deltas(apply_choices(acc, cs.drop_last()), choice_deltas(cs.last()))
    }
}

/// The chunks one choice produces: its non-empty text, then its finish
/// reason unless that reason is `tool_calls` (those calls are handed out at
/// the end of the stream).
pub open spec fn choice_events(c: StreamChoice) -> Seq<LlmChunk> {
    let text_part = match c.delta.content {
        Some(t) => if t@.len() > 0 {
            seq![LlmChunk::Text(t)]
        } else {
            Seq::empty()
        },
        None => Seq::empty(),
    };
    let done_part = match c.finish_reason {
        Some(r) => if r@ == "tool_calls"@ {
            Seq::empty()
        } else {
            seq![LlmChunk::Done(Some(r))]
        },
        None => Seq::empty(),
    };
    text_part + done_part
}

/// The chunks the choices of one stream chunk produce, in order.
pub open spec fn chunk_events(cs: Seq<StreamChoice>) -> Seq<LlmChunk>
    decreases cs.len(),
{
    if cs.len() == 0 {
        Seq::empty()
    } else {
        chunk_events(cs.drop_last()) + choice_events(cs.last())
    }
}

/// Every non-empty text delta of a chunk is handed out, unchanged, in the
/// order of the choices; an empty or missing one produces no text.  A choice
/// that carries only text and no finish reason produces exactly that text.
pub proof fn law_text_deltas_pass_through(cs: Seq<StreamChoice>, i: int)
    requires
        0 <= i < cs.len(),
    ensures
        cs[i].delta.content matches Some(t) ==> (t@.len() > 0 ==> chunk_events(cs).contains(LlmChunk::Text(t))),
        cs[i].delta.content matches Some(t) ==> (t@.len() > 0 ==> choice_events(cs[i])[0] == LlmChunk::Text(t)),
        cs[i].delta.content matches Some(t) ==> (t@.len() > 0 && cs[i].finish_reason is None ==> choice_events(cs[i]) == seq![LlmChunk::Text(t)]),
        (cs[i].delta.content is None || (cs[i].delta.content matches Some(t) && t@.len() == 0))
            ==> forall|k: int| 0 <= k < choice_events(cs[i]).len() ==> !(#[trigger] choice_events(cs[i])[k] is Text),
    decreases cs.len(),
{
    let last = cs.len() - 1;
    let prefix = chunk_events(cs.drop_last());
    if i < last {
        assert(cs.drop_last()[i] == cs[i]);
        law_text_deltas_pass_through(cs.drop_last(), i);
        if let Some(t) = cs[i].delta.content {
            if t@.len() > 0 {
                let j = choose|j: int| 0 <= j < prefix.len() && prefix[j] == LlmChunk::Text(t);
                assert((prefix + choice_events(cs.last()))[j] == LlmChunk::Text(t));
            }
        }
    } else {
        if let Some(t) = cs[i].delta.content {
            if t@.len() > 0 {
                assert((prefix + choice_events(cs.last()))[prefix.len() as int] == LlmChunk::Text(t));
            }
        }
    }
}

/// The tool call assembled from a partial call: its id and name, and the
/// canonical rendering of its argument text (`{}` where that text is not
/// valid JSON).
pub open spec fn tool_call_from(p: PartialView, c: ToolCall) -> bool {
    &&& c.id@ == p.0
    &&& c.name@ == p.1
    &&& c.input@ == match json_canonical(p.2) {
        Some(t) => t,
        None => "{}"@,
    }
}

/// `order` lists every call index of `acc` once, in increasing order.
pub open spec fn ordered_indices(acc: CallsView, order: Seq<usize>) -> bool {
    &&& forall|k: int| 0 <= k < order.len() ==> acc.contains_key(#[trigger] order[k])
    &&& forall|i: usize| acc.contains_key(i) ==> #[trigger] order.contains(i)
    &&& forall|a: int, b: int| 0 <= a < b < order.len() ==> #[trigger] order[a] < #[trigger] order[b]
}

/// What the end of the stream hands out for the accumulated calls: the calls
/// ordered by index (when there are any), then `Done(None)`.
pub open spec fn flushed(acc: CallsView, out: Seq<LlmChunk>) -> bool {
    exists|order: Seq<usize>|
        #[trigger] ordered_indices(acc, order) && if order.len() == 0 {
            out == seq![LlmChunk::Done(None)]
        } else {
            &&& out.len() == 2
            &&& out[1] == LlmChunk::Done(None)
            &&& out[0] matches LlmChunk::ToolCalls(calls)
            &&& calls@.len() == order.len()
            &&& forall|k: int| 0 <= k < order.len() ==> tool_call_from(acc[order[k]], #[trigger] calls@[k])
        }
}

/// The state of one completion stream: the tool calls assembled so far,
/// keyed by call index.
pub struct ToolCallAccumulator {
    calls: HashMap<usize, PartialToolCall>,
}

impl View for ToolCallAccumulator {
    type V = CallsView;

    closed spec fn view(&self) -> CallsView {
        self.calls@.map_values(|p: PartialToolCall| partial_view(p))
    }
}

fn partial_call_from_delta(p_id: &String, p_name: &String, p_args: &String, d: &StreamToolCallDelta) -> (res: PartialToolCall)
    ensures
        partial_view(res) == delta_applied((p_id@, p_name@, p_args@), *d),
{
    let id = match &d.id {
        Some(s) => s.clone(),
        None => p_id.clone(),
    };
    match &d.function {
        Some(f) => {
            let name = match &f.name {
                Some(n) => n.clone(),
                None => p_name.clone(),
            };
            let arguments = match &f.arguments {
                Some(a) => {
                    let mut t = p_args.clone();
                    t.append(a.as_str());
                    t
                },
                None => p_args.clone(),
            };
            PartialToolCall { id, name, arguments }
        },
        None => PartialToolCall { id, name: p_name.clone(), arguments: p_args.clone() },
    }
}

fn call_from_partial(p: &PartialToolCall) -> (c: ToolCall)
    ensures
        tool_call_from(partial_view(*p), c),
{
    let input = match canonical_json(p.arguments.as_str()) {
        Some(t) => t,
        None => "{}".to_owned(),
    };
    ToolCall { id: p.id.clone(), name: p.name.clone(), input }
}

impl ToolCallAccumulator {
    /// An accumulator holding no calls.
    pub fn new() -> (res: Self)
        ensures
            res@ == CallsView::empty(),
    {
        let res = ToolCallAccumulator { calls: HashMap::new() };
        assert(res@ =~= CallsView::empty());
        res
    }

    /// The number of calls being assembled.
    pub fn len(&self) -> (res: usize)
        ensures
            res == self@.len(),
    {
        broadcast use vstd::std_specs::hash::group_hash_axioms;
        assert(self@.dom() =~= self.calls@.dom());
        self.calls.len()
    }

    /// Applies one tool-call delta.
    pub fn apply_delta(&mut self, d: &StreamToolCallDelta)
        ensures
            final(self)@ == apply_delta(old(self)@, *d),
    {
        broadcast use vstd::std_specs::hash::group_hash_axioms;
        let updated = match self.calls.get(&d.index) {
            Some(p) => partial_call_from_delta(&p.id, &p.name, &p.arguments, d),
            None => {
                let empty = String::new();
                partial_call_from_delta(&empty, &empty, &empty, d)
            },
        };
        let ghost before = self@;
        self.calls.insert(d.index, updated);
        assert(self@ =~= apply_delta(before, *d));
    }

    /// Applies the tool-call deltas of one chunk's choices and returns the
    /// chunks to hand out for it, in order.
    pub fn apply_chunk(&mut self, chunk: &ChatStreamChunk) -> (res: Vec<LlmChunk>)
        ensures
            final(self)@ == apply_choices(old(self)@, chunk.choices@),
            res@ == chunk_events(chunk.choices@),
            forall|i: int| 0 <= i < chunk.choices@.len() ==> ((#[trigger] chunk.choices@[i]).delta.content
                matches Some(t) ==> (t@.len() > 0 ==> res@.contains(LlmChunk::Text(t)))),
    {
        let mut events: Vec<LlmChunk> = Vec::new();
        let mut i: usize = 0;
        let ghost start = self@;
        while i < chunk.choices.len()
            invariant
                i <= chunk.choices@.len(),
                self@ == apply_choices(start, chunk.choices@.subrange(0, i as int)),
                events@ == chunk_events(chunk.choices@.subrange(0, i as int)),
            decreases chunk.choices.len() - i,
        {
            let choice = &chunk.choices[i];
            let ghost before_events = events@;
            let ghost before_acc = self@;
            let ghost prefix = chunk.choices@.subrange(0, i as int + 1);
            assert(prefix.drop_last() =~= chunk.choices@.subrange(0, i as int));
            assert(prefix.last() == *choice);
            match &choice.delta.content {
                Some(t) => {
                    if !t.as_str().is_empty() {
                        events.push(LlmChunk::Text(t.clone()));
                    }
                },
                None => {},
            }
            let ghost after_text = events@;
            match &choice.delta.tool_calls {
                Some(ds) => {
                    let mut k: usize = 0;
                    while k < ds.len()
                        invariant
                            k <= ds@.len(),
                                        self@ == apply_deltas(before_acc, ds@.subrange(0, k as int)),
                        decreases ds.len() - k,
                    {
                        assert(ds@.subrange(0, k as int + 1).drop_last() =~= ds@.subrange(0, k as int));
                        self.apply_delta(&ds[k]);
                        k = k + 1;
                    }
                    assert(ds@.subrange(0, ds@.len() as int) =~= ds@);
                },
                None => {},
            }
            match &choice.finish_reason {
                Some(r) => {
                    if !str_eq(r.as_str(), "tool_calls") {
                        events.push(LlmChunk::Done(Some(r.clone())));
                    }
                },
                None => {},
            }
            assert(events@ =~= before_events + choice_events(*choice));
            i = i + 1;
        }
        assert(chunk.choices@.subrange(0, chunk.choices@.len() as int) =~= chunk.choices@);
        assert forall|i: int| 0 <= i < chunk.choices@.len() implies ((#[trigger] chunk.choices@[i]).delta.content
            matches Some(t) ==> (t@.len() > 0 ==> events@.contains(LlmChunk::Text(t)))) by {
            law_text_deltas_pass_through(chunk.choices@, i);
        }
        events
    }

    /// The end of the stream: hands out the assembled calls ordered by
    /// index (if any) and `Done(None)`, and empties the accumulator.
    pub fn finish(&mut self) -> (res: Vec<LlmChunk>)
        ensures
            flushed(old(self)@, res@),
            final(self)@ == CallsView::empty(),
    {
        broadcast use vstd::std_specs::hash::group_hash_axioms;
        let ghost acc = self@;
        let mut keys: Vec<usize> = Vec::new();
        for k in it: self.calls.keys()
            invariant
                it.seq() == vstd::std_specs::hash::spec_keys_iter(&self.calls).remaining(),
                keys@.len() == it.index(),
                forall|j: int| 0 <= j < it.index() ==> keys@[j] == *it.seq()[j],
        {
            keys.push(*k);
        }
        proof {
            let ks = vstd::std_specs::hash::spec_keys_iter(&self.calls).remaining();
            assert(keys@ =~= ks.unref());
            assert(ks.unref().to_set() == self.calls@.dom());
            assert(self@.dom() =~= self.calls@.dom());
            assert forall|i: usize| acc.contains_key(i) implies #[trigger] keys@.contains(i) by {
                assert(keys@.to_set().contains(i));
            }
            assert forall|j: int| 0 <= j < keys@.len() implies acc.contains_key(#[trigger] keys@[j]) by {
                assert(keys@.to_set().contains(keys@[j]));
            }
        }
        assert(forall|j: int| 0 <= j < keys@.len() ==> acc.contains_key(#[trigger] keys@[j]));
        assert(forall|i: usize| acc.contains_key(i) ==> #[trigger] keys@.contains(i));
        let n = keys.len();
        let mut calls: Vec<ToolCall> = Vec::new();
        let ghost mut order: Seq<usize> = Seq::empty();
        let mut last: Option<usize> = None;
        loop
            invariant
                acc == self@,
                n == keys@.len(),
                forall|j: int| 0 <= j < keys@.len() ==> acc.contains_key(#[trigger] keys@[j]),
                forall|i: usize| acc.contains_key(i) ==> #[trigger] keys@.contains(i),
                order.len() == calls@.len(),
                forall|k: int| 0 <= k < order.len() ==> acc.contains_key(#[trigger] order[k]),
                forall|a: int, b: int| 0 <= a < b < order.len() ==> #[trigger] order[a] < #[trigger] order[b],
                forall|k: int| 0 <= k < order.len() ==> tool_call_from(acc[order[k]], #[trigger] calls@[k]),
                last is None <==> order.len() == 0,
                last matches Some(l) ==> l == order.last(),
                last matches Some(l) ==> forall|i: usize| acc.contains_key(i) && i <= l ==> #[trigger] order.contains(i),
            ensures
                ordered_indices(acc, order),
                order.len() == calls@.len(),
                forall|k: int| 0 <= k < order.len() ==> tool_call_from(acc[order[k]], #[trigger] calls@[k]),
            decreases (match last {
                None => usize::MAX as int + 1,
                Some(l) => usize::MAX - l,
            }),
        {
            let mut best: Option<usize> = None;
            let mut i: usize = 0;
            while i < n
                invariant
                    n == keys@.len(),
                    i <= n,
                    best matches Some(b) ==> (last matches Some(l) ==> b > l),
                    best matches Some(b) ==> exists|m: int| 0 <= m < i && keys@[m] == b,
                    best matches Some(b) ==> forall|m: int|
                        0 <= m < i && (last matches Some(l) ==> keys@[m] > l) ==> b <= #[trigger] keys@[m],
                    best is None ==> forall|m: int|
                        0 <= m < i ==> (last matches Some(l) && #[trigger] keys@[m] <= l),
                decreases n - i,
            {
                let key = keys[i];
                let above = match last {
                    None => true,
                    Some(l) => key > l,
                };
                if above {
                    match best {
                        None => {
                            best = Some(key);
                        },
                        Some(b) => {
                            if key < b {
                                best = Some(key);
                            }
                        },
                    }
                }
                i = i + 1;
            }
            match best {
                None => {
                    proof {
                        assert forall|m: usize| acc.contains_key(m) implies #[trigger] order.contains(m) by {
                            assert(keys@.contains(m));
                            let j = choose|j: int| 0 <= j < keys@.len() && keys@[j] == m;
                            assert(last matches Some(l) && keys@[j] <= l);
                        }
                    }
                    break;
                },
                Some(b) => {
                    assert(acc.contains_key(b));
                    let p = match self.calls.get(&b) {
                        Some(p) => p,
                        None => {
                            assert(false);
                            break;
                        },
                    };
                    let c = call_from_partial(p);
                    calls.push(c);
                    let ghost old_order = order;
                    proof {
                        order = order.push(b);
                        assert forall|m: usize| acc.contains_key(m) && m <= b implies #[trigger] order.contains(m) by {
                            if last matches Some(l) && m <= l {
                                assert(old_order.contains(m));
                                let k = choose|k: int| 0 <= k < old_order.len() && old_order[k] == m;
                                assert(order[k] == m);
                            } else {
                                assert(keys@.contains(m));
                                let j = choose|j: int| 0 <= j < keys@.len() && keys@[j] == m;
                                assert(b <= keys@[j]);
                                assert(order[order.len() - 1] == m);
                            }
                        }
                    }
                    last = Some(b);
                },
            }
        }
        let mut out: Vec<LlmChunk> = Vec::new();
        if n > 0 {
            proof {
                assert(keys@.len() > 0);
                assert(acc.contains_key(keys@[0]));
                assert(order.contains(keys@[0]));
            }
            out.push(LlmChunk::ToolCalls(calls));
        } else {
            proof {
                if order.len() > 0 {
                    assert(acc.contains_key(order[0]));
                    assert(keys@.contains(order[0]));
                }
            }
        }
        out.push(LlmChunk::Done(None));
        assert(ordered_indices(acc, order));
        self.calls.clear();
        assert(self@ =~= CallsView::empty());
        out
    }
}

/// The argument text a delta carries (empty when it carries none).
pub open spec fn delta_arguments(d: StreamToolCallDelta) -> Seq<char> {
    match d.function {
        Some(f) => match f.arguments {
            Some(a) => a@,
            None => Seq::empty(),
        },
        None => Seq::empty(),
    }
}

/// The argument fragments of the deltas for call index `k`, concatenated in
/// order.
pub open spec fn fragments_for(ds: Seq<StreamToolCallDelta>, k: usize) -> Seq<char>
    decreases ds.len(),
{
    if ds.len() == 0 {
        Seq::empty()
    } else if ds.last().index == k {
        fragments_for(ds.drop_last(), k) + delta_arguments(ds.last())
    } else {
        fragments_for(ds.drop_last(), k)
    }
}

/// Some delta is for call index `k`.
pub open spec fn mentions(ds: Seq<StreamToolCallDelta>, k: usize) -> bool {
    exists|i: int| 0 <= i < ds.len() && #[trigger] ds[i].index == k
}

/// The argument text assembled so far for call index `k`, if that call has
/// been seen.
pub open spec fn arguments_of(acc: CallsView, k: usize) -> Option<Seq<char>> {
    if acc.contains_key(k) {
        Some(acc[k].2)
    } else {
        None
    }
}

proof fn lemma_fragments_unmentioned(ds: Seq<StreamToolCallDelta>, k: usize)
    requires
        !mentions(ds, k),
    ensures
        fragments_for(ds, k) == Seq::<char>::empty(),
    decreases ds.len(),
{
    if ds.len() > 0 {
        assert(ds.last().index != k) by {
            if ds.last().index == k {
                assert(ds[ds.len() - 1].index == k);
            }
        }
        assert(!mentions(ds.drop_last(), k)) by {
            if mentions(ds.drop_last(), k) {
                let i = choose|i: int| 0 <= i < ds.drop_last().len() && #[trigger] ds.drop_last()[i].index == k;
                assert(ds[i].index == k);
            }
        }
        lemma_fragments_unmentioned(ds.drop_last(), k);
    }
}

proof fn lemma_arguments_one_delta(acc: CallsView, d: StreamToolCallDelta, k: usize)
    ensures
        arguments_of(apply_delta(acc, d), k) == if d.index == k {
            Some(
                match arguments_of(acc, k) {
                    Some(a) => a,
                    None => Seq::<char>::empty(),
                } + delta_arguments(d),
            )
        } else {
            arguments_of(acc, k)
        },
{
    if d.index == k {
        assert(delta_applied(entry_or_empty(acc, k), d).2 =~= entry_or_empty(acc, k).2 + delta_arguments(d));
    }
}

/// The argument text of an assembled call is what it had, followed by the
/// argument fragments of every later delta for its index, concatenated in
/// the order the deltas arrived; deltas for other indices leave it alone, and
/// a call appears only once a delta names its index.
pub proof fn law_arguments_accumulate(acc: CallsView, ds: Seq<StreamToolCallDelta>, k: usize)
    ensures
        arguments_of(apply_deltas(acc, ds), k) == if arguments_of(acc, k) is None && !mentions(ds, k) {
            None
        } else {
            Some(
                match arguments_of(acc, k) {
                    Some(a) => a,
                    None => Seq::<char>::empty(),
                } + fragments_for(ds, k),
            )
        },
    decreases ds.len(),
{
    if ds.len() == 0 {
        if arguments_of(acc, k) is Some {
            assert(arguments_of(acc, k)->0 + Seq::<char>::empty() =~= arguments_of(acc, k)->0);
        }
    } else {
        let prev = ds.drop_last();
        let d = ds.last();
        law_arguments_accumulate(acc, prev, k);
        lemma_arguments_one_delta(apply_deltas(acc, prev), d, k);
        let base = match arguments_of(acc, k) {
            Some(a) => a,
            None => Seq::<char>::empty(),
        };
        assert(mentions(ds, k) == (mentions(prev, k) || d.index == k)) by {
            if mentions(prev, k) {
                let i = choose|i: int| 0 <= i < prev.len() && #[trigger] prev[i].index == k;
                assert(ds[i].index == k);
            }
            if d.index == k {
                assert(ds[ds.len() - 1].index == k);
            }
            if mentions(ds, k) && d.index != k {
                let i = choose|i: int| 0 <= i < ds.len() && #[trigger] ds[i].index == k;
                assert(i < ds.len() - 1);
                assert(prev[i].index == k);
            }
        }
        if d.index == k {
            if arguments_of(acc, k) is None && !mentions(prev, k) {
                lemma_fragments_unmentioned(prev, k);
                assert(Seq::<char>::empty() + delta_arguments(d) =~= base + (fragments_for(prev, k) + delta_arguments(d)));
            } else {
                assert(base + fragments_for(prev, k) + delta_arguments(d) =~= base + (fragments_for(prev, k) + delta_arguments(d)));
            }
        }
    }
}

/// The id last given by a delta for call index `k`, if any gave one.
pub open spec fn last_id_for(ds: Seq<StreamToolCallDelta>, k: usize) -> Option<Seq<char>>
    decreases ds.len(),
{
    if ds.len() == 0 {
        None
    } else if ds.last().index == k && ds.last().id is Some {
        Some(ds.last().id->0@)
    } else {
        last_id_for(ds.drop_last(), k)
    }
}

/// The function name last given by a delta for call index `k`, if any gave
/// one.
pub open spec fn last_name_for(ds: Seq<StreamToolCallDelta>, k: usize) -> Option<Seq<char>>
    decreases ds.len(),
{
    if ds.len() == 0 {
        None
    } else if ds.last().index == k && (ds.last().function matches Some(f) && f.name is Some) {
        Some(ds.last().function->0.name->0@)
    } else {
        last_name_for(ds.drop_last(), k)
    }
}

/// The id and name of an assembled call are the last ones any delta for its
/// index gave (earlier ones are replaced, not joined); when no delta gave
/// one, what the call had is kept.
pub proof fn law_last_id_and_name_win(acc: CallsView, ds: Seq<StreamToolCallDelta>, k: usize)
    ensures
        entry_or_empty(apply_deltas(acc, ds), k).0 == match last_id_for(ds, k) {
            Some(i) => i,
            None => entry_or_empty(acc, k).0,
        },
        entry_or_empty(apply_deltas(acc, ds), k).1 == match last_name_for(ds, k) {
            Some(n) => n,
            None => entry_or_empty(acc, k).1,
        },
    decreases ds.len(),
{
    if ds.len() > 0 {
        law_last_id_and_name_win(acc, ds.drop_last(), k);
    }
}

/// The tool-call deltas of a chunk's choices, in order.
pub open spec fn all_deltas(cs: Seq<StreamChoice>) -> Seq<StreamToolCallDelta>
    decreases cs.len(),
{
    if cs.len() == 0 {
        Seq::empty()
    } else {
        all_deltas(cs.drop_last()) + choice_deltas(cs.last())
    }
}

proof fn lemma_apply_deltas_concat(acc: CallsView, a: Seq<StreamToolCallDelta>, b: Seq<StreamToolCallDelta>)
    ensures
        apply_deltas(acc, a + b) == apply_deltas(apply_deltas(acc, a), b),
    decreases b.len(),
{
    if b.len() == 0 {
        assert(a + b =~= a);
    } else {
        assert((a + b).drop_last() =~= a + b.drop_last());
        assert((a + b).last() == b.last());
        lemma_apply_deltas_concat(acc, a, b.drop_last());
    }
}

/// Applying a chunk's choices one after another is applying all their
/// tool-call deltas in order, so the argument law carries over to whole
/// chunks and streams.
pub proof fn law_choices_are_their_deltas(acc: CallsView, cs: Seq<StreamChoice>)
    ensures
        apply_choices(acc, cs) == apply_deltas(acc, all_deltas(cs)),
    decreases cs.len(),
{
    if cs.len() > 0 {
        law_choices_are_their_deltas(acc, cs.drop_last());
        lemma_apply_deltas_concat(acc, all_deltas(cs.drop_last()), choice_deltas(cs.last()));
    }
}

/// What the decoder does with one line of the event stream, given the line
/// and, for a `data:` line, its payload decoded as a stream chunk (`None`
/// when the payload is not a valid chunk).
pub open spec fn line_step(
    before: CallsView,
    line: SseLine,
    parsed: Option<ChatStreamChunk>,
    after: CallsView,
    events: Seq<LlmChunk>,
    stop: bool,
) -> bool {
    match line {
        SseLine::Done => stop && flushed(before, events) && after == CallsView::empty(),
        SseLine::Data(_) => match parsed {
            Some(c) => !stop && after == apply_choices(before, c.choices@) && events == chunk_events(
                c.choices@,
            ),
            None => !stop && after == before && events == Seq::<LlmChunk>::empty(),
        },
        SseLine::Other => !stop && after == before && events == Seq::<LlmChunk>::empty(),
    }
}

/// What one line of the event stream is.
#[derive(Debug)]
pub enum SseLine {
    /// `data: [DONE]`: the end of the stream.
    Done,
    /// `data: <payload>`: a JSON chunk.
    Data(String),
    /// Anything else (comments, blank lines, other fields).
    Other,
}

/// The classification of a line: trimmed, it is either the end marker, a
/// `data: ` line (whose payload follows the prefix), or something else.
pub open spec fn sse_line_is(line: Seq<char>, res: SseLine) -> bool {
    let t = trim(line);
    if t == "data: [DONE]"@ {
        res is Done
    } else if "data: "@.is_prefix_of(t) {
        res matches SseLine::Data(p) && p@ == t.subrange("data: "@.len() as int, t.len() as int)
    } else {
        res is Other
    }
}

/// Classifies one line of the event stream.
pub fn classify_sse_line(line: &str) -> (res: SseLine)
    ensures
        sse_line_is(line@, res),
{
    let t = trim_str(line);
    if str_eq(t.as_str(), "data: [DONE]") {
        return SseLine::Done;
    }
    let prefix = "data: ";
    proof {
        reveal_strlit("data: ");
    }
    let tc = chars_of(t.as_str());
    let pc = chars_of(prefix);
    if tc.len() < pc.len() {
        return SseLine::Other;
    }
    let mut k: usize = 0;
    while k < pc.len()
        invariant
            tc@ == t@,
            t@ != "data: [DONE]"@,
            t@ == trim(line@),
            pc@ == prefix@,
            prefix@ == "data: "@,
            pc@.len() <= tc@.len(),
            k <= pc@.len(),
            forall|m: int| 0 <= m < k ==> tc@[m] == pc@[m],
        decreases pc.len() - k,
    {
        if tc[k] != pc[k] {
            assert(!prefix@.is_prefix_of(t@)) by {
                assert(t@.subrange(0, prefix@.len() as int)[k as int] != prefix@[k as int]);
            }
            return SseLine::Other;
        }
        k = k + 1;
    }
    assert(prefix@.is_prefix_of(t@)) by {
        assert(t@.subrange(0, prefix@.len() as int) =~= prefix@);
    }
    let payload = string_from_range(&tc, pc.len(), tc.len());
    SseLine::Data(payload)
}

/// Classifies the lines of one piece of the response body, decoded
/// leniently as UTF-8.
pub fn classify_body_piece(bytes: &[u8]) -> (res: Vec<SseLine>)
    ensures
        res@.len() == lines_of(utf8_lossy(bytes@)).len(),
        forall|k: int| 0 <= k < res@.len() ==> sse_line_is(lines_of(utf8_lossy(bytes@))[k], #[trigger] res@[k]),
{
    let text = from_utf8_lossy(bytes);
    let lines = split_lines(text.as_str());
    let mut res: Vec<SseLine> = Vec::new();
    let mut k: usize = 0;
    while k < lines.len()
        invariant
            k <= lines@.len(),
            crate::text::views(lines@) == lines_of(utf8_lossy(bytes@)),
            res@.len() == k,
            forall|m: int| 0 <= m < k ==> sse_line_is(lines_of(utf8_lossy(bytes@))[m], #[trigger] res@[m]),
        decreases lines.len() - k,
    {
        assert(crate::text::views(lines@)[k as int] == lines@[k as int]@);
        res.push(classify_sse_line(lines[k].as_str()));
        k = k + 1;
    }
    res
}

impl ToolCallAccumulator {
    /// Handles one classified line of the event stream and says whether the
    /// stream is over: the end marker flushes the assembled calls, a decoded
    /// chunk is applied, and anything else (including a payload that is not a
    /// valid chunk) is skipped.
    pub fn on_line(&mut self, line: SseLine, parsed: Option<ChatStreamChunk>) -> (res: (Vec<LlmChunk>, bool))
        ensures
            line_step(old(self)@, line, parsed, final(self)@, res.0@, res.1),
    {
        match line {
            SseLine::Done => {
                let events = self.finish();
                (events, true)
            },
            SseLine::Data(_) => match parsed {
                Some(c) => {
                    let events = self.apply_chunk(&c);
                    (events, false)
                },
                None => (Vec::new(), false),
            },
            SseLine::Other => (Vec::new(), false),
        }
    }
}

} // verus!
