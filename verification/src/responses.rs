//! The OpenAI Responses API: typed stream events assembled into one turn
//! (the answer text and the reasoning summary stay separate channels;
//! output items announced by events stand in for a terminal event that
//! lists none; function calls become tool calls), the replay of the
//! provider's own output items across tool rounds, and the exact JSON of
//! a request.

use vstd::prelude::*;
use crate::compat::{data_url, image_data_url, json_error, json_parse_error, UsageCounts};
use crate::compat::{ToolDecl, optional_entry};
use crate::schema::{
    entries_view, json_array, json_clone, json_object, json_object1, json_object2, json_object3,
    json_object4, json_str, jview, push_entry, push_value, values_view, Json, JsonView,
};
use crate::schema::{member_text, member_text_view, set_member, set_member_view};
use crate::provider::{FinishReason, ImagePart, Message, ProviderError, ToolCall};
use crate::text::{char_vec, owned, trim, trim_bounds};
use std::collections::BTreeMap;
use vstd::std_specs::cmp::OrdSpec;
use vstd::std_specs::iter::IteratorSpec;

verus! {

/// One content part of an output item: its `type` and `text`, each when
/// present as a string.
#[derive(Debug, Clone, PartialEq, Eq)]
pub struct ContentPart {
    pub kind: Option<String>,
    pub text: Option<String>,
}

/// What the turn reads of one output item: its `type`, `call_id`, `id`,
/// `name` and `arguments` (each when present as a string), the parts of
/// its `content` and of its `summary`.
#[derive(Debug, Clone, PartialEq, Eq)]
pub struct ResponseItem {
    pub kind: Option<String>,
    pub call_id: Option<String>,
    pub id: Option<String>,
    pub name: Option<String>,
    pub arguments: Option<String>,
    pub content: Vec<ContentPart>,
    pub summary: Vec<ContentPart>,
}

/// The `response` object of a terminal event.
#[derive(Debug, Clone, PartialEq, Eq)]
pub struct ResponseEnvelope {
    pub output: Vec<ResponseItem>,
    /// `error.message`, when the response carries an error object.
    pub error_message: Option<String>,
    /// `incomplete_details.reason`, when the response carries details.
    pub incomplete_reason: Option<String>,
    pub usage: Option<UsageCounts>,
}

/// One typed Responses stream event.
#[derive(Debug, Clone, PartialEq, Eq)]
pub enum ResponsesEvent {
    OutputTextDelta(String),
    ReasoningSummaryTextDelta(String),
    /// `response.output_item.added` or `response.output_item.done`.
    OutputItem { output_index: usize, item: ResponseItem },
    FunctionCallArgumentsDelta { output_index: usize, delta: String },
    FunctionCallArgumentsDone { output_index: usize, arguments: String },
    Completed(ResponseEnvelope),
    Incomplete(ResponseEnvelope),
    Failed(ResponseEnvelope),
    Error(String),
    Other,
}

/// A display delta to forward: answer text or reasoning summary.
#[derive(Debug, Clone, PartialEq, Eq)]
pub enum StreamDelta {
    Text(String),
    ReasoningSummary(String),
}

/// What one event means for the stream.
#[derive(Debug, Clone, PartialEq, Eq)]
pub enum EventStep {
    /// Read on, forwarding this delta if any.
    Continue(Option<StreamDelta>),
    /// A terminal event arrived; stop reading.
    Terminal,
    /// The stream failed with this error.
    Failed(ProviderError),
}

/// How the response ended.
#[derive(Debug, Clone, PartialEq, Eq)]
pub enum Terminal {
    Completed(ResponseEnvelope),
    Incomplete(ResponseEnvelope),
}

/// An optional string as an optional view.
pub open spec fn opt_view(o: Option<String>) -> Option<Seq<char>> {
    match o {
        Some(s) => Some(s@),
        None => None,
    }
}

/// A content part as views.
pub type PartView = (Option<Seq<char>>, Option<Seq<char>>);

/// An output item as views: type, call_id, id, name, arguments, content
/// parts, summary parts.
pub type ItemView = (
    Option<Seq<char>>,
    Option<Seq<char>>,
    Option<Seq<char>>,
    Option<Seq<char>>,
    Option<Seq<char>>,
    Seq<PartView>,
    Seq<PartView>,
);

/// The view of one content part.
pub open spec fn part_view(p: ContentPart) -> PartView {
    (opt_view(p.kind), opt_view(p.text))
}

/// The views of content parts.
pub open spec fn parts_view(ps: Seq<ContentPart>) -> Seq<PartView> {
    ps.map_values(|p: ContentPart| part_view(p))
}

/// The view of one output item.
pub open spec fn item_view(i: ResponseItem) -> ItemView {
    (
        opt_view(i.kind),
        opt_view(i.call_id),
        opt_view(i.id),
        opt_view(i.name),
        opt_view(i.arguments),
        parts_view(i.content@),
        parts_view(i.summary@),
    )
}

/// The views of output items.
pub open spec fn items_view(is: Seq<ResponseItem>) -> Seq<ItemView> {
    is.map_values(|i: ResponseItem| item_view(i))
}

/// The item a function-call event creates when its index has none yet.
pub open spec fn new_call_view(arguments: Option<Seq<char>>) -> ItemView {
    (Some("function_call"@), None, None, None, arguments, Seq::empty(), Seq::empty())
}

/// `iv` with its arguments replaced.
pub open spec fn with_arguments(iv: ItemView, arguments: Option<Seq<char>>) -> ItemView {
    (iv.0, iv.1, iv.2, iv.3, arguments, iv.5, iv.6)
}

/// Whether `keys` strictly increase.
pub open spec fn ascending(keys: Seq<usize>) -> bool {
    forall|i: int, j: int| 0 <= i < j < keys.len() ==> keys[i] < keys[j]
}

/// The output items by index, as views.
pub open spec fn items_map(m: Map<usize, ResponseItem>) -> Map<usize, ItemView> {
    m.map_values(|i: ResponseItem| item_view(i))
}

/// The item at output index `k`, if any.
pub open spec fn item_at(m: Map<usize, ItemView>, k: usize) -> Option<ItemView> {
    if m.dom().contains(k) { Some(m[k]) } else { None }
}

/// The indices of `dom` in increasing order.
pub open spec fn index_order(dom: Set<usize>) -> Seq<usize> {
    choose|ks: Seq<usize>| ascending(ks) && ks.to_set() == dom
}

/// The values of `m` in output-index order.
pub open spec fn in_index_order<V>(m: Map<usize, V>) -> Seq<V> {
    index_order(m.dom()).map_values(|k: usize| m[k])
}

/// The item an argument delta leaves at its index: the delta appended to
/// the arguments text (a fresh function call when the index had no item;
/// arguments that were not text are replaced by the delta).
pub open spec fn after_delta(old: Option<ItemView>, delta: Seq<char>) -> ItemView {
    let base = match old {
        Some(iv) => iv,
        None => new_call_view(Some(Seq::empty())),
    };
    with_arguments(base, Some(match base.4 {
        Some(a) => a + delta,
        None => delta,
    }))
}

/// The item an arguments-done event leaves at its index.
pub open spec fn after_done(old: Option<ItemView>, arguments: Seq<char>) -> ItemView {
    let base = match old {
        Some(iv) => iv,
        None => new_call_view(None),
    };
    with_arguments(base, Some(arguments))
}

/// The message of a failed response.
pub open spec fn failure_text(e: ResponseEnvelope) -> Seq<char> {
    match e.error_message {
        Some(m) => if m@.len() > 0 { m@ } else { "unknown provider error"@ },
        None => "unknown provider error"@,
    }
}

/// The assembly state of one Responses stream.
#[derive(Debug, Clone, PartialEq, Eq)]
pub struct ResponsesStream {
    pub streamed_text: String,
    pub streamed_reasoning: String,
    /// The output items announced so far, by output index.
    pub items: BTreeMap<usize, ResponseItem>,
    pub terminal: Option<Terminal>,
}

proof fn lemma_increasing_ascending(ks: Seq<usize>)
    requires
        vstd::std_specs::btree::increasing_seq(ks),
    ensures
        ascending(ks),
{
    broadcast use vstd::std_specs::btree::group_btree_axioms;
    broadcast use vstd::laws_cmp::group_laws_cmp;
    assert forall|i: int, j: int| 0 <= i < j < ks.len() implies ks[i] < ks[j] by {
        assert(ks[i].cmp_spec(&ks[j]) is Less);
    }
}

/// `usize` keys order a `BTreeMap` as integers do.
proof fn lemma_usize_keys_ordered()
    ensures
        vstd::laws_cmp::obeys_cmp::<usize>(),
        vstd::std_specs::btree::key_obeys_cmp_spec::<usize>(),
{
    broadcast use vstd::std_specs::btree::group_btree_axioms;
    broadcast use vstd::laws_cmp::group_laws_cmp;
}

proof fn lemma_ascending_drop_first(a: Seq<usize>)
    requires
        ascending(a),
        a.len() > 0,
    ensures
        ascending(a.drop_first()),
        a.drop_first().to_set() == a.to_set().remove(a[0]),
{
    assert(a.drop_first().to_set() =~= a.to_set().remove(a[0])) by {
        assert forall|x: usize| a.drop_first().to_set().contains(x) implies a.to_set().remove(a[0]).contains(x) by {
            let i = choose|i: int| 0 <= i < a.drop_first().len() && a.drop_first()[i] == x;
            assert(a[i + 1] == x);
            assert(a.contains(x));
        }
        assert forall|x: usize| a.to_set().remove(a[0]).contains(x) implies a.drop_first().to_set().contains(x) by {
            assert(a.contains(x));
            let i = choose|i: int| 0 <= i < a.len() && a[i] == x;
            assert(i != 0);
            assert(a.drop_first()[i - 1] == x);
            assert(a.drop_first().contains(x));
        }
    }
}

/// Two ascending sequences holding the same indices are the same.
proof fn lemma_ascending_unique(a: Seq<usize>, b: Seq<usize>)
    requires
        ascending(a),
        ascending(b),
        a.to_set() == b.to_set(),
    ensures
        a == b,
    decreases a.len(),
{
    if a.len() == 0 {
        if b.len() > 0 {
            assert(b.contains(b[0]));
            assert(b.to_set().contains(b[0]));
            assert(!a.contains(b[0]));
        }
        assert(a =~= b);
    } else {
        if b.len() == 0 {
            assert(a.contains(a[0]));
            assert(a.to_set().contains(a[0]));
            assert(!b.contains(a[0]));
        }
        assert(a.contains(a[0]) && b.contains(b[0]));
        assert(a.to_set().contains(b[0]) && b.to_set().contains(a[0]));
        let i = choose|i: int| 0 <= i < a.len() && a[i] == b[0];
        let j = choose|j: int| 0 <= j < b.len() && b[j] == a[0];
        assert(a[0] <= a[i]);
        assert(b[0] <= b[j]);
        assert(a[0] == b[0]);
        lemma_ascending_drop_first(a);
        lemma_ascending_drop_first(b);
        lemma_ascending_unique(a.drop_first(), b.drop_first());
        assert(a =~= seq![a[0]] + a.drop_first());
        assert(b =~= seq![b[0]] + b.drop_first());
    }
}

/// The output indices of `m`, in increasing order.
fn keys_in_order<V>(m: &BTreeMap<usize, V>) -> (r: Vec<usize>)
    ensures
        r@ == index_order(m@.dom()),
        ascending(r@),
        r@.to_set() == m@.dom(),
{
    broadcast use vstd::std_specs::btree::group_btree_axioms;
    let mut r: Vec<usize> = Vec::new();
    let it0 = m.iter();
    proof {
        lemma_usize_keys_ordered();
    }
    let ghost all = it0.remaining();
    let ghost ks = all.map_values(|kv: (&usize, &V)| *kv.0);
    proof {
        lemma_increasing_ascending(ks);
    }
    for kv in it: it0
        invariant
            r@.len() == it.index(),
            it.seq() == all,
            ks == all.map_values(|kv: (&usize, &V)| *kv.0),
            forall|i: int| 0 <= i < r@.len() ==> r@[i] == ks[i],
    {
        r.push(*kv.0);
    }
    assert(r@ =~= ks);
    assert(r@.to_set() =~= m@.dom()) by {
        assert forall|k: usize| m@.dom().contains(k) implies r@.to_set().contains(k) by {
            assert(all.contains((&k, &m@[k])));
            let i = choose|i: int| 0 <= i < all.len() && all[i] == (&k, &m@[k]);
            assert(r@[i] == k);
        }
        assert forall|k: usize| r@.to_set().contains(k) implies m@.dom().contains(k) by {
            let i = choose|i: int| 0 <= i < r@.len() && r@[i] == k;
            assert(m@.contains_key(*all[i].0));
        }
    }
    proof {
        let chosen = index_order(m@.dom());
        assert(ascending(chosen) && chosen.to_set() == m@.dom());
        lemma_ascending_unique(r@, chosen);
    }
    r
}

/// The values of `m`, taken out in output-index order.
fn into_index_order<V>(m: BTreeMap<usize, V>) -> (r: Vec<V>)
    ensures
        r@ == in_index_order(m@),
{
    broadcast use vstd::std_specs::btree::group_btree_axioms;
    proof {
        lemma_usize_keys_ordered();
    }
    let ghost orig = m@;
    let keys = keys_in_order(&m);
    let mut m = m;
    let mut r: Vec<V> = Vec::new();
    let mut i: usize = 0;
    while i < keys.len()
        invariant
            i <= keys@.len(),
            keys@ == index_order(orig.dom()),
            ascending(keys@),
            keys@.to_set() == orig.dom(),
            forall|j: int| i <= j < keys@.len() ==> #[trigger] m@.contains_key(keys@[j]) && m@[keys@[j]] == orig[keys@[j]],
            r@ == keys@.take(i as int).map_values(|k: usize| orig[k]),
        decreases keys@.len() - i,
    {
        let k = keys[i];
        assert(keys@.contains(k));
        assert(m@.contains_key(keys@[i as int]));
        let ghost before = m@;
        let item = m.remove(&k);
        match item {
            Some(it) => {
                r.push(it);
            },
            None => {
                assert(false);
            },
        }
        proof {
            assert forall|j: int| i + 1 <= j < keys@.len() implies #[trigger] m@.contains_key(keys@[j]) && m@[keys@[j]] == orig[keys@[j]] by {
                assert(keys@[j] != k);
                assert(before.contains_key(keys@[j]));
            }
            assert(r@ =~= keys@.take(i + 1).map_values(|k: usize| orig[k]));
        }
        i += 1;
    }
    assert(keys@.take(keys@.len() as int) =~= keys@);
    r
}

impl ResponsesStream {
    /// A stream with nothing received yet.
    pub fn new() -> (r: Self)
        ensures
            r.streamed_text@.len() == 0,
            r.streamed_reasoning@.len() == 0,
            r.items@ == Map::<usize, ResponseItem>::empty(),
            r.terminal is None,
    {
        ResponsesStream {
            streamed_text: String::new(),
            streamed_reasoning: String::new(),
            items: BTreeMap::new(),
            terminal: None,
        }
    }

    /// Take in one event.
    #[verifier::spinoff_prover]
    pub fn apply_event(&mut self, event: ResponsesEvent) -> (step: EventStep)
        ensures
            match event {
                ResponsesEvent::OutputTextDelta(d) => {
                    &&& final(self).streamed_text@ == old(self).streamed_text@ + d@
                    &&& final(self).streamed_reasoning == old(self).streamed_reasoning
                    &&& final(self).items@ == old(self).items@
                    &&& final(self).terminal == old(self).terminal
                    &&& if d@.len() > 0 { step == EventStep::Continue(Some(StreamDelta::Text(d))) } else { step == EventStep::Continue(None) }
                },
                ResponsesEvent::ReasoningSummaryTextDelta(d) => {
                    &&& final(self).streamed_reasoning@ == old(self).streamed_reasoning@ + d@
                    &&& final(self).streamed_text == old(self).streamed_text
                    &&& final(self).items@ == old(self).items@
                    &&& final(self).terminal == old(self).terminal
                    &&& if d@.len() > 0 { step == EventStep::Continue(Some(StreamDelta::ReasoningSummary(d))) } else { step == EventStep::Continue(None) }
                },
                ResponsesEvent::OutputItem { output_index, item } => {
                    &&& final(self).items@ == old(self).items@.insert(output_index, item)
                    &&& final(self).streamed_text == old(self).streamed_text
                    &&& final(self).streamed_reasoning == old(self).streamed_reasoning
                    &&& final(self).terminal == old(self).terminal
                    &&& step == EventStep::Continue(None)
                },
                ResponsesEvent::FunctionCallArgumentsDelta { output_index, delta } => {
                    &&& final(self).items@.dom() == old(self).items@.dom().insert(output_index)
                    &&& items_map(final(self).items@) == items_map(old(self).items@).insert(output_index,
                        after_delta(item_at(items_map(old(self).items@), output_index), delta@))
                    &&& final(self).streamed_text == old(self).streamed_text
                    &&& final(self).streamed_reasoning == old(self).streamed_reasoning
                    &&& final(self).terminal == old(self).terminal
                    &&& step == EventStep::Continue(None)
                },
                ResponsesEvent::FunctionCallArgumentsDone { output_index, arguments } => {
                    &&& final(self).items@.dom() == old(self).items@.dom().insert(output_index)
                    &&& items_map(final(self).items@) == items_map(old(self).items@).insert(output_index,
                        after_done(item_at(items_map(old(self).items@), output_index), arguments@))
                    &&& final(self).streamed_text == old(self).streamed_text
                    &&& final(self).streamed_reasoning == old(self).streamed_reasoning
                    &&& final(self).terminal == old(self).terminal
                    &&& step == EventStep::Continue(None)
                },
                ResponsesEvent::Completed(e) => {
                    &&& final(self).terminal == Some(Terminal::Completed(e))
                    &&& step == EventStep::Terminal
                    &&& final(self).items@ == old(self).items@
                    &&& final(self).streamed_text == old(self).streamed_text
                    &&& final(self).streamed_reasoning == old(self).streamed_reasoning
                },
                ResponsesEvent::Incomplete(e) => {
                    &&& final(self).terminal == Some(Terminal::Incomplete(e))
                    &&& step == EventStep::Terminal
                    &&& final(self).items@ == old(self).items@
                    &&& final(self).streamed_text == old(self).streamed_text
                    &&& final(self).streamed_reasoning == old(self).streamed_reasoning
                },
                ResponsesEvent::Failed(e) => *final(self) == *old(self) && (step matches EventStep::Failed(ProviderError::Protocol(m))
                    && m@ == "Responses request failed: "@ + failure_text(e)),
                ResponsesEvent::Error(message) => *final(self) == *old(self) && (step matches EventStep::Failed(ProviderError::Protocol(m))
                    && m@ == "Responses stream error: "@ + message@),
                ResponsesEvent::Other => *final(self) == *old(self) && step == EventStep::Continue(None),
            },
    {
        broadcast use vstd::std_specs::btree::group_btree_axioms;
        proof {
            lemma_usize_keys_ordered();
        }
        match event {
            ResponsesEvent::OutputTextDelta(d) => {
                self.streamed_text.append(d.as_str());
                if d.as_str().is_empty() {
                    EventStep::Continue(None)
                } else {
                    EventStep::Continue(Some(StreamDelta::Text(d)))
                }
            },
            ResponsesEvent::ReasoningSummaryTextDelta(d) => {
                self.streamed_reasoning.append(d.as_str());
                if d.as_str().is_empty() {
                    EventStep::Continue(None)
                } else {
                    EventStep::Continue(Some(StreamDelta::ReasoningSummary(d)))
                }
            },
            ResponsesEvent::OutputItem { output_index, item } => {
                self.items.insert(output_index, item);
                EventStep::Continue(None)
            },
            ResponsesEvent::FunctionCallArgumentsDelta { output_index, delta } => {
                let ghost m0 = self.items@;
                let mut item = match self.items.remove(&output_index) {
                    Some(it) => it,
                    None => ResponseItem {
                        kind: Some(owned("function_call")),
                        call_id: None,
                        id: None,
                        name: None,
                        arguments: Some(String::new()),
                        content: Vec::new(),
                        summary: Vec::new(),
                    },
                };
                let ghost base = item_view(item);
                proof {
                    assert(base == match item_at(items_map(m0), output_index) {
                        Some(iv) => iv,
                        None => new_call_view(Some(Seq::empty())),
                    });
                }
                let combined = match item.arguments {
                    Some(current) => {
                        let mut c = current;
                        c.append(delta.as_str());
                        c
                    },
                    None => delta,
                };
                item.arguments = Some(combined);
                let ghost iv = item_view(item);
                self.items.insert(output_index, item);
                proof {
                    assert(iv == after_delta(item_at(items_map(m0), output_index), delta@));
                    assert(items_map(self.items@) =~= items_map(m0).insert(output_index, iv));
                    assert(self.items@.dom() =~= m0.dom().insert(output_index));
                }
                EventStep::Continue(None)
            },
            ResponsesEvent::FunctionCallArgumentsDone { output_index, arguments } => {
                let ghost m0 = self.items@;
                let mut item = match self.items.remove(&output_index) {
                    Some(it) => it,
                    None => ResponseItem {
                        kind: Some(owned("function_call")),
                        call_id: None,
                        id: None,
                        name: None,
                        arguments: None,
                        content: Vec::new(),
                        summary: Vec::new(),
                    },
                };
                proof {
                    assert(item_view(item) == match item_at(items_map(m0), output_index) {
                        Some(iv) => iv,
                        None => new_call_view(None),
                    });
                }
                item.arguments = Some(arguments);
                let ghost iv = item_view(item);
                self.items.insert(output_index, item);
                proof {
                    assert(iv == after_done(item_at(items_map(m0), output_index), arguments@));
                    assert(items_map(self.items@) =~= items_map(m0).insert(output_index, iv));
                    assert(self.items@.dom() =~= m0.dom().insert(output_index));
                }
                EventStep::Continue(None)
            },
            ResponsesEvent::Completed(e) => {
                self.terminal = Some(Terminal::Completed(e));
                EventStep::Terminal
            },
            ResponsesEvent::Incomplete(e) => {
                self.terminal = Some(Terminal::Incomplete(e));
                EventStep::Terminal
            },
            ResponsesEvent::Failed(e) => {
                let mut m = owned("Responses request failed: ");
                match e.error_message {
                    Some(msg) => {
                        if msg.as_str().is_empty() {
                            m.append("unknown provider error");
                        } else {
                            m.append(msg.as_str());
                        }
                    },
                    None => m.append("unknown provider error"),
                }
                EventStep::Failed(ProviderError::Protocol(m))
            },
            ResponsesEvent::Error(message) => {
                let mut m = owned("Responses stream error: ");
                m.append(message.as_str());
                EventStep::Failed(ProviderError::Protocol(m))
            },
            ResponsesEvent::Other => EventStep::Continue(None),
        }
    }
}

/// The raw output items by index, as views.
pub open spec fn raw_view(m: Map<usize, Json>) -> Map<usize, JsonView> {
    m.map_values(|j: Json| jview(j))
}

/// The raw item at output index `k`, if any.
pub open spec fn raw_at(m: Map<usize, JsonView>, k: usize) -> Option<JsonView> {
    if m.dom().contains(k) { Some(m[k]) } else { None }
}

/// The raw function-call item an arguments event creates at an index that
/// has none yet.
pub open spec fn call_stub(arguments: Option<Seq<char>>) -> JsonView {
    JsonView::Object(seq![("type"@, JsonView::Str("function_call"@))] + match arguments {
        Some(a) => seq![("arguments"@, JsonView::Str(a))],
        None => Seq::empty(),
    })
}

/// Whether a raw item can take a member (an object, or null).
pub open spec fn takes_members(v: JsonView) -> bool {
    v is Object || v is Null
}

/// The raw item an argument delta leaves at its index: the delta appended
/// to the `arguments` text (read as empty when it is no string).
pub open spec fn raw_after_delta(old: Option<JsonView>, delta: Seq<char>) -> JsonView {
    let base = match old {
        Some(v) => v,
        None => call_stub(Some(Seq::empty())),
    };
    set_member_view(base, "arguments"@, JsonView::Str(member_text_view(base, "arguments"@) + delta))
}

/// The raw item an arguments-done event leaves at its index.
pub open spec fn raw_after_done(old: Option<JsonView>, arguments: Seq<char>) -> JsonView {
    let base = match old {
        Some(v) => v,
        None => call_stub(None),
    };
    set_member_view(base, "arguments"@, JsonView::Str(arguments))
}

/// The raw output items of one Responses stream, exactly as the provider
/// sent them (encrypted reasoning included), by output index: what a
/// replay sends back when the terminal event lists no output.
pub struct RawOutput {
    pub items: BTreeMap<usize, Json>,
}

impl RawOutput {
    /// No item yet.
    pub fn new() -> (r: Self)
        ensures
            r.items@ == Map::<usize, Json>::empty(),
    {
        RawOutput { items: BTreeMap::new() }
    }

    /// An output item announced (or finished) at index `k`, replacing what
    /// was there.
    pub fn put(&mut self, k: usize, item: Json)
        ensures
            final(self).items@ == old(self).items@.insert(k, item),
    {
        proof {
            lemma_usize_keys_ordered();
        }
        self.items.insert(k, item);
    }

    fn take_or(&mut self, k: usize, stub: Json) -> (r: Json)
        ensures
            final(self).items@ == old(self).items@.remove(k),
            r == (if old(self).items@.contains_key(k) { old(self).items@[k] } else { stub }),
    {
        proof {
            lemma_usize_keys_ordered();
        }
        match self.items.remove(&k) {
            Some(item) => item,
            None => stub,
        }
    }

    /// An argument delta for the call at index `k`.
    pub fn append_arguments(&mut self, k: usize, delta: &str)
        requires
            old(self).items@.contains_key(k) ==> takes_members(jview(old(self).items@[k])),
        ensures
            raw_view(final(self).items@) == raw_view(old(self).items@).insert(k,
                raw_after_delta(raw_at(raw_view(old(self).items@), k), delta@)),
    {
        let ghost m0 = self.items@;
        let stub = json_object2("type", json_str("function_call"), "arguments", Json::Str(String::new()));
        proof {
            assert(jview(stub) == call_stub(Some(Seq::empty()))) by {
                assert(seq![("type"@, JsonView::Str("function_call"@))] + seq![("arguments"@, JsonView::Str(Seq::empty()))]
                    =~= seq![("type"@, JsonView::Str("function_call"@)), ("arguments"@, JsonView::Str(Seq::empty()))]);
            }
        }
        let base = self.take_or(k, stub);
        let mut text = member_text(&base, "arguments");
        text.append(delta);
        let item = set_member(base, "arguments", Json::Str(text));
        let ghost iv = jview(item);
        proof {
            lemma_usize_keys_ordered();
        }
        self.items.insert(k, item);
        proof {
            assert(iv == raw_after_delta(raw_at(raw_view(m0), k), delta@));
            assert(raw_view(self.items@) =~= raw_view(m0).insert(k, iv));
        }
    }

    /// The finished arguments of the call at index `k`.
    pub fn set_arguments(&mut self, k: usize, arguments: &str)
        requires
            old(self).items@.contains_key(k) ==> takes_members(jview(old(self).items@[k])),
        ensures
            raw_view(final(self).items@) == raw_view(old(self).items@).insert(k,
                raw_after_done(raw_at(raw_view(old(self).items@), k), arguments@)),
    {
        let ghost m0 = self.items@;
        let stub = json_object1("type", json_str("function_call"));
        proof {
            assert(jview(stub) == call_stub(None)) by {
                assert(seq![("type"@, JsonView::Str("function_call"@))] + Seq::<(Seq<char>, JsonView)>::empty()
                    =~= seq![("type"@, JsonView::Str("function_call"@))]);
            }
        }
        let base = self.take_or(k, stub);
        let item = set_member(base, "arguments", json_str(arguments));
        let ghost iv = jview(item);
        proof {
            lemma_usize_keys_ordered();
        }
        self.items.insert(k, item);
        proof {
            assert(iv == raw_after_done(raw_at(raw_view(m0), k), arguments@));
            assert(raw_view(self.items@) =~= raw_view(m0).insert(k, iv));
        }
    }

    /// The raw items in output-index order.
    pub fn into_items(self) -> (r: Vec<Json>)
        ensures
            r@ == in_index_order(self.items@),
    {
        into_index_order(self.items)
    }
}

/// The text of the parts of `parts` (only those of type `output_text`
/// when `only_output_text`), concatenated.
pub open spec fn parts_text(parts: Seq<PartView>, only_output_text: bool) -> Seq<char>
    decreases parts.len(),
{
    if parts.len() == 0 {
        Seq::empty()
    } else {
        let p = parts.last();
        parts_text(parts.drop_last(), only_output_text) + if !only_output_text || p.0 == Some("output_text"@) {
            match p.1 {
                Some(t) => t,
                None => Seq::empty(),
            }
        } else {
            Seq::empty()
        }
    }
}

/// The answer text the output items carry: the `output_text` parts of the
/// `message` items, in order.
pub open spec fn message_text(items: Seq<ItemView>) -> Seq<char>
    decreases items.len(),
{
    if items.len() == 0 {
        Seq::empty()
    } else {
        message_text(items.drop_last()) + if items.last().0 == Some("message"@) {
            parts_text(items.last().5, true)
        } else {
            Seq::empty()
        }
    }
}

/// The reasoning summary the output items carry: the summary parts of the
/// `reasoning` items, in order.
pub open spec fn summary_text(items: Seq<ItemView>) -> Seq<char>
    decreases items.len(),
{
    if items.len() == 0 {
        Seq::empty()
    } else {
        summary_text(items.drop_last()) + if items.last().0 == Some("reasoning"@) {
            parts_text(items.last().6, false)
        } else {
            Seq::empty()
        }
    }
}

/// The tool call a `function_call` item makes (id, name, argument text),
/// or the protocol error it is. The id is `call_id` when that is a
/// string, else `id`; either way it must be non-empty, as must the name;
/// blank arguments read as `{}`, and other arguments must be JSON.
pub open spec fn call_of(iv: ItemView) -> Result<(Seq<char>, Seq<char>, Seq<char>), Seq<char>> {
    let id = if iv.1 is Some { iv.1 } else { iv.2 };
    if id is None || id->0.len() == 0 {
        Err("Responses function call is missing call_id"@)
    } else if iv.3 is None || iv.3->0.len() == 0 {
        Err("Responses function call "@ + id->0 + " is missing a name"@)
    } else {
        let raw = match iv.4 {
            Some(a) => a,
            None => Seq::empty(),
        };
        if trim(raw).len() == 0 {
            Ok((id->0, iv.3->0, "{}"@))
        } else if json_error(raw) is Some {
            Err("Responses function call '"@ + iv.3->0 + "' has unparseable arguments: "@ + json_error(raw)->0 + ": "@ + raw)
        } else {
            Ok((id->0, iv.3->0, raw))
        }
    }
}

/// The tool calls of the `function_call` items from position `i` on, or
/// the first protocol error among them.
pub open spec fn calls_from(items: Seq<ItemView>, i: int) -> Result<Seq<(Seq<char>, Seq<char>, Seq<char>)>, Seq<char>>
    decreases items.len() - i,
{
    if i < 0 || i >= items.len() {
        Ok(Seq::empty())
    } else if items[i].0 != Some("function_call"@) {
        calls_from(items, i + 1)
    } else {
        match call_of(items[i]) {
            Err(m) => Err(m),
            Ok(c) => match calls_from(items, i + 1) {
                Err(m) => Err(m),
                Ok(rest) => Ok(seq![c] + rest),
            },
        }
    }
}

/// One assembled Responses turn.
#[derive(Debug, Clone, PartialEq)]
pub struct ResponsesTurn {
    pub text: String,
    /// Provider-generated explanation of the reasoning; display only.
    pub reasoning_summary: String,
    pub tool_calls: Vec<ToolCall>,
    pub finish: FinishReason,
    pub usage: Option<UsageCounts>,
    /// Whether the terminal event listed the output items (else the items
    /// announced by events stand in for them).
    pub from_envelope: bool,
}

/// How a Responses stream ends: the display deltas still to forward, and
/// the turn or the error.
#[derive(Debug, PartialEq)]
pub struct ResponsesOutcome {
    pub deltas: Vec<StreamDelta>,
    pub result: Result<ResponsesTurn, ProviderError>,
}

/// The incomplete reasons that mean the token limit cut the answer.
pub open spec fn token_limit_reason(r: Seq<char>) -> bool {
    r == "max_output_tokens"@ || r == "max_tokens"@
}

/// The incomplete reason a response reports (`unknown` when it gives no
/// details).
pub open spec fn incomplete_reason_text(e: ResponseEnvelope) -> Seq<char> {
    match e.incomplete_reason {
        Some(r) => r@,
        None => "unknown"@,
    }
}

fn parts_text_exec(parts: &Vec<ContentPart>, only_output_text: bool) -> (r: String)
    ensures
        r@ == parts_text(parts_view(parts@), only_output_text),
{
    let mut r = String::new();
    let mut i: usize = 0;
    while i < parts.len()
        invariant
            i <= parts.len(),
            r@ == parts_text(parts_view(parts@.take(i as int)), only_output_text),
        decreases parts.len() - i,
    {
        proof {
            assert(parts_view(parts@.take(i + 1)).drop_last() =~= parts_view(parts@.take(i as int)));
            assert(parts_view(parts@.take(i + 1)).last() == part_view(parts@[i as int]));
        }
        let p = &parts[i];
        let wanted = !only_output_text || match &p.kind {
            Some(k) => crate::text::str_eq(k.as_str(), "output_text"),
            None => false,
        };
        if wanted {
            match &p.text {
                Some(t) => r.append(t.as_str()),
                None => {},
            }
        }
        i += 1;
    }
    assert(parts@.take(parts.len() as int) =~= parts@);
    r
}

fn kind_is(item: &ResponseItem, kind: &str) -> (r: bool)
    ensures
        r == (opt_view(item.kind) == Some(kind@)),
{
    match &item.kind {
        Some(k) => crate::text::str_eq(k.as_str(), kind),
        None => false,
    }
}

fn message_text_exec(items: &Vec<ResponseItem>) -> (r: String)
    ensures
        r@ == message_text(items_view(items@)),
{
    let mut r = String::new();
    let mut i: usize = 0;
    while i < items.len()
        invariant
            i <= items.len(),
            r@ == message_text(items_view(items@.take(i as int))),
        decreases items.len() - i,
    {
        proof {
            assert(items_view(items@.take(i + 1)).drop_last() =~= items_view(items@.take(i as int)));
            assert(items_view(items@.take(i + 1)).last() == item_view(items@[i as int]));
        }
        if kind_is(&items[i], "message") {
            let t = parts_text_exec(&items[i].content, true);
            r.append(t.as_str());
        }
        i += 1;
    }
    assert(items@.take(items.len() as int) =~= items@);
    r
}

fn summary_text_exec(items: &Vec<ResponseItem>) -> (r: String)
    ensures
        r@ == summary_text(items_view(items@)),
{
    let mut r = String::new();
    let mut i: usize = 0;
    while i < items.len()
        invariant
            i <= items.len(),
            r@ == summary_text(items_view(items@.take(i as int))),
        decreases items.len() - i,
    {
        proof {
            assert(items_view(items@.take(i + 1)).drop_last() =~= items_view(items@.take(i as int)));
            assert(items_view(items@.take(i + 1)).last() == item_view(items@[i as int]));
        }
        if kind_is(&items[i], "reasoning") {
            let t = parts_text_exec(&items[i].summary, false);
            r.append(t.as_str());
        }
        i += 1;
    }
    assert(items@.take(items.len() as int) =~= items@);
    r
}

fn call_of_exec(item: &ResponseItem) -> (r: Result<ToolCall, String>)
    ensures
        match call_of(item_view(*item)) {
            Ok(c) => r matches Ok(t) && t.id@ == c.0 && t.name@ == c.1 && t.arguments@ == c.2,
            Err(m) => r matches Err(e) && e@ == m,
        },
{
    let id = match &item.call_id {
        Some(c) => Some(c),
        None => match &item.id {
            Some(i) => Some(i),
            None => None,
        },
    };
    let id = match id {
        Some(i) => {
            if i.as_str().is_empty() {
                return Err(owned("Responses function call is missing call_id"));
            }
            i
        },
        None => return Err(owned("Responses function call is missing call_id")),
    };
    let name = match &item.name {
        Some(n) => {
            if n.as_str().is_empty() {
                let mut m = owned("Responses function call ");
                m.append(id.as_str());
                m.append(" is missing a name");
                return Err(m);
            }
            n
        },
        None => {
            let mut m = owned("Responses function call ");
            m.append(id.as_str());
            m.append(" is missing a name");
            return Err(m);
        },
    };
    let raw = match &item.arguments {
        Some(a) => a.clone(),
        None => String::new(),
    };
    let chars = char_vec(raw.as_str());
    let (from, to) = trim_bounds(&chars);
    if from == to {
        return Ok(ToolCall { id: id.clone(), name: name.clone(), arguments: owned("{}") });
    }
    match json_parse_error(raw.as_str()) {
        Some(e) => {
            let mut m = owned("Responses function call '");
            m.append(name.as_str());
            m.append("' has unparseable arguments: ");
            m.append(e.as_str());
            m.append(": ");
            m.append(raw.as_str());
            Err(m)
        },
        None => Ok(ToolCall { id: id.clone(), name: name.clone(), arguments: raw }),
    }
}

fn calls_exec(items: &Vec<ResponseItem>) -> (r: Result<Vec<ToolCall>, String>)
    ensures
        match calls_from(items_view(items@), 0) {
            Ok(cs) => r matches Ok(ts) && ts@.len() == cs.len() && forall|k: int| 0 <= k < cs.len() ==> {
                &&& (#[trigger] ts@[k]).id@ == cs[k].0
                &&& ts@[k].name@ == cs[k].1
                &&& ts@[k].arguments@ == cs[k].2
            },
            Err(m) => r matches Err(e) && e@ == m,
        },
{
    let ghost view = items_view(items@);
    let mut out: Vec<ToolCall> = Vec::new();
    let mut i: usize = 0;
    while i < items.len()
        invariant
            i <= items.len(),
            view == items_view(items@),
            calls_from(view, 0) == match calls_from(view, i as int) {
                Err(m) => Err(m),
                Ok(rest) => Ok(calls_seen(out@) + rest),
            },
        decreases items.len() - i,
    {
        if kind_is(&items[i], "function_call") {
            match call_of_exec(&items[i]) {
                Err(m) => {
                    return Err(m);
                },
                Ok(t) => {
                    proof {
                        let c = call_of(view[i as int])->Ok_0;
                        assert(calls_seen(out@.push(t)) =~= calls_seen(out@) + seq![c]);
                        match calls_from(view, i + 1) {
                            Ok(rest) => {
                                assert(calls_seen(out@) + seq![c] + rest =~= calls_seen(out@) + (seq![c] + rest));
                            },
                            Err(m) => {},
                        }
                    }
                    out.push(t);
                },
            }
        }
        i += 1;
    }
    proof {
        assert(calls_seen(out@) + Seq::<(Seq<char>, Seq<char>, Seq<char>)>::empty() =~= calls_seen(out@));
    }
    Ok(out)
}

/// The tool calls collected so far, as views.
pub open spec fn calls_seen(ts: Seq<ToolCall>) -> Seq<(Seq<char>, Seq<char>, Seq<char>)> {
    ts.map_values(|t: ToolCall| (t.id@, t.name@, t.arguments@))
}

impl ResponsesStream {
    /// The turn the stream assembled. The answer text is what streamed, or
    /// else the text the output items carry (then forwarded once as a
    /// delta); likewise the reasoning summary. A completed response's
    /// function calls become tool calls; an incomplete one is an error
    /// unless the token limit cut it (then it finishes for length).
    #[verifier::spinoff_prover]
    pub fn finish(self) -> (r: ResponsesOutcome)
        ensures
            match self.terminal {
                None => r.deltas@.len() == 0 && (r.result matches Err(ProviderError::Protocol(m))
                    && m@ == "Responses stream ended without a terminal event"@),
                Some(t) => {
                    let env = match t {
                        Terminal::Completed(e) => e,
                        Terminal::Incomplete(e) => e,
                    };
                    let stop = t is Completed;
                    if !stop && !token_limit_reason(incomplete_reason_text(env)) {
                        r.deltas@.len() == 0 && (r.result matches Err(ProviderError::Protocol(m))
                            && m@ == "Responses request was incomplete: "@ + incomplete_reason_text(env))
                    } else {
                        let out = if env.output@.len() > 0 { items_view(env.output@) } else { items_view(in_index_order(self.items@)) };
                        let final_text = message_text(out);
                        let final_reasoning = summary_text(out);
                        let show_text = self.streamed_text@.len() == 0 && final_text.len() > 0;
                        let show_reasoning = self.streamed_reasoning@.len() == 0 && final_reasoning.len() > 0;
                        &&& r.deltas@.len() == (if show_text { 1int } else { 0 }) + (if show_reasoning { 1int } else { 0 })
                        &&& show_text ==> (r.deltas@[0] matches StreamDelta::Text(d) && d@ == final_text)
                        &&& show_reasoning ==> (r.deltas@.last() matches StreamDelta::ReasoningSummary(d) && d@ == final_reasoning)
                        &&& match (if stop { calls_from(out, 0) } else { Ok(Seq::empty()) }) {
                            Err(m) => r.result matches Err(ProviderError::Protocol(e)) && e@ == m,
                            Ok(cs) => r.result matches Ok(turn) && {
                                &&& turn.text@ == (if self.streamed_text@.len() == 0 { final_text } else { self.streamed_text@ })
                                &&& turn.reasoning_summary@ == (if self.streamed_reasoning@.len() == 0 { final_reasoning } else { self.streamed_reasoning@ })
                                &&& turn.tool_calls@.len() == cs.len()
                                &&& forall|k: int| 0 <= k < cs.len() ==> {
                                    &&& (#[trigger] turn.tool_calls@[k]).id@ == cs[k].0
                                    &&& turn.tool_calls@[k].name@ == cs[k].1
                                    &&& turn.tool_calls@[k].arguments@ == cs[k].2
                                }
                                &&& turn.finish == (if cs.len() > 0 { FinishReason::ToolCalls } else if stop { FinishReason::Stop } else { FinishReason::Length })
                                &&& turn.usage == env.usage
                                &&& turn.from_envelope == (env.output@.len() > 0)
                            },
                        }
                    }
                },
            },
    {
        let terminal = match self.terminal {
            Some(t) => t,
            None => {
                return ResponsesOutcome {
                    deltas: Vec::new(),
                    result: Err(ProviderError::Protocol(owned("Responses stream ended without a terminal event"))),
                };
            },
        };
        let stop = match &terminal {
            Terminal::Completed(_) => true,
            Terminal::Incomplete(_) => false,
        };
        let env = match terminal {
            Terminal::Completed(e) => e,
            Terminal::Incomplete(e) => e,
        };
        if !stop {
            let reason = match &env.incomplete_reason {
                Some(r) => r.clone(),
                None => owned("unknown"),
            };
            if !(crate::text::str_eq(reason.as_str(), "max_output_tokens") || crate::text::str_eq(reason.as_str(), "max_tokens")) {
                let mut m = owned("Responses request was incomplete: ");
                m.append(reason.as_str());
                return ResponsesOutcome { deltas: Vec::new(), result: Err(ProviderError::Protocol(m)) };
            }
        }
        let from_envelope = env.output.len() > 0;
        let out = if from_envelope { env.output } else { into_index_order(self.items) };
        let final_text = message_text_exec(&out);
        let final_reasoning = summary_text_exec(&out);
        let mut deltas: Vec<StreamDelta> = Vec::new();
        let text = if self.streamed_text.as_str().is_empty() {
            if !final_text.as_str().is_empty() {
                deltas.push(StreamDelta::Text(final_text.clone()));
            }
            final_text
        } else {
            self.streamed_text
        };
        let reasoning_summary = if self.streamed_reasoning.as_str().is_empty() {
            if !final_reasoning.as_str().is_empty() {
                deltas.push(StreamDelta::ReasoningSummary(final_reasoning.clone()));
            }
            final_reasoning
        } else {
            self.streamed_reasoning
        };
        let tool_calls = if stop {
            match calls_exec(&out) {
                Ok(cs) => cs,
                Err(m) => {
                    return ResponsesOutcome { deltas, result: Err(ProviderError::Protocol(m)) };
                },
            }
        } else {
            Vec::new()
        };
        let finish = if tool_calls.len() > 0 {
            FinishReason::ToolCalls
        } else if stop {
            FinishReason::Stop
        } else {
            FinishReason::Length
        };
        ResponsesOutcome {
            deltas,
            result: Ok(ResponsesTurn {
                text,
                reasoning_summary,
                tool_calls,
                finish,
                usage: env.usage,
                from_envelope,
            }),
        }
    }
}

/// The ids of `calls`, as a set.
pub open spec fn call_id_set(calls: Seq<ToolCall>) -> Set<Seq<char>> {
    Set::new(|x: Seq<char>| exists|j: int| 0 <= j < calls.len() && (#[trigger] calls[j]).id@ == x)
}

/// `ids` as a set.
pub open spec fn id_set(ids: Seq<String>) -> Set<Seq<char>> {
    Set::new(|x: Seq<char>| exists|j: int| 0 <= j < ids.len() && (#[trigger] ids[j])@ == x)
}

/// Whether `m` is the tool result of the call `x`.
pub open spec fn answers(m: Message, x: Seq<char>) -> bool {
    match m {
        Message::ToolResult { call_id, .. } => call_id@ == x,
        _ => false,
    }
}

/// Whether `m` is a tool result answering one of `ids`.
pub open spec fn answers_one_of(m: Message, ids: Seq<String>) -> bool {
    match m {
        Message::ToolResult { call_id, .. } => id_set(ids).contains(call_id@),
        _ => false,
    }
}

/// The call ids of the tool results after position `n`.
pub open spec fn result_ids_after(ms: Seq<Message>, n: int) -> Set<Seq<char>> {
    Set::new(|x: Seq<char>| exists|j: int| n < j < ms.len() && answers(#[trigger] ms[j], x))
}

/// Whether the recorded tool round can be replayed exactly: the message
/// at `n` (where the agent appended the assistant turn) calls exactly the
/// recorded ids, and every recorded id has its tool result after it.
pub open spec fn replay_fits(n: int, call_ids: Seq<String>, ms: Seq<Message>) -> bool {
    &&& 0 <= n < ms.len()
    &&& (ms[n] matches Message::Assistant { tool_calls, .. } && call_id_set(tool_calls@) == id_set(call_ids))
    &&& id_set(call_ids).subset_of(result_ids_after(ms, n))
}

fn calls_have_id(calls: &Vec<ToolCall>, id: &String) -> (r: bool)
    ensures
        r == call_id_set(calls@).contains(id@),
{
    let mut j: usize = 0;
    while j < calls.len()
        invariant
            j <= calls.len(),
            forall|k: int| 0 <= k < j ==> (#[trigger] calls@[k]).id@ != id@,
        decreases calls.len() - j,
    {
        if calls[j].id == *id {
            assert(calls@[j as int].id@ == id@);
            return true;
        }
        j += 1;
    }
    false
}

fn ids_have(ids: &Vec<String>, id: &String) -> (r: bool)
    ensures
        r == id_set(ids@).contains(id@),
{
    let mut j: usize = 0;
    while j < ids.len()
        invariant
            j <= ids.len(),
            forall|k: int| 0 <= k < j ==> (#[trigger] ids@[k])@ != id@,
        decreases ids.len() - j,
    {
        if ids[j] == *id {
            assert(ids@[j as int]@ == id@);
            return true;
        }
        j += 1;
    }
    false
}

fn result_after(messages: &Vec<Message>, n: usize, id: &String) -> (r: bool)
    ensures
        r == result_ids_after(messages@, n as int).contains(id@),
{
    let mut j: usize = n;
    while j < messages.len()
        invariant
            n <= j,
            j <= messages.len() || j == n,
            forall|k: int| n < k < j && k < messages@.len() ==> !answers(#[trigger] messages@[k], id@),
        decreases messages.len() - j,
    {
        if j > n {
            match &messages[j] {
                Message::ToolResult { call_id, .. } => {
                    if *call_id == *id {
                        assert(answers(messages@[j as int], id@));
                        return true;
                    }
                },
                _ => {},
            }
        }
        j += 1;
    }
    false
}

/// Whether the recorded tool round (`call_ids`, answered by the assistant
/// turn at `request_message_count`) can be replayed exactly onto
/// `messages`.
#[verifier::spinoff_prover]
pub fn replay_matches(request_message_count: usize, call_ids: &Vec<String>, messages: &Vec<Message>) -> (r: bool)
    ensures
        r == replay_fits(request_message_count as int, call_ids@, messages@),
{
    if request_message_count >= messages.len() {
        return false;
    }
    let tool_calls = match &messages[request_message_count] {
        Message::Assistant { tool_calls, .. } => tool_calls,
        _ => {
            return false;
        },
    };
    let ghost a = call_id_set(tool_calls@);
    let ghost c = id_set(call_ids@);
    let ghost res = result_ids_after(messages@, request_message_count as int);
    let mut i: usize = 0;
    while i < call_ids.len()
        invariant
            i <= call_ids.len(),
            a == call_id_set(tool_calls@),
            c == id_set(call_ids@),
            res == result_ids_after(messages@, request_message_count as int),
            request_message_count < messages@.len(),
            messages@[request_message_count as int] is Assistant,
            messages@[request_message_count as int]->Assistant_tool_calls == *tool_calls,
            forall|k: int| 0 <= k < i ==> a.contains((#[trigger] call_ids@[k])@) && res.contains(call_ids@[k]@),
        decreases call_ids.len() - i,
    {
        if !calls_have_id(tool_calls, &call_ids[i]) {
            proof {
                let x = call_ids@[i as int]@;
                assert(c.contains(x)) by {
                    assert(0 <= i < call_ids@.len() && call_ids@[i as int]@ == x);
                }
                assert(!a.contains(x));
                assert(a != c);
            }
            return false;
        }
        if !result_after(messages, request_message_count, &call_ids[i]) {
            proof {
                let x = call_ids@[i as int]@;
                assert(c.contains(x)) by {
                    assert(0 <= i < call_ids@.len() && call_ids@[i as int]@ == x);
                }
                assert(!res.contains(x));
                assert(!c.subset_of(res));
            }
            return false;
        }
        i += 1;
    }
    let mut j: usize = 0;
    while j < tool_calls.len()
        invariant
            j <= tool_calls.len(),
            a == call_id_set(tool_calls@),
            c == id_set(call_ids@),
            request_message_count < messages@.len(),
            messages@[request_message_count as int] is Assistant,
            messages@[request_message_count as int]->Assistant_tool_calls == *tool_calls,
            forall|k: int| 0 <= k < j ==> c.contains((#[trigger] tool_calls@[k]).id@),
        decreases tool_calls.len() - j,
    {
        if !ids_have(call_ids, &tool_calls[j].id) {
            proof {
                let x = tool_calls@[j as int].id@;
                assert(a.contains(x)) by {
                    assert(0 <= j < tool_calls@.len() && tool_calls@[j as int].id@ == x);
                }
                assert(!c.contains(x));
                assert(a != c);
            }
            return false;
        }
        j += 1;
    }
    proof {
        assert(a =~= c);
        assert(c.subset_of(res));
    }
    true
}

/// The tool results after position `n` that answer a recorded call, in
/// order: what a replay sends after the recorded output.
pub open spec fn replayed_outputs(n: int, call_ids: Seq<String>, ms: Seq<Message>, upto: int) -> Seq<usize>
    decreases upto - n,
{
    if upto <= n + 1 || upto > ms.len() {
        Seq::empty()
    } else {
        replayed_outputs(n, call_ids, ms, upto - 1) + if answers_one_of(ms[upto - 1], call_ids) {
            seq![(upto - 1) as usize]
        } else {
            Seq::empty()
        }
    }
}

/// The positions of the tool results after `request_message_count` that
/// answer a recorded call, in order.
#[verifier::spinoff_prover]
pub fn replay_output_positions(request_message_count: usize, call_ids: &Vec<String>, messages: &Vec<Message>) -> (r: Vec<usize>)
    ensures
        r@ == replayed_outputs(request_message_count as int, call_ids@, messages@, messages@.len() as int),
{
    let mut r: Vec<usize> = Vec::new();
    if request_message_count >= messages.len() {
        return r;
    }
    let mut j: usize = request_message_count + 1;
    while j < messages.len()
        invariant
            request_message_count < messages@.len(),
            request_message_count + 1 <= j <= messages@.len(),
            r@ == replayed_outputs(request_message_count as int, call_ids@, messages@, j as int),
        decreases messages.len() - j,
    {
        match &messages[j] {
            Message::ToolResult { call_id, .. } => {
                if ids_have(call_ids, call_id) {
                    r.push(j);
                }
            },
            _ => {},
        }
        j += 1;
    }
    r
}

/// The system messages' contents of `ms`, in order.
pub open spec fn system_texts(ms: Seq<Message>) -> Seq<Seq<char>>
    decreases ms.len(),
{
    if ms.len() == 0 {
        Seq::empty()
    } else {
        system_texts(ms.drop_last()) + match ms.last() {
            Message::System { content } => seq![content@],
            _ => Seq::empty(),
        }
    }
}

/// The Responses `instructions`: every system message, joined by blank
/// lines.
pub fn responses_instructions(messages: &Vec<Message>) -> (r: String)
    ensures
        r@ == crate::text::join(system_texts(messages@), "\n\n"@),
{
    let mut texts: Vec<String> = Vec::new();
    let mut i: usize = 0;
    while i < messages.len()
        invariant
            i <= messages.len(),
            crate::text::views(texts@) == system_texts(messages@.take(i as int)),
        decreases messages.len() - i,
    {
        proof {
            assert(messages@.take(i + 1).drop_last() =~= messages@.take(i as int));
        }
        match &messages[i] {
            Message::System { content } => {
                let c = content.clone();
                proof {
                    assert(crate::text::views(texts@.push(c)) =~= crate::text::views(texts@).push(c@));
                }
                texts.push(c);
            },
            _ => {},
        }
        i += 1;
    }
    assert(messages@.take(messages.len() as int) =~= messages@);
    let mut r = String::new();
    crate::text::push_joined(&mut r, &texts, "\n\n");
    r
}

/// One input item of a Responses request.
#[derive(Debug, Clone, Copy, PartialEq, Eq, Structural)]
pub enum InputStep {
    /// The user message `messages[i]` (text, then its images).
    User(usize),
    /// The text of the assistant message `messages[i]`.
    AssistantText(usize),
    /// Tool call `j` of the assistant message `messages[i]`.
    FunctionCall(usize, usize),
    /// The output of the tool result `messages[i]`.
    ToolOutput(usize),
}

/// The input items one message becomes: none for a system message (it
/// goes to the instructions); an assistant message's text only when
/// non-empty, then its calls.
pub open spec fn message_steps(m: Message, i: int) -> Seq<InputStep> {
    match m {
        Message::System { .. } => Seq::empty(),
        Message::User { .. } => seq![InputStep::User(i as usize)],
        Message::Assistant { content, tool_calls } =>
            (if content@.len() > 0 { seq![InputStep::AssistantText(i as usize)] } else { Seq::empty() })
            + Seq::new(tool_calls@.len(), |j: int| InputStep::FunctionCall(i as usize, j as usize)),
        Message::ToolResult { .. } => seq![InputStep::ToolOutput(i as usize)],
    }
}

/// The input items of `ms[..n]`, in order.
pub open spec fn input_plan(ms: Seq<Message>, n: int) -> Seq<InputStep>
    decreases n,
{
    if n <= 0 || n > ms.len() {
        Seq::empty()
    } else {
        input_plan(ms, n - 1) + message_steps(ms[n - 1], n - 1)
    }
}

/// The Responses input items of `messages[..count]`, as steps.
#[verifier::spinoff_prover]
pub fn plan_responses_input(messages: &Vec<Message>, count: usize) -> (r: Vec<InputStep>)
    requires
        count <= messages@.len(),
    ensures
        r@ == input_plan(messages@, count as int),
{
    let mut r: Vec<InputStep> = Vec::new();
    let mut i: usize = 0;
    while i < count
        invariant
            i <= count <= messages@.len(),
            r@ == input_plan(messages@, i as int),
        decreases count - i,
    {
        let ghost before = r@;
        match &messages[i] {
            Message::System { .. } => {},
            Message::User { .. } => {
                r.push(InputStep::User(i));
            },
            Message::Assistant { content, tool_calls } => {
                if !content.as_str().is_empty() {
                    r.push(InputStep::AssistantText(i));
                }
                let ghost mid = r@;
                let mut j: usize = 0;
                while j < tool_calls.len()
                    invariant
                        j <= tool_calls@.len(),
                        r@ == mid + Seq::new(j as nat, |k: int| InputStep::FunctionCall(i, k as usize)),
                    decreases tool_calls@.len() - j,
                {
                    r.push(InputStep::FunctionCall(i, j));
                    proof {
                        assert(r@ =~= mid + Seq::new((j + 1) as nat, |k: int| InputStep::FunctionCall(i, k as usize)));
                    }
                    j += 1;
                }
            },
            Message::ToolResult { .. } => {
                r.push(InputStep::ToolOutput(i));
            },
        }
        proof {
            assert(r@ =~= before + message_steps(messages@[i as int], i as int));
        }
        i += 1;
    }
    r
}

/// A tool output's text when it carries images: the content, then the
/// image labels.
pub open spec fn attached_output_text(content: Seq<char>, images: Seq<ImagePart>) -> Seq<char> {
    content + "\n[attachments: "@ + crate::text::join(images.map_values(|i: ImagePart| i.label@), ", "@) + "]"@
}

/// A tool output's text when it carries images.
pub fn tool_output_with_attachments(content: &str, images: &Vec<ImagePart>) -> (r: String)
    ensures
        r@ == attached_output_text(content@, images@),
{
    let mut labels: Vec<String> = Vec::new();
    let mut k: usize = 0;
    while k < images.len()
        invariant
            k <= images.len(),
            crate::text::views(labels@) =~= images@.take(k as int).map_values(|i: ImagePart| i.label@),
        decreases images.len() - k,
    {
        let l = images[k].label.clone();
        proof {
            assert(crate::text::views(labels@.push(l)) =~= crate::text::views(labels@).push(l@));
            assert(images@.take(k + 1).map_values(|i: ImagePart| i.label@)
                =~= images@.take(k as int).map_values(|i: ImagePart| i.label@).push(images@[k as int].label@));
        }
        labels.push(l);
        k += 1;
    }
    assert(images@.take(images.len() as int) =~= images@);
    let mut r = owned(content);
    r.append("\n[attachments: ");
    crate::text::push_joined(&mut r, &labels, ", ");
    r.append("]");
    r
}

/// An image as a Responses input part.
pub open spec fn input_image_json(image: ImagePart) -> JsonView {
    JsonView::Object(seq![
        ("type"@, JsonView::Str("input_image"@)),
        ("image_url"@, JsonView::Str(data_url(image))),
        ("detail"@, JsonView::Str("auto"@)),
    ])
}

/// Text as a Responses input part.
pub open spec fn input_text_json(text: Seq<char>) -> JsonView {
    JsonView::Object(seq![("type"@, JsonView::Str("input_text"@)), ("text"@, JsonView::Str(text))])
}

/// Text followed by images, as Responses input parts.
pub open spec fn input_parts_json(text: Seq<char>, images: Seq<ImagePart>) -> JsonView {
    JsonView::Array(seq![input_text_json(text)] + images.map_values(|i: ImagePart| input_image_json(i)))
}

/// A tool result as a `function_call_output` item: its text alone, or,
/// when it carries images, its text with their labels and then the
/// images.
pub open spec fn tool_output_json(m: Message) -> JsonView {
    match m {
        Message::ToolResult { call_id, content, images } => JsonView::Object(seq![
            ("type"@, JsonView::Str("function_call_output"@)),
            ("call_id"@, JsonView::Str(call_id@)),
            ("output"@, if images@.len() == 0 {
                JsonView::Str(content@)
            } else {
                input_parts_json(attached_output_text(content@, images@), images@)
            }),
        ]),
        _ => JsonView::Null,
    }
}

/// One planned input item.
pub open spec fn input_step_json(ms: Seq<Message>, step: InputStep) -> JsonView {
    match step {
        InputStep::User(i) => if i < ms.len() && ms[i as int] is User {
            JsonView::Object(seq![
                ("role"@, JsonView::Str("user"@)),
                ("content"@, input_parts_json(ms[i as int]->User_content@, ms[i as int]->User_images@)),
            ])
        } else {
            JsonView::Null
        },
        InputStep::AssistantText(i) => if i < ms.len() && ms[i as int] is Assistant {
            JsonView::Object(seq![
                ("role"@, JsonView::Str("assistant"@)),
                ("content"@, JsonView::Array(seq![JsonView::Object(seq![
                    ("type"@, JsonView::Str("output_text"@)),
                    ("text"@, JsonView::Str(ms[i as int]->Assistant_content@)),
                ])])),
            ])
        } else {
            JsonView::Null
        },
        InputStep::FunctionCall(i, j) => if i < ms.len() && ms[i as int] is Assistant
            && j < ms[i as int]->Assistant_tool_calls@.len() {
            JsonView::Object(seq![
                ("type"@, JsonView::Str("function_call"@)),
                ("call_id"@, JsonView::Str(ms[i as int]->Assistant_tool_calls@[j as int].id@)),
                ("name"@, JsonView::Str(ms[i as int]->Assistant_tool_calls@[j as int].name@)),
                ("arguments"@, JsonView::Str(ms[i as int]->Assistant_tool_calls@[j as int].arguments@)),
            ])
        } else {
            JsonView::Null
        },
        InputStep::ToolOutput(i) => if i < ms.len() { tool_output_json(ms[i as int]) } else { JsonView::Null },
    }
}

/// The Responses `input` items for `ms[..n]`.
pub open spec fn responses_input_json(ms: Seq<Message>, n: int) -> Seq<JsonView> {
    input_plan(ms, n).map_values(|step: InputStep| input_step_json(ms, step))
}

fn input_image(image: &ImagePart) -> (r: Json)
    ensures
        jview(r) == input_image_json(*image),
{
    let url = image_data_url(image);
    json_object3("type", json_str("input_image"), "image_url", json_str(url.as_str()), "detail", json_str("auto"))
}

fn input_parts(text: &str, images: &Vec<ImagePart>) -> (r: Json)
    ensures
        jview(r) == input_parts_json(text@, images@),
{
    let mut parts: Vec<Json> = Vec::new();
    let first = json_object2("type", json_str("input_text"), "text", json_str(text));
    let ghost g = jview(first);
    parts.push(first);
    proof {
        assert(values_view(parts@) =~= seq![g]);
    }
    let mut k: usize = 0;
    while k < images.len()
        invariant
            k <= images.len(),
            values_view(parts@) =~= seq![g] + images@.take(k as int).map_values(|i: ImagePart| input_image_json(i)),
        decreases images.len() - k,
    {
        let part = input_image(&images[k]);
        proof {
            assert(values_view(parts@.push(part)) =~= values_view(parts@).push(jview(part)));
            assert(images@.take(k + 1).map_values(|i: ImagePart| input_image_json(i))
                =~= images@.take(k as int).map_values(|i: ImagePart| input_image_json(i)).push(input_image_json(images@[k as int])));
        }
        parts.push(part);
        k += 1;
    }
    assert(images@.take(images.len() as int) =~= images@);
    json_array(parts)
}

/// A tool result as a `function_call_output` input item (`Null` for any
/// other message).
pub fn tool_output_input(m: &Message) -> (r: Json)
    ensures
        jview(r) == tool_output_json(*m),
{
    match m {
        Message::ToolResult { call_id, content, images } => {
            let output = if images.len() == 0 {
                json_str(content.as_str())
            } else {
                let text = tool_output_with_attachments(content.as_str(), images);
                input_parts(text.as_str(), images)
            };
            json_object3("type", json_str("function_call_output"), "call_id", json_str(call_id.as_str()), "output", output)
        },
        _ => Json::Null,
    }
}

fn input_step(messages: &Vec<Message>, step: InputStep) -> (r: Json)
    ensures
        jview(r) == input_step_json(messages@, step),
{
    match step {
        InputStep::User(i) => {
            if i < messages.len() {
                match &messages[i] {
                    Message::User { content, images } => json_object2(
                        "role", json_str("user"),
                        "content", input_parts(content.as_str(), images),
                    ),
                    _ => Json::Null,
                }
            } else {
                Json::Null
            }
        },
        InputStep::AssistantText(i) => {
            if i < messages.len() {
                match &messages[i] {
                    Message::Assistant { content, .. } => {
                        let part = json_object2("type", json_str("output_text"), "text", json_str(content.as_str()));
                        let ghost g = jview(part);
                        let mut parts: Vec<Json> = Vec::new();
                        parts.push(part);
                        proof {
                            assert(values_view(parts@) =~= seq![g]);
                        }
                        json_object2("role", json_str("assistant"), "content", json_array(parts))
                    },
                    _ => Json::Null,
                }
            } else {
                Json::Null
            }
        },
        InputStep::FunctionCall(i, j) => {
            if i < messages.len() {
                match &messages[i] {
                    Message::Assistant { tool_calls, .. } => {
                        if j < tool_calls.len() {
                            let c = &tool_calls[j];
                            json_object4(
                                "type", json_str("function_call"),
                                "call_id", json_str(c.id.as_str()),
                                "name", json_str(c.name.as_str()),
                                "arguments", json_str(c.arguments.as_str()),
                            )
                        } else {
                            Json::Null
                        }
                    },
                    _ => Json::Null,
                }
            } else {
                Json::Null
            }
        },
        InputStep::ToolOutput(i) => if i < messages.len() { tool_output_input(&messages[i]) } else { Json::Null },
    }
}

/// The Responses `input` items for `messages[..count]`, one value per
/// planned step.
#[verifier::spinoff_prover]
pub fn responses_input(messages: &Vec<Message>, count: usize) -> (r: Vec<Json>)
    requires
        count <= messages@.len(),
    ensures
        values_view(r@) == responses_input_json(messages@, count as int),
{
    let plan = plan_responses_input(messages, count);
    let mut r: Vec<Json> = Vec::new();
    let mut k: usize = 0;
    while k < plan.len()
        invariant
            k <= plan.len(),
            plan@ == input_plan(messages@, count as int),
            values_view(r@) =~= plan@.take(k as int).map_values(|step: InputStep| input_step_json(messages@, step)),
        decreases plan.len() - k,
    {
        let one = input_step(messages, plan[k]);
        proof {
            assert(values_view(r@.push(one)) =~= values_view(r@).push(jview(one)));
            assert(plan@.take(k + 1).map_values(|step: InputStep| input_step_json(messages@, step))
                =~= plan@.take(k as int).map_values(|step: InputStep| input_step_json(messages@, step)).push(input_step_json(messages@, plan@[k as int])));
        }
        r.push(one);
        k += 1;
    }
    assert(plan@.take(plan.len() as int) =~= plan@);
    r
}

/// What a Responses conversation replays of the provider's own output
/// items while the model works through tool rounds.
pub struct ReplayState {
    /// Messages through the user prompt and the text history before it.
    pub base_message_count: usize,
    /// Messages present before the response that produced the latest output.
    pub request_message_count: usize,
    /// The exact output and tool-output items since that user message,
    /// encrypted reasoning included.
    pub continuation: Vec<Json>,
    /// The calls the latest output made.
    pub call_ids: Vec<String>,
}

/// Whether `state` replays for a request of `ms`: the request continues the
/// exact conversation that produced the state's latest output.
pub open spec fn replay_applies(state: Option<ReplayState>, ms: Seq<Message>) -> bool {
    state matches Some(st) && st.base_message_count <= st.request_message_count
        && replay_fits(st.request_message_count as int, st.call_ids@, ms)
}

/// The tool outputs answering the state's calls, as input items.
pub open spec fn replayed_output_items(st: ReplayState, ms: Seq<Message>) -> Seq<JsonView> {
    replayed_outputs(st.request_message_count as int, st.call_ids@, ms, ms.len() as int)
        .map_values(|i: usize| tool_output_json(ms[i as int]))
}

/// The `input` of a request for `ms`: when the state replays, the history
/// up to the user prompt, the exact items since, and the tool outputs that
/// answer the latest calls; otherwise the plain history, with nothing of
/// an unrelated conversation.
pub open spec fn request_input_json(state: Option<ReplayState>, ms: Seq<Message>) -> Seq<JsonView> {
    if replay_applies(state, ms) {
        let st = state->0;
        responses_input_json(ms, st.base_message_count as int) + values_view(st.continuation@)
            + replayed_output_items(st, ms)
    } else {
        responses_input_json(ms, ms.len() as int)
    }
}

fn replayed_output_values(st: &ReplayState, messages: &Vec<Message>, into: &mut Vec<Json>)
    ensures
        values_view(final(into)@) == values_view(old(into)@) + replayed_output_items(*st, messages@),
{
    let positions = replay_output_positions(st.request_message_count, &st.call_ids, messages);
    let ghost start = values_view(into@);
    let ghost ps = positions@;
    let mut k: usize = 0;
    while k < positions.len()
        invariant
            k <= ps.len(),
            ps == positions@,
            ps == replayed_outputs(st.request_message_count as int, st.call_ids@, messages@, messages@.len() as int),
            values_view(into@) =~= start + ps.take(k as int).map_values(|i: usize| tool_output_json(messages@[i as int])),
        decreases ps.len() - k,
    {
        let i = positions[k];
        let one = if i < messages.len() { tool_output_input(&messages[i]) } else { Json::Null };
        proof {
            lemma_replayed_in_range(st.request_message_count as int, st.call_ids@, messages@, messages@.len() as int);
            assert(ps.take(k + 1).map_values(|i: usize| tool_output_json(messages@[i as int]))
                =~= ps.take(k as int).map_values(|i: usize| tool_output_json(messages@[i as int])).push(tool_output_json(messages@[i as int])));
        }
        push_value(into, one);
        k += 1;
    }
    assert(ps.take(ps.len() as int) =~= ps);
}

proof fn lemma_replayed_in_range(n: int, call_ids: Seq<String>, ms: Seq<Message>, upto: int)
    requires
        n >= 0,
    ensures
        forall|k: int| 0 <= k < replayed_outputs(n, call_ids, ms, upto).len()
            ==> (#[trigger] replayed_outputs(n, call_ids, ms, upto)[k]) < ms.len(),
    decreases upto - n,
{
    if !(upto <= n + 1 || upto > ms.len()) {
        lemma_replayed_in_range(n, call_ids, ms, upto - 1);
        let before = replayed_outputs(n, call_ids, ms, upto - 1);
        assert forall|k: int| 0 <= k < replayed_outputs(n, call_ids, ms, upto).len()
            implies (#[trigger] replayed_outputs(n, call_ids, ms, upto)[k]) < ms.len() by {
            if k < before.len() {
                assert(replayed_outputs(n, call_ids, ms, upto)[k] == before[k]);
            } else {
                assert(replayed_outputs(n, call_ids, ms, upto)[k] == (upto - 1) as usize);
            }
        }
    }
}

fn copy_values(items: &Vec<Json>, into: &mut Vec<Json>)
    ensures
        values_view(final(into)@) == values_view(old(into)@) + values_view(items@),
{
    let ghost start = values_view(into@);
    let mut k: usize = 0;
    while k < items.len()
        invariant
            k <= items@.len(),
            values_view(into@) =~= start + values_view(items@).take(k as int),
        decreases items@.len() - k,
    {
        let one = json_clone(&items[k]);
        push_value(into, one);
        k += 1;
    }
    assert(values_view(items@).take(items@.len() as int) =~= values_view(items@));
}

fn replay_applies_now(state: &Option<ReplayState>, messages: &Vec<Message>) -> (r: bool)
    ensures
        r == replay_applies(*state, messages@),
{
    match state {
        Some(st) => st.base_message_count <= st.request_message_count
            && replay_matches(st.request_message_count, &st.call_ids, messages),
        None => false,
    }
}

/// The `input` items of a request for `messages` under `state`.
#[verifier::spinoff_prover]
pub fn request_input(state: &Option<ReplayState>, messages: &Vec<Message>) -> (r: Vec<Json>)
    ensures
        values_view(r@) == request_input_json(*state, messages@),
{
    if replay_applies_now(state, messages) {
        match state {
            Some(st) => {
                let mut input = responses_input(messages, st.base_message_count);
                copy_values(&st.continuation, &mut input);
                replayed_output_values(st, messages, &mut input);
                input
            },
            None => Vec::new(),
        }
    } else {
        responses_input(messages, messages.len())
    }
}

/// The replay state after a response to a request of `ms`: kept only when
/// the response made tool calls; its base and items carry over when the
/// request continued the state's conversation, and the response's own
/// output items join them.
pub open spec fn next_replay(
    state: Option<ReplayState>,
    ms: Seq<Message>,
    made_calls: bool,
    call_ids: Seq<String>,
    output: Seq<JsonView>,
) -> Option<(usize, usize, Seq<JsonView>, Seq<Seq<char>>)> {
    if !made_calls {
        None
    } else if replay_applies(state, ms) {
        let st = state->0;
        Some((st.base_message_count, ms.len() as usize,
            values_view(st.continuation@) + replayed_output_items(st, ms) + output,
            call_ids.map_values(|c: String| c@)))
    } else {
        Some((ms.len() as usize, ms.len() as usize, output, call_ids.map_values(|c: String| c@)))
    }
}

/// What a replay state is: its counts, items and call ids.
pub open spec fn replay_view(state: Option<ReplayState>) -> Option<(usize, usize, Seq<JsonView>, Seq<Seq<char>>)> {
    match state {
        Some(st) => Some((st.base_message_count, st.request_message_count, values_view(st.continuation@),
            st.call_ids@.map_values(|c: String| c@))),
        None => None,
    }
}

/// Update the replay state after a response to `messages` that finished
/// for tool calls with the calls `call_ids` (`made_calls`), and produced
/// the output items `output`.
#[verifier::spinoff_prover]
pub fn after_response(
    state: Option<ReplayState>,
    messages: &Vec<Message>,
    made_calls: bool,
    call_ids: Vec<String>,
    output: Vec<Json>,
) -> (r: Option<ReplayState>)
    ensures
        replay_view(r) == next_replay(state, messages@, made_calls, call_ids@, values_view(output@)),
{
    if !made_calls {
        return None;
    }
    let applies = replay_applies_now(&state, messages);
    let ghost out_view = values_view(output@);
    match state {
        Some(st) => {
            if applies {
                let mut continuation = Vec::new();
                copy_values(&st.continuation, &mut continuation);
                replayed_output_values(&st, messages, &mut continuation);
                copy_values(&output, &mut continuation);
                proof {
                    assert(values_view(Seq::<Json>::empty()) =~= Seq::<JsonView>::empty());
                }
                return Some(ReplayState {
                    base_message_count: st.base_message_count,
                    request_message_count: messages.len(),
                    continuation,
                    call_ids,
                });
            }
        },
        None => {},
    }
    Some(ReplayState {
        base_message_count: messages.len(),
        request_message_count: messages.len(),
        continuation: output,
        call_ids,
    })
}

/// Replay law: a request that does not continue the conversation that
/// produced the replay state sends the plain history, and nothing the
/// earlier output carried.
pub proof fn unrelated_requests_replay_nothing(state: Option<ReplayState>, ms: Seq<Message>)
    requires
        !replay_applies(state, ms),
    ensures
        request_input_json(state, ms) == responses_input_json(ms, ms.len() as int),
{
}

/// Replay law: once a response that made tool calls has been recorded,
/// the next request that continues its conversation sends that response's
/// output items exactly, after everything replayed before them and before
/// the tool outputs that answer its calls.
pub proof fn latest_output_is_replayed_exactly(
    r: ReplayState,
    state: Option<ReplayState>,
    ms: Seq<Message>,
    call_ids: Seq<String>,
    output: Seq<JsonView>,
    next: Seq<Message>,
)
    requires
        ms.len() <= usize::MAX,
        replay_view(Some(r)) == next_replay(state, ms, true, call_ids, output),
        replay_applies(Some(r), next),
    ensures
        request_input_json(Some(r), next) == responses_input_json(
            next,
            (if replay_applies(state, ms) { state->0.base_message_count as int } else { ms.len() as int }),
        ) + (if replay_applies(state, ms) {
            values_view(state->0.continuation@) + replayed_output_items(state->0, ms)
        } else {
            Seq::empty()
        }) + output + replayed_output_items(r, next),
        r.call_ids@.map_values(|c: String| c@) == call_ids.map_values(|c: String| c@),
{
    assert(request_input_json(Some(r), next) == responses_input_json(next, r.base_message_count as int)
        + values_view(r.continuation@) + replayed_output_items(r, next));
    if replay_applies(state, ms) {
        let st = state->0;
        assert(r.base_message_count == st.base_message_count);
        let a = responses_input_json(next, st.base_message_count as int);
        let p = values_view(st.continuation@) + replayed_output_items(st, ms);
        assert(values_view(r.continuation@) == p + output);
        assert(a + (p + output) + replayed_output_items(r, next) =~= a + p + output + replayed_output_items(r, next));
    } else {
        assert(r.base_message_count == ms.len());
        let a = responses_input_json(next, ms.len() as int);
        assert(values_view(r.continuation@) == output);
        assert(a + output + replayed_output_items(r, next) =~= a + Seq::<JsonView>::empty() + output
            + replayed_output_items(r, next));
    }
}

/// A tool as a Responses `tools` entry (native function tool, not strict).
pub open spec fn responses_tool_json(t: ToolDecl) -> JsonView {
    JsonView::Object(seq![
        ("type"@, JsonView::Str("function"@)),
        ("name"@, JsonView::Str(t.name@)),
        ("description"@, JsonView::Str(t.description@)),
        ("parameters"@, jview(t.parameters)),
        ("strict"@, JsonView::Bool(false)),
    ])
}

/// A Responses request: the model, streaming with nothing stored, the
/// system messages as instructions, the input under the replay state,
/// encrypted reasoning included in the output; the tools when there are
/// any, and a reasoning summary when it is asked for.
pub open spec fn responses_body_json(
    model: Seq<char>,
    ms: Seq<Message>,
    tools: Seq<ToolDecl>,
    reasoning_summary: bool,
    state: Option<ReplayState>,
) -> JsonView {
    JsonView::Object(
        seq![
            ("model"@, JsonView::Str(model)),
            ("stream"@, JsonView::Bool(true)),
            ("store"@, JsonView::Bool(false)),
            ("instructions"@, JsonView::Str(crate::text::join(system_texts(ms), "\n\n"@))),
            ("input"@, JsonView::Array(request_input_json(state, ms))),
            ("include"@, JsonView::Array(seq![JsonView::Str("reasoning.encrypted_content"@)])),
        ]
        + optional_entry(if tools.len() > 0 {
            Some(("tools"@, JsonView::Array(tools.map_values(|t: ToolDecl| responses_tool_json(t)))))
        } else {
            None
        })
        + optional_entry(if reasoning_summary {
            Some(("reasoning"@, JsonView::Object(seq![("summary"@, JsonView::Str("auto"@))])))
        } else {
            None
        }),
    )
}

fn responses_tools(tools: Vec<ToolDecl>) -> (r: Vec<Json>)
    ensures
        values_view(r@) == tools@.map_values(|t: ToolDecl| responses_tool_json(t)),
{
    let ghost orig = tools@;
    let total = tools.len();
    let mut rest = tools;
    let mut out: Vec<Json> = Vec::new();
    let mut i: usize = 0;
    while rest.len() > 0
        invariant
            i + rest@.len() == orig.len(),
            orig.len() == total,
            rest@ == orig.skip(i as int),
            values_view(out@) =~= orig.take(i as int).map_values(|t: ToolDecl| responses_tool_json(t)),
        decreases rest@.len(),
    {
        let t = rest.remove(0);
        proof {
            assert(t == orig[i as int]);
        }
        let ghost tv = responses_tool_json(t);
        let mut es: Vec<(String, Json)> = Vec::new();
        push_entry(&mut es, "type", json_str("function"));
        push_entry(&mut es, "name", json_str(t.name.as_str()));
        push_entry(&mut es, "description", json_str(t.description.as_str()));
        push_entry(&mut es, "parameters", t.parameters);
        push_entry(&mut es, "strict", Json::Bool(false));
        let one = json_object(es);
        proof {
            assert(jview(one)->Object_0 =~= tv->Object_0);
            assert(orig.take(i + 1).map_values(|t: ToolDecl| responses_tool_json(t))
                =~= orig.take(i as int).map_values(|t: ToolDecl| responses_tool_json(t)).push(tv));
        }
        push_value(&mut out, one);
        i += 1;
        proof {
            assert(rest@ =~= orig.skip(i as int));
        }
    }
    assert(orig.take(i as int) =~= orig);
    out
}

/// The JSON body of a Responses request for `messages` under `state`.
#[verifier::spinoff_prover]
pub fn responses_request_body(
    model: &str,
    messages: &Vec<Message>,
    tools: Vec<ToolDecl>,
    reasoning_summary: bool,
    state: &Option<ReplayState>,
) -> (r: Json)
    ensures
        jview(r) == responses_body_json(model@, messages@, tools@, reasoning_summary, *state),
{
    let ghost tools_in = tools@;
    let mut es: Vec<(String, Json)> = Vec::new();
    push_entry(&mut es, "model", json_str(model));
    push_entry(&mut es, "stream", Json::Bool(true));
    push_entry(&mut es, "store", Json::Bool(false));
    let instructions = responses_instructions(messages);
    push_entry(&mut es, "instructions", json_str(instructions.as_str()));
    push_entry(&mut es, "input", json_array(request_input(state, messages)));
    let mut extra_output: Vec<Json> = Vec::new();
    push_value(&mut extra_output, json_str("reasoning.encrypted_content"));
    proof {
        assert(values_view(Seq::<Json>::empty()) =~= Seq::<JsonView>::empty());
    }
    push_entry(&mut es, "include", json_array(extra_output));
    let ghost base = entries_view(es@);
    if tools.len() > 0 {
        push_entry(&mut es, "tools", json_array(responses_tools(tools)));
    }
    let ghost after_tools = entries_view(es@);
    if reasoning_summary {
        push_entry(&mut es, "reasoning", json_object1("summary", json_str("auto")));
    }
    proof {
        let spec = responses_body_json(model@, messages@, tools_in, reasoning_summary, *state);
        assert(spec->Object_0 =~= entries_view(es@));
    }
    json_object(es)
}

} // verus!
