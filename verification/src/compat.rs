//! The OpenAI-style provider's decisions: which protocol and extras a
//! model gets, which HTTP failures are retried and how their messages
//! read, how a Chat Completions SSE stream assembles into one turn
//! (text deltas, tool calls from per-index fragments, finish reason,
//! usage), and the exact JSON of a Chat Completions request.

use vstd::prelude::*;
use crate::catalog::{openrouter_lookup, openrouter_model};
use crate::schema::{
    entries_view, json_array, json_object, json_object1, json_object2, json_object3, json_str, jview,
    push_entry, push_value, values_view, Json, JsonView,
};
use crate::provider::{FinishReason, ImagePart, Message, ProviderError, ToolCall};
use crate::text::{
    join, ascii_lower, char_vec, chars_contain, contains, lower_chars, owned, push_char, starts_with,
    string_of, trim, trim_bounds,
};

verus! {

/// Explicit wire protocol for an OpenAI-style endpoint.
#[derive(Debug, Clone, Copy, PartialEq, Eq, Structural)]
pub enum OpenAiProtocol {
    ChatCompletions,
    Responses,
}

/// Provider-safe reasoning visibility. Raw chain-of-thought is never exposed.
#[derive(Debug, Clone, Copy, PartialEq, Eq, Structural)]
pub enum ReasoningSummary {
    Auto,
    Off,
}

/// Optional OpenRouter-only request extras (provider pinning + app headers).
#[derive(Debug, Clone, PartialEq, Eq)]
pub struct OpenAiCompatExtras {
    /// `provider.order` upstream preference list.
    pub provider_order: Option<Vec<String>>,
    /// When false with a non-empty order, OpenRouter will not fall back to
    /// other hosts.
    pub allow_fallbacks: bool,
    /// Send `HTTP-Referer` / `X-Title` attribution headers.
    pub openrouter_headers: bool,
    /// OpenRouter usage-accounting extension (`usage.include`).
    pub usage_accounting: bool,
    /// OpenRouter automatic prompt caching (`cache_control: ephemeral`).
    pub prompt_caching: bool,
}

impl Default for OpenAiCompatExtras {
    fn default() -> (r: Self)
        ensures
            r.provider_order is None,
            !r.allow_fallbacks,
            !r.openrouter_headers,
            !r.usage_accounting,
            !r.prompt_caching,
    {
        OpenAiCompatExtras {
            provider_order: None,
            allow_fallbacks: false,
            openrouter_headers: false,
            usage_accounting: false,
            prompt_caching: false,
        }
    }
}

/// The extras OpenRouter requests for `model_id` carry: headers, usage
/// accounting and prompt caching always; the upstream pin (order and
/// fallback policy) when the allowlist pins the model.
pub open spec fn openrouter_extras_for(model_id: Seq<char>, r: OpenAiCompatExtras) -> bool {
    &&& r.openrouter_headers
    &&& r.usage_accounting
    &&& r.prompt_caching
    &&& match openrouter_lookup(model_id) {
        Some(m) if m.pin is Some => {
            &&& r.provider_order matches Some(order)
            &&& order@.len() == m.pin->0.order@.len()
            &&& forall|i: int| 0 <= i < order@.len() ==> (#[trigger] order@[i])@ == m.pin->0.order@[i]@
            &&& r.allow_fallbacks == m.pin->0.allow_fallbacks
        },
        _ => r.provider_order is None && !r.allow_fallbacks,
    }
}

/// OpenRouter Chat Completions extras for a curated model slug: headers,
/// usage accounting and prompt caching always; the upstream pin (order and
/// fallback policy) when the allowlist pins the model.
pub fn openrouter_compat_extras(model_id: &str) -> (r: OpenAiCompatExtras)
    ensures
        openrouter_extras_for(model_id@, r),
{
    let mut extras = OpenAiCompatExtras {
        provider_order: None,
        allow_fallbacks: false,
        openrouter_headers: true,
        usage_accounting: true,
        prompt_caching: true,
    };
    if let Some(m) = openrouter_model(model_id) {
        if let Some(pin) = m.pin {
            let mut order: Vec<String> = Vec::new();
            let mut i: usize = 0;
            while i < pin.order.len()
                invariant
                    i <= pin.order@.len(),
                    order@.len() == i,
                    forall|k: int| 0 <= k < i ==> (#[trigger] order@[k])@ == pin.order@[k]@,
                decreases pin.order@.len() - i,
            {
                order.push(owned(pin.order[i]));
                i += 1;
            }
            extras.provider_order = Some(order);
            extras.allow_fallbacks = pin.allow_fallbacks;
        }
    }
    extras
}

/// Statuses whose response is explicitly temporary: 408, 429 and 5xx.
pub open spec fn transient_status(status: u16) -> bool {
    status == 408 || status == 429 || (500 <= status <= 599)
}

/// Statuses whose response is explicitly temporary. Authentication,
/// malformed requests, and payment failures stay single-shot.
pub fn retryable_status(status: u16) -> (r: bool)
    ensures
        r == transient_status(status),
{
    status == 408 || status == 429 || (500 <= status && status <= 599)
}

/// Backoff before re-sending the initial request, in milliseconds: two
/// retries (300 ms, then 900 ms), then give up.
pub fn retry_delay(attempt: usize) -> (r: Option<u64>)
    ensures
        attempt == 0 ==> r == Some(300u64),
        attempt == 1 ==> r == Some(900u64),
        attempt >= 2 ==> r is None,
{
    if attempt == 0 {
        Some(300)
    } else if attempt == 1 {
        Some(900)
    } else {
        None
    }
}

/// True when a Chat Completions server rejected `stream_options` (strict /
/// older OpenAI-compatible endpoints that treat unknown fields as errors).
pub fn is_stream_options_rejection(status: u16, body: &str) -> (r: bool)
    ensures
        r == (status == 400 && contains(ascii_lower(body@), "stream_options"@)),
{
    if status != 400 {
        return false;
    }
    let lower = lower_chars(&char_vec(body));
    chars_contain(&lower, &char_vec("stream_options"))
}

/// The UTF-8 length of one character.
pub open spec fn utf8_len(c: char) -> nat {
    let u = c as u32;
    if u < 0x80 { 1 } else if u < 0x800 { 2 } else if u < 0x10000 { 3 } else { 4 }
}

/// The UTF-8 length of a string.
pub open spec fn byte_len(s: Seq<char>) -> nat
    decreases s.len(),
{
    if s.len() == 0 { 0 } else { byte_len(s.drop_last()) + utf8_len(s.last()) }
}

/// The number of leading characters of `s` that fit in `max` bytes.
pub open spec fn fitting_chars(s: Seq<char>, max: nat) -> int {
    choose|n: int| #![trigger s.take(n)] 0 <= n <= s.len() && byte_len(s.take(n)) <= max
        && (n == s.len() || byte_len(s.take(n + 1)) > max)
}

/// `s` cut to at most `max` bytes at a character boundary, with `…`
/// marking a cut.
pub open spec fn truncated(s: Seq<char>, max: nat) -> Seq<char> {
    if byte_len(s) <= max {
        s
    } else {
        s.take(fitting_chars(s, max)).push('…')
    }
}

fn char_utf8_len(c: char) -> (r: usize)
    ensures
        r == utf8_len(c),
{
    let u = c as u32;
    if u < 0x80 { 1 } else if u < 0x800 { 2 } else if u < 0x10000 { 3 } else { 4 }
}

proof fn lemma_byte_len_take(s: Seq<char>, i: int)
    requires
        0 <= i < s.len(),
    ensures
        byte_len(s.take(i + 1)) == byte_len(s.take(i)) + utf8_len(s[i]),
{
    assert(s.take(i + 1).drop_last() =~= s.take(i));
}

/// `s` cut to at most `max` bytes at a character boundary; a cut string
/// ends in `…`.
pub fn truncate(s: &str, max: usize) -> (r: String)
    ensures
        r@ == truncated(s@, max as nat),
{
    let chars = char_vec(s);
    let mut n: usize = 0;
    let mut bytes: usize = 0;
    while n < chars.len()
        invariant
            n <= chars.len(),
            chars@ == s@,
            bytes == byte_len(chars@.take(n as int)),
            bytes <= max,
        ensures
            n <= chars.len(),
            bytes == byte_len(chars@.take(n as int)),
            bytes <= max,
            n == chars.len() || byte_len(chars@.take(n + 1)) > max,
        decreases chars.len() - n,
    {
        proof {
            lemma_byte_len_take(chars@, n as int);
        }
        let w = char_utf8_len(chars[n]);
        if w > max - bytes {
            break;
        }
        bytes = bytes + w;
        n += 1;
    }
    proof {
        if n < chars.len() {
            lemma_byte_len_take(chars@, n as int);
        }
    }
    if n == chars.len() {
        proof {
            assert(chars@.take(n as int) =~= chars@);
        }
        string_of(&chars, 0, n)
    } else {
        proof {
            lemma_byte_len_monotone(chars@, n + 1, chars@.len() as int);
            assert(chars@.take(chars@.len() as int) =~= chars@);
            let f = fitting_chars(s@, max as nat);
            assert(0 <= n <= s@.len() && byte_len(s@.take(n as int)) <= max
                && byte_len(s@.take(n + 1)) > max);
            lemma_fitting_unique(s@, max as nat, f, n as int);
        }
        let mut r = string_of(&chars, 0, n);
        push_char(&mut r, '…');
        proof {
            assert(chars@.subrange(0, n as int) =~= chars@.take(n as int));
        }
        r
    }
}

proof fn lemma_byte_len_monotone(s: Seq<char>, i: int, j: int)
    requires
        0 <= i <= j <= s.len(),
    ensures
        byte_len(s.take(i)) <= byte_len(s.take(j)),
    decreases j - i,
{
    if i < j {
        lemma_byte_len_monotone(s, i, j - 1);
        lemma_byte_len_take(s, j - 1);
    }
}

proof fn lemma_fitting_unique(s: Seq<char>, max: nat, a: int, b: int)
    requires
        0 <= a <= s.len() && byte_len(s.take(a)) <= max && (a == s.len() || byte_len(s.take(a + 1)) > max),
        0 <= b <= s.len() && byte_len(s.take(b)) <= max && (b == s.len() || byte_len(s.take(b + 1)) > max),
    ensures
        a == b,
{
    if a < b {
        lemma_byte_len_monotone(s, a + 1, b);
    } else if b < a {
        lemma_byte_len_monotone(s, b + 1, a);
    }
}

/// The note added when a reasoning model refuses tools over Chat
/// Completions.
pub open spec fn responses_protocol_note() -> Seq<char> {
    "\nThis reasoning model cannot call tools through Chat Completions. In Settings → AI provider, choose the Responses API protocol."@
}

/// Whether an HTTP error from Chat Completions is a reasoning model
/// refusing tools there.
pub open spec fn reasoning_tool_refusal(status: u16, lower: Seq<char>) -> bool {
    &&& status == 400
    &&& contains(lower, "reasoning_effort"@) || contains(lower, "reasoning effort"@)
    &&& contains(lower, "tool"@) || contains(lower, "function"@)
}

/// The message of an HTTP error from Chat Completions: the body cut to 500
/// bytes, pointing to the Responses protocol when a reasoning model
/// refused tools.
pub open spec fn chat_error_text(status: u16, message: Seq<char>) -> Seq<char> {
    let cut = truncated(message, 500);
    if reasoning_tool_refusal(status, ascii_lower(cut)) { cut + responses_protocol_note() } else { cut }
}

/// The message of an HTTP error from Chat Completions.
pub fn chat_error_message(status: u16, message: &str) -> (r: String)
    ensures
        r@ == chat_error_text(status, message@),
{
    let mut cut = truncate(message, 500);
    let lower = lower_chars(&char_vec(cut.as_str()));
    if status == 400
        && (chars_contain(&lower, &char_vec("reasoning_effort")) || chars_contain(&lower, &char_vec("reasoning effort")))
        && (chars_contain(&lower, &char_vec("tool")) || chars_contain(&lower, &char_vec("function")))
    {
        cut.append("\nThis reasoning model cannot call tools through Chat Completions. In Settings → AI provider, choose the Responses API protocol.");
    }
    cut
}

/// The payload of an SSE line: what follows `data:`, trimmed. Other lines
/// (comments, event names, keep-alive blanks) carry none.
pub fn sse_data(line: &str) -> (r: Option<String>)
    ensures
        starts_with(line@, "data:"@) ==> (r matches Some(d) && d@ == trim(line@.skip(5))),
        !starts_with(line@, "data:"@) ==> r is None,
{
    let chars = char_vec(line);
    let prefix = char_vec("data:");
    if !crate::text::chars_start_with(&chars, &prefix) {
        return None;
    }
    proof {
        reveal_strlit("data:");
    }
    let rest = crate::text::slice_chars(&chars, 5, chars.len());
    let (from, to) = trim_bounds(&rest);
    proof {
        assert(rest@ =~= line@.skip(5));
    }
    Some(string_of(&rest, from, to))
}

/// The end-of-stream sentinel of an SSE stream.
pub const SSE_DONE: &'static str = "[DONE]";

/// Provider-reported token usage. `cost_bits` carries the reported cost, if
/// any, as the bit pattern of its `f64` (`f64::to_bits`), untouched here.
#[derive(Debug, Clone, Copy, PartialEq, Eq, Structural)]
pub struct UsageCounts {
    pub input_tokens: u64,
    /// Portion of `input_tokens` served from the provider's prompt cache.
    pub cached_input_tokens: u64,
    pub output_tokens: u64,
    pub cost_bits: Option<u64>,
}

impl UsageCounts {
    /// No tokens and no cost reported.
    pub open spec fn none_reported(self) -> bool {
        self.input_tokens == 0 && self.cached_input_tokens == 0 && self.output_tokens == 0
            && self.cost_bits is None
    }

    /// No tokens and no cost reported.
    pub fn is_empty(&self) -> (r: bool)
        ensures
            r == self.none_reported(),
    {
        self.input_tokens == 0 && self.cached_input_tokens == 0 && self.output_tokens == 0
            && self.cost_bits.is_none()
    }

    /// Saturating sum of the token counts (costs are summed by the caller,
    /// which reads them as numbers).
    pub fn add_counts(&mut self, other: &UsageCounts)
        ensures
            final(self).input_tokens == crate::compat::sat_add(old(self).input_tokens, other.input_tokens),
            final(self).cached_input_tokens == crate::compat::sat_add(old(self).cached_input_tokens, other.cached_input_tokens),
            final(self).output_tokens == crate::compat::sat_add(old(self).output_tokens, other.output_tokens),
            final(self).cost_bits == old(self).cost_bits,
    {
        self.input_tokens = self.input_tokens.saturating_add(other.input_tokens);
        self.cached_input_tokens = self.cached_input_tokens.saturating_add(other.cached_input_tokens);
        self.output_tokens = self.output_tokens.saturating_add(other.output_tokens);
    }
}

/// `a + b`, saturating at `u64::MAX`.
pub open spec fn sat_add(a: u64, b: u64) -> u64 {
    if a + b > u64::MAX { u64::MAX } else { (a + b) as u64 }
}

/// One streamed piece of a tool call: the index it belongs to (absent
/// means 0) and the id, name and argument text it adds.
#[derive(Debug, Clone, PartialEq, Eq)]
pub struct ToolFragment {
    pub index: Option<u64>,
    pub id: Option<String>,
    pub name: Option<String>,
    pub arguments: Option<String>,
}

/// What one Chat Completions SSE chunk says: its usage (when it carries a
/// usage object), and from its first choice, if any, the finish reason,
/// the content delta and the tool-call fragments.
#[derive(Debug, Clone, PartialEq, Eq)]
pub struct CompatChunk {
    pub usage: Option<UsageCounts>,
    pub has_choice: bool,
    pub finish_reason: Option<String>,
    pub content: Option<String>,
    pub tool_calls: Vec<ToolFragment>,
}

/// A tool call being assembled from streamed fragments.
#[derive(Debug, Clone, PartialEq, Eq)]
pub struct PartialCall {
    pub id: String,
    pub name: String,
    pub arguments: String,
}

/// A partial call as id, name and argument text.
pub open spec fn call_view(c: PartialCall) -> (Seq<char>, Seq<char>, Seq<char>) {
    (c.id@, c.name@, c.arguments@)
}

/// The partial calls as views.
pub open spec fn calls_view(cs: Seq<PartialCall>) -> Seq<(Seq<char>, Seq<char>, Seq<char>)> {
    cs.map_values(|c: PartialCall| call_view(c))
}

/// The text an optional piece adds.
pub open spec fn piece(o: Option<String>) -> Seq<char> {
    match o {
        Some(t) => t@,
        None => Seq::empty(),
    }
}

/// The index a fragment addresses.
pub open spec fn fragment_index(f: ToolFragment) -> int {
    match f.index {
        Some(i) => i as int,
        None => 0,
    }
}

/// `cs` grown with empty calls to at least `n` entries.
pub open spec fn grown(cs: Seq<(Seq<char>, Seq<char>, Seq<char>)>, n: int) -> Seq<(Seq<char>, Seq<char>, Seq<char>)> {
    if cs.len() >= n {
        cs
    } else {
        cs + Seq::new((n - cs.len()) as nat, |i: int| (Seq::<char>::empty(), Seq::<char>::empty(), Seq::<char>::empty()))
    }
}

/// The calls after one fragment: its pieces appended to the call at its
/// index, the list grown to reach it.
pub open spec fn with_fragment(cs: Seq<(Seq<char>, Seq<char>, Seq<char>)>, f: ToolFragment) -> Seq<(Seq<char>, Seq<char>, Seq<char>)> {
    let i = fragment_index(f);
    let g = grown(cs, i + 1);
    g.update(i, (g[i].0 + piece(f.id), g[i].1 + piece(f.name), g[i].2 + piece(f.arguments)))
}

/// The calls after a chunk's fragments, in order.
pub open spec fn with_fragments(cs: Seq<(Seq<char>, Seq<char>, Seq<char>)>, fs: Seq<ToolFragment>) -> Seq<(Seq<char>, Seq<char>, Seq<char>)>
    decreases fs.len(),
{
    if fs.len() == 0 {
        cs
    } else {
        with_fragment(with_fragments(cs, fs.drop_last()), fs.last())
    }
}

/// The finish reason a chunk's `finish_reason` names.
pub open spec fn finish_named(r: Seq<char>) -> FinishReason {
    if r == "stop"@ {
        FinishReason::Stop
    } else if r == "tool_calls"@ {
        FinishReason::ToolCalls
    } else if r == "length"@ {
        FinishReason::Length
    } else {
        FinishReason::Other
    }
}

/// Finish law: a chunk's finish reason is read by its name: only "stop"
/// finishes for stop, only "length" for the token limit and only
/// "tool_calls" for tool calls; every other name is some other reason.
pub proof fn finish_reasons_are_read_by_name(r: Seq<char>)
    ensures
        (finish_named(r) == FinishReason::Stop) <==> r == "stop"@,
        (finish_named(r) == FinishReason::Length) <==> r == "length"@,
        (finish_named(r) == FinishReason::ToolCalls) <==> r == "tool_calls"@,
{
    reveal_strlit("stop");
    reveal_strlit("length");
    reveal_strlit("tool_calls");
    assert("stop"@.len() == 4 && "length"@.len() == 6 && "tool_calls"@.len() == 10);
}

/// The assembly state of one Chat Completions stream.
#[derive(Debug, Clone, PartialEq, Eq)]
pub struct CompatStream {
    pub text: String,
    pub calls: Vec<PartialCall>,
    pub finish: FinishReason,
    pub usage: Option<UsageCounts>,
}

fn finish_from(r: &str) -> (f: FinishReason)
    ensures
        f == finish_named(r@),
{
    if crate::text::str_eq(r, "stop") {
        FinishReason::Stop
    } else if crate::text::str_eq(r, "tool_calls") {
        FinishReason::ToolCalls
    } else if crate::text::str_eq(r, "length") {
        FinishReason::Length
    } else {
        FinishReason::Other
    }
}

fn append_piece(s: &mut String, o: &Option<String>)
    ensures
        final(s)@ == old(s)@ + piece(*o),
{
    match o {
        Some(t) => s.append(t.as_str()),
        None => {},
    }
}

impl CompatStream {
    /// A stream with nothing received yet.
    pub fn new() -> (r: Self)
        ensures
            r.text@.len() == 0,
            r.calls@.len() == 0,
            r.finish == FinishReason::Other,
            r.usage is None,
    {
        CompatStream { text: String::new(), calls: Vec::new(), finish: FinishReason::Other, usage: None }
    }

    fn add_fragment(&mut self, f: &ToolFragment)
        requires
            fragment_index(*f) < usize::MAX,
        ensures
            calls_view(final(self).calls@) == with_fragment(calls_view(old(self).calls@), *f),
            final(self).text == old(self).text,
            final(self).finish == old(self).finish,
            final(self).usage == old(self).usage,
    {
        let index: usize = match f.index {
            Some(i) => i as usize,
            None => 0,
        };
        let ghost before = calls_view(self.calls@);
        while self.calls.len() <= index
            invariant
                index < usize::MAX,
                index as int == fragment_index(*f),
                self.calls@.len() <= index + 1 || self.calls@.len() == before.len(),
                calls_view(self.calls@) == grown(before, self.calls@.len() as int),
                before.len() <= self.calls@.len(),
                self.text == old(self).text,
                self.finish == old(self).finish,
                self.usage == old(self).usage,
            decreases index + 1 - self.calls@.len(),
        {
            let ghost prev = self.calls@;
            self.calls.push(PartialCall { id: String::new(), name: String::new(), arguments: String::new() });
            proof {
                assert(calls_view(self.calls@) =~= calls_view(prev).push((Seq::<char>::empty(), Seq::<char>::empty(), Seq::<char>::empty())));
                assert(grown(before, self.calls@.len() as int) =~= grown(before, prev.len() as int).push((Seq::<char>::empty(), Seq::<char>::empty(), Seq::<char>::empty())));
            }
        }
        proof {
            assert(grown(before, self.calls@.len() as int) =~= grown(before, index + 1));
        }
        let mut id = self.calls[index].id.clone();
        let mut name = self.calls[index].name.clone();
        let mut arguments = self.calls[index].arguments.clone();
        append_piece(&mut id, &f.id);
        append_piece(&mut name, &f.name);
        append_piece(&mut arguments, &f.arguments);
        let ghost mid = self.calls@;
        self.calls.set(index, PartialCall { id, name, arguments });
        proof {
            assert(calls_view(self.calls@) =~= calls_view(mid).update(index as int, (
                mid[index as int].id@ + piece(f.id),
                mid[index as int].name@ + piece(f.name),
                mid[index as int].arguments@ + piece(f.arguments),
            )));
        }
    }

    /// Take in one chunk; the answer is the content delta to forward to the
    /// display, if the chunk carried a non-empty one. Usage keeps the last
    /// non-empty value, so a trailing empty usage cannot clobber it.
    #[verifier::spinoff_prover]
    pub fn apply_chunk(&mut self, chunk: &CompatChunk) -> (delta: Option<String>)
        requires
            forall|k: int| 0 <= k < chunk.tool_calls@.len()
                ==> fragment_index(#[trigger] chunk.tool_calls@[k]) < usize::MAX,
        ensures
            final(self).usage == (match chunk.usage {
                Some(u) => if u.none_reported() { old(self).usage } else { Some(u) },
                None => old(self).usage,
            }),
            !chunk.has_choice ==> {
                &&& final(self).text == old(self).text
                &&& final(self).calls@ == old(self).calls@
                &&& final(self).finish == old(self).finish
                &&& delta is None
            },
            chunk.has_choice ==> {
                &&& final(self).finish == (match chunk.finish_reason {
                    Some(r) => finish_named(r@),
                    None => old(self).finish,
                })
                &&& final(self).text@ == old(self).text@ + (match chunk.content {
                    Some(c) => c@,
                    None => Seq::empty(),
                })
                &&& (match chunk.content {
                    Some(c) => if c@.len() > 0 { (delta matches Some(d) && d@ == c@) } else { delta is None },
                    None => delta is None,
                })
                &&& calls_view(final(self).calls@) == with_fragments(calls_view(old(self).calls@), chunk.tool_calls@)
            },
    {
        match &chunk.usage {
            Some(u) => {
                if !u.is_empty() {
                    self.usage = Some(*u);
                }
            },
            None => {},
        }
        if !chunk.has_choice {
            return None;
        }
        match &chunk.finish_reason {
            Some(r) => {
                self.finish = finish_from(r.as_str());
            },
            None => {},
        }
        let mut delta: Option<String> = None;
        match &chunk.content {
            Some(c) => {
                if !c.as_str().is_empty() {
                    self.text.append(c.as_str());
                    delta = Some(c.clone());
                }
            },
            None => {},
        }
        let ghost start = calls_view(self.calls@);
        let ghost text_now = self.text;
        let ghost finish_now = self.finish;
        let ghost usage_now = self.usage;
        let mut k: usize = 0;
        while k < chunk.tool_calls.len()
            invariant
                k <= chunk.tool_calls@.len(),
                forall|m: int| 0 <= m < chunk.tool_calls@.len()
                    ==> fragment_index(#[trigger] chunk.tool_calls@[m]) < usize::MAX,
                calls_view(self.calls@) == with_fragments(start, chunk.tool_calls@.take(k as int)),
                self.text == text_now,
                self.finish == finish_now,
                self.usage == usage_now,
            decreases chunk.tool_calls@.len() - k,
        {
            proof {
                assert(chunk.tool_calls@.take(k + 1).drop_last() =~= chunk.tool_calls@.take(k as int));
            }
            self.add_fragment(&chunk.tool_calls[k]);
            k += 1;
        }
        proof {
            assert(chunk.tool_calls@.take(chunk.tool_calls@.len() as int) =~= chunk.tool_calls@);
        }
        delta
    }
}

/// What `serde_json` reports when `text` is read as a JSON value: `None`
/// when it parses, else the error's message.
pub uninterp spec fn json_error(text: Seq<char>) -> Option<Seq<char>>;

/// `serde_json::from_str::<serde_json::Value>` on `text`, keeping only
/// whether it failed: `None` when the text parses, else the error's
/// `Display` text. The contract claims no more than that this outcome is a
/// function of the text alone.
#[verifier::external_body]
pub(crate) fn json_parse_error(text: &str) -> (r: Option<String>)
    ensures
        r matches Some(e) ==> json_error(text@) == Some(e@),
        r is None ==> json_error(text@) is None,
{
    match serde_json::from_str::<serde_json::Value>(text) {
        Ok(_) => None,
        Err(e) => Some(e.to_string()),
    }
}

/// The argument text a tool call carries: `{}` when the streamed text is
/// blank.
pub open spec fn arguments_text(a: Seq<char>) -> Seq<char> {
    if trim(a).len() == 0 { "{}"@ } else { a }
}

/// A call whose non-blank argument text is not JSON.
pub open spec fn unparseable(c: (Seq<char>, Seq<char>, Seq<char>)) -> bool {
    trim(c.2).len() > 0 && json_error(c.2) is Some
}

/// The first unparseable call at or after `i`.
pub open spec fn first_unparseable(cs: Seq<(Seq<char>, Seq<char>, Seq<char>)>, i: int) -> Option<int>
    decreases cs.len() - i,
{
    if i < 0 || i >= cs.len() {
        None
    } else if unparseable(cs[i]) {
        Some(i)
    } else {
        first_unparseable(cs, i + 1)
    }
}

/// The protocol error for a call whose arguments are not JSON.
pub open spec fn unparseable_message(c: (Seq<char>, Seq<char>, Seq<char>)) -> Seq<char> {
    "tool call '"@ + c.1 + "' has unparseable arguments: "@ + json_error(c.2)->0 + ": "@ + c.2
}

/// One assembled Chat Completions turn.
#[derive(Debug, Clone, PartialEq)]
pub struct StreamedTurn {
    pub text: String,
    pub tool_calls: Vec<ToolCall>,
    pub finish: FinishReason,
    pub usage: Option<UsageCounts>,
}

impl CompatStream {
    /// The turn the stream assembled: each partial call becomes a tool call
    /// (blank arguments read as `{}`), unless some call's arguments are not
    /// JSON, which is a protocol error naming the first such call. A stream
    /// that named no finish reason but made calls finishes for tool calls.
    #[verifier::spinoff_prover]
    pub fn finish_turn(self) -> (r: Result<StreamedTurn, ProviderError>)
        ensures
            ({
                let cs = calls_view(self.calls@);
                match first_unparseable(cs, 0) {
                    Some(i) => r matches Err(ProviderError::Protocol(m)) && m@ == unparseable_message(cs[i]),
                    None => r matches Ok(turn) && {
                        &&& turn.text@ == self.text@
                        &&& turn.usage == self.usage
                        &&& turn.finish == (if self.finish == FinishReason::Other && cs.len() > 0 {
                                FinishReason::ToolCalls
                            } else {
                                self.finish
                            })
                        &&& turn.tool_calls@.len() == cs.len()
                        &&& forall|i: int| 0 <= i < cs.len() ==> {
                            &&& (#[trigger] turn.tool_calls@[i]).id@ == cs[i].0
                            &&& turn.tool_calls@[i].name@ == cs[i].1
                            &&& turn.tool_calls@[i].arguments@ == arguments_text(cs[i].2)
                        }
                    },
                }
            }),
    {
        let ghost cs = calls_view(self.calls@);
        let mut calls: Vec<ToolCall> = Vec::new();
        let mut i: usize = 0;
        while i < self.calls.len()
            invariant
                i <= self.calls@.len(),
                cs == calls_view(self.calls@),
                first_unparseable(cs, 0) == first_unparseable(cs, i as int),
                calls@.len() == i,
                forall|k: int| 0 <= k < i ==> {
                    &&& (#[trigger] calls@[k]).id@ == cs[k].0
                    &&& calls@[k].name@ == cs[k].1
                    &&& calls@[k].arguments@ == arguments_text(cs[k].2)
                },
            decreases self.calls@.len() - i,
        {
            let c = &self.calls[i];
            let args = char_vec(c.arguments.as_str());
            let (from, to) = trim_bounds(&args);
            let arguments = if from == to {
                owned("{}")
            } else {
                match json_parse_error(c.arguments.as_str()) {
                    Some(e) => {
                        let mut m = owned("tool call '");
                        m.append(c.name.as_str());
                        m.append("' has unparseable arguments: ");
                        m.append(e.as_str());
                        m.append(": ");
                        m.append(c.arguments.as_str());
                        return Err(ProviderError::Protocol(m));
                    },
                    None => c.arguments.clone(),
                }
            };
            calls.push(ToolCall { id: c.id.clone(), name: c.name.clone(), arguments });
            i += 1;
        }
        let finish = match self.finish {
            FinishReason::Other => if calls.len() > 0 { FinishReason::ToolCalls } else { FinishReason::Other },
            other => other,
        };
        Ok(StreamedTurn { text: self.text, tool_calls: calls, finish, usage: self.usage })
    }
}

/// Truncation law: what is kept of a cut string fits the byte budget, and
/// a string that fits is kept whole.
pub proof fn truncation_keeps_within_budget(s: Seq<char>, max: nat)
    ensures
        byte_len(s) <= max ==> truncated(s, max) == s,
        byte_len(s) > max ==> {
            &&& byte_len(truncated(s, max).drop_last()) <= max
            &&& truncated(s, max).last() == '…'
            &&& s.take(truncated(s, max).len() - 1) == truncated(s, max).drop_last()
        },
{
    if byte_len(s) > max {
        lemma_fitting_exists(s, max, 0);
        let n = fitting_chars(s, max);
        assert(truncated(s, max).drop_last() =~= s.take(n));
    }
}

proof fn lemma_fitting_exists(s: Seq<char>, max: nat, n: int)
    requires
        0 <= n <= s.len(),
        byte_len(s.take(n)) <= max,
    ensures
        exists|m: int| #![trigger s.take(m)] 0 <= m <= s.len() && byte_len(s.take(m)) <= max
            && (m == s.len() || byte_len(s.take(m + 1)) > max),
    decreases s.len() - n,
{
    if n < s.len() && byte_len(s.take(n + 1)) <= max {
        lemma_fitting_exists(s, max, n + 1);
    } else {
        assert(0 <= n <= s.len() && byte_len(s.take(n)) <= max
            && (n == s.len() || byte_len(s.take(n + 1)) > max));
    }
}

/// One step of the Chat Completions wire history.
#[derive(Debug, Clone, Copy, PartialEq, Eq, Structural)]
pub enum WireStep {
    /// `messages[i]` (a system, user or assistant message) as one wire
    /// message.
    Message(usize),
    /// The `role=tool` response of the tool result `messages[i]`.
    ToolResponse(usize),
    /// One user message carrying the images of the tool results
    /// `messages[start..end]`, introduced by their labels.
    Attachments { start: usize, end: usize },
}

/// Whether `m` is a tool result.
pub open spec fn is_tool_result(m: Message) -> bool {
    m is ToolResult
}

/// The end of the run of tool results starting at `i`.
pub open spec fn run_end(ms: Seq<Message>, i: int) -> int
    decreases ms.len() - i,
{
    if i < 0 || i >= ms.len() || !is_tool_result(ms[i]) {
        i
    } else {
        run_end(ms, i + 1)
    }
}

/// Whether `m` is a tool result that carries images.
pub open spec fn carries_images(m: Message) -> bool {
    match m {
        Message::ToolResult { images, .. } => images@.len() > 0,
        _ => false,
    }
}

/// Whether any tool result in `ms[start..end]` carries images.
pub open spec fn run_has_images(ms: Seq<Message>, start: int, end: int) -> bool {
    exists|i: int| start <= i < end && carries_images(#[trigger] ms[i])
}

/// `ToolResponse` steps for `ms[start..end]`.
pub open spec fn tool_steps(start: int, end: int) -> Seq<WireStep> {
    Seq::new((end - start) as nat, |k: int| WireStep::ToolResponse((start + k) as usize))
}

/// The wire history of `ms[i..]`: non-tool messages one by one; each run of
/// tool results as its tool responses, followed (only when some of them
/// carry images) by one attachments message. Every tool response of an
/// assistant turn thus precedes the next user message.
pub open spec fn wire_plan(ms: Seq<Message>, i: int) -> Seq<WireStep>
    decreases ms.len() - i, 1int,
{
    if i < 0 || i >= ms.len() {
        Seq::empty()
    } else if !is_tool_result(ms[i]) {
        seq![WireStep::Message(i as usize)] + wire_plan(ms, i + 1)
    } else {
        wire_run(ms, i)
    }
}

/// The wire history of a run of tool results starting at `i` and what
/// follows it.
pub open spec fn wire_run(ms: Seq<Message>, i: int) -> Seq<WireStep>
    decreases ms.len() - i, 0int,
{
    let e = run_end(ms, i);
    if 0 <= i < e <= ms.len() {
        tool_steps(i, e)
            + (if run_has_images(ms, i, e) { seq![WireStep::Attachments { start: i as usize, end: e as usize }] } else { Seq::empty() })
            + wire_plan(ms, e)
    } else {
        Seq::empty()
    }
}

proof fn lemma_run_end(ms: Seq<Message>, i: int)
    requires
        0 <= i <= ms.len(),
    ensures
        i <= run_end(ms, i) <= ms.len(),
        forall|k: int| i <= k < run_end(ms, i) ==> is_tool_result(#[trigger] ms[k]),
        run_end(ms, i) < ms.len() ==> !is_tool_result(ms[run_end(ms, i)]),
    decreases ms.len() - i,
{
    if i < ms.len() && is_tool_result(ms[i]) {
        lemma_run_end(ms, i + 1);
    }
}

/// The Chat Completions wire history of `messages`, as steps: image
/// attachments of tool results are hoisted only after the entire
/// contiguous run of tool results, so every `role=tool` response of an
/// assistant turn precedes the next user message.
#[verifier::spinoff_prover]
pub fn plan_openai_messages(messages: &Vec<Message>) -> (r: Vec<WireStep>)
    ensures
        r@ == wire_plan(messages@, 0),
{
    let ghost ms = messages@;
    let mut r: Vec<WireStep> = Vec::new();
    let mut i: usize = 0;
    while i < messages.len()
        invariant
            ms == messages@,
            i <= ms.len(),
            wire_plan(ms, 0) == r@ + wire_plan(ms, i as int),
        decreases ms.len() - i,
    {
        let tool = match &messages[i] {
            Message::ToolResult { .. } => true,
            _ => false,
        };
        if !tool {
            r.push(WireStep::Message(i));
            proof {
                assert(wire_plan(ms, i as int) == seq![WireStep::Message(i)] + wire_plan(ms, i + 1));
                assert(r@ + wire_plan(ms, i + 1) =~= (r@.drop_last() + seq![WireStep::Message(i)]) + wire_plan(ms, i + 1));
            }
            i += 1;
        } else {
            proof {
                lemma_run_end(ms, i as int);
            }
            let start = i;
            let ghost before = r@;
            let mut any_images = false;
            while i < messages.len()
                invariant
                    ms == messages@,
                    start <= i <= ms.len(),
                    i <= run_end(ms, start as int),
                    start < run_end(ms, start as int) <= ms.len(),
                    forall|k: int| start <= k < run_end(ms, start as int) ==> is_tool_result(#[trigger] ms[k]),
                    run_end(ms, start as int) < ms.len() ==> !is_tool_result(ms[run_end(ms, start as int)]),
                    r@ == before + tool_steps(start as int, i as int),
                    any_images == run_has_images(ms, start as int, i as int),
                ensures
                    ms == messages@,
                    start <= i <= ms.len(),
                    i == run_end(ms, start as int),
                    r@ == before + tool_steps(start as int, i as int),
                    any_images == run_has_images(ms, start as int, i as int),
                decreases ms.len() - i,
            {
                let more = match &messages[i] {
                    Message::ToolResult { images, .. } => Some(images.len() > 0),
                    _ => None,
                };
                match more {
                    None => {
                        proof {
                            assert(!is_tool_result(ms[i as int]));
                        }
                        break;
                    },
                    Some(has) => {
                        proof {
                            assert(tool_steps(start as int, i + 1) =~= tool_steps(start as int, i as int).push(WireStep::ToolResponse(i)));
                            if has {
                                assert(run_has_images(ms, start as int, i + 1));
                            } else {
                                assert(run_has_images(ms, start as int, i + 1) == run_has_images(ms, start as int, i as int));
                            }
                        }
                        any_images = any_images || has;
                        r.push(WireStep::ToolResponse(i));
                        i += 1;
                    },
                }
            }
            proof {
                assert(i == run_end(ms, start as int));
            }
            if any_images {
                r.push(WireStep::Attachments { start, end: i });
            }
            proof {
                let e = i as int;
                assert(wire_plan(ms, start as int) == wire_run(ms, start as int));
                let mid = if run_has_images(ms, start as int, e) {
                    seq![WireStep::Attachments { start: start, end: i }]
                } else {
                    Seq::empty()
                };
                assert(r@ == before + tool_steps(start as int, e) + mid);
                assert(before + (tool_steps(start as int, e) + mid + wire_plan(ms, e))
                    =~= (before + tool_steps(start as int, e) + mid) + wire_plan(ms, e));
            }
        }
    }
    proof {
        assert(r@ + wire_plan(ms, i as int) =~= r@);
    }
    r
}

/// The labels of the images of one tool result: `call_id: a, b`.
pub open spec fn result_labels(m: Message) -> Seq<char> {
    match m {
        Message::ToolResult { call_id, images, .. } => call_id@ + ": "@
            + join(images@.map_values(|i: ImagePart| i.label@), ", "@),
        _ => Seq::empty(),
    }
}

/// The labels of the image-bearing tool results among `ms[start..end]`,
/// in order.
pub open spec fn run_labels(ms: Seq<Message>, start: int, end: int) -> Seq<Seq<char>>
    decreases end - start,
{
    if end <= start {
        Seq::empty()
    } else {
        run_labels(ms, start, end - 1) + if carries_images(ms[end - 1]) {
            seq![result_labels(ms[end - 1])]
        } else {
            Seq::empty()
        }
    }
}

/// The text that introduces a run's hoisted images.
pub open spec fn attachments_text(ms: Seq<Message>, start: int, end: int) -> Seq<char> {
    "[tool attachments: "@ + join(run_labels(ms, start, end), "; "@) + "]"@
}

fn labels_of(images: &Vec<ImagePart>) -> (r: Vec<String>)
    ensures
        crate::text::views(r@) == images@.map_values(|i: ImagePart| i.label@),
{
    let mut r: Vec<String> = Vec::new();
    let mut k: usize = 0;
    while k < images.len()
        invariant
            k <= images.len(),
            crate::text::views(r@) =~= images@.take(k as int).map_values(|i: ImagePart| i.label@),
        decreases images.len() - k,
    {
        let l = images[k].label.clone();
        proof {
            assert(crate::text::views(r@.push(l)) =~= crate::text::views(r@).push(l@));
            assert(images@.take(k + 1).map_values(|i: ImagePart| i.label@)
                =~= images@.take(k as int).map_values(|i: ImagePart| i.label@).push(images@[k as int].label@));
        }
        r.push(l);
        k += 1;
    }
    assert(images@.take(images.len() as int) =~= images@);
    r
}

/// The text that introduces the hoisted images of the tool results
/// `messages[start..end]`.
pub fn attachments_intro(messages: &Vec<Message>, start: usize, end: usize) -> (r: String)
    requires
        start <= end <= messages@.len(),
    ensures
        r@ == attachments_text(messages@, start as int, end as int),
{
    let mut parts: Vec<String> = Vec::new();
    let mut i: usize = start;
    while i < end
        invariant
            start <= i <= end <= messages@.len(),
            crate::text::views(parts@) == run_labels(messages@, start as int, i as int),
        decreases end - i,
    {
        match &messages[i] {
            Message::ToolResult { call_id, images, .. } => {
                if images.len() > 0 {
                    let mut one = call_id.clone();
                    one.append(": ");
                    crate::text::push_joined(&mut one, &labels_of(images), ", ");
                    proof {
                        assert(crate::text::views(parts@.push(one)) =~= crate::text::views(parts@).push(one@));
                    }
                    parts.push(one);
                }
            },
            _ => {},
        }
        i += 1;
    }
    let mut r = owned("[tool attachments: ");
    crate::text::push_joined(&mut r, &parts, "; ");
    r.append("]");
    r
}

/// The message indices a list of steps sends, in order (attachments
/// steps add none of their own).
pub open spec fn covered(steps: Seq<WireStep>) -> Seq<int>
    decreases steps.len(),
{
    if steps.len() == 0 {
        Seq::empty()
    } else {
        (match steps[0] {
            WireStep::Message(i) => seq![i as int],
            WireStep::ToolResponse(i) => seq![i as int],
            WireStep::Attachments { .. } => Seq::empty(),
        }) + covered(steps.drop_first())
    }
}

/// The indices `from..to`.
pub open spec fn index_range(from: int, to: int) -> Seq<int> {
    Seq::new(if to > from { (to - from) as nat } else { 0 }, |k: int| from + k)
}

proof fn lemma_covered_concat(a: Seq<WireStep>, b: Seq<WireStep>)
    ensures
        covered(a + b) == covered(a) + covered(b),
    decreases a.len(),
{
    if a.len() == 0 {
        assert(a + b =~= b);
    } else {
        lemma_covered_concat(a.drop_first(), b);
        assert((a + b).drop_first() =~= a.drop_first() + b);
        assert((a + b)[0] == a[0]);
    }
}

proof fn lemma_covered_tool_steps(from: int, to: int)
    requires
        0 <= from <= to,
        to <= usize::MAX + 1,
    ensures
        covered(tool_steps(from, to)) == index_range(from, to),
    decreases to - from,
{
    if from < to {
        lemma_covered_tool_steps(from + 1, to);
        assert(tool_steps(from, to).drop_first() =~= tool_steps(from + 1, to));
        assert(index_range(from, to) =~= seq![from] + index_range(from + 1, to));
    } else {
        assert(covered(tool_steps(from, to)) =~= Seq::<int>::empty());
        assert(index_range(from, to) =~= Seq::<int>::empty());
    }
}

proof fn lemma_covered_plan(ms: Seq<Message>, i: int)
    requires
        0 <= i <= ms.len(),
        ms.len() <= usize::MAX,
    ensures
        covered(wire_plan(ms, i)) == index_range(i, ms.len() as int),
    decreases ms.len() - i,
{
    if i == ms.len() {
        assert(covered(wire_plan(ms, i)) =~= Seq::<int>::empty());
        assert(index_range(i, ms.len() as int) =~= Seq::<int>::empty());
    } else if !is_tool_result(ms[i]) {
        lemma_covered_plan(ms, i + 1);
        lemma_covered_concat(seq![WireStep::Message(i as usize)], wire_plan(ms, i + 1));
        assert(seq![WireStep::Message(i as usize)].drop_first() =~= Seq::<WireStep>::empty());
        assert(covered(Seq::<WireStep>::empty()) == Seq::<int>::empty());
        assert(covered(seq![WireStep::Message(i as usize)]) =~= seq![i]);
        assert(index_range(i, ms.len() as int) =~= seq![i] + index_range(i + 1, ms.len() as int));
    } else {
        lemma_run_end(ms, i);
        let e = run_end(ms, i);
        lemma_covered_plan(ms, e);
        lemma_covered_tool_steps(i, e);
        let mid: Seq<WireStep> = if run_has_images(ms, i, e) {
            seq![WireStep::Attachments { start: i as usize, end: e as usize }]
        } else {
            Seq::empty()
        };
        lemma_covered_concat(tool_steps(i, e), mid);
        lemma_covered_concat(tool_steps(i, e) + mid, wire_plan(ms, e));
        lemma_run_end(ms, i + 1);
        assert(e == run_end(ms, i + 1));
        assert(wire_plan(ms, i) == wire_run(ms, i));
        assert(wire_plan(ms, i) == tool_steps(i, e) + mid + wire_plan(ms, e));
        if run_has_images(ms, i, e) {
            assert(mid.drop_first() =~= Seq::<WireStep>::empty());
            assert(covered(Seq::<WireStep>::empty()) == Seq::<int>::empty());
        }
        assert(covered(mid) =~= Seq::<int>::empty());
        assert(index_range(i, ms.len() as int) =~= index_range(i, e) + index_range(e, ms.len() as int));
    }
}

/// Wire-order law: the Chat Completions history sends every message
/// exactly once, in conversation order; hoisting images adds steps but
/// never moves or drops a message.
pub proof fn wire_plan_sends_every_message_in_order(ms: Seq<Message>)
    requires
        ms.len() <= usize::MAX,
    ensures
        covered(wire_plan(ms, 0)) == index_range(0, ms.len() as int),
{
    lemma_covered_plan(ms, 0);
}

/// Every attachments step of `steps` closes a whole run of tool results:
/// it comes right after the tool responses of that run, in order, and the
/// run is not cut short (the message after it is no tool result).
pub open spec fn hoisted_after_whole_runs(ms: Seq<Message>, steps: Seq<WireStep>) -> bool {
    forall|p: int| #![trigger steps[p]] 0 <= p < steps.len() && steps[p] is Attachments ==> {
        let s = steps[p]->Attachments_start as int;
        let e = steps[p]->Attachments_end as int;
        &&& s < e <= ms.len()
        &&& e - s <= p
        &&& forall|j: int| 0 <= j < e - s ==> #[trigger] steps[p - (e - s) + j] == WireStep::ToolResponse((s + j) as usize)
        &&& forall|k: int| s <= k < e ==> is_tool_result(#[trigger] ms[k])
        &&& e < ms.len() ==> !is_tool_result(ms[e])
    }
}

proof fn lemma_hoisting(ms: Seq<Message>, i: int)
    requires
        0 <= i <= ms.len(),
        ms.len() <= usize::MAX,
    ensures
        hoisted_after_whole_runs(ms, wire_plan(ms, i)),
    decreases ms.len() - i,
{
    let plan = wire_plan(ms, i);
    if i == ms.len() {
    } else if !is_tool_result(ms[i]) {
        lemma_hoisting(ms, i + 1);
        let rest = wire_plan(ms, i + 1);
        let head = seq![WireStep::Message(i as usize)];
        assert(plan == head + rest);
        assert forall|p: int| #![trigger plan[p]] 0 <= p < plan.len() && plan[p] is Attachments implies {
            let s = plan[p]->Attachments_start as int;
            let e = plan[p]->Attachments_end as int;
            &&& s < e <= ms.len()
            &&& e - s <= p
            &&& forall|j: int| 0 <= j < e - s ==> #[trigger] plan[p - (e - s) + j] == WireStep::ToolResponse((s + j) as usize)
            &&& forall|k: int| s <= k < e ==> is_tool_result(#[trigger] ms[k])
            &&& e < ms.len() ==> !is_tool_result(ms[e])
        } by {
            assert(p >= 1);
            assert(plan[p] == rest[p - 1]);
            let s = plan[p]->Attachments_start as int;
            let e = plan[p]->Attachments_end as int;
            assert forall|j: int| 0 <= j < e - s implies #[trigger] plan[p - (e - s) + j] == WireStep::ToolResponse((s + j) as usize) by {
                assert(rest[(p - 1) - (e - s) + j] == WireStep::ToolResponse((s + j) as usize));
                assert(plan[p - (e - s) + j] == rest[(p - 1) - (e - s) + j]);
            }
        }
    } else {
        lemma_run_end(ms, i);
        let e0 = run_end(ms, i);
        lemma_run_end(ms, i + 1);
        assert(e0 == run_end(ms, i + 1));
        lemma_hoisting(ms, e0);
        let t = tool_steps(i, e0);
        let mid: Seq<WireStep> = if run_has_images(ms, i, e0) {
            seq![WireStep::Attachments { start: i as usize, end: e0 as usize }]
        } else {
            Seq::empty()
        };
        let rest = wire_plan(ms, e0);
        assert(plan == wire_run(ms, i));
        assert(plan == t + mid + rest);
        let n = t.len() + mid.len();
        assert forall|p: int| #![trigger plan[p]] 0 <= p < plan.len() && plan[p] is Attachments implies {
            let s = plan[p]->Attachments_start as int;
            let e = plan[p]->Attachments_end as int;
            &&& s < e <= ms.len()
            &&& e - s <= p
            &&& forall|j: int| 0 <= j < e - s ==> #[trigger] plan[p - (e - s) + j] == WireStep::ToolResponse((s + j) as usize)
            &&& forall|k: int| s <= k < e ==> is_tool_result(#[trigger] ms[k])
            &&& e < ms.len() ==> !is_tool_result(ms[e])
        } by {
            if p < t.len() {
                assert(plan[p] == t[p]);
                assert(false);
            } else if p < n {
                assert(plan[p] == mid[p - t.len()]);
                assert(mid.len() == 1);
                assert(plan[p] == WireStep::Attachments { start: i as usize, end: e0 as usize });
                assert forall|j: int| 0 <= j < e0 - i implies #[trigger] plan[p - (e0 - i) + j] == WireStep::ToolResponse((i + j) as usize) by {
                    assert(plan[j] == t[j]);
                }
            } else {
                assert(plan[p] == rest[p - n]);
                let s = plan[p]->Attachments_start as int;
                let e = plan[p]->Attachments_end as int;
                assert forall|j: int| 0 <= j < e - s implies #[trigger] plan[p - (e - s) + j] == WireStep::ToolResponse((s + j) as usize) by {
                    assert(rest[(p - n) - (e - s) + j] == WireStep::ToolResponse((s + j) as usize));
                    assert(plan[p - (e - s) + j] == rest[(p - n) - (e - s) + j]);
                }
            }
        }
    }
}

/// Hoisting law: image attachments are sent only after the entire
/// contiguous run of tool results they came from, directly after that
/// run's tool responses in order, so no user message ever splits the tool
/// responses of one assistant turn.
pub proof fn attachments_follow_whole_tool_runs(ms: Seq<Message>)
    requires
        ms.len() <= usize::MAX,
    ensures
        hoisted_after_whole_runs(ms, wire_plan(ms, 0)),
{
    lemma_hoisting(ms, 0);
}

/// The Base64 digit for the six-bit value `v`.
pub open spec fn b64_digit(v: int) -> char {
    "ABCDEFGHIJKLMNOPQRSTUVWXYZabcdefghijklmnopqrstuvwxyz0123456789+/"@[v % 64]
}

/// The standard (padded) Base64 encoding of `data`: each group of three
/// bytes, read as a 24-bit number, becomes four digits of six bits each;
/// a last group of one or two bytes is zero-filled and padded with `=`.
pub open spec fn base64_standard(data: Seq<u8>) -> Seq<char>
    decreases data.len(),
{
    if data.len() == 0 {
        Seq::empty()
    } else if data.len() == 1 {
        let n = data[0] * 65536;
        seq![b64_digit(n / 262144), b64_digit(n / 4096), '=', '=']
    } else if data.len() == 2 {
        let n = data[0] * 65536 + data[1] * 256;
        seq![b64_digit(n / 262144), b64_digit(n / 4096), b64_digit(n / 64), '=']
    } else {
        let n = data[0] * 65536 + data[1] * 256 + data[2];
        seq![b64_digit(n / 262144), b64_digit(n / 4096), b64_digit(n / 64), b64_digit(n)]
            + base64_standard(data.skip(3))
    }
}

/// `base64::engine::general_purpose::STANDARD.encode`: the standard
/// alphabet with `=` padding, as `base64_standard` states it.
#[verifier::external_body]
fn encode_base64(data: &Vec<u8>) -> (r: String)
    ensures
        r@ == base64_standard(data@),
{
    base64::Engine::encode(&base64::engine::general_purpose::STANDARD, data.as_slice())
}

/// The data URL an image travels as: raw bytes become Base64 here, at the
/// wire boundary, and nowhere earlier.
pub fn image_data_url(image: &ImagePart) -> (r: String)
    ensures
        r@ == "data:"@ + image.media_type@ + ";base64,"@ + base64_standard(image.data@),
{
    let mut r = owned("data:");
    r.append(image.media_type.as_str());
    r.append(";base64,");
    let encoded = encode_base64(&image.data);
    r.append(encoded.as_str());
    r
}

/// The Settings liveness summary for `count` installed models.
pub open spec fn connection_text(count: nat) -> Seq<char> {
    if count == 0 {
        "Connected."@
    } else if count == 1 {
        "Connected · 1 model available."@
    } else {
        "Connected · "@ + crate::text::dec(count) + " models available."@
    }
}

/// The Settings liveness summary for `count` installed models.
pub fn connection_summary(count: usize) -> (r: String)
    ensures
        r@ == connection_text(count as nat),
{
    if count == 0 {
        owned("Connected.")
    } else if count == 1 {
        owned("Connected · 1 model available.")
    } else {
        let mut r = owned("Connected · ");
        crate::text::push_dec(&mut r, count as u64);
        r.append(" models available.");
        r
    }
}

/// `s` without its trailing `/` characters.
pub open spec fn without_trailing_slashes(s: Seq<char>) -> Seq<char>
    decreases s.len(),
{
    if s.len() > 0 && s.last() == '/' { without_trailing_slashes(s.drop_last()) } else { s }
}

/// An endpoint root without trailing slashes, so paths append cleanly.
pub fn endpoint_root(base_url: &str) -> (r: String)
    ensures
        r@ == without_trailing_slashes(base_url@),
{
    let chars = char_vec(base_url);
    let mut end: usize = chars.len();
    proof {
        assert(chars@.take(chars@.len() as int) =~= chars@);
    }
    while end > 0 && chars[end - 1] == '/'
        invariant
            end <= chars@.len(),
            without_trailing_slashes(chars@) == without_trailing_slashes(chars@.take(end as int)),
        decreases end,
    {
        proof {
            assert(chars@.take(end as int).drop_last() =~= chars@.take(end - 1));
        }
        end -= 1;
    }
    proof {
        assert(chars@.subrange(0, end as int) =~= chars@.take(end as int));
    }
    string_of(&chars, 0, end)
}

/// The data URL an image travels as.
pub open spec fn data_url(image: ImagePart) -> Seq<char> {
    "data:"@ + image.media_type@ + ";base64,"@ + base64_standard(image.data@)
}

/// A content part carrying one image.
pub open spec fn image_url_json(image: ImagePart) -> JsonView {
    JsonView::Object(seq![
        ("type"@, JsonView::Str("image_url"@)),
        ("image_url"@, JsonView::Object(seq![("url"@, JsonView::Str(data_url(image)))])),
    ])
}

/// A content part carrying text.
pub open spec fn text_part_json(text: Seq<char>) -> JsonView {
    JsonView::Object(seq![("type"@, JsonView::Str("text"@)), ("text"@, JsonView::Str(text))])
}

/// A tool call an assistant message made.
pub open spec fn tool_call_json(c: ToolCall) -> JsonView {
    JsonView::Object(seq![
        ("id"@, JsonView::Str(c.id@)),
        ("type"@, JsonView::Str("function"@)),
        ("function"@, JsonView::Object(seq![("name"@, JsonView::Str(c.name@)), ("arguments"@, JsonView::Str(c.arguments@))])),
    ])
}

/// The `role=tool` response to call `call_id`.
pub open spec fn tool_response_json(call_id: Seq<char>, content: Seq<char>) -> JsonView {
    JsonView::Object(seq![
        ("role"@, JsonView::Str("tool"@)),
        ("tool_call_id"@, JsonView::Str(call_id)),
        ("content"@, JsonView::Str(content)),
    ])
}

/// A message with a role and plain text content.
pub open spec fn role_text_json(role: Seq<char>, content: Seq<char>) -> JsonView {
    JsonView::Object(seq![("role"@, JsonView::Str(role)), ("content"@, JsonView::Str(content))])
}

/// One history message on the Chat Completions wire: user text with images
/// becomes content parts (text first), plain user text stays a string, and
/// an assistant turn lists its tool calls when it made any.
pub open spec fn message_json(m: Message) -> JsonView {
    match m {
        Message::System { content } => role_text_json("system"@, content@),
        Message::User { content, images } => if images@.len() == 0 {
            role_text_json("user"@, content@)
        } else {
            JsonView::Object(seq![
                ("role"@, JsonView::Str("user"@)),
                ("content"@, JsonView::Array(seq![text_part_json(content@)] + images@.map_values(|i: ImagePart| image_url_json(i)))),
            ])
        },
        Message::Assistant { content, tool_calls } => if tool_calls@.len() == 0 {
            role_text_json("assistant"@, content@)
        } else {
            JsonView::Object(seq![
                ("role"@, JsonView::Str("assistant"@)),
                ("content"@, JsonView::Str(content@)),
                ("tool_calls"@, JsonView::Array(tool_calls@.map_values(|c: ToolCall| tool_call_json(c)))),
            ])
        },
        Message::ToolResult { call_id, content, .. } => tool_response_json(call_id@, content@),
    }
}

/// The images of the tool results among `ms[start..end]`, in order.
pub open spec fn run_images(ms: Seq<Message>, start: int, end: int) -> Seq<ImagePart>
    decreases end - start,
{
    if end <= start {
        Seq::empty()
    } else {
        run_images(ms, start, end - 1) + match ms[end - 1] {
            Message::ToolResult { images, .. } => images@,
            _ => Seq::empty(),
        }
    }
}

/// One planned wire message.
pub open spec fn step_json(ms: Seq<Message>, step: WireStep) -> JsonView {
    match step {
        WireStep::Message(i) => if i < ms.len() { message_json(ms[i as int]) } else { JsonView::Null },
        WireStep::ToolResponse(i) => if i < ms.len() && ms[i as int] is ToolResult {
            tool_response_json(ms[i as int]->ToolResult_call_id@, ms[i as int]->ToolResult_content@)
        } else {
            JsonView::Null
        },
        WireStep::Attachments { start, end } => if start <= end <= ms.len() {
            JsonView::Object(seq![
                ("role"@, JsonView::Str("user"@)),
                ("content"@, JsonView::Array(seq![text_part_json(attachments_text(ms, start as int, end as int))]
                    + run_images(ms, start as int, end as int).map_values(|i: ImagePart| image_url_json(i)))),
            ])
        } else {
            JsonView::Null
        },
    }
}

/// The Chat Completions `messages` array for `ms`.
pub open spec fn chat_messages_json(ms: Seq<Message>) -> Seq<JsonView> {
    wire_plan(ms, 0).map_values(|step: WireStep| step_json(ms, step))
}

fn image_part(image: &ImagePart) -> (r: Json)
    ensures
        jview(r) == image_url_json(*image),
{
    let url = image_data_url(image);
    json_object2("type", json_str("image_url"), "image_url", json_object1("url", json_str(url.as_str())))
}

fn role_text(role: &str, content: &str) -> (r: Json)
    ensures
        jview(r) == role_text_json(role@, content@),
{
    json_object2("role", json_str(role), "content", json_str(content))
}

fn tool_response(call_id: &str, content: &str) -> (r: Json)
    ensures
        jview(r) == tool_response_json(call_id@, content@),
{
    json_object3("role", json_str("tool"), "tool_call_id", json_str(call_id), "content", json_str(content))
}

/// `first` followed by the image parts of `images`.
fn parts_with_images(first: Json, images: &Vec<ImagePart>, into: &mut Vec<Json>)
    ensures
        values_view(final(into)@) == values_view(old(into)@) + seq![jview(first)]
            + images@.map_values(|i: ImagePart| image_url_json(i)),
{
    let ghost start = values_view(into@);
    let ghost g = jview(first);
    proof {
        assert(values_view(into@.push(first)) =~= values_view(into@).push(g));
    }
    into.push(first);
    let mut k: usize = 0;
    while k < images.len()
        invariant
            k <= images.len(),
            values_view(into@) =~= start + seq![g] + images@.take(k as int).map_values(|i: ImagePart| image_url_json(i)),
        decreases images.len() - k,
    {
        let part = image_part(&images[k]);
        proof {
            assert(values_view(into@.push(part)) =~= values_view(into@).push(jview(part)));
            assert(images@.take(k + 1).map_values(|i: ImagePart| image_url_json(i))
                =~= images@.take(k as int).map_values(|i: ImagePart| image_url_json(i)).push(image_url_json(images@[k as int])));
        }
        into.push(part);
        k += 1;
    }
    assert(images@.take(images.len() as int) =~= images@);
}

fn message_to_json(m: &Message) -> (r: Json)
    ensures
        jview(r) == message_json(*m),
{
    match m {
        Message::System { content } => role_text("system", content.as_str()),
        Message::User { content, images } => {
            if images.len() == 0 {
                role_text("user", content.as_str())
            } else {
                let mut parts: Vec<Json> = Vec::new();
                let text = json_object2("type", json_str("text"), "text", json_str(content.as_str()));
                parts_with_images(text, images, &mut parts);
                proof {
                    assert(values_view(Seq::<Json>::empty()) =~= Seq::<JsonView>::empty());
                    assert(values_view(parts@) =~= seq![text_part_json(content@)] + images@.map_values(|i: ImagePart| image_url_json(i)));
                }
                json_object2("role", json_str("user"), "content", json_array(parts))
            }
        },
        Message::Assistant { content, tool_calls } => {
            if tool_calls.len() == 0 {
                role_text("assistant", content.as_str())
            } else {
                let mut calls: Vec<Json> = Vec::new();
                let mut k: usize = 0;
                while k < tool_calls.len()
                    invariant
                        k <= tool_calls.len(),
                        values_view(calls@) =~= tool_calls@.take(k as int).map_values(|c: ToolCall| tool_call_json(c)),
                    decreases tool_calls.len() - k,
                {
                    let c = &tool_calls[k];
                    let function = json_object2("name", json_str(c.name.as_str()), "arguments", json_str(c.arguments.as_str()));
                    let one = json_object3("id", json_str(c.id.as_str()), "type", json_str("function"), "function", function);
                    proof {
                        assert(values_view(calls@.push(one)) =~= values_view(calls@).push(jview(one)));
                        assert(tool_calls@.take(k + 1).map_values(|c: ToolCall| tool_call_json(c))
                            =~= tool_calls@.take(k as int).map_values(|c: ToolCall| tool_call_json(c)).push(tool_call_json(tool_calls@[k as int])));
                    }
                    calls.push(one);
                    k += 1;
                }
                assert(tool_calls@.take(tool_calls.len() as int) =~= tool_calls@);
                json_object3("role", json_str("assistant"), "content", json_str(content.as_str()), "tool_calls", json_array(calls))
            }
        },
        Message::ToolResult { call_id, content, .. } => tool_response(call_id.as_str(), content.as_str()),
    }
}

fn attachments_json(messages: &Vec<Message>, start: usize, end: usize) -> (r: Json)
    requires
        start <= end <= messages@.len(),
    ensures
        jview(r) == step_json(messages@, WireStep::Attachments { start, end }),
{
    let intro = attachments_intro(messages, start, end);
    let mut parts: Vec<Json> = Vec::new();
    let text = json_object2("type", json_str("text"), "text", json_str(intro.as_str()));
    let ghost g = jview(text);
    parts.push(text);
    proof {
        assert(values_view(parts@) =~= seq![g]);
    }
    let mut i: usize = start;
    while i < end
        invariant
            start <= i <= end <= messages@.len(),
            values_view(parts@) =~= seq![g] + run_images(messages@, start as int, i as int).map_values(|x: ImagePart| image_url_json(x)),
        decreases end - i,
    {
        let ghost before = values_view(parts@);
        match &messages[i] {
            Message::ToolResult { images, .. } => {
                let mut k: usize = 0;
                while k < images.len()
                    invariant
                        k <= images.len(),
                        values_view(parts@) =~= before + images@.take(k as int).map_values(|x: ImagePart| image_url_json(x)),
                    decreases images.len() - k,
                {
                    let part = image_part(&images[k]);
                    proof {
                        assert(values_view(parts@.push(part)) =~= values_view(parts@).push(jview(part)));
                        assert(images@.take(k + 1).map_values(|x: ImagePart| image_url_json(x))
                            =~= images@.take(k as int).map_values(|x: ImagePart| image_url_json(x)).push(image_url_json(images@[k as int])));
                    }
                    parts.push(part);
                    k += 1;
                }
                assert(images@.take(images.len() as int) =~= images@);
                proof {
                    assert(run_images(messages@, start as int, i + 1) == run_images(messages@, start as int, i as int) + images@);
                    assert((run_images(messages@, start as int, i as int) + images@).map_values(|x: ImagePart| image_url_json(x))
                        =~= run_images(messages@, start as int, i as int).map_values(|x: ImagePart| image_url_json(x))
                            + images@.map_values(|x: ImagePart| image_url_json(x)));
                }
            },
            _ => {
                proof {
                    assert(run_images(messages@, start as int, i + 1) =~= run_images(messages@, start as int, i as int));
                }
            },
        }
        i += 1;
    }
    json_object2("role", json_str("user"), "content", json_array(parts))
}

/// The Chat Completions `messages` array for `messages`, one value per
/// planned step.
#[verifier::spinoff_prover]
pub fn chat_messages(messages: &Vec<Message>) -> (r: Vec<Json>)
    ensures
        values_view(r@) == chat_messages_json(messages@),
{
    let plan = plan_openai_messages(messages);
    let mut r: Vec<Json> = Vec::new();
    let mut k: usize = 0;
    while k < plan.len()
        invariant
            k <= plan.len(),
            plan@ == wire_plan(messages@, 0),
            values_view(r@) =~= plan@.take(k as int).map_values(|step: WireStep| step_json(messages@, step)),
        decreases plan.len() - k,
    {
        let one = match plan[k] {
            WireStep::Message(i) => if i < messages.len() { message_to_json(&messages[i]) } else { Json::Null },
            WireStep::ToolResponse(i) => {
                if i < messages.len() {
                    match &messages[i] {
                        Message::ToolResult { call_id, content, .. } => tool_response(call_id.as_str(), content.as_str()),
                        _ => Json::Null,
                    }
                } else {
                    Json::Null
                }
            },
            WireStep::Attachments { start, end } => {
                if start <= end && end <= messages.len() {
                    attachments_json(messages, start, end)
                } else {
                    Json::Null
                }
            },
        };
        proof {
            assert(jview(one) == step_json(messages@, plan@[k as int]));
            assert(values_view(r@.push(one)) =~= values_view(r@).push(jview(one)));
            assert(plan@.take(k + 1).map_values(|step: WireStep| step_json(messages@, step))
                =~= plan@.take(k as int).map_values(|step: WireStep| step_json(messages@, step)).push(step_json(messages@, plan@[k as int])));
        }
        r.push(one);
        k += 1;
    }
    assert(plan@.take(plan.len() as int) =~= plan@);
    r
}

/// A tool the request offers: its name, description and argument schema.
pub struct ToolDecl {
    pub name: String,
    pub description: String,
    pub parameters: Json,
}

/// A tool as a Chat Completions `tools` entry.
pub open spec fn chat_tool_json(t: ToolDecl) -> JsonView {
    JsonView::Object(seq![
        ("type"@, JsonView::Str("function"@)),
        ("function"@, JsonView::Object(seq![
            ("name"@, JsonView::Str(t.name@)),
            ("description"@, JsonView::Str(t.description@)),
            ("parameters"@, jview(t.parameters)),
        ])),
    ])
}

/// `Some(entry)` as one entry, `None` as none.
pub open spec fn optional_entry(e: Option<(Seq<char>, JsonView)>) -> Seq<(Seq<char>, JsonView)> {
    match e {
        Some(x) => seq![x],
        None => Seq::empty(),
    }
}

/// The OpenRouter provider pin, when an upstream order is set.
pub open spec fn provider_pin_json(extras: OpenAiCompatExtras) -> Option<(Seq<char>, JsonView)> {
    match extras.provider_order {
        Some(order) => if order@.len() > 0 {
            Some(("provider"@, JsonView::Object(seq![
                ("order"@, JsonView::Array(order@.map_values(|o: String| JsonView::Str(o@)))),
                ("allow_fallbacks"@, JsonView::Bool(extras.allow_fallbacks)),
            ])))
        } else {
            None
        },
        None => None,
    }
}

/// The entries the switched-on OpenRouter extras add to a request: usage
/// accounting, prompt caching (with the session id when there is one), and
/// the provider pin.
pub open spec fn extras_entries(extras: OpenAiCompatExtras, session_id: Option<Seq<char>>) -> Seq<(Seq<char>, JsonView)> {
    optional_entry(if extras.usage_accounting {
        Some(("usage"@, JsonView::Object(seq![("include"@, JsonView::Bool(true))])))
    } else {
        None
    })
    + optional_entry(if extras.prompt_caching {
        Some(("cache_control"@, JsonView::Object(seq![("type"@, JsonView::Str("ephemeral"@))])))
    } else {
        None
    })
    + optional_entry(match session_id {
        Some(id) => if extras.prompt_caching { Some(("session_id"@, JsonView::Str(id))) } else { None },
        None => None,
    })
    + optional_entry(provider_pin_json(extras))
}

/// A Chat Completions request: the model, streaming, the wire history;
/// usage in the final chunk when stream options are on; the tools when
/// there are any; and the entries of the switched-on OpenRouter extras.
pub open spec fn chat_body_json(
    model: Seq<char>,
    messages: Seq<Message>,
    tools: Seq<ToolDecl>,
    extras: OpenAiCompatExtras,
    session_id: Option<Seq<char>>,
    stream_options: bool,
) -> JsonView {
    JsonView::Object(
        seq![
            ("model"@, JsonView::Str(model)),
            ("stream"@, JsonView::Bool(true)),
            ("messages"@, JsonView::Array(chat_messages_json(messages))),
        ]
        + optional_entry(if stream_options {
            Some(("stream_options"@, JsonView::Object(seq![("include_usage"@, JsonView::Bool(true))])))
        } else {
            None
        })
        + optional_entry(if tools.len() > 0 {
            Some(("tools"@, JsonView::Array(tools.map_values(|t: ToolDecl| chat_tool_json(t)))))
        } else {
            None
        })
        + extras_entries(extras, session_id),
    )
}

fn provider_pin(extras: &OpenAiCompatExtras) -> (r: Option<Json>)
    ensures
        match provider_pin_json(*extras) {
            Some(e) => r matches Some(j) && e.0 == "provider"@ && jview(j) == e.1,
            None => r is None,
        },
{
    match &extras.provider_order {
        Some(order) => {
            if order.len() > 0 {
                let mut names: Vec<Json> = Vec::new();
                let mut k: usize = 0;
                while k < order.len()
                    invariant
                        k <= order@.len(),
                        values_view(names@) =~= order@.take(k as int).map_values(|o: String| JsonView::Str(o@)),
                    decreases order@.len() - k,
                {
                    let one = json_str(order[k].as_str());
                    proof {
                        assert(order@.take(k + 1).map_values(|o: String| JsonView::Str(o@))
                            =~= order@.take(k as int).map_values(|o: String| JsonView::Str(o@)).push(JsonView::Str(order@[k as int]@)));
                    }
                    push_value(&mut names, one);
                    k += 1;
                }
                assert(order@.take(order@.len() as int) =~= order@);
                Some(json_object2("order", json_array(names), "allow_fallbacks", Json::Bool(extras.allow_fallbacks)))
            } else {
                None
            }
        },
        None => None,
    }
}

fn push_extras(es: &mut Vec<(String, Json)>, extras: &OpenAiCompatExtras, session_id: Option<&str>)
    ensures
        entries_view(final(es)@) == entries_view(old(es)@)
            + extras_entries(*extras, match session_id { Some(s) => Some(s@), None => None }),
{
    let ghost start = entries_view(es@);
    if extras.usage_accounting {
        push_entry(es, "usage", json_object1("include", Json::Bool(true)));
    }
    let ghost a = entries_view(es@);
    if extras.prompt_caching {
        push_entry(es, "cache_control", json_object1("type", json_str("ephemeral")));
    }
    let ghost b = entries_view(es@);
    if extras.prompt_caching {
        if let Some(id) = session_id {
            push_entry(es, "session_id", json_str(id));
        }
    }
    let ghost c = entries_view(es@);
    if let Some(pin) = provider_pin(extras) {
        push_entry(es, "provider", pin);
    }
    proof {
        let sid = match session_id { Some(s) => Some(s@), None => None::<Seq<char>> };
        assert(entries_view(es@) =~= start + extras_entries(*extras, sid));
    }
}

fn chat_tools(tools: Vec<ToolDecl>) -> (r: Vec<Json>)
    ensures
        values_view(r@) == tools@.map_values(|t: ToolDecl| chat_tool_json(t)),
{
    let ghost orig = tools@;
    let total = tools.len();
    let mut rest = tools;
    let mut out: Vec<Json> = Vec::new();
    let mut i: usize = 0;
    while rest.len() > 0
        invariant
            i + rest@.len() == orig.len(),
            orig.len() == total,
            rest@ == orig.skip(i as int),
            values_view(out@) =~= orig.take(i as int).map_values(|t: ToolDecl| chat_tool_json(t)),
        decreases rest@.len(),
    {
        let t = rest.remove(0);
        proof {
            assert(t == orig[i as int]);
        }
        let ghost tv = chat_tool_json(t);
        let function = json_object3(
            "name", json_str(t.name.as_str()),
            "description", json_str(t.description.as_str()),
            "parameters", t.parameters,
        );
        let one = json_object2("type", json_str("function"), "function", function);
        proof {
            assert(jview(one) == tv);
            assert(orig.take(i + 1).map_values(|t: ToolDecl| chat_tool_json(t))
                =~= orig.take(i as int).map_values(|t: ToolDecl| chat_tool_json(t)).push(tv));
        }
        push_value(&mut out, one);
        i += 1;
        proof {
            assert(rest@ =~= orig.skip(i as int));
        }
    }
    assert(orig.take(i as int) =~= orig);
    out
}

/// The JSON body of a Chat Completions request.
#[verifier::spinoff_prover]
pub fn chat_request_body(
    model: &str,
    messages: &Vec<Message>,
    tools: Vec<ToolDecl>,
    extras: &OpenAiCompatExtras,
    session_id: Option<&str>,
    stream_options: bool,
) -> (r: Json)
    ensures
        jview(r) == chat_body_json(
            model@,
            messages@,
            tools@,
            *extras,
            match session_id { Some(s) => Some(s@), None => None },
            stream_options,
        ),
{
    let ghost tools_in = tools@;
    let mut es: Vec<(String, Json)> = Vec::new();
    push_entry(&mut es, "model", json_str(model));
    push_entry(&mut es, "stream", Json::Bool(true));
    push_entry(&mut es, "messages", json_array(chat_messages(messages)));
    let ghost base = entries_view(es@);
    if stream_options {
        push_entry(&mut es, "stream_options", json_object1("include_usage", Json::Bool(true)));
    }
    let ghost after_stream = entries_view(es@);
    if tools.len() > 0 {
        push_entry(&mut es, "tools", json_array(chat_tools(tools)));
    }
    let ghost after_tools = entries_view(es@);
    push_extras(&mut es, extras, session_id);
    proof {
        let sid = match session_id { Some(s) => Some(s@), None => None::<Seq<char>> };
        let spec = chat_body_json(model@, messages@, tools_in, *extras, sid, stream_options);
        assert(entries_view(es@) =~= after_tools + extras_entries(*extras, sid));
        assert(spec->Object_0 =~= entries_view(es@));
    }
    json_object(es)
}

/// Extras law: with every OpenRouter extra off (a plain OpenAI-compatible
/// endpoint), a request carries no usage accounting, caching, session id
/// or provider pin.
pub proof fn plain_endpoints_send_no_openrouter_extras(extras: OpenAiCompatExtras, session_id: Option<Seq<char>>)
    requires
        !extras.usage_accounting,
        !extras.prompt_caching,
        extras.provider_order is None,
    ensures
        extras_entries(extras, session_id) == Seq::<(Seq<char>, JsonView)>::empty(),
{
    assert(extras_entries(extras, session_id) =~= Seq::<(Seq<char>, JsonView)>::empty());
}

} // verus!
