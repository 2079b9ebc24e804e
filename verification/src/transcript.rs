//! Keep the in-flight and session-history transcripts bounded: image
//! budgets (newest images win), labeled placeholders for dropped images,
//! and the text-only slice of a turn that session history keeps.

use vstd::prelude::*;
use crate::provider::{ImagePart, Message};
use crate::text::owned;

verus! {

/// The sum of `sizes`.
pub open spec fn byte_sum(sizes: Seq<usize>) -> int
    decreases sizes.len(),
{
    if sizes.len() == 0 {
        0
    } else {
        byte_sum(sizes.drop_last()) + sizes.last()
    }
}

/// The encoded byte size of each image, in order.
pub open spec fn sizes_of(images: Seq<ImagePart>) -> Seq<usize> {
    images.map_values(|im: ImagePart| im.data@.len() as usize)
}

/// `x` clamped to `usize::MAX`: what a saturating `usize` sum of `x` holds.
pub open spec fn saturated(x: int) -> int {
    if x > usize::MAX { usize::MAX as int } else { x }
}

/// After dropping the oldest `k` of the attachments sized `sizes`, the
/// budget tracking (total summed saturating, dropped sizes subtracted
/// saturating) reports both limits met.
pub open spec fn fits_budget(sizes: Seq<usize>, k: int, max_images: int, max_bytes: int) -> bool {
    &&& sizes.len() - k <= max_images
    &&& saturated(byte_sum(sizes)) - byte_sum(sizes.take(k)) <= max_bytes
}

/// `k` is the number of oldest attachments the budget drops: the least
/// count after which both limits are met.
pub open spec fn budget_cut(sizes: Seq<usize>, k: int, max_images: int, max_bytes: int) -> bool {
    &&& 0 <= k <= sizes.len()
    &&& fits_budget(sizes, k, max_images, max_bytes)
    &&& forall|j: int| 0 <= j < k ==> !fits_budget(sizes, j, max_images, max_bytes)
}

/// One placeholder line per image: `opening`, the label, and `]`.
pub open spec fn placeholders(images: Seq<ImagePart>, opening: Seq<char>) -> Seq<char>
    decreases images.len(),
{
    if images.len() == 0 {
        Seq::empty()
    } else {
        placeholders(images.drop_last(), opening) + opening + images.last().label@ + "]"@
    }
}

/// The placeholder opening for an image dropped from a single tool output.
pub open spec fn over_budget_opening() -> Seq<char> {
    "\n[image not attached because it exceeded the request budget: "@
}

/// The placeholder opening for an image dropped from the request history.
pub open spec fn dropped_opening() -> Seq<char> {
    "\n[image no longer attached: "@
}

/// The placeholder opening for an image stripped from session history.
pub open spec fn stripped_opening() -> Seq<char> {
    "\n[image: "@
}

proof fn lemma_byte_sum_take(sizes: Seq<usize>, i: int)
    requires
        0 <= i < sizes.len(),
    ensures
        byte_sum(sizes.take(i + 1)) == byte_sum(sizes.take(i)) + sizes[i],
{
    assert(sizes.take(i + 1).drop_last() =~= sizes.take(i));
}

proof fn lemma_byte_sum_nonneg(sizes: Seq<usize>)
    ensures
        byte_sum(sizes) >= 0,
    decreases sizes.len(),
{
    if sizes.len() > 0 {
        lemma_byte_sum_nonneg(sizes.drop_last());
    }
}

/// The bytes of a sequence split into a prefix and the rest add up.
pub proof fn lemma_byte_sum_split(sizes: Seq<usize>, k: int)
    requires
        0 <= k <= sizes.len(),
    ensures
        byte_sum(sizes) == byte_sum(sizes.take(k)) + byte_sum(sizes.skip(k)),
    decreases sizes.len(),
{
    if k == sizes.len() {
        assert(sizes.take(k) =~= sizes);
        assert(sizes.skip(k) =~= Seq::<usize>::empty());
    } else {
        let d = sizes.drop_last();
        lemma_byte_sum_split(d, k);
        assert(d.take(k) =~= sizes.take(k));
        assert(sizes.skip(k).drop_last() =~= d.skip(k));
        assert(sizes.skip(k).last() == sizes.last());
    }
}

/// Appends one placeholder per image of `images`.
fn push_placeholders(content: &mut String, images: &Vec<ImagePart>, opening: &str)
    ensures
        final(content)@ == old(content)@ + placeholders(images@, opening@),
{
    let mut i: usize = 0;
    while i < images.len()
        invariant
            i <= images.len(),
            content@ == old(content)@ + placeholders(images@.take(i as int), opening@),
        decreases images.len() - i,
    {
        content.append(opening);
        content.append(images[i].label.as_str());
        content.append("]");
        proof {
            assert(images@.take(i + 1).drop_last() =~= images@.take(i as int));
        }
        i += 1;
    }
    assert(images@.take(images.len() as int) =~= images@);
}

/// The encoded byte size of each image.
fn image_sizes(images: &Vec<ImagePart>) -> (r: Vec<usize>)
    ensures
        r@ == sizes_of(images@),
{
    let mut r: Vec<usize> = Vec::new();
    let mut i: usize = 0;
    while i < images.len()
        invariant
            i <= images.len(),
            r@ =~= sizes_of(images@.take(i as int)),
        decreases images.len() - i,
    {
        r.push(images[i].data.len());
        i += 1;
    }
    assert(images@.take(images.len() as int) =~= images@);
    r
}

/// The saturating `usize` sum of `sizes`.
fn total_bytes(sizes: &Vec<usize>) -> (r: usize)
    ensures
        r == saturated(byte_sum(sizes@)),
{
    let mut total: usize = 0;
    let mut i: usize = 0;
    while i < sizes.len()
        invariant
            i <= sizes.len(),
            total == saturated(byte_sum(sizes@.take(i as int))),
        decreases sizes.len() - i,
    {
        proof {
            lemma_byte_sum_take(sizes@, i as int);
            lemma_byte_sum_nonneg(sizes@.take(i as int));
        }
        total = total.saturating_add(sizes[i]);
        i += 1;
    }
    assert(sizes@.take(sizes.len() as int) =~= sizes@);
    total
}

/// How many of the oldest attachments to drop so that at most
/// `max_images` remain and the remaining bytes, as tracked, are at most
/// `max_bytes`.
fn budget_drop_count(sizes: &Vec<usize>, max_images: usize, max_bytes: usize) -> (k: usize)
    ensures
        budget_cut(sizes@, k as int, max_images as int, max_bytes as int),
{
    let total = total_bytes(sizes);
    let mut count = sizes.len();
    let mut bytes = total;
    let mut k: usize = 0;
    while k < sizes.len()
        invariant
            k <= sizes.len(),
            count == sizes.len() - k,
            total == saturated(byte_sum(sizes@)),
            bytes as int == if total - byte_sum(sizes@.take(k as int)) < 0 { 0 } else {
                total - byte_sum(sizes@.take(k as int))
            },
            forall|j: int| 0 <= j < k ==> !fits_budget(sizes@, j, max_images as int, max_bytes as int),
        ensures
            k == sizes.len() || (count <= max_images && bytes <= max_bytes),
        decreases sizes.len() - k,
    {
        if count <= max_images && bytes <= max_bytes {
            break;
        }
        proof {
            lemma_byte_sum_take(sizes@, k as int);
        }
        count = count - 1;
        bytes = bytes.saturating_sub(sizes[k]);
        k += 1;
    }
    proof {
        if k == sizes.len() {
            assert(sizes@.take(k as int) =~= sizes@);
            lemma_byte_sum_nonneg(sizes@);
        }
    }
    k
}

/// Bound a single extensible tool result before it reaches either the
/// transcript or the request history. Count and encoded-byte limits both keep
/// the newest attachments, matching the whole-request policy.
pub fn enforce_tool_output_image_budget(
    content: &mut String,
    images: &mut Vec<ImagePart>,
    max_images: usize,
    max_bytes: usize,
)
    ensures
        exists|k: int| {
            &&& budget_cut(sizes_of(old(images)@), k, max_images as int, max_bytes as int)
            &&& final(images)@ == old(images)@.skip(k)
            &&& final(content)@ == old(content)@ + placeholders(old(images)@.take(k), over_budget_opening())
        },
{
    let sizes = image_sizes(images);
    let k = budget_drop_count(&sizes, max_images, max_bytes);
    let mut dropped = images.split_off(k);
    std::mem::swap(images, &mut dropped);
    assert(old(images)@.take(k as int) =~= dropped@);
    assert(old(images)@.skip(k as int) =~= images@);
    push_placeholders(content, &dropped, "\n[image not attached because it exceeded the request budget: ");
}

/// Budget law: when the attachments' total size fits in `usize`, the
/// attachments that survive the budget are the newest ones (a suffix), at
/// most `max_images` of them, holding at most `max_bytes` bytes in all.
pub proof fn budget_keeps_newest_within_limits(sizes: Seq<usize>, k: int, max_images: int, max_bytes: int)
    requires
        budget_cut(sizes, k, max_images, max_bytes),
        byte_sum(sizes) <= usize::MAX,
    ensures
        sizes.skip(k).len() <= max_images,
        byte_sum(sizes.skip(k)) <= max_bytes,
{
    lemma_byte_sum_split(sizes, k);
}

/// Session history is text-only: every image becomes a labeled
/// placeholder and the attachments are removed.
pub fn strip_images(content: &mut String, images: &mut Vec<ImagePart>)
    ensures
        final(images)@.len() == 0,
        final(content)@ == old(content)@ + placeholders(old(images)@, stripped_opening()),
{
    let mut taken: Vec<ImagePart> = Vec::new();
    std::mem::swap(images, &mut taken);
    push_placeholders(content, &taken, "\n[image: ");
}

/// The images a message carries (user messages and tool results).
pub open spec fn message_images(m: Message) -> Seq<ImagePart> {
    match m {
        Message::User { images, .. } => images@,
        Message::ToolResult { images, .. } => images@,
        _ => Seq::empty(),
    }
}

/// How many images a message carries.
pub fn image_count(message: &Message) -> (r: usize)
    ensures
        r == message_images(*message).len(),
{
    match message {
        Message::User { images, .. } => images.len(),
        Message::ToolResult { images, .. } => images.len(),
        _ => 0,
    }
}

/// All images of `messages`, oldest first.
pub open spec fn flat_images(messages: Seq<Message>) -> Seq<ImagePart>
    decreases messages.len(),
{
    if messages.len() == 0 {
        Seq::empty()
    } else {
        flat_images(messages.drop_last()) + message_images(messages.last())
    }
}

/// `new` is `old` with its oldest `d` images dropped and noted after its
/// text with `opening` placeholders; everything else is kept.
pub open spec fn dropped_from(old: Message, new: Message, d: int, opening: Seq<char>) -> bool {
    match old {
        Message::User { content, images } => new matches Message::User { content: c, images: i }
            && i@ == images@.skip(d) && c@ == content@ + placeholders(images@.take(d), opening),
        Message::ToolResult { call_id, content, images } =>
            new matches Message::ToolResult { call_id: id, content: c, images: i }
            && id@ == call_id@ && i@ == images@.skip(d)
            && c@ == content@ + placeholders(images@.take(d), opening),
        _ => new == old,
    }
}

/// How many of message `i`'s images fall among the first `k` of the
/// request, oldest first.
pub open spec fn dropped_in(messages: Seq<Message>, i: int, k: int) -> int {
    let start = flat_images(messages.take(i)).len() as int;
    let n = message_images(messages[i]).len() as int;
    if k <= start { 0 } else if k - start >= n { n } else { k - start }
}

fn drop_oldest(m: Message, d: usize, opening: &str) -> (r: Message)
    requires
        d <= message_images(m).len(),
    ensures
        dropped_from(m, r, d as int, opening@),
{
    match m {
        Message::User { content, images } => {
            let mut content = content;
            let mut dropped = images;
            let kept = dropped.split_off(d);
            push_placeholders(&mut content, &dropped, opening);
            proof {
                assert(images@.take(d as int) =~= dropped@);
                assert(images@.skip(d as int) =~= kept@);
            }
            Message::User { content, images: kept }
        },
        Message::ToolResult { call_id, content, images } => {
            let mut content = content;
            let mut dropped = images;
            let kept = dropped.split_off(d);
            push_placeholders(&mut content, &dropped, opening);
            proof {
                assert(images@.take(d as int) =~= dropped@);
                assert(images@.skip(d as int) =~= kept@);
            }
            Message::ToolResult { call_id, content, images: kept }
        },
        other => other,
    }
}

proof fn lemma_flat_take(messages: Seq<Message>, i: int)
    requires
        0 <= i < messages.len(),
    ensures
        flat_images(messages.take(i + 1)) == flat_images(messages.take(i)) + message_images(messages[i]),
{
    assert(messages.take(i + 1).drop_last() =~= messages.take(i));
}

/// The byte sizes of all images in `messages`, oldest first.
fn request_sizes(messages: &Vec<Message>) -> (r: Vec<usize>)
    ensures
        r@ == sizes_of(flat_images(messages@)),
{
    let mut r: Vec<usize> = Vec::new();
    let mut i: usize = 0;
    while i < messages.len()
        invariant
            i <= messages.len(),
            r@ =~= sizes_of(flat_images(messages@.take(i as int))),
        decreases messages.len() - i,
    {
        proof {
            lemma_flat_take(messages@, i as int);
        }
        let ghost before = r@;
        match &messages[i] {
            Message::User { images, .. } => {
                let more = image_sizes(images);
                let mut j: usize = 0;
                while j < more.len()
                    invariant
                        j <= more.len(),
                        r@ =~= before + more@.take(j as int),
                    decreases more.len() - j,
                {
                    r.push(more[j]);
                    j += 1;
                }
                assert(more@.take(more.len() as int) =~= more@);
            },
            Message::ToolResult { images, .. } => {
                let more = image_sizes(images);
                let mut j: usize = 0;
                while j < more.len()
                    invariant
                        j <= more.len(),
                        r@ =~= before + more@.take(j as int),
                    decreases more.len() - j,
                {
                    r.push(more[j]);
                    j += 1;
                }
                assert(more@.take(more.len() as int) =~= more@);
            },
            _ => {},
        }
        i += 1;
    }
    assert(messages@.take(messages.len() as int) =~= messages@);
    r
}

proof fn lemma_flat_prefix_len(messages: Seq<Message>, j: int)
    requires
        0 <= j <= messages.len(),
    ensures
        flat_images(messages.take(j)).len() <= flat_images(messages).len(),
    decreases messages.len() - j,
{
    if j == messages.len() {
        assert(messages.take(j) =~= messages);
    } else {
        lemma_flat_take(messages, j);
        lemma_flat_prefix_len(messages, j + 1);
    }
}

/// Of a message whose images are numbered `start..start + n` across the
/// request, how many fall among the first `k`.
fn images_to_drop(k: usize, start: usize, n: usize) -> (d: usize)
    ensures
        d == (if k <= start { 0 } else if k - start >= n { n as int } else { k - start }),
{
    if k <= start {
        0
    } else if k - start >= n {
        n
    } else {
        k - start
    }
}

/// Keep only the newest `max_images` images (and at most `max_bytes`
/// encoded bytes) across the request; older ones are dropped in place and
/// noted with a text placeholder carrying the label, so the model knows
/// what it saw and can re-request it.
#[verifier::spinoff_prover]
pub fn enforce_image_budget(messages: &mut Vec<Message>, max_images: usize, max_bytes: usize)
    ensures
        final(messages)@.len() == old(messages)@.len(),
        exists|k: int| {
            &&& budget_cut(sizes_of(flat_images(old(messages)@)), k, max_images as int, max_bytes as int)
            &&& forall|i: int| 0 <= i < old(messages)@.len() ==> dropped_from(
                #[trigger] old(messages)@[i],
                final(messages)@[i],
                dropped_in(old(messages)@, i, k),
                dropped_opening(),
            )
        },
{
    let sizes = request_sizes(messages);
    let k = budget_drop_count(&sizes, max_images, max_bytes);
    let ghost all = messages@;
    let total = sizes.len();
    proof {
        lemma_flat_prefix_len(all, 0);
    }
    let mut start: usize = 0;
    let mut i: usize = 0;
    while i < messages.len()
        invariant
            messages@.len() == all.len(),
            0 <= i <= all.len(),
            start as int == flat_images(all.take(i as int)).len(),
            flat_images(all).len() == total,
            forall|j: int| i <= j < all.len() ==> #[trigger] messages@[j] == all[j],
            forall|j: int| 0 <= j < i ==> dropped_from(
                #[trigger] all[j],
                messages@[j],
                dropped_in(all, j, k as int),
                dropped_opening(),
            ),
        decreases all.len() - i,
    {
        proof {
            lemma_flat_take(all, i as int);
            lemma_flat_prefix_len(all, i + 1);
        }
        let n = image_count(&messages[i]);
        let d = images_to_drop(k, start, n);
        let mut slot = Message::System { content: String::new() };
        std::mem::swap(&mut messages[i], &mut slot);
        let new = drop_oldest(slot, d, "\n[image no longer attached: ");
        messages.set(i, new);
        start = start + n;
        i += 1;
    }
    assert(i == all.len());
}

/// What a `describe_project` result says in session history.
pub open spec fn describe_placeholder() -> Seq<char> {
    "(project state omitted — see the current state in the system message)"@
}

/// Whether `id` is among `ids`.
pub open spec fn id_listed(ids: Seq<String>, id: Seq<char>) -> bool {
    exists|i: int| 0 <= i < ids.len() && (#[trigger] ids[i])@ == id
}

/// `new` is `old` as session history keeps it: images stripped to
/// labels, and a `describe_project` result (its call id among `ids`)
/// collapsed to the placeholder.
pub open spec fn kept_in_history(old: Message, new: Message, ids: Seq<String>) -> bool {
    match old {
        Message::User { content, images } => new matches Message::User { content: c, images: i }
            && i@.len() == 0 && c@ == content@ + placeholders(images@, stripped_opening()),
        Message::ToolResult { call_id, content, images } =>
            new matches Message::ToolResult { call_id: id, content: c, images: i }
            && id@ == call_id@ && i@.len() == 0
            && c@ == (if id_listed(ids, call_id@) { describe_placeholder() } else { content@ })
                + placeholders(images@, stripped_opening()),
        _ => new == old,
    }
}

fn is_listed(ids: &Vec<String>, id: &String) -> (r: bool)
    ensures
        r == id_listed(ids@, id@),
{
    let mut i: usize = 0;
    while i < ids.len()
        invariant
            i <= ids.len(),
            forall|j: int| 0 <= j < i ==> (#[trigger] ids@[j])@ != id@,
        decreases ids.len() - i,
    {
        if ids[i] == *id {
            return true;
        }
        i += 1;
    }
    false
}

fn history_entry(m: Message, ids: &Vec<String>) -> (r: Message)
    ensures
        kept_in_history(m, r, ids@),
{
    match m {
        Message::User { content, images } => {
            let mut content = content;
            let mut images = images;
            strip_images(&mut content, &mut images);
            Message::User { content, images }
        },
        Message::ToolResult { call_id, content, images } => {
            let mut content = if is_listed(ids, &call_id) {
                owned("(project state omitted — see the current state in the system message)")
            } else {
                content
            };
            let mut images = images;
            strip_images(&mut content, &mut images);
            Message::ToolResult { call_id, content, images }
        },
        other => other,
    }
}

/// This turn's slice of the conversation (`messages[turn_start..]`: the
/// user prompt plus every assistant/tool message the loop appended), with
/// the final text answer added, `describe_project` results collapsed to a
/// placeholder, and images stripped to labels (history is text-only).
#[verifier::spinoff_prover]
pub fn collect_turn_messages(
    messages: Vec<Message>,
    turn_start: usize,
    describe_call_ids: &Vec<String>,
    final_text: &str,
) -> (r: Vec<Message>)
    ensures
        ({
            let turn = if turn_start <= messages@.len() { messages@.skip(turn_start as int) } else { Seq::empty() };
            &&& r@.len() == turn.len() + if final_text@.len() == 0 { 0int } else { 1int }
            &&& forall|i: int| 0 <= i < turn.len() ==> kept_in_history(
                #[trigger] turn[i],
                r@[i],
                describe_call_ids@,
            )
            &&& final_text@.len() != 0 ==> (r@.last() matches Message::Assistant { content, tool_calls }
                && content@ == final_text@ && tool_calls@.len() == 0)
        }),
{
    let ghost all = messages@;
    let mut messages = messages;
    let mut r: Vec<Message> = Vec::new();
    let mut i: usize = turn_start;
    while i < messages.len()
        invariant
            messages@.len() == all.len(),
            turn_start <= i,
            i <= all.len() || r@.len() == 0,
            turn_start <= all.len() ==> r@.len() == i - turn_start,
            forall|j: int| i <= j < all.len() ==> #[trigger] messages@[j] == all[j],
            forall|j: int| 0 <= j < r@.len() ==> kept_in_history(
                #[trigger] all[turn_start + j],
                r@[j],
                describe_call_ids@,
            ),
        decreases all.len() - i,
    {
        let mut slot = Message::System { content: String::new() };
        std::mem::swap(&mut messages[i], &mut slot);
        r.push(history_entry(slot, describe_call_ids));
        i += 1;
    }
    proof {
        if turn_start <= all.len() {
            let turn = all.skip(turn_start as int);
            assert forall|j: int| 0 <= j < turn.len() implies kept_in_history(
                #[trigger] turn[j],
                r@[j],
                describe_call_ids@,
            ) by {
                assert(turn[j] == all[turn_start + j]);
            }
        }
    }
    let ghost before = r@;
    if !final_text.is_empty() {
        r.push(Message::Assistant { content: owned(final_text), tool_calls: Vec::new() });
        assert(forall|j: int| 0 <= j < before.len() ==> r@[j] == before[j]);
    }
    r
}

/// History law: session history is text-only; a message as history keeps
/// it carries no image, whatever the message held.
pub proof fn history_is_text_only(old: Message, new: Message, ids: Seq<String>)
    requires
        kept_in_history(old, new, ids),
    ensures
        message_images(new).len() == 0,
{
}

/// Budget law: attachments already within both limits are all kept.
pub proof fn budget_keeps_everything_within_limits(sizes: Seq<usize>, k: int, max_images: int, max_bytes: int)
    requires
        budget_cut(sizes, k, max_images, max_bytes),
        fits_budget(sizes, 0, max_images, max_bytes),
    ensures
        k == 0,
{
}

/// Request-budget law: a request whose images are within both limits
/// leaves every message as it was (no image dropped, no placeholder).
pub proof fn request_within_budget_is_untouched(messages: Seq<Message>, k: int, max_images: int, max_bytes: int)
    requires
        budget_cut(sizes_of(flat_images(messages)), k, max_images, max_bytes),
        fits_budget(sizes_of(flat_images(messages)), 0, max_images, max_bytes),
    ensures
        k == 0,
        forall|i: int| 0 <= i < messages.len() ==> #[trigger] dropped_in(messages, i, k) == 0,
{
    assert forall|i: int| 0 <= i < messages.len() implies #[trigger] dropped_in(messages, i, k) == 0 by {
        assert(flat_images(messages.take(i)).len() >= 0);
    }
}

} // verus!
