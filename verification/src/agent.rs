//! The agent loop's decisions: guardrail knobs, how a prompt ends, the
//! caps on edit, host and turn counts, phase breaks from
//! `commit_progress`, how a tool call is routed, which host and sense
//! tools are admitted next to the built-in vocabulary, and the
//! model-readable texts each outcome sends back.
//!
//! The loop itself (provider turns, engine and host dispatch) is driven by
//! the embedder; every decision it takes comes from here.

use vstd::prelude::*;
use crate::provider::{provider_error_text, FinishReason, ProviderError};
use crate::text::{
    char_vec, dec, join, owned, push_char, push_dec, push_joined, string_of, trim, trim_bounds,
    views,
};

verus! {

/// Guardrail knobs.
#[derive(Debug, Clone, Copy, PartialEq, Eq, Structural)]
pub struct AgentConfig {
    /// Hard cap on edit-tool calls per prompt (the runaway-loop fuse).
    /// Reaching it does not fail the prompt: over-cap edits are refused
    /// and the run completes keeping the edits already applied.
    pub max_tool_calls: usize,
    /// Hard cap on host-tool calls per prompt.
    pub max_host_calls: usize,
    /// Hard cap on provider turns per prompt.
    pub max_turns: usize,
    /// Hard cap on images carried by one request, newest kept.
    pub max_images: usize,
    /// Hard cap on total encoded image bytes carried by one request.
    pub max_image_bytes: usize,
    /// Validate and collect the plan without applying anything.
    pub dry_run: bool,
}

impl Default for AgentConfig {
    fn default() -> (r: Self)
        ensures
            r.max_tool_calls == 1000,
            r.max_host_calls == 200,
            r.max_turns == 200,
            r.max_images == 25,
            r.max_image_bytes == 24 * 1024 * 1024,
            !r.dry_run,
    {
        AgentConfig {
            max_tool_calls: 1000,
            max_host_calls: 200,
            max_turns: 200,
            max_images: 25,
            max_image_bytes: 24 * 1024 * 1024,
            dry_run: false,
        }
    }
}

/// How the prompt ended.
#[derive(Debug, Clone, PartialEq, Eq)]
pub enum PromptStatus {
    /// Edits applied (possibly none) and recorded as one history entry.
    Completed,
    /// Dry-run: the plan validated but nothing was applied.
    DryRun,
    /// This prompt's sandbox edits rolled back; the string says why.
    Aborted(String),
}

/// A preloaded skill: a step-by-step procedure the model can read.
#[derive(Debug, Clone, PartialEq, Eq)]
pub struct Skill {
    pub id: String,
    pub name: String,
    pub description: String,
    pub body: String,
}

/// The index of the first skill with id `id`, if any.
pub open spec fn skill_index(skills: Seq<Skill>, id: Seq<char>) -> Option<int> {
    if exists|i: int| 0 <= i < skills.len() && (#[trigger] skills[i]).id@ == id {
        Some(choose|i: int| 0 <= i < skills.len() && (#[trigger] skills[i]).id@ == id
            && forall|j: int| 0 <= j < i ==> (#[trigger] skills[j]).id@ != id)
    } else {
        None
    }
}

/// The ids of `skills`, in order.
pub open spec fn skill_ids(skills: Seq<Skill>) -> Seq<Seq<char>> {
    skills.map_values(|s: Skill| s.id@)
}

/// The answer to `read_skill` for `id`.
pub open spec fn skill_answer(skills: Seq<Skill>, id: Seq<char>) -> Seq<char> {
    match skill_index(skills, id) {
        Some(i) => "# "@ + skills[i].name@ + " ("@ + skills[i].id@ + ")\n\n"@ + skills[i].body@,
        None => "rejected: unknown skill '"@ + id + "'; available skills: "@
            + join(skill_ids(skills), ", "@),
    }
}

/// Answer a `read_skill` call for skill `id` from the preloaded skill set.
/// Unknown ids get a model-readable rejection listing what exists.
pub fn read_skill_result(skills: &Vec<Skill>, id: &str) -> (r: String)
    ensures
        r@ == skill_answer(skills@, id@),
{
    let wanted = owned(id);
    let mut i: usize = 0;
    while i < skills.len()
        invariant
            i <= skills.len(),
            wanted@ == id@,
            forall|j: int| 0 <= j < i ==> (#[trigger] skills@[j]).id@ != id@,
        decreases skills.len() - i,
    {
        if skills[i].id == wanted {
            proof {
                let k = i as int;
                assert(0 <= k < skills@.len() && skills@[k].id@ == id@
                    && forall|j: int| 0 <= j < k ==> (#[trigger] skills@[j]).id@ != id@);
                let c = skill_index(skills@, id@)->0;
                assert(c == k) by {
                    if c < k {
                        assert(skills@[c].id@ != id@);
                    } else if c > k {
                        assert(skills@[k].id@ != id@);
                    }
                }
            }
            let mut r = owned("# ");
            r.append(skills[i].name.as_str());
            r.append(" (");
            r.append(skills[i].id.as_str());
            r.append(")\n\n");
            r.append(skills[i].body.as_str());
            return r;
        }
        i += 1;
    }
    let mut ids: Vec<String> = Vec::new();
    let mut j: usize = 0;
    while j < skills.len()
        invariant
            j <= skills.len(),
            views(ids@) =~= skill_ids(skills@.take(j as int)),
        decreases skills.len() - j,
    {
        let id_j = skills[j].id.clone();
        proof {
            assert(skills@.take(j + 1) =~= skills@.take(j as int).push(skills@[j as int]));
            assert(views(ids@.push(id_j)) =~= views(ids@).push(id_j@));
        }
        ids.push(id_j);
        j += 1;
    }
    assert(skills@.take(skills.len() as int) =~= skills@);
    let mut r = owned("rejected: unknown skill '");
    r.append(id);
    r.append("'; available skills: ");
    push_joined(&mut r, &ids, ", ");
    r
}

/// `s` up to (not including) its first newline.
pub open spec fn before_newline(s: Seq<char>) -> Seq<char>
    decreases s.len(),
{
    if s.len() == 0 {
        s
    } else if s[0] == '\n' {
        Seq::empty()
    } else {
        seq![s[0]] + before_newline(s.drop_first())
    }
}

/// Longest host-action summary, in characters, before the ellipsis.
pub const SUMMARY_MAX_CHARS: usize = 120;

/// The transcript line for a host call's output: its first line, trimmed,
/// capped at [`SUMMARY_MAX_CHARS`] characters with `…` marking a cut.
pub open spec fn action_summary(text: Seq<char>) -> Seq<char> {
    let line = trim(before_newline(text));
    if line.len() > SUMMARY_MAX_CHARS {
        line.take(SUMMARY_MAX_CHARS as int).push('…')
    } else {
        line
    }
}

proof fn lemma_before_newline(s: Seq<char>, n: int)
    requires
        0 <= n <= s.len(),
        forall|k: int| 0 <= k < n ==> s[k] != '\n',
        n == s.len() || s[n] == '\n',
    ensures
        before_newline(s) == s.take(n),
    decreases s.len(),
{
    if s.len() > 0 && n > 0 {
        lemma_before_newline(s.drop_first(), n - 1);
        assert(s.take(n) =~= seq![s[0]] + s.drop_first().take(n - 1));
    } else if s.len() == 0 {
        assert(s.take(n) =~= s);
    } else {
        assert(s.take(n) =~= Seq::<char>::empty());
    }
}

/// Transcript line for one host call: the first line of its output,
/// capped so the panel never renders a wall of tool text.
pub fn host_action_summary(text: &str) -> (r: String)
    ensures
        r@ == action_summary(text@),
{
    let chars = char_vec(text);
    let mut n: usize = 0;
    while n < chars.len() && chars[n] != '\n'
        invariant
            n <= chars.len(),
            forall|k: int| 0 <= k < n ==> chars@[k] != '\n',
        decreases chars.len() - n,
    {
        n += 1;
    }
    proof {
        lemma_before_newline(chars@, n as int);
    }
    let line = crate::text::slice_chars(&chars, 0, n);
    let (from, to) = trim_bounds(&line);
    if to - from > SUMMARY_MAX_CHARS {
        let mut r = string_of(&line, from, from + SUMMARY_MAX_CHARS);
        push_char(&mut r, '…');
        proof {
            assert(line@.subrange(from as int, from + SUMMARY_MAX_CHARS) =~= line@.subrange(
                from as int,
                to as int,
            ).take(SUMMARY_MAX_CHARS as int));
        }
        r
    } else {
        string_of(&line, from, to)
    }
}

/// Appended to the system message only when host or sense tools are wired.
pub const HOST_TOOLS_RULES: &'static str = "\n\nHost tools: tools named {namespace}_{tool} (app_…, media_…, python_…) reach the surrounding application rather than the timeline. Read-only and workspace tools run immediately. Tools with system-wide effects may pause for the user's confirmation and can be declined. Treat a decline as an instruction to change course, not an error to retry.";

/// The house rules that open every system message.
pub const HOUSE_RULES: &'static str = "You are the editing agent inside Cutlass, a video editor. You edit \
     the user's timeline by calling tools; you never invent state.\n\
     \n\
     Rules:\n\
     - All times are in seconds; they snap to whole frames at the \
     project frame rate.\n\
     - Ids (clips, tracks, media) are integers from the project state \
     below. Never guess an id; call describe_project if unsure.\n\
     - trim_clip sets a clip's new timeline start and duration. To cut \
     the FIRST N seconds of a clip, INCREASE start by N and DECREASE \
     duration by N (the source advances automatically). To cut the \
     last N seconds, keep start and decrease duration.\n\
     - Tracks stack bottom-to-top; later (higher) tracks composite on \
     top. Media clips need video/audio tracks; titles need a text \
     track; solids and shapes need a sticker track. Lanes keep fixed \
     zones: audio at the bottom, then the main video track (marked \
     \"main\" in the state; it is permanent and cannot be removed), \
     overlay lanes above it, text lanes on top. Put primary footage \
     on the main track and prefer reusing existing lanes over adding \
     new ones.\n\
     - Imported media in the project state's media pool is ready to \
     use even when no timeline clip references it. add_clip is the \
     operation that places media-pool footage on the timeline. An \
     empty timeline is a starting point, not a missing capability: \
     reuse a compatible track when one exists, or call add_track first \
     (the first video track becomes main), read the returned track id, \
     then add clips. For open-ended creative work, inspect the media \
     and choose the sequence, source ranges, placements, and timing \
     yourself. Never ask the user to pre-place footage or claim that \
     media-pool placement is unsupported.\n\
     - If a tool call is rejected, read the error and correct course; \
     do not repeat the identical call.\n\
     - The state below is a fresh snapshot of the project as it is \
     now: it already reflects every edit applied so far, including \
     ones made earlier in this conversation. Trust it over anything \
     said earlier; use the conversation only to understand what the \
     user is referring to.\n\
     - describe_project returns this same state, kept current as you \
     edit. When the user only asks a question, answer directly from \
     the state below — do not call describe_project first. But once \
     you have applied edits that move, resize, split, add, or remove \
     clips this turn, call describe_project to read the new positions \
     and ids before any further edit that depends on them: recompute, \
     do not assume, and do not give up. Name clips and tracks by id \
     and content so answers stay checkable; if the state cannot \
     answer a question, say what is missing instead of guessing. \
     Unknown source-footage content is not missing project state: \
     when media inspection tools are available, use them instead of \
     declining the task or asking the user to place footage first.\n\
     - Clips on one track can never overlap, and a clip can only grow \
     into free space. To lengthen a clip or insert into a packed \
     track, first make room: move or shift the later clips on that \
     track to the right (shift_clips, move_clip, or ripple_insert), \
     then resize. If a tool call is rejected for an overlap or for \
     exceeding the source media, read the error, re-inspect the \
     current state, and adjust the plan — never abandon the task for \
     lack of state you can fetch.\n\
     \n";

/// What introduces the user's rules in the system message.
pub const USER_RULES_INTRO: &'static str = "User rules (follow these preferences wherever they apply; \
     they never override the rules above or allow inventing state):\n";

/// What introduces the skill index in the system message.
pub const SKILLS_INTRO: &'static str = "Skills (step-by-step procedures; when the user's task \
     matches one, call read_skill with its id FIRST and follow the \
     returned procedure):\n";

/// What introduces the serialized project state in the system message.
pub const STATE_INTRO: &'static str = "Current state (the user's selection and playhead are in \
     'editor'):\n";

/// One line of the skill index.
pub open spec fn skill_line(skill: Skill) -> Seq<char> {
    "- "@ + skill.id@ + " ("@ + skill.name@ + "): "@ + skill.description@ + "\n"@
}

/// The skill index: one line per skill, in order.
pub open spec fn skill_index_text(skills: Seq<Skill>) -> Seq<char>
    decreases skills.len(),
{
    if skills.len() == 0 {
        Seq::empty()
    } else {
        skill_index_text(skills.drop_last()) + skill_line(skills.last())
    }
}

/// The user's part of the system message: their rules when there are
/// any, then the skill index when skills are loaded.
pub open spec fn custom_section(rules: Seq<char>, skills: Seq<Skill>) -> Seq<char> {
    (if rules.len() == 0 { Seq::empty() } else { USER_RULES_INTRO@ + rules + "\n\n"@ })
        + (if skills.len() == 0 { Seq::empty() } else { SKILLS_INTRO@ + skill_index_text(skills) + "\n"@ })
}

/// The system message: house rules, the user's rules and skill index, and
/// the serialized send-time state. Rules and skills shape how the closed
/// vocabulary is used; they cannot add mutation surface.
pub open spec fn system_message(rules: Seq<char>, skills: Seq<Skill>, state: Seq<char>) -> Seq<char> {
    HOUSE_RULES@ + custom_section(rules, skills) + STATE_INTRO@ + state
}

/// The user's rules and the skill index, as the system message carries them.
pub fn custom_instructions(rules: &str, skills: &Vec<Skill>) -> (r: String)
    ensures
        r@ == custom_section(rules@, skills@),
{
    let mut r = String::new();
    if !rules.is_empty() {
        r.append(USER_RULES_INTRO);
        r.append(rules);
        r.append("\n\n");
    }
    if skills.len() > 0 {
        r.append(SKILLS_INTRO);
        let ghost opened = r@;
        let mut i: usize = 0;
        while i < skills.len()
            invariant
                i <= skills.len(),
                r@ == opened + skill_index_text(skills@.take(i as int)),
            decreases skills.len() - i,
        {
            proof {
                assert(skills@.take(i + 1).drop_last() =~= skills@.take(i as int));
            }
            r.append("- ");
            r.append(skills[i].id.as_str());
            r.append(" (");
            r.append(skills[i].name.as_str());
            r.append("): ");
            r.append(skills[i].description.as_str());
            r.append("\n");
            i += 1;
        }
        assert(skills@.take(skills.len() as int) =~= skills@);
        r.append("\n");
    }
    r
}

/// The whole system message around the serialized send-time `state`.
pub fn system_prompt_text(rules: &str, skills: &Vec<Skill>, state: &str) -> (r: String)
    ensures
        r@ == system_message(rules@, skills@, state@),
{
    let mut r = owned(HOUSE_RULES);
    let custom = custom_instructions(rules, skills);
    r.append(custom.as_str());
    r.append(STATE_INTRO);
    r.append(state);
    r
}

/// What the rehearsal-sense rules say before the sense names.
pub open spec fn sense_rules_opening() -> Seq<char> {
    "\n\nRehearsal senses ("@
}

/// What the rehearsal-sense rules say after the sense names.
pub open spec fn sense_rules_closing() -> Seq<char> {
    ") inspect the complete current project snapshot and sandbox, including edits already completed in this prompt. Source footage is available through these senses: do not claim that you cannot browse or verify it without attempting the relevant sense. Open-ended creative requests such as freestyle edits, montages, or \"make something interesting\" are fully actionable. Survey the media pool with media_pool_sheet when it is listed, inspect promising sources with media_asset_strip, then use visual evidence and editorial judgment to make concrete edits rather than declining or asking the user to choose placements and ranges. Media-pool sources need no pre-placement: when the timeline is empty, create the required tracks with add_track and build the sequence with add_clip. Before finalizing visual or timing work, use the cheapest relevant sense to verify it: prefer a schematic timeline map for placement and timing, and a composited preview frame only when appearance or layering matters. Never claim a check succeeded if a sense failed."@
}

/// The system-message rules for the admitted rehearsal senses, named in
/// order.
pub fn engine_sense_rules(names: &Vec<String>) -> (r: String)
    ensures
        r@ == sense_rules_opening() + join(views(names@), ", "@) + sense_rules_closing(),
{
    let mut r = owned("\n\nRehearsal senses (");
    push_joined(&mut r, names, ", ");
    r.append(") inspect the complete current project snapshot and sandbox, including edits already completed in this prompt. Source footage is available through these senses: do not claim that you cannot browse or verify it without attempting the relevant sense. Open-ended creative requests such as freestyle edits, montages, or \"make something interesting\" are fully actionable. Survey the media pool with media_pool_sheet when it is listed, inspect promising sources with media_asset_strip, then use visual evidence and editorial judgment to make concrete edits rather than declining or asking the user to choose placements and ranges. Media-pool sources need no pre-placement: when the timeline is empty, create the required tracks with add_track and build the sequence with add_clip. Before finalizing visual or timing work, use the cheapest relevant sense to verify it: prefer a schematic timeline map for placement and timing, and a composited preview frame only when appearance or layering matters. Never claim a check succeeded if a sense failed.");
    r
}

/// The last recorded phase break, or 0 when none was recorded.
pub open spec fn last_break(breaks: Seq<usize>) -> int {
    if breaks.len() == 0 { 0 } else { breaks.last() as int }
}

/// The phase breaks after a `commit_progress` with `actions` edits so far:
/// a break at `actions` when edits landed since the last one.
pub open spec fn committed_breaks(breaks: Seq<usize>, actions: usize) -> Seq<usize> {
    if actions > last_break(breaks) { breaks.push(actions) } else { breaks }
}

/// What `commit_progress` answers.
pub open spec fn commit_answer(breaks: Seq<usize>, actions: usize) -> Seq<char> {
    if actions > last_break(breaks) {
        "ok: committed phase "@ + dec((breaks.len() + 1) as nat) + " ("@
            + dec((actions - last_break(breaks)) as nat) + " edits)"@
    } else {
        "nothing new to commit — make edits first"@
    }
}

/// Why a prompt stops when it runs past the host-call cap.
pub open spec fn host_cap_reason(max: usize) -> Seq<char> {
    "exceeded the "@ + dec(max as nat) + "-host-call cap for one prompt"@
}

/// What an edit call past the edit cap is answered.
pub open spec fn edit_cap_rejection(max: usize) -> Seq<char> {
    "rejected: reached the "@ + dec(max as nat) + "-edit cap for one prompt; the edits already applied are kept"@
}

/// The final answer of a run that reached the edit cap.
pub open spec fn edit_cap_text(max: usize, actions: usize) -> Seq<char> {
    "Reached the "@ + dec(max as nat) + "-edit cap for one prompt; kept the "@ + dec(actions as nat)
        + if actions == 1 { " edit already applied."@ } else { " edits already applied."@ }
}

/// Why a prompt stops when its last allowed turn still asked for tools.
pub open spec fn turn_cap_reason(max: usize) -> Seq<char> {
    "exceeded the "@ + dec(max as nat) + "-turn cap for one prompt"@
}

/// The per-prompt bookkeeping of the agent loop: accepted edit and host
/// calls, applied (or, in dry run, validated) edits, phase breaks, and
/// whether the edit cap has tripped.
#[derive(Debug, Clone, PartialEq, Eq)]
pub struct PromptRun {
    pub max_tool_calls: usize,
    pub max_host_calls: usize,
    /// Edit calls accepted for dispatch so far.
    pub edit_calls: usize,
    /// Host and sense calls accepted for dispatch so far.
    pub host_calls: usize,
    /// Edits applied (or validated, in dry run) so far.
    pub actions: usize,
    /// Indices into the action log where a committed phase ends.
    pub phase_breaks: Vec<usize>,
    /// Set once an edit call lands past the edit cap.
    pub edit_cap_tripped: bool,
}

impl PromptRun {
    /// The run's invariant: the caps hold, and the phase breaks strictly
    /// increase, each ending a non-empty phase within the action log.
    pub open spec fn wf(&self) -> bool {
        &&& self.edit_calls <= self.max_tool_calls
        &&& self.host_calls <= self.max_host_calls
        &&& forall|i: int, j: int| 0 <= i < j < self.phase_breaks@.len()
                ==> self.phase_breaks@[i] < self.phase_breaks@[j]
        &&& forall|i: int| 0 <= i < self.phase_breaks@.len()
                ==> 0 < #[trigger] self.phase_breaks@[i] <= self.actions
    }

    /// A fresh run under `config`'s caps.
    pub fn new(config: &AgentConfig) -> (r: Self)
        ensures
            r.wf(),
            r.max_tool_calls == config.max_tool_calls,
            r.max_host_calls == config.max_host_calls,
            r.edit_calls == 0,
            r.host_calls == 0,
            r.actions == 0,
            r.phase_breaks@.len() == 0,
            !r.edit_cap_tripped,
    {
        PromptRun {
            max_tool_calls: config.max_tool_calls,
            max_host_calls: config.max_host_calls,
            edit_calls: 0,
            host_calls: 0,
            actions: 0,
            phase_breaks: Vec::new(),
            edit_cap_tripped: false,
        }
    }

    /// `commit_progress`: record a phase break when edits landed since the
    /// last one, and answer the model. Charges neither cap.
    pub fn commit_progress(&mut self) -> (r: String)
        requires
            old(self).wf(),
        ensures
            final(self).wf(),
            final(self).phase_breaks@ == committed_breaks(old(self).phase_breaks@, old(self).actions),
            r@ == commit_answer(old(self).phase_breaks@, old(self).actions),
            final(self).actions == old(self).actions,
            final(self).edit_calls == old(self).edit_calls,
            final(self).host_calls == old(self).host_calls,
            final(self).edit_cap_tripped == old(self).edit_cap_tripped,
            final(self).max_tool_calls == old(self).max_tool_calls,
            final(self).max_host_calls == old(self).max_host_calls,
    {
        let n = self.phase_breaks.len();
        let committed = if n == 0 { 0 } else { self.phase_breaks[n - 1] };
        if self.actions > committed {
            self.phase_breaks.push(self.actions);
            let mut r = owned("ok: committed phase ");
            push_dec(&mut r, self.phase_breaks.len() as u64);
            r.append(" (");
            push_dec(&mut r, (self.actions - committed) as u64);
            r.append(" edits)");
            r
        } else {
            owned("nothing new to commit — make edits first")
        }
    }

    /// One edit applied (or validated, in dry run).
    pub fn record_action(&mut self)
        requires
            old(self).wf(),
            old(self).actions < usize::MAX,
        ensures
            final(self).wf(),
            final(self).actions == old(self).actions + 1,
            final(self).phase_breaks@ == old(self).phase_breaks@,
            final(self).edit_calls == old(self).edit_calls,
            final(self).host_calls == old(self).host_calls,
            final(self).edit_cap_tripped == old(self).edit_cap_tripped,
            final(self).max_tool_calls == old(self).max_tool_calls,
            final(self).max_host_calls == old(self).max_host_calls,
    {
        self.actions = self.actions + 1;
    }

    /// Charge one host or sense call against the host cap. `Some(reason)`
    /// means the call lands past the cap and the prompt aborts with
    /// `reason`; the count is then left as it was.
    pub fn charge_host_call(&mut self) -> (r: Option<String>)
        requires
            old(self).wf(),
        ensures
            final(self).wf(),
            old(self).host_calls < old(self).max_host_calls ==> r is None
                && final(self).host_calls == old(self).host_calls + 1,
            old(self).host_calls >= old(self).max_host_calls ==> (r matches Some(reason)
                && reason@ == host_cap_reason(old(self).max_host_calls))
                && final(self).host_calls == old(self).host_calls,
            final(self).edit_calls == old(self).edit_calls,
            final(self).actions == old(self).actions,
            final(self).phase_breaks@ == old(self).phase_breaks@,
            final(self).edit_cap_tripped == old(self).edit_cap_tripped,
            final(self).max_tool_calls == old(self).max_tool_calls,
            final(self).max_host_calls == old(self).max_host_calls,
    {
        if self.host_calls >= self.max_host_calls {
            let mut reason = owned("exceeded the ");
            push_dec(&mut reason, self.max_host_calls as u64);
            reason.append("-host-call cap for one prompt");
            Some(reason)
        } else {
            self.host_calls = self.host_calls + 1;
            None
        }
    }

    /// Charge one edit call against the edit cap. `Some(answer)` means the
    /// call is refused (the cap is reached) and answered with `answer`; the
    /// cap then stays tripped, so the run ends after this turn's calls.
    pub fn charge_edit_call(&mut self) -> (r: Option<String>)
        requires
            old(self).wf(),
        ensures
            final(self).wf(),
            old(self).edit_calls < old(self).max_tool_calls ==> r is None
                && final(self).edit_calls == old(self).edit_calls + 1
                && final(self).edit_cap_tripped == old(self).edit_cap_tripped,
            old(self).edit_calls >= old(self).max_tool_calls ==> (r matches Some(answer)
                && answer@ == edit_cap_rejection(old(self).max_tool_calls))
                && final(self).edit_calls == old(self).edit_calls
                && final(self).edit_cap_tripped,
            final(self).host_calls == old(self).host_calls,
            final(self).actions == old(self).actions,
            final(self).phase_breaks@ == old(self).phase_breaks@,
            final(self).max_tool_calls == old(self).max_tool_calls,
            final(self).max_host_calls == old(self).max_host_calls,
    {
        if self.edit_calls >= self.max_tool_calls {
            self.edit_cap_tripped = true;
            let mut answer = owned("rejected: reached the ");
            push_dec(&mut answer, self.max_tool_calls as u64);
            answer.append("-edit cap for one prompt; the edits already applied are kept");
            Some(answer)
        } else {
            self.edit_calls = self.edit_calls + 1;
            None
        }
    }

    /// After a turn's tool calls are answered: the final answer when the
    /// edit cap tripped (the run ends keeping what was applied), else
    /// `None` and the loop goes on.
    pub fn edit_cap_final_text(&self) -> (r: Option<String>)
        ensures
            self.edit_cap_tripped ==> (r matches Some(t)
                && t@ == edit_cap_text(self.max_tool_calls, self.actions)),
            !self.edit_cap_tripped ==> r is None,
    {
        if self.edit_cap_tripped {
            let mut t = owned("Reached the ");
            push_dec(&mut t, self.max_tool_calls as u64);
            t.append("-edit cap for one prompt; kept the ");
            push_dec(&mut t, self.actions as u64);
            if self.actions == 1 {
                t.append(" edit already applied.");
            } else {
                t.append(" edits already applied.");
            }
            Some(t)
        } else {
            None
        }
    }
}

/// After turn `turn` (counting from 0) asked for tools and did not end
/// the run: the abort reason when it was the last allowed turn.
pub fn turn_cap_abort(turn: usize, max_turns: usize) -> (r: Option<String>)
    ensures
        turn + 1 == max_turns ==> (r matches Some(reason) && reason@ == turn_cap_reason(max_turns)),
        turn + 1 != max_turns ==> r is None,
{
    if turn < usize::MAX && turn + 1 == max_turns {
        let mut reason = owned("exceeded the ");
        push_dec(&mut reason, max_turns as u64);
        reason.append("-turn cap for one prompt");
        Some(reason)
    } else {
        None
    }
}

/// What the loop does with a provider reply.
#[derive(Debug, Clone, PartialEq, Eq)]
pub enum ReplyStep {
    /// The reply asked for tools: answer every call.
    RunTools,
    /// A text answer: the run ends with it.
    Finish,
    /// The prompt stops and its edits roll back, for this reason.
    Abort(String),
}

/// A reply with tool calls runs them; a text answer ends the run, unless
/// the model ran out of tokens mid-answer.
pub fn on_reply(tool_calls: usize, finish: FinishReason) -> (r: ReplyStep)
    ensures
        tool_calls > 0 ==> r == ReplyStep::RunTools,
        tool_calls == 0 && finish == FinishReason::Length ==> (r matches ReplyStep::Abort(reason)
            && reason@ == OUT_OF_TOKENS_REASON@),
        tool_calls == 0 && finish != FinishReason::Length ==> r == ReplyStep::Finish,
{
    if tool_calls > 0 {
        ReplyStep::RunTools
    } else {
        match finish {
            FinishReason::Length => ReplyStep::Abort(owned(OUT_OF_TOKENS_REASON)),
            _ => ReplyStep::Finish,
        }
    }
}

/// Why a provider failure stops the prompt.
pub fn provider_abort_reason(error: &ProviderError) -> (r: String)
    ensures
        *error is Cancelled ==> r@ == CANCELLED_REASON@,
        !(*error is Cancelled) ==> r@ == provider_error_text(*error),
{
    match error {
        ProviderError::Cancelled => owned(CANCELLED_REASON),
        _ => error.message(),
    }
}

/// How a turn whose tool calls were all answered ends.
#[derive(Debug, Clone, PartialEq, Eq)]
pub enum TurnEnd {
    /// Ask the provider again.
    Continue,
    /// The run ends, keeping its edits, with this final answer.
    Finish(String),
    /// The prompt stops and its edits roll back, for this reason.
    Abort(String),
}

/// How turn `turn` of a run ends, as text: `None` to continue, else
/// whether the run finishes (`true`, keeping its edits) or aborts, and the
/// final answer or abort reason.
pub open spec fn turn_outcome(
    edit_cap_tripped: bool,
    max_tool_calls: usize,
    actions: usize,
    turn: usize,
    max_turns: usize,
) -> Option<(bool, Seq<char>)> {
    if edit_cap_tripped {
        Some((true, edit_cap_text(max_tool_calls, actions)))
    } else if turn + 1 == max_turns {
        Some((false, turn_cap_reason(max_turns)))
    } else {
        None
    }
}

impl PromptRun {
    /// After turn `turn` (counting from 0) answered its tool calls: the
    /// edit cap ends the run gently, keeping what was applied; otherwise
    /// the last allowed turn aborts the prompt.
    pub fn after_tools(&self, turn: usize, max_turns: usize) -> (r: TurnEnd)
        ensures
            match turn_outcome(self.edit_cap_tripped, self.max_tool_calls, self.actions, turn, max_turns) {
                None => r == TurnEnd::Continue,
                Some((true, text)) => r matches TurnEnd::Finish(t) && t@ == text,
                Some((false, reason)) => r matches TurnEnd::Abort(t) && t@ == reason,
            },
    {
        match self.edit_cap_final_text() {
            Some(text) => TurnEnd::Finish(text),
            None => match turn_cap_abort(turn, max_turns) {
                Some(reason) => TurnEnd::Abort(reason),
                None => TurnEnd::Continue,
            },
        }
    }
}

impl PromptRun {
    /// The phase breaks a prompt's outcome reports: the run's own, or none
    /// when the prompt aborted.
    pub fn outcome_breaks(&self, aborted: bool) -> (b: Vec<usize>)
        requires
            self.wf(),
        ensures
            aborted ==> b@.len() == 0,
            !aborted ==> b@ == self.phase_breaks@,
            forall|i: int, j: int| 0 <= i < j < b@.len() ==> b@[i] < b@[j],
            forall|i: int| 0 <= i < b@.len() ==> 0 < #[trigger] b@[i] <= self.actions,
    {
        let mut b: Vec<usize> = Vec::new();
        if !aborted {
            let mut i: usize = 0;
            while i < self.phase_breaks.len()
                invariant
                    i <= self.phase_breaks@.len(),
                    b@ == self.phase_breaks@.take(i as int),
                decreases self.phase_breaks@.len() - i,
            {
                b.push(self.phase_breaks[i]);
                i += 1;
                proof {
                    assert(b@ =~= self.phase_breaks@.take(i as int));
                }
            }
            proof {
                assert(self.phase_breaks@.take(i as int) =~= self.phase_breaks@);
            }
        }
        b
    }
}

/// What happens in a prompt, as the engine's history grouping sees it.
#[derive(Debug, Clone, Copy, PartialEq, Eq, Structural)]
pub enum GroupEvent {
    /// The prompt starts.
    Started,
    /// The prompt ends keeping its edits.
    Finished,
    /// The prompt stops (cancellation, provider error, a cap).
    Aborted,
}

/// What the engine's history grouping is told.
#[derive(Debug, Clone, Copy, PartialEq, Eq, Structural)]
pub enum GroupAction {
    Begin,
    End,
    Rollback,
    /// A dry run leaves the history alone.
    Nothing,
}

/// The grouping step for `event`: a live prompt opens one history group
/// when it starts, closes it when it finishes and rolls it back when it
/// aborts; a dry run never touches the history.
pub open spec fn group_step(dry_run: bool, event: GroupEvent) -> GroupAction {
    if dry_run {
        GroupAction::Nothing
    } else {
        match event {
            GroupEvent::Started => GroupAction::Begin,
            GroupEvent::Finished => GroupAction::End,
            GroupEvent::Aborted => GroupAction::Rollback,
        }
    }
}

/// What the engine's history grouping is told on `event`.
pub fn group_action(dry_run: bool, event: GroupEvent) -> (r: GroupAction)
    ensures
        r == group_step(dry_run, event),
{
    if dry_run {
        GroupAction::Nothing
    } else {
        match event {
            GroupEvent::Started => GroupAction::Begin,
            GroupEvent::Finished => GroupAction::End,
            GroupEvent::Aborted => GroupAction::Rollback,
        }
    }
}

/// Group law: one prompt is one history group. A live prompt begins one
/// group and either ends it (keeping its edits) or rolls it back; a dry
/// run opens, closes and rolls back nothing.
pub proof fn one_prompt_is_one_group(dry_run: bool, aborted: bool)
    ensures
        dry_run ==> group_step(dry_run, GroupEvent::Started) == GroupAction::Nothing
            && group_step(dry_run, GroupEvent::Finished) == GroupAction::Nothing
            && group_step(dry_run, GroupEvent::Aborted) == GroupAction::Nothing,
        !dry_run ==> group_step(dry_run, GroupEvent::Started) == GroupAction::Begin
            && group_step(dry_run, if aborted { GroupEvent::Aborted } else { GroupEvent::Finished })
                == (if aborted { GroupAction::Rollback } else { GroupAction::End }),
{
}

/// Cap law: reaching the edit cap never rolls a prompt back, not even on
/// its last allowed turn; the run ends keeping every applied edit and
/// says so.
pub proof fn edit_cap_ends_the_run_gently(max_tool_calls: usize, actions: usize, turn: usize, max_turns: usize)
    ensures
        turn_outcome(true, max_tool_calls, actions, turn, max_turns)
            == Some((true, edit_cap_text(max_tool_calls, actions))),
{
}

/// Commit law: a `commit_progress` right after another, with no edit in
/// between, records nothing more and answers that there is nothing new.
pub proof fn commit_twice_records_once(breaks: Seq<usize>, actions: usize)
    ensures
        committed_breaks(committed_breaks(breaks, actions), actions)
            == committed_breaks(breaks, actions),
        commit_answer(committed_breaks(breaks, actions), actions)
            == "nothing new to commit — make edits first"@,
{
}

/// Where a tool call goes.
#[derive(Debug, Clone, Copy, PartialEq, Eq, Structural)]
pub enum CallRoute {
    /// Answered with the current project state; charges no cap.
    DescribeProject,
    /// Answered from the preloaded skills; charges no cap.
    ReadSkill,
    /// A phase break; charges no cap.
    CommitProgress,
    /// The admitted rehearsal sense of this index; charges the host cap.
    Sense(usize),
    /// The admitted host tool of this index; charges the host cap.
    Host(usize),
    /// Anything else is an edit command; charges the edit cap.
    Edit,
}

/// The first index of `names` holding `name`.
pub open spec fn first_named(names: Seq<String>, name: Seq<char>) -> Option<int> {
    if exists|i: int| 0 <= i < names.len() && (#[trigger] names[i])@ == name {
        Some(choose|i: int| 0 <= i < names.len() && (#[trigger] names[i])@ == name
            && forall|j: int| 0 <= j < i ==> (#[trigger] names[j])@ != name)
    } else {
        None
    }
}

/// Routing by exact name: the loop's own tools first (`read_skill` only
/// when skills are loaded), then admitted senses, then admitted host
/// tools, and everything else is an edit command.
pub open spec fn route(name: Seq<char>, skills_loaded: bool, senses: Seq<String>, hosts: Seq<String>) -> CallRoute {
    if name == "describe_project"@ {
        CallRoute::DescribeProject
    } else if name == "read_skill"@ && skills_loaded {
        CallRoute::ReadSkill
    } else if name == "commit_progress"@ {
        CallRoute::CommitProgress
    } else if first_named(senses, name) is Some {
        CallRoute::Sense(first_named(senses, name)->0 as usize)
    } else if first_named(hosts, name) is Some {
        CallRoute::Host(first_named(hosts, name)->0 as usize)
    } else {
        CallRoute::Edit
    }
}

fn find_name(names: &Vec<String>, name: &String) -> (r: Option<usize>)
    ensures
        r matches Some(i) ==> first_named(names@, name@) == Some(i as int),
        r is None ==> first_named(names@, name@) is None,
{
    let mut i: usize = 0;
    while i < names.len()
        invariant
            i <= names.len(),
            forall|j: int| 0 <= j < i ==> (#[trigger] names@[j])@ != name@,
        decreases names.len() - i,
    {
        if names[i] == *name {
            proof {
                let k = i as int;
                assert(0 <= k < names@.len() && names@[k]@ == name@);
                let c = first_named(names@, name@)->0;
                assert(c == k) by {
                    if c < k {
                        assert(names@[c]@ != name@);
                    } else if c > k {
                        assert(names@[k]@ != name@);
                    }
                }
            }
            return Some(i);
        }
        i += 1;
    }
    None
}

proof fn lemma_first_index(names: Seq<String>, name: Seq<char>, i: int)
    requires
        0 <= i < names.len(),
        names[i]@ == name,
    ensures
        exists|k: int| 0 <= k <= i && (#[trigger] names[k])@ == name
            && forall|j: int| 0 <= j < k ==> (#[trigger] names[j])@ != name,
    decreases i,
{
    if exists|j: int| 0 <= j < i && (#[trigger] names[j])@ == name {
        let j = choose|j: int| 0 <= j < i && (#[trigger] names[j])@ == name;
        lemma_first_index(names, name, j);
    } else {
        assert(forall|j: int| 0 <= j < i ==> (#[trigger] names[j])@ != name);
    }
}

proof fn lemma_first_named(names: Seq<String>, name: Seq<char>)
    ensures
        first_named(names, name) matches Some(i) ==> 0 <= i < names.len() && names[i]@ == name
            && forall|j: int| 0 <= j < i ==> (#[trigger] names[j])@ != name,
        first_named(names, name) is None ==> forall|j: int| 0 <= j < names.len() ==> (#[trigger] names[j])@ != name,
{
    if exists|i: int| 0 <= i < names.len() && (#[trigger] names[i])@ == name {
        let i = choose|i: int| 0 <= i < names.len() && (#[trigger] names[i])@ == name;
        lemma_first_index(names, name, i);
    }
}

/// Routing law: a call routed to a sense or a host tool goes to the first
/// admitted tool of exactly the called name, so the call runs under that
/// tool's own spec and tier; a name no sense or host tool bears is never
/// routed to one.
pub proof fn calls_reach_the_tool_they_name(name: Seq<char>, skills_loaded: bool, senses: Seq<String>, hosts: Seq<String>)
    requires
        senses.len() <= usize::MAX,
        hosts.len() <= usize::MAX,
    ensures
        route(name, skills_loaded, senses, hosts) matches CallRoute::Sense(i) ==> i < senses.len()
            && senses[i as int]@ == name && forall|j: int| 0 <= j < i ==> (#[trigger] senses[j])@ != name,
        route(name, skills_loaded, senses, hosts) matches CallRoute::Host(i) ==> i < hosts.len()
            && hosts[i as int]@ == name && forall|j: int| 0 <= j < i ==> (#[trigger] hosts[j])@ != name
            && forall|j: int| 0 <= j < senses.len() ==> (#[trigger] senses[j])@ != name,
        (forall|j: int| 0 <= j < senses.len() ==> (#[trigger] senses[j])@ != name)
            && (forall|j: int| 0 <= j < hosts.len() ==> (#[trigger] hosts[j])@ != name)
            ==> !(route(name, skills_loaded, senses, hosts) is Sense) && !(route(name, skills_loaded, senses, hosts) is Host),
{
    lemma_first_named(senses, name);
    lemma_first_named(hosts, name);
}


/// Route one tool call by its exact name.
pub fn route_call(name: &str, skills_loaded: bool, senses: &Vec<String>, hosts: &Vec<String>) -> (r: CallRoute)
    ensures
        r == route(name@, skills_loaded, senses@, hosts@),
{
    let name = owned(name);
    if crate::text::str_eq(name.as_str(), "describe_project") {
        CallRoute::DescribeProject
    } else if crate::text::str_eq(name.as_str(), "read_skill") && skills_loaded {
        CallRoute::ReadSkill
    } else if crate::text::str_eq(name.as_str(), "commit_progress") {
        CallRoute::CommitProgress
    } else {
        match find_name(senses, &name) {
            Some(i) => CallRoute::Sense(i),
            None => match find_name(hosts, &name) {
                Some(i) => CallRoute::Host(i),
                None => CallRoute::Edit,
            },
        }
    }
}

/// Whether candidate `i` joins the tool list: it is eligible (a valid
/// namespaced name, and read-only where required), `read_skill` when that
/// name is reserved, no tool already on the list, and no candidate
/// admitted before it bears its name.
pub open spec fn admissible(
    taken: Seq<String>,
    names: Seq<String>,
    eligible: Seq<bool>,
    reserve_read_skill: bool,
    before: Seq<usize>,
    i: int,
) -> bool {
    &&& eligible[i]
    &&& !(reserve_read_skill && names[i]@ == "read_skill"@)
    &&& first_named(taken, names[i]@) is None
    &&& forall|k: int| 0 <= k < before.len() ==> names[before[k] as int]@ != names[i]@
}

/// The indices of the candidates among the first `n` that join the tool
/// list, in order.
pub open spec fn admitted(
    taken: Seq<String>,
    names: Seq<String>,
    eligible: Seq<bool>,
    reserve_read_skill: bool,
    n: int,
) -> Seq<usize>
    decreases n,
{
    if n <= 0 {
        Seq::empty()
    } else {
        let before = admitted(taken, names, eligible, reserve_read_skill, n - 1);
        if admissible(taken, names, eligible, reserve_read_skill, before, n - 1) {
            before.push((n - 1) as usize)
        } else {
            before
        }
    }
}

proof fn lemma_admitted_bounds(
    taken: Seq<String>,
    names: Seq<String>,
    eligible: Seq<bool>,
    reserve_read_skill: bool,
    n: int,
)
    requires
        0 <= n <= usize::MAX,
    ensures
        forall|k: int| 0 <= k < admitted(taken, names, eligible, reserve_read_skill, n).len()
            ==> #[trigger] admitted(taken, names, eligible, reserve_read_skill, n)[k] < n,
        forall|k: int, l: int| 0 <= k < l < admitted(taken, names, eligible, reserve_read_skill, n).len()
            ==> admitted(taken, names, eligible, reserve_read_skill, n)[k]
                < admitted(taken, names, eligible, reserve_read_skill, n)[l],
    decreases n,
{
    if n > 0 {
        lemma_admitted_bounds(taken, names, eligible, reserve_read_skill, n - 1);
        let before = admitted(taken, names, eligible, reserve_read_skill, n - 1);
        let now = admitted(taken, names, eligible, reserve_read_skill, n);
        if admissible(taken, names, eligible, reserve_read_skill, before, n - 1) {
            assert(now == before.push((n - 1) as usize));
            assert(forall|k: int| 0 <= k < before.len() ==> now[k] == before[k]);
        } else {
            assert(now == before);
        }
    }
}

/// Which candidate tools join the list beside the `taken` names: built-in
/// names always win, so a colliding candidate is dropped (never sent,
/// never dispatched), and of candidates sharing a name only the first
/// stays. `eligible[i]` says whether candidate `i` may be offered at all.
#[verifier::spinoff_prover]
pub fn admit_tools(
    taken: &Vec<String>,
    names: &Vec<String>,
    eligible: &Vec<bool>,
    reserve_read_skill: bool,
) -> (r: Vec<usize>)
    requires
        eligible@.len() == names@.len(),
    ensures
        r@ == admitted(taken@, names@, eligible@, reserve_read_skill, names@.len() as int),
{
    let mut r: Vec<usize> = Vec::new();
    let mut i: usize = 0;
    while i < names.len()
        invariant
            i <= names.len() == eligible.len(),
            r@ == admitted(taken@, names@, eligible@, reserve_read_skill, i as int),
        decreases names.len() - i,
    {
        proof {
            lemma_admitted_bounds(taken@, names@, eligible@, reserve_read_skill, i as int);
        }
        let mut ok = eligible[i];
        if ok && reserve_read_skill && crate::text::str_eq(names[i].as_str(), "read_skill") {
            ok = false;
        }
        if ok {
            if find_name(taken, &names[i]).is_some() {
                ok = false;
            }
        }
        if ok {
            let mut dup = false;
            let mut k: usize = 0;
            while k < r.len()
                invariant
                    k <= r@.len(),
                    i < names@.len(),
                    forall|m: int| 0 <= m < r@.len() ==> #[trigger] r@[m] < i,
                    dup == exists|m: int| 0 <= m < k && names@[#[trigger] r@[m] as int]@ == names@[i as int]@,
                decreases r@.len() - k,
            {
                if names[r[k]] == names[i] {
                    dup = true;
                }
                k += 1;
            }
            if dup {
                ok = false;
            }
        }
        proof {
            let before = admitted(taken@, names@, eligible@, reserve_read_skill, i as int);
            assert(ok == admissible(taken@, names@, eligible@, reserve_read_skill, before, i as int));
        }
        if ok {
            r.push(i);
        }
        i += 1;
    }
    r
}

/// Tool-list law: the admitted candidates bear pairwise distinct names,
/// none of them a name already on the list.
pub proof fn admitted_names_are_fresh_and_distinct(
    taken: Seq<String>,
    names: Seq<String>,
    eligible: Seq<bool>,
    reserve_read_skill: bool,
    n: int,
)
    requires
        0 <= n <= names.len() <= usize::MAX,
        eligible.len() == names.len(),
    ensures
        forall|k: int| 0 <= k < admitted(taken, names, eligible, reserve_read_skill, n).len()
            ==> first_named(taken, names[#[trigger] admitted(taken, names, eligible, reserve_read_skill, n)[k] as int]@) is None,
        forall|k: int, l: int| 0 <= k < l < admitted(taken, names, eligible, reserve_read_skill, n).len()
            ==> names[admitted(taken, names, eligible, reserve_read_skill, n)[k] as int]@
                != names[admitted(taken, names, eligible, reserve_read_skill, n)[l] as int]@,
    decreases n,
{
    if n > 0 {
        admitted_names_are_fresh_and_distinct(taken, names, eligible, reserve_read_skill, n - 1);
        let before = admitted(taken, names, eligible, reserve_read_skill, n - 1);
        let now = admitted(taken, names, eligible, reserve_read_skill, n);
        if admissible(taken, names, eligible, reserve_read_skill, before, n - 1) {
            assert(now == before.push((n - 1) as usize));
            assert(forall|k: int| 0 <= k < before.len() ==> now[k] == before[k]);
            assert(now[before.len() as int] == (n - 1) as usize);
        } else {
            assert(now == before);
        }
    }
}

/// What a successful host or sense call says when its output text is
/// empty.
pub open spec fn output_text(text: Seq<char>) -> Seq<char> {
    if text.len() == 0 { "ok"@ } else { text }
}

/// The tool-result text of a successful host or sense call.
pub fn tool_output_text(text: String) -> (r: String)
    ensures
        r@ == output_text(text@),
{
    if text.as_str().is_empty() { owned("ok") } else { text }
}

/// The tool-result text of a refused call.
pub fn rejected(reason: &str) -> (r: String)
    ensures
        r@ == "rejected: "@ + reason@,
{
    let mut r = owned("rejected: ");
    r.append(reason);
    r
}

/// The tool-result text of an applied (or, in dry run, validated) edit.
pub fn edit_result_text(dry_run: bool, description: &str) -> (r: String)
    ensures
        dry_run ==> r@ == "validated (dry run, not yet applied): "@ + description@,
        !dry_run ==> r@ == "ok: "@ + description@,
{
    let mut r = if dry_run { owned("validated (dry run, not yet applied): ") } else { owned("ok: ") };
    r.append(description);
    r
}

/// Why a prompt stops when the bridge fails to reconcile after a host
/// dispatch.
pub fn reconcile_failure(name: &str, reason: &str) -> (r: String)
    ensures
        r@ == "host tool '"@ + name@ + "' was dispatched, but reconciliation failed: "@ + reason@
            + "; host effects may already have occurred"@,
{
    let mut r = owned("host tool '");
    r.append(name);
    r.append("' was dispatched, but reconciliation failed: ");
    r.append(reason);
    r.append("; host effects may already have occurred");
    r
}

/// Why a prompt stops when the user cancels it.
pub const CANCELLED_REASON: &'static str = "cancelled";

/// Why a prompt stops when the model's text answer was cut at the token
/// limit.
pub const OUT_OF_TOKENS_REASON: &'static str = "the model ran out of tokens mid-answer";

} // verus!
