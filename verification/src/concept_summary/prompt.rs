//! The prompt a living summary is asked for with.

use crate::text::{decimal, push_decimal, take_chars};
use crate::time::{earlier, rfc3339_text, to_rfc3339};
use crate::types::{Concept, ConceptRevision};
use vstd::prelude::*;
use vstd::string::*;

verus! {

/// The standing instructions.
pub const SYSTEM_PROMPT: &'static str = "You are a concept-state synthesizer for a memory system. Given a concept's name, current definition, and revision history in chronological order, produce a 3-to-5-sentence summary of the concept's current state of understanding. Emphasize what changed in recent revisions. Output only the summary as plain prose, no preamble, no bullet points, no code fences.\n\nCRITICAL — preserve exact identifiers verbatim. Library names, acronyms, version strings, file names, config keys, API names, error class names, and specific metric names MUST appear unchanged in the output — do NOT paraphrase them into general terms like 'vector search library' or 'clustering algorithm'. When revision history shows a decision changing over time, preserve BOTH earlier AND later positions with their dates — do not collapse them into the final state.\n\nExample 1 (preserve identifiers):\nEvidence: [2025-01-05] Uses tantivy for full-text + faiss for HNSW, nltk tokenizer.\n[2025-01-20] Added fst as dictionary backend.\nBAD:  \"The system combines full-text and vector search with text tokenization.\"\nGOOD: \"Combines tantivy (full-text) with faiss (HNSW). Tokenization via nltk backed by fst (2025-01-20).\"\n\nExample 2 (preserve decision flip):\nEvidence: [2025-02-10] Chose AWS Lambda for background jobs.\n[2025-02-25] Switched to Fly.io Machines due to cold-start latency.\nBAD:  \"Background jobs run on Fly.io Machines.\"\nGOOD: \"2025-02-10 AWS Lambda chosen; 2025-02-25 switched to Fly.io Machines (cold-start latency).\"";

/// Most revisions that are shown.
pub const REVISION_HISTORY_LIMIT: usize = 20;

/// What stands in place of what was cut off.
pub const TRUNCATION_NOTICE: &'static str = "\n[...revision history truncated for prompt budget]\n";

/// One revision as it is shown: its number, when it was made, and its text.
pub open spec fn shown_revision(revision: u32, created: Seq<char>, definition: Seq<char>) -> Seq<
    char,
> {
    let head = "--- Revision #"@ + decimal(revision as nat) + " (created "@ + created
        + ") ---\n"@ + definition;
    if definition.len() > 0 && definition.last() == '\n' {
        head
    } else {
        head + "\n"@
    }
}

/// One revision as it is shown.
pub open spec fn revision_text(r: ConceptRevision) -> Seq<char> {
    shown_revision(
        r.revision,
        rfc3339_text(r.created_at.seconds(), r.created_at.nanoseconds()),
        r.definition@,
    )
}

/// The revisions as they are shown, one after another.
pub open spec fn history_text(revisions: Seq<ConceptRevision>) -> Seq<char>
    decreases revisions.len(),
{
    if revisions.len() == 0 {
        Seq::empty()
    } else {
        history_text(revisions.drop_last()) + revision_text(revisions.last())
    }
}

/// The whole prompt.
pub open spec fn full_prompt(concept: Concept, revisions: Seq<ConceptRevision>) -> Seq<char> {
    let head = "Concept: "@ + concept.name@ + "\n\nCurrent definition (revision "@ + decimal(
        concept.revision as nat,
    ) + "):\n"@ + concept.definition@ + "\n\nRevision history (oldest first):\n"@;
    let history = if revisions.len() == 0 {
        "(no prior revisions recorded)\n"@
    } else {
        history_text(revisions)
    };
    head + history + "\nNow produce the 3-to-5-sentence current-state summary."@
}

/// The prompt held to `max_chars` characters; 0 stands for no limit. What is
/// cut off is replaced by a notice, unless there is no room for it.
pub open spec fn capped(prompt: Seq<char>, max_chars: int) -> Seq<char> {
    let notice = TRUNCATION_NOTICE@;
    if max_chars == 0 || prompt.len() <= max_chars {
        prompt
    } else if max_chars <= notice.len() {
        prompt.take(max_chars)
    } else {
        prompt.take(max_chars - notice.len()) + notice
    }
}

/// Holds a prompt to `max_chars` characters.
pub fn cap_concept_summary_prompt(prompt: String, max_chars: usize) -> (r: String)
    ensures
        r@ == capped(prompt@, max_chars as int),
{
    let notice_chars: usize = TRUNCATION_NOTICE.unicode_len();
    if max_chars == 0 || prompt.as_str().unicode_len() <= max_chars {
        return prompt;
    }
    if max_chars <= notice_chars {
        return take_chars(prompt.as_str(), max_chars);
    }
    let mut s: String = take_chars(prompt.as_str(), max_chars - notice_chars);
    s.append(TRUNCATION_NOTICE);
    s
}

/// A prompt with a limit never exceeds it.
pub proof fn law_capped_prompt_fits(prompt: Seq<char>, max_chars: int)
    requires
        max_chars > 0,
    ensures
        capped(prompt, max_chars).len() <= max_chars,
        prompt.len() <= max_chars ==> capped(prompt, max_chars) == prompt,
{
}

fn ends_with_line_feed(s: &str) -> (r: bool)
    ensures
        r == (s@.len() > 0 && s@.last() == '\n'),
{
    let n: usize = s.unicode_len();
    n > 0 && s.get_char(n - 1) == '\n'
}

/// Shows one revision that was made at the time given as text.
pub fn show_revision(revision: u32, created: &str, definition: &str) -> (r: String)
    ensures
        r@ == shown_revision(revision, created@, definition@),
{
    let mut s: String = "--- Revision #".to_owned();
    push_decimal(&mut s, revision as u64);
    s.append(" (created ");
    s.append(created);
    s.append(") ---\n");
    s.append(definition);
    if !ends_with_line_feed(definition) {
        s.append("\n");
    }
    s
}

/// The prompt for a living summary, of any length.
pub fn build_concept_summary_prompt(concept: &Concept, revisions: &Vec<ConceptRevision>) -> (r: String)
    ensures
        r@ == full_prompt(*concept, revisions@),
{
    build_concept_summary_prompt_with_cap(concept, revisions, 0)
}

/// The prompt for a living summary, held to `max_chars` characters; 0 stands
/// for no limit. Characters are counted, so no character is ever split.
pub fn build_concept_summary_prompt_with_cap(
    concept: &Concept,
    revisions: &Vec<ConceptRevision>,
    max_chars: usize,
) -> (r: String)
    ensures
        r@ == capped(full_prompt(*concept, revisions@), max_chars as int),
{
    let mut buf: String = "Concept: ".to_owned();
    buf.append(concept.name.as_str());
    buf.append("\n\nCurrent definition (revision ");
    push_decimal(&mut buf, concept.revision as u64);
    buf.append("):\n");
    buf.append(concept.definition.as_str());
    buf.append("\n\nRevision history (oldest first):\n");
    if revisions.len() == 0 {
        buf.append("(no prior revisions recorded)\n");
    } else {
        let ghost head = buf@;
        let mut i: usize = 0;
        assert(head + history_text(revisions@.take(0)) =~= head);
        while i < revisions.len()
            invariant
                i <= revisions@.len(),
                buf@ == head + history_text(revisions@.take(i as int)),
            decreases revisions@.len() - i,
        {
            assert(revisions@.take(i + 1).drop_last() =~= revisions@.take(i as int));
            let r: &ConceptRevision = &revisions[i];
            let created: String = to_rfc3339(&r.created_at);
            buf.append(show_revision(r.revision, created.as_str(), r.definition.as_str()).as_str());
            assert(buf@ =~= head + history_text(revisions@.take(i + 1)));
            i = i + 1;
        }
        assert(revisions@.take(i as int) =~= revisions@);
    }
    buf.append("\nNow produce the 3-to-5-sentence current-state summary.");
    cap_concept_summary_prompt(buf, max_chars)
}

} // verus!
