//! Command-line surface: argument dispatch, input checks and the one-line
//! summaries printed by the character commands.

use vstd::prelude::*;

use crate::persist::{removed_total, CharacterSummary, DeleteOutcome};
use crate::prompt_pack::PromptPack;
use crate::rubric::DimensionScores;
use crate::text::{owned, decimal, is_blank, is_blank_str, join, push_decimal, push_str, trim, trim_str, views, str_eq};

verus! {

/// Help text listing every command.
pub const USAGE: &'static str = "usage:\n  novelagent                         # Topcoat chat UI\n  novelagent character-create <concept…>\n  novelagent character-chat <slug> <message…>\n  novelagent character-list          # enumerate saved cards under data/characters/\n  novelagent character-delete <slug> # remove all sidecar files for a saved card\n  novelagent character-regenerate <slug> # re-run Self-Refine with the stored concept\n  novelagent help";

/// Usage line of `character-create`.
pub const CREATE_USAGE: &'static str = "usage: novelagent character-create <concept…>";

/// Usage line of `character-chat`.
pub const CHAT_USAGE: &'static str = "usage: novelagent character-chat <slug> <message…>";

/// Usage line of `character-delete`.
pub const DELETE_USAGE: &'static str = "usage: novelagent character-delete <slug>";

/// Usage line of `character-regenerate`.
pub const REGENERATE_USAGE: &'static str = "usage: novelagent character-regenerate <slug>";

/// The help text.
pub fn usage_text() -> (s: &'static str)
    ensures
        s@ == USAGE@,
{
    USAGE
}


/// A parsed command line.
#[derive(Debug, Clone, PartialEq, Eq)]
pub enum Command {
    /// No arguments: serve the chat UI.
    Serve,
    /// Create a card from the joined concept words.
    Create { concept: String },
    /// One chat turn as a saved card.
    Chat { slug: String, message: String },
    /// List saved cards.
    List,
    /// Delete a saved card's files.
    Delete { slug: String },
    /// Re-create a saved card from its stored concept.
    Regenerate { slug: String },
    /// Print the help text.
    Help,
}

/// The words after position `from`, joined by single spaces.
pub open spec fn words_from(args: Seq<Seq<char>>, from: int) -> Seq<char> {
    join(args.subrange(from, args.len() as int), " "@)
}

/// What the command line `args` (without the program name) asks for, or the
/// message it is refused with.
pub open spec fn parsed(args: Seq<Seq<char>>, r: Result<Command, String>) -> bool {
    if args.len() == 0 {
        r == Ok::<Command, String>(Command::Serve)
    } else {
        let cmd = args[0];
        if cmd == "character-create"@ {
            let concept = words_from(args, 1);
            if is_blank(concept) {
                r matches Err(m) && m@ == CREATE_USAGE@
            } else {
                r matches Ok(Command::Create { concept: c }) && c@ == concept
            }
        } else if cmd == "character-chat"@ {
            if args.len() < 2 || args[1].len() == 0 || is_blank(words_from(args, 2)) {
                r matches Err(m) && m@ == CHAT_USAGE@
            } else {
                r matches Ok(Command::Chat { slug, message }) && slug@ == args[1] && message@
                    == words_from(args, 2)
            }
        } else if cmd == "character-list"@ {
            r == Ok::<Command, String>(Command::List)
        } else if cmd == "character-delete"@ {
            if args.len() < 2 || args[1].len() == 0 {
                r matches Err(m) && m@ == DELETE_USAGE@
            } else {
                r matches Ok(Command::Delete { slug }) && slug@ == args[1]
            }
        } else if cmd == "character-regenerate"@ {
            if args.len() < 2 || args[1].len() == 0 {
                r matches Err(m) && m@ == REGENERATE_USAGE@
            } else {
                r matches Ok(Command::Regenerate { slug }) && slug@ == args[1]
            }
        } else if cmd == "help"@ || cmd == "--help"@ || cmd == "-h"@ {
            r == Ok::<Command, String>(Command::Help)
        } else {
            r matches Err(m) && m@ == "unknown command `"@ + cmd + "`\n"@ + USAGE@
        }
    }
}

fn words_after(args: &Vec<String>, from: usize) -> (s: String)
    requires
        from <= args@.len(),
    ensures
        s@ == words_from(views(args@), from as int),
{
    let mut s = String::new();
    let mut i: usize = from;
    assert(views(args@).subrange(from as int, from as int) =~= Seq::<Seq<char>>::empty());
    while i < args.len()
        invariant
            from <= i <= args@.len(),
            s@ == join(views(args@).subrange(from as int, i as int), " "@),
        decreases args@.len() - i,
    {
        let ghost prev = views(args@).subrange(from as int, i as int);
        if i > from {
            push_str(&mut s, " ");
        }
        push_str(&mut s, args[i].as_str());
        proof {
            let nxt = views(args@).subrange(from as int, i + 1);
            assert(nxt.drop_last() =~= prev);
            assert(nxt.last() == args@[i as int]@);
            if i == from {
                assert(nxt.len() == 1);
            }
        }
        i += 1;
    }
    s
}

/// Parse the command line (without the program name).
pub fn parse_command(args: &Vec<String>) -> (r: Result<Command, String>)
    ensures
        parsed(views(args@), r),
{
    if args.len() == 0 {
        return Ok(Command::Serve);
    }
    let cmd = args[0].as_str();
    assert(views(args@)[0] == args@[0]@);
    if str_eq(cmd, "character-create") {
        let concept = words_after(args, 1);
        if is_blank_str(concept.as_str()) {
            return Err(owned(CREATE_USAGE));
        }
        return Ok(Command::Create { concept });
    }
    if str_eq(cmd, "character-chat") {
        if args.len() < 2 || args[1].as_str().is_empty() {
            return Err(owned(CHAT_USAGE));
        }
        assert(views(args@)[1] == args@[1]@);
        let message = words_after(args, 2);
        if is_blank_str(message.as_str()) {
            return Err(owned(CHAT_USAGE));
        }
        return Ok(Command::Chat { slug: args[1].clone(), message });
    }
    if str_eq(cmd, "character-list") {
        return Ok(Command::List);
    }
    if str_eq(cmd, "character-delete") {
        if args.len() < 2 || args[1].as_str().is_empty() {
            return Err(owned(DELETE_USAGE));
        }
        assert(views(args@)[1] == args@[1]@);
        return Ok(Command::Delete { slug: args[1].clone() });
    }
    if str_eq(cmd, "character-regenerate") {
        if args.len() < 2 || args[1].as_str().is_empty() {
            return Err(owned(REGENERATE_USAGE));
        }
        assert(views(args@)[1] == args@[1]@);
        return Ok(Command::Regenerate { slug: args[1].clone() });
    }
    if str_eq(cmd, "help") || str_eq(cmd, "--help") || str_eq(cmd, "-h") {
        return Ok(Command::Help);
    }
    let mut m = String::new();
    push_str(&mut m, "unknown command `");
    push_str(&mut m, cmd);
    push_str(&mut m, "`\n");
    push_str(&mut m, USAGE);
    Err(m)
}

/// Reject a blank user message; hand back the trimmed one.
pub fn validate_user_message(message: &str) -> (r: Result<String, String>)
    ensures
        is_blank(message@) ==> (r matches Err(m) && m@ == "message must not be empty"@),
        !is_blank(message@) ==> (r matches Ok(t) && t@ == trim(message@)),
{
    if is_blank_str(message) {
        return Err(owned("message must not be empty"));
    }
    Ok(trim_str(message))
}

/// Reject a blank concept; hand back the trimmed one.
pub fn require_concept(concept: &str) -> (r: Result<String, String>)
    ensures
        is_blank(concept@) ==> (r matches Err(m) && m@ == "concept must not be empty"@),
        !is_blank(concept@) ==> (r matches Ok(t) && t@ == trim(concept@)),
{
    if is_blank_str(concept) {
        return Err(owned("concept must not be empty"));
    }
    Ok(trim_str(concept))
}

/// Reject a blank slug; hand back the trimmed one.
pub fn require_slug(slug: &str) -> (r: Result<String, String>)
    ensures
        is_blank(slug@) ==> (r matches Err(m) && m@ == "character slug must not be empty"@),
        !is_blank(slug@) ==> (r matches Ok(t) && t@ == trim(slug@)),
{
    if is_blank_str(slug) {
        return Err(owned("character slug must not be empty"));
    }
    Ok(trim_str(slug))
}

/// The system preamble for chatting as a card: system block, role context
/// and post-history instructions, separated by blank lines.
pub fn chat_preamble(pack: &PromptPack) -> (s: String)
    ensures
        s@ == pack.system@ + "\n\n"@ + pack.role_context@ + "\n\n"@ + pack.post_history_instructions@,
{
    let mut s = String::new();
    push_str(&mut s, pack.system.as_str());
    push_str(&mut s, "\n\n");
    push_str(&mut s, pack.role_context.as_str());
    push_str(&mut s, "\n\n");
    push_str(&mut s, pack.post_history_instructions.as_str());
    s
}

/// The concept to regenerate `slug` from: the stored one, unless there is
/// none or it is blank.
pub fn regenerate_concept(slug: &str, stored: Option<String>) -> (r: Result<String, String>)
    ensures
        stored is None ==> (r matches Err(m) && m@ == "no stored concept for slug `"@ + slug@
            + "` (legacy report or report missing)"@),
        stored matches Some(c) ==> (if is_blank(c@) {
            r matches Err(m) && m@ == "stored concept for slug `"@ + slug@ + "` is empty"@
        } else {
            r == Ok::<String, String>(c)
        }),
{
    match stored {
        None => {
            let mut m = String::new();
            push_str(&mut m, "no stored concept for slug `");
            push_str(&mut m, slug);
            push_str(&mut m, "` (legacy report or report missing)");
            Err(m)
        },
        Some(c) => {
            if is_blank_str(c.as_str()) {
                let mut m = String::new();
                push_str(&mut m, "stored concept for slug `");
                push_str(&mut m, slug);
                push_str(&mut m, "` is empty");
                Err(m)
            } else {
                Ok(c)
            }
        },
    }
}

/// `true` / `false`.
pub open spec fn bool_text(b: bool) -> Seq<char> {
    if b {
        "true"@
    } else {
        "false"@
    }
}

fn push_bool(s: &mut String, b: bool)
    ensures
        final(s)@ == old(s)@ + bool_text(b),
{
    if b {
        push_str(s, "true");
    } else {
        push_str(s, "false");
    }
}

/// The one-line summary of a deletion.
pub open spec fn delete_summary_text(o: DeleteOutcome) -> Seq<char> {
    "deleted slug="@ + o.slug@ + " removed="@ + decimal(removed_total(o)) + " (card="@ + bool_text(
        o.card_removed,
    ) + " memory="@ + bool_text(o.memory_removed) + " kg="@ + bool_text(o.kg_removed)
        + " report="@ + bool_text(o.report_removed) + ")"@
}

/// One-line summary for the delete command / procedure.
pub fn format_delete_summary(outcome: &DeleteOutcome) -> (s: String)
    ensures
        s@ == delete_summary_text(*outcome),
{
    let mut s = String::new();
    push_str(&mut s, "deleted slug=");
    push_str(&mut s, outcome.slug.as_str());
    push_str(&mut s, " removed=");
    push_decimal(&mut s, outcome.removed_count() as u64);
    push_str(&mut s, " (card=");
    push_bool(&mut s, outcome.card_removed);
    push_str(&mut s, " memory=");
    push_bool(&mut s, outcome.memory_removed);
    push_str(&mut s, " kg=");
    push_bool(&mut s, outcome.kg_removed);
    push_str(&mut s, " report=");
    push_bool(&mut s, outcome.report_removed);
    push_str(&mut s, ")");
    s
}

/// A count, or `n/a` when the report did not record it.
pub open spec fn count_text(n: Option<usize>) -> Seq<char> {
    match n {
        Some(v) => decimal(v as nat),
        None => "n/a"@,
    }
}

/// The five scores as `premise/character/voice/tom/constraints`, or `n/a`.
pub open spec fn scores_text(s: Option<DimensionScores>) -> Seq<char> {
    match s {
        Some(sc) => decimal(sc.premise as nat) + "/"@ + decimal(sc.character as nat) + "/"@
            + decimal(sc.voice as nat) + "/"@ + decimal(sc.tom as nat) + "/"@ + decimal(
            sc.constraints as nat,
        ),
        None => "n/a"@,
    }
}

/// The refine count, or `n/a`.
pub open spec fn rounds_text(r: Option<u8>) -> Seq<char> {
    match r {
        Some(v) => decimal(v as nat),
        None => "n/a"@,
    }
}

/// One listed character.
pub open spec fn list_row_text(s: CharacterSummary) -> Seq<char> {
    "\n• "@ + s.name@ + " (slug="@ + s.slug@ + ", rounds="@ + rounds_text(s.refine_rounds)
        + ", scores="@ + scores_text(s.scores) + ", mem="@ + count_text(s.memory_entries)
        + ", kg="@ + count_text(s.kg_edges) + ", lore="@ + count_text(s.lore_entries) + ")"@
}

/// The rows of a list, in order.
pub open spec fn list_rows_text(list: Seq<CharacterSummary>) -> Seq<char>
    decreases list.len(),
{
    if list.len() == 0 {
        Seq::empty()
    } else {
        list_rows_text(list.drop_last()) + list_row_text(list.last())
    }
}

/// The rendered list: a count header, then one row per character.
pub open spec fn list_summary_text(list: Seq<CharacterSummary>) -> Seq<char> {
    if list.len() == 0 {
        "已存 0 个角色"@
    } else {
        "已存 "@ + decimal(list.len()) + " 个角色:"@ + list_rows_text(list)
    }
}

fn push_count(s: &mut String, n: Option<usize>)
    ensures
        final(s)@ == old(s)@ + count_text(n),
{
    match n {
        Some(v) => push_decimal(s, v as u64),
        None => push_str(s, "n/a"),
    }
}

fn push_scores(s: &mut String, scores: Option<DimensionScores>)
    ensures
        final(s)@ == old(s)@ + scores_text(scores),
{
    match scores {
        Some(sc) => {
            push_decimal(s, sc.premise as u64);
            push_str(s, "/");
            push_decimal(s, sc.character as u64);
            push_str(s, "/");
            push_decimal(s, sc.voice as u64);
            push_str(s, "/");
            push_decimal(s, sc.tom as u64);
            push_str(s, "/");
            push_decimal(s, sc.constraints as u64);
        },
        None => push_str(s, "n/a"),
    }
}

fn push_row(out: &mut String, s: &CharacterSummary)
    ensures
        final(out)@ == old(out)@ + list_row_text(*s),
{
    push_str(out, "\n• ");
    push_str(out, s.name.as_str());
    push_str(out, " (slug=");
    push_str(out, s.slug.as_str());
    push_str(out, ", rounds=");
    match s.refine_rounds {
        Some(v) => push_decimal(out, v as u64),
        None => push_str(out, "n/a"),
    }
    push_str(out, ", scores=");
    push_scores(out, s.scores);
    push_str(out, ", mem=");
    push_count(out, s.memory_entries);
    push_str(out, ", kg=");
    push_count(out, s.kg_edges);
    push_str(out, ", lore=");
    push_count(out, s.lore_entries);
    push_str(out, ")");
}

/// Render a character list as one human-readable block.
pub fn format_character_list_summary(list: &[CharacterSummary]) -> (out: String)
    ensures
        out@ == list_summary_text(list@),
{
    if list.len() == 0 {
        return owned("已存 0 个角色");
    }
    let mut out = String::new();
    push_str(&mut out, "已存 ");
    push_decimal(&mut out, list.len() as u64);
    push_str(&mut out, " 个角色:");
    let ghost head = out@;
    let mut i: usize = 0;
    while i < list.len()
        invariant
            i <= list@.len(),
            out@ == head + list_rows_text(list@.take(i as int)),
        decreases list@.len() - i,
    {
        let ghost before = out@;
        push_row(&mut out, &list[i]);
        proof {
            assert(list@.take(i + 1).drop_last() =~= list@.take(i as int));
            assert(list@.take(i + 1).last() == list@[i as int]);
        }
        i += 1;
    }
    assert(list@.take(list@.len() as int) =~= list@);
    out
}

} // verus!
