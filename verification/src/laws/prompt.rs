//! What the model is told.
use vstd::prelude::*;
use crate::prompt::{
    listing_text, listings_text, system_prompt_text, task_text, ContextView, DirectoryListing,
    ListingView, ShellContext,
};
use crate::text::begins_with;

verus! {

/// The prompt begins with the shell, the system and the working directory, each on its line.
pub proof fn the_prompt_begins_with_the_surroundings(c: ContextView)
    ensures
        begins_with(
            system_prompt_text(c),
            "You generate shell commands for a user.\n\nContext:\n- shell: "@ + c.shell
                + "\n- os: "@ + c.os + "\n- cwd: "@ + c.cwd + "\n"@,
        ),
{
    let head = "You generate shell commands for a user.\n\nContext:\n- shell: "@ + c.shell
        + "\n- os: "@ + c.os + "\n- cwd: "@ + c.cwd + "\n"@;
    assert(system_prompt_text(c).take(head.len() as int) == head);
}

/// What follows the surroundings, where nothing was listed, is the same for everyone: how the model
/// is to answer.
pub proof fn everyone_gets_the_same_instructions(c: ContextView)
    requires
        c.listings.len() == 0,
    ensures
        system_prompt_text(c) == (
        "You generate shell commands for a user.\n\nContext:\n- shell: "@ + c.shell + "\n- os: "@
            + c.os + "\n- cwd: "@ + c.cwd + "\n"@) + r#"
Return only JSON. Do not wrap it in Markdown.

When the request is specific enough, return:
{
  "type": "command",
  "command": "single shell command",
  "explanation": "brief explanation",
  "dry_runs": ["optional safer preview commands"]
}

When the request is too ambiguous or risky to answer safely, return:
{
  "type": "clarification",
  "question": "short question",
  "options": ["option A", "option B"]
}

Rules:
- The command must be a single command line for the user's shell.
- Prefer safe commands and include dry-run variants where practical.
- Do not use destructive flags unless the user explicitly asks for them.
- Always add flags to print progress when working with normally-silent tools.
- Ask a clarification question if required paths, targets, or intent are missing."#@,
{
}

/// One more directory that was listed adds its path and its output at the end, in a block of its
/// own; the first one also adds a heading. Nothing before it changes.
pub proof fn one_more_listing_adds_its_block(c: ContextView, l: ListingView)
    ensures
        c.listings.len() == 0 ==> system_prompt_text(
            (ContextView { listings: c.listings.push(l), ..c }),
        ) == system_prompt_text(c) + "\n\nDirectory listings:"@ + ("\n\n`ls -la "@ + l.path
            + "`:\n```text\n"@ + l.output + "\n```"@),
        c.listings.len() > 0 ==> system_prompt_text(
            (ContextView { listings: c.listings.push(l), ..c }),
        ) == system_prompt_text(c) + ("\n\n`ls -la "@ + l.path + "`:\n```text\n"@ + l.output
            + "\n```"@),
{
    let all = c.listings.push(l);
    let d = ContextView { listings: all, ..c };
    assert(all.drop_last() == c.listings);
    assert(all.last() == l);
    assert(task_text(d) == task_text(c));
    let block = listing_text(l);
    assert(listings_text(all) == listings_text(c.listings) + block);
    if c.listings.len() == 0 {
        assert(listings_text(c.listings) == Seq::<char>::empty());
        assert(listings_text(all) == block);
    } else {
        assert(system_prompt_text(d) == task_text(c) + "\n\nDirectory listings:"@ + (listings_text(
            c.listings,
        ) + block));
    }
}

/// A context and its listings are seen with all that they hold.
pub proof fn contexts_are_seen_whole(context: ShellContext, listing: DirectoryListing, i: int)
    ensures
        context@.shell == context.shell@,
        context@.os == context.os@,
        context@.cwd == context.cwd@,
        context@.listings.len() == context.listings@.len(),
        0 <= i < context.listings@.len() ==> context@.listings[i] == context.listings@[i]@,
        listing@.path == listing.path@,
        listing@.output == listing.output@,
{
}

} // verus!
