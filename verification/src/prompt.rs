//! What the model is told about its task and about the user's shell.
use vstd::prelude::*;

verus! {

/// What leads to the name of the shell.
pub const TASK: &'static str = "You generate shell commands for a user.\n\nContext:\n- shell: ";

/// What follows the line of the working directory.
pub const INSTRUCTIONS: &'static str = r#"
Return only JSON. Do not wrap it in Markdown.

When the request is specific enough, return:
{
  "type": "command",
  "command": "single shell command",
  "explanation": "brief explanation",
  "dry_runs": ["optional safer preview commands"]
}

When the request is too ambiguous or risky to answer safely, return:
{
  "type": "clarification",
  "question": "short question",
  "options": ["option A", "option B"]
}

Rules:
- The command must be a single command line for the user's shell.
- Prefer safe commands and include dry-run variants where practical.
- Do not use destructive flags unless the user explicitly asks for them.
- Always add flags to print progress when working with normally-silent tools.
- Ask a clarification question if required paths, targets, or intent are missing."#;

/// The output of `ls -la` for a directory.
#[derive(Debug, PartialEq)]
pub struct DirectoryListing {
    pub path: String,
    pub output: String,
}

/// Where the user is: the shell, the operating system, the working directory, and the directories
/// that were listed for the model.
#[derive(Debug, PartialEq)]
pub struct ShellContext {
    pub shell: String,
    pub os: String,
    pub cwd: String,
    pub listings: Vec<DirectoryListing>,
}

/// What a listing shows.
pub struct ListingView {
    pub path: Seq<char>,
    pub output: Seq<char>,
}

/// What a context says.
pub struct ContextView {
    pub shell: Seq<char>,
    pub os: Seq<char>,
    pub cwd: Seq<char>,
    pub listings: Seq<ListingView>,
}

impl View for DirectoryListing {
    type V = ListingView;

    open spec fn view(&self) -> ListingView {
        ListingView { path: self.path@, output: self.output@ }
    }
}

/// What the listings of a list show.
pub open spec fn listing_views(list: Seq<DirectoryListing>) -> Seq<ListingView> {
    list.map_values(|l: DirectoryListing| l@)
}

impl View for ShellContext {
    type V = ContextView;

    open spec fn view(&self) -> ContextView {
        ContextView {
            shell: self.shell@,
            os: self.os@,
            cwd: self.cwd@,
            listings: listing_views(self.listings@),
        }
    }
}

/// How one listing stands in the prompt.
pub open spec fn listing_text(l: ListingView) -> Seq<char> {
    "\n\n`ls -la "@ + l.path + "`:\n```text\n"@ + l.output + "\n```"@
}

/// How the listings stand in the prompt, one after the other.
pub open spec fn listings_text(listings: Seq<ListingView>) -> Seq<char>
    decreases listings.len(),
{
    if listings.len() == 0 {
        Seq::empty()
    } else {
        listings_text(listings.drop_last()) + listing_text(listings.last())
    }
}

/// The part of the prompt that stands before the listings.
pub open spec fn task_text(c: ContextView) -> Seq<char> {
    TASK@ + c.shell + "\n- os: "@ + c.os + "\n- cwd: "@ + c.cwd + "\n"@
        + INSTRUCTIONS@
}

/// The system prompt for a context. Without listings it has no section for them.
pub open spec fn system_prompt_text(c: ContextView) -> Seq<char> {
    if c.listings.len() == 0 {
        task_text(c)
    } else {
        task_text(c) + "\n\nDirectory listings:"@ + listings_text(c.listings)
    }
}

/// The system prompt for a context.
pub fn system_prompt(context: &ShellContext) -> (prompt: String)
    ensures
        prompt@ == system_prompt_text(context@),
{
    let mut prompt = TASK.to_string();
    prompt.append(context.shell.as_str());
    prompt.append("\n- os: ");
    prompt.append(context.os.as_str());
    prompt.append("\n- cwd: ");
    prompt.append(context.cwd.as_str());
    prompt.append("\n");
    prompt.append(INSTRUCTIONS);
    if context.listings.len() > 0 {
        prompt.append("\n\nDirectory listings:");
        let ghost head = prompt@;
        let ghost all = context@.listings;
        let mut i: usize = 0;
        while i < context.listings.len()
            invariant
                i <= context.listings.len(),
                all == context@.listings,
                prompt@ == head + listings_text(all.take(i as int)),
            decreases context.listings.len() - i,
        {
            let listing = &context.listings[i];
            assert(all.take(i + 1).drop_last() == all.take(i as int));
            assert(all.take(i + 1).last() == listing@);
            prompt.append("\n\n`ls -la ");
            prompt.append(listing.path.as_str());
            prompt.append("`:\n```text\n");
            prompt.append(listing.output.as_str());
            prompt.append("\n```");
            assert(prompt@ == head + (listings_text(all.take(i as int)) + listing_text(listing@)));
            i = i + 1;
        }
        assert(all.take(all.len() as int) == all);
    }
    prompt
}

/// Two runs that differ in the working directory alone are told apart by the system prompt, so that
/// what was answered in one directory is not taken for an answer in the other.
pub proof fn directories_have_their_own_prompt(a: ContextView, b: ContextView)
    requires
        a.shell == b.shell,
        a.os == b.os,
        a.listings == b.listings,
        a.cwd != b.cwd,
    ensures
        system_prompt_text(a) != system_prompt_text(b),
{
    let head = TASK@ + a.shell + "\n- os: "@ + a.os + "\n- cwd: "@;
    let tail = if a.listings.len() == 0 {
        "\n"@ + INSTRUCTIONS@
    } else {
        "\n"@ + INSTRUCTIONS@ + "\n\nDirectory listings:"@ + listings_text(a.listings)
    };
    assert(system_prompt_text(a) == head + a.cwd + tail);
    assert(system_prompt_text(b) == head + b.cwd + tail);
    if head + a.cwd + tail == head + b.cwd + tail {
        assert((head + a.cwd + tail).len() == (head + b.cwd + tail).len());
        assert forall|i: int| 0 <= i < a.cwd.len() implies a.cwd[i] == b.cwd[i] by {
            assert((head + a.cwd + tail)[head.len() + i] == a.cwd[i]);
            assert((head + b.cwd + tail)[head.len() + i] == b.cwd[i]);
        }
        assert(a.cwd == b.cwd);
    }
}

/// A text without a line break.
pub open spec fn one_line(s: Seq<char>) -> bool {
    !s.contains('\n')
}

/// The shell, the system and the working directory stand on one line each.
pub open spec fn on_lines(c: ContextView) -> bool {
    one_line(c.shell) && one_line(c.os) && one_line(c.cwd)
}

/// What stands before the first line break, and what stands after it, is told by the text.
proof fn lemma_first_line_is_told(x: Seq<char>, r: Seq<char>, y: Seq<char>, q: Seq<char>)
    requires
        one_line(x),
        one_line(y),
        x + seq!['\n'] + r == y + seq!['\n'] + q,
    ensures
        x == y,
        r == q,
{
    let s = x + seq!['\n'] + r;
    let t = y + seq!['\n'] + q;
    assert(s[x.len() as int] == '\n');
    assert(t[y.len() as int] == '\n');
    if x.len() < y.len() {
        assert(t[x.len() as int] == y[x.len() as int]);
        assert(y.contains('\n'));
    }
    if y.len() < x.len() {
        assert(s[y.len() as int] == x[y.len() as int]);
        assert(x.contains('\n'));
    }
    assert(s.take(x.len() as int) == x);
    assert(t.take(y.len() as int) == y);
    assert(s.skip(x.len() as int + 1) == r);
    assert(t.skip(y.len() as int + 1) == q);
}

/// What follows a beginning is told by the text.
proof fn lemma_rest_is_told(head: Seq<char>, r: Seq<char>, q: Seq<char>)
    requires
        head + r == head + q,
    ensures
        r == q,
{
    assert((head + r).skip(head.len() as int) == r);
    assert((head + q).skip(head.len() as int) == q);
}

/// What stands in the prompt after the working directory.
spec fn after_directory(c: ContextView) -> Seq<char> {
    if c.listings.len() == 0 {
        INSTRUCTIONS@
    } else {
        INSTRUCTIONS@ + "\n\nDirectory listings:"@ + listings_text(c.listings)
    }
}

/// Two runs in different working directories are told apart by the system prompt, whatever else
/// differs: the shell, the system, or the directories that were listed. Left out are names with a
/// line break in them, by which one line could be taken for another.
pub proof fn another_directory_has_another_prompt(a: ContextView, b: ContextView)
    requires
        on_lines(a),
        on_lines(b),
        a.cwd != b.cwd,
    ensures
        system_prompt_text(a) != system_prompt_text(b),
{
    reveal_strlit("\n");
    reveal_strlit("\n- os: ");
    reveal_strlit("\n- cwd: ");
    let os = "\n- os: "@.skip(1);
    let cwd = "\n- cwd: "@.skip(1);
    assert("\n- os: "@ == seq!['\n'] + os);
    assert("\n- cwd: "@ == seq!['\n'] + cwd);
    assert("\n"@ == seq!['\n']);
    let (a3, b3) = (after_directory(a), after_directory(b));
    let (a2, b2) = (a.cwd + seq!['\n'] + a3, b.cwd + seq!['\n'] + b3);
    let (a1, b1) = (a.os + seq!['\n'] + (cwd + a2), b.os + seq!['\n'] + (cwd + b2));
    let (a0, b0) = (a.shell + seq!['\n'] + (os + a1), b.shell + seq!['\n'] + (os + b1));
    assert(system_prompt_text(a) == TASK@ + a0);
    assert(system_prompt_text(b) == TASK@ + b0);
    if system_prompt_text(a) == system_prompt_text(b) {
        lemma_rest_is_told(TASK@, a0, b0);
        lemma_first_line_is_told(a.shell, os + a1, b.shell, os + b1);
        lemma_rest_is_told(os, a1, b1);
        lemma_first_line_is_told(a.os, cwd + a2, b.os, cwd + b2);
        lemma_rest_is_told(cwd, a2, b2);
        lemma_first_line_is_told(a.cwd, a3, b.cwd, b3);
    }
}

proof fn lemma_listing_position(listings: Seq<ListingView>, i: int) -> (at: int)
    requires
        0 <= i < listings.len(),
    ensures
        0 <= at,
        at + listing_text(listings[i]).len() <= listings_text(listings).len(),
        listings_text(listings).subrange(at, at + listing_text(listings[i]).len()) == listing_text(
            listings[i],
        ),
    decreases listings.len(),
{
    let before = listings_text(listings.drop_last());
    let part = listing_text(listings[i]);
    if i == listings.len() - 1 {
        let at = before.len() as int;
        assert(listings_text(listings).subrange(at, at + part.len()) == part);
        at
    } else {
        let at = lemma_listing_position(listings.drop_last(), i);
        assert(listings.drop_last()[i] == listings[i]);
        assert(listings_text(listings).subrange(at, at + part.len()) == before.subrange(
            at,
            at + part.len(),
        ));
        at
    }
}

/// Every directory that was listed for the model stands in the system prompt, with its path and its
/// output.
pub proof fn listings_stand_in_the_prompt(c: ContextView, i: int) -> (at: int)
    requires
        0 <= i < c.listings.len(),
    ensures
        0 <= at,
        at + listing_text(c.listings[i]).len() <= system_prompt_text(c).len(),
        system_prompt_text(c).subrange(at, at + listing_text(c.listings[i]).len()) == listing_text(
            c.listings[i],
        ),
{
    let head = task_text(c) + "\n\nDirectory listings:"@;
    let tail = listings_text(c.listings);
    let part = listing_text(c.listings[i]);
    let at = lemma_listing_position(c.listings, i);
    let here = head.len() + at;
    assert(system_prompt_text(c) == head + tail);
    assert((head + tail).subrange(here, here + part.len()) == tail.subrange(at, at + part.len()));
    here
}

} // verus!
