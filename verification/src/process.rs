//! The shell of the user, and what the programs that were run have said.
use vstd::prelude::*;
use crate::error::AiError;
use crate::prompt::{DirectoryListing, ListingView, ShellContext};
use crate::text::{
    any_text, optional_text, texts, trim, trim_end, trimmed, trimmed_end, utf8_text, written_text,
};

verus! {

/// How a program ended, and what it wrote.
#[derive(Debug, PartialEq)]
pub struct ProgramOutput {
    pub success: bool,
    pub stdout: Vec<u8>,
    pub stderr: Vec<u8>,
}

/// A program to run.
#[derive(Debug, PartialEq)]
pub struct Invocation {
    pub program: String,
    pub arguments: Vec<String>,
}

/// What was found when a directory was to be listed.
#[derive(Debug, PartialEq)]
pub enum ListingProbe {
    /// The path is not a directory.
    NotADirectory,
    /// `ls -la` did not start.
    NotRun,
    /// `ls -la` ended.
    Ran(ProgramOutput),
}

/// A path, and what was found when it was to be listed.
#[derive(Debug, PartialEq)]
pub struct ProbedPath {
    pub path: String,
    pub probe: ListingProbe,
}

/// The shell that the environment names, unless the name is blank.
pub open spec fn shell_of(variable: Option<Seq<char>>) -> Seq<char> {
    match variable {
        Some(value) => if trimmed(value).len() > 0 {
            value
        } else {
            "unknown"@
        },
        None => "unknown"@,
    }
}

/// The shell that the environment names.
pub fn current_shell(variable: Option<String>) -> (shell: String)
    ensures
        shell@ == shell_of(optional_text(variable)),
{
    match variable {
        Some(value) => if !trim(value.as_str()).is_empty() {
            value
        } else {
            "unknown".to_string()
        },
        None => "unknown".to_string(),
    }
}

/// The operating system as `uname -a` tells it, or its plain name where that says nothing.
pub open spec fn system_of(uname: Option<ProgramOutput>, name: Seq<char>) -> Seq<char> {
    match uname {
        Some(output) => {
            let said = trimmed(vstd::utf8::decode_utf8(output.stdout@));
            if output.success && vstd::utf8::valid_utf8(output.stdout@) && said.len() > 0 {
                said
            } else {
                name
            }
        },
        None => name,
    }
}

/// The operating system as `uname -a` tells it, or its plain name.
pub fn os_context(uname: Option<ProgramOutput>, name: &str) -> (os: String)
    ensures
        os@ == system_of(uname, name@),
{
    if let Some(output) = uname {
        if output.success {
            if let Some(text) = utf8_text(output.stdout) {
                let said = trim(text.as_str());
                if !said.is_empty() {
                    return said.to_string();
                }
            }
        }
    }
    name.to_string()
}

/// A probe that gives a listing.
pub open spec fn lists(probe: ListingProbe) -> bool {
    probe matches ListingProbe::Ran(output) && output.success
}

/// What a probe of `path` comes to.
pub open spec fn listing_outcome(
    path: Seq<char>,
    probe: ListingProbe,
    outcome: Result<DirectoryListing, AiError>,
) -> bool {
    match probe {
        ListingProbe::NotADirectory => outcome matches Err(AiError::NotADirectory(p)) && p@ == path,
        ListingProbe::NotRun => outcome matches Err(AiError::ListingNotRun(p)) && p@ == path,
        ListingProbe::Ran(output) => if output.success {
            outcome matches Ok(listing) && listing@ == (ListingView {
                path,
                output: trimmed_end(written_text(output.stdout@)),
            })
        } else {
            outcome matches Err(AiError::ListingFailed { path: p, stderr }) && p@ == path && stderr@
                == trimmed(written_text(output.stderr@))
        },
    }
}

/// The listing of `path`, or why there is none.
pub fn directory_listing(path: &str, probe: &ListingProbe) -> (outcome: Result<
    DirectoryListing,
    AiError,
>)
    ensures
        listing_outcome(path@, *probe, outcome),
        outcome is Ok <==> lists(*probe),
{
    match probe {
        ListingProbe::NotADirectory => Err(AiError::NotADirectory(path.to_string())),
        ListingProbe::NotRun => Err(AiError::ListingNotRun(path.to_string())),
        ListingProbe::Ran(output) => if output.success {
            let text = any_text(&output.stdout);
            Ok(
                DirectoryListing {
                    path: path.to_string(),
                    output: trim_end(text.as_str()).to_string(),
                },
            )
        } else {
            let text = any_text(&output.stderr);
            Err(
                AiError::ListingFailed {
                    path: path.to_string(),
                    stderr: trim(text.as_str()).to_string(),
                },
            )
        },
    }
}

/// The listings of all paths in order, or why the first one that fails does.
pub fn collect_directory_listings(paths: &Vec<ProbedPath>) -> (outcome: Result<
    Vec<DirectoryListing>,
    AiError,
>)
    ensures
        outcome is Ok <==> forall|i: int| 0 <= i < paths.len() ==> lists(#[trigger] paths[i].probe),
        outcome matches Ok(listings) ==> listings.len() == paths.len() && forall|i: int|
            0 <= i < paths.len() ==> #[trigger] listing_outcome(
                paths[i].path@,
                paths[i].probe,
                Ok(listings[i]),
            ),
        outcome matches Ok(listings) ==> forall|i: int|
            0 <= i < paths.len() ==> (#[trigger] listings[i]).path@ == paths[i].path@,
        outcome matches Err(e) ==> exists|i: int|
            0 <= i < paths.len() && #[trigger] listing_outcome(
                paths[i].path@,
                paths[i].probe,
                Err(e),
            ) && forall|j: int| 0 <= j < i ==> lists(#[trigger] paths[j].probe),
{
    let mut listings: Vec<DirectoryListing> = Vec::new();
    let mut i: usize = 0;
    while i < paths.len()
        invariant
            i <= paths.len(),
            listings.len() == i,
            forall|k: int| 0 <= k < i ==> lists(#[trigger] paths[k].probe),
            forall|k: int|
                0 <= k < i ==> #[trigger] listing_outcome(
                    paths[k].path@,
                    paths[k].probe,
                    Ok(listings[k]),
                ),
        decreases paths.len() - i,
    {
        match directory_listing(paths[i].path.as_str(), &paths[i].probe) {
            Ok(listing) => listings.push(listing),
            Err(e) => {
                assert(listing_outcome(paths[i as int].path@, paths[i as int].probe, Err(e)));
                assert(!lists(paths[i as int].probe));
                return Err(e);
            },
        }
        i = i + 1;
    }
    assert forall|k: int| 0 <= k < paths.len() implies (#[trigger] listings[k]).path@
        == paths[k].path@ by {
        assert(lists(paths[k].probe));
        assert(listing_outcome(paths[k].path@, paths[k].probe, Ok(listings[k])));
    }
    Ok(listings)
}

impl ShellContext {
    /// What the model is told of the user's surroundings.
    pub fn detect(
        shell: Option<String>,
        uname: Option<ProgramOutput>,
        os_name: &str,
        cwd: String,
        listings: Vec<DirectoryListing>,
    ) -> (context: ShellContext)
        ensures
            context.shell@ == shell_of(optional_text(shell)),
            context.os@ == system_of(uname, os_name@),
            context.cwd == cwd,
            context.listings == listings,
    {
        ShellContext { shell: current_shell(shell), os: os_context(uname, os_name), cwd, listings }
    }
}

/// The program that runs `command`: the user's shell.
pub fn shell_invocation(shell: Option<String>, command: &str) -> (run: Invocation)
    ensures
        run.program@ == shell_of(optional_text(shell)),
        texts(run.arguments@) == seq!["-c"@, command@],
{
    let mut arguments: Vec<String> = Vec::new();
    arguments.push("-c".to_string());
    arguments.push(command.to_string());
    assert(texts(arguments@) == seq!["-c"@, command@]);
    Invocation { program: current_shell(shell), arguments }
}

/// What a shell command comes to that ended with `status`.
pub fn command_outcome(success: bool, status: &str) -> (outcome: Result<(), AiError>)
    ensures
        success ==> outcome is Ok,
        !success ==> (outcome matches Err(AiError::CommandFailed(s)) && s@ == status@),
{
    if success {
        Ok(())
    } else {
        Err(AiError::CommandFailed(status.to_string()))
    }
}

/// The shell always has a name that is not blank.
pub proof fn the_shell_has_a_name(variable: Option<Seq<char>>)
    ensures
        trimmed(shell_of(variable)).len() > 0,
{
    reveal_strlit("unknown");
    let u = "unknown"@;
    assert(!crate::text::white_space(u[0]));
    crate::text::only_blank_text_is_trimmed_away(u);
}

} // verus!
