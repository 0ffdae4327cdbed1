use ai_shell::error::AiError;
use ai_shell::process::{
    collect_directory_listings, command_outcome, current_shell, directory_listing, os_context,
    shell_invocation, ListingProbe, ProbedPath, ProgramOutput,
};
use ai_shell::prompt::{DirectoryListing, ShellContext};

fn output(success: bool, stdout: &[u8], stderr: &[u8]) -> ProgramOutput {
    ProgramOutput { success, stdout: stdout.to_vec(), stderr: stderr.to_vec() }
}

fn probed(path: &str, probe: ListingProbe) -> ProbedPath {
    ProbedPath { path: path.to_string(), probe }
}

#[test]
fn directory_listing_errors_for_non_directory() {
    let paths = vec![probed("/tmp/file", ListingProbe::NotADirectory)];
    let error = collect_directory_listings(&paths).unwrap_err();
    assert!(error.message().contains("--ls path is not a directory"));
    assert_eq!(error.message(), "--ls path is not a directory: /tmp/file");
}

#[test]
fn listings_keep_their_order_and_lose_trailing_space() {
    let paths = vec![
        probed("a", ListingProbe::Ran(output(true, b" total 0\n\n", b"warning"))),
        probed("b", ListingProbe::Ran(output(true, b"x\xff\n", b""))),
    ];
    assert_eq!(
        collect_directory_listings(&paths),
        Ok(vec![
            DirectoryListing { path: "a".to_string(), output: " total 0".to_string() },
            DirectoryListing { path: "b".to_string(), output: "x\u{fffd}".to_string() },
        ])
    );
    assert_eq!(collect_directory_listings(&vec![]), Ok(vec![]));
}

#[test]
fn the_first_failure_is_told() {
    let paths = vec![
        probed("a", ListingProbe::Ran(output(true, b"", b""))),
        probed("b", ListingProbe::Ran(output(false, b"x", b" denied \n"))),
        probed("c", ListingProbe::NotADirectory),
    ];
    let error = collect_directory_listings(&paths).unwrap_err();
    assert_eq!(
        error,
        AiError::ListingFailed { path: "b".to_string(), stderr: "denied".to_string() }
    );
    assert_eq!(error.message(), "ls -la b failed: denied");
    let error = directory_listing("d", &ListingProbe::NotRun).unwrap_err();
    assert_eq!(error.message(), "failed to run ls -la d");
}

#[test]
fn a_blank_shell_is_unknown() {
    assert_eq!(current_shell(Some("/bin/fish".to_string())), "/bin/fish");
    assert_eq!(current_shell(Some(" /bin/sh ".to_string())), " /bin/sh ");
    assert_eq!(current_shell(Some(" \t".to_string())), "unknown");
    assert_eq!(current_shell(None), "unknown");
}

#[test]
fn the_system_has_a_name() {
    assert_eq!(os_context(Some(output(true, b" Linux x\n", b"")), "linux"), "Linux x");
    assert_eq!(os_context(Some(output(true, "\u{e9}\n".as_bytes(), b"")), "linux"), "é");
    assert_eq!(os_context(Some(output(false, b"Linux", b"")), "linux"), "linux");
    assert_eq!(os_context(Some(output(true, b" \n", b"")), "linux"), "linux");
    assert_eq!(os_context(Some(output(true, b"\xff", b"")), "linux"), "linux");
    assert_eq!(os_context(None, "linux"), "linux");
}

#[test]
fn the_context_is_put_together() {
    let listing = || DirectoryListing { path: "a".to_string(), output: "b".to_string() };
    assert_eq!(
        ShellContext::detect(None, None, "linux", "/".to_string(), vec![listing()]),
        ShellContext {
            shell: "unknown".to_string(),
            os: "linux".to_string(),
            cwd: "/".to_string(),
            listings: vec![listing()],
        }
    );
}

#[test]
fn commands_run_in_the_shell() {
    let run = shell_invocation(Some("/bin/sh".to_string()), "ls | wc");
    assert_eq!(run.program, "/bin/sh");
    assert_eq!(run.arguments, vec!["-c".to_string(), "ls | wc".to_string()]);
    assert_eq!(command_outcome(true, "exit status: 0"), Ok(()));
    assert_eq!(
        command_outcome(false, "exit status: 2").unwrap_err().message(),
        "command exited with status exit status: 2"
    );
}

#[test]
fn failures_are_told_in_words() {
    assert_eq!(AiError::MissingPrompt.message(), "missing prompt");
    assert_eq!(AiError::InvalidApiKey("c".to_string()).message(), "invalid API key header value");
    assert_eq!(AiError::InvalidReply.message(), "failed to parse LLM API response");
    assert_eq!(
        AiError::InvalidCachedReply.message(),
        "cached LLM response was not valid response JSON"
    );
    assert_eq!(AiError::NoChoices.message(), "LLM API response did not include any choices");
    assert_eq!(
        AiError::InvalidPlan("t".to_string()).message(),
        "model response was not valid plan JSON"
    );
    assert_eq!(AiError::EmptyAnswer.message(), "clarification answer cannot be empty");
    assert_eq!(AiError::HomeNotSet.message(), "HOME is not set");
    assert_eq!(AiError::ConfigNotParsed("/c".to_string()).message(), "failed to parse /c");
}
