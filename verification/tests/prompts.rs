use ai_shell::prompt::{system_prompt, DirectoryListing, ShellContext};

fn context(cwd: &str) -> ShellContext {
    ShellContext {
        shell: "/bin/sh".to_string(),
        os: "test-os".to_string(),
        cwd: cwd.to_string(),
        listings: vec![],
    }
}

#[test]
fn system_prompt_includes_directory_listing_context() {
    let context = ShellContext {
        shell: "/bin/sh".to_string(),
        os: "test-os".to_string(),
        cwd: "/tmp/example".to_string(),
        listings: vec![DirectoryListing {
            path: ".".to_string(),
            output: "total 0\n-rw-r--r-- file.txt".to_string(),
        }],
    };

    let prompt = system_prompt(&context);
    assert!(prompt.contains("Directory listings:"));
    assert!(prompt.contains("`ls -la .`:"));
    assert!(prompt.contains("-rw-r--r-- file.txt"));
}

#[test]
fn the_prompt_names_shell_system_and_directory() {
    let prompt = system_prompt(&context("/tmp/example"));
    assert!(prompt.starts_with(
        "You generate shell commands for a user.\n\nContext:\n- shell: /bin/sh\n- os: test-os\n- cwd: /tmp/example\n\nReturn only JSON. Do not wrap it in Markdown.\n\nWhen the request is specific enough, return:\n{\n  \"type\": \"command\",\n"
    ));
    assert!(prompt.ends_with(
        "\n- Ask a clarification question if required paths, targets, or intent are missing."
    ));
    assert!(!prompt.contains("Directory listings:"));
}

#[test]
fn listings_follow_one_another() {
    let mut c = context("/");
    let bare = system_prompt(&c);
    c.listings.push(DirectoryListing { path: "a".to_string(), output: "x".to_string() });
    c.listings.push(DirectoryListing { path: "b".to_string(), output: "y\nz".to_string() });
    assert_eq!(
        system_prompt(&c),
        format!(
            "{bare}\n\nDirectory listings:\n\n`ls -la a`:\n```text\nx\n```\n\n`ls -la b`:\n```text\ny\nz\n```"
        )
    );
}

#[test]
fn another_directory_gives_another_prompt() {
    assert_ne!(system_prompt(&context("/a")), system_prompt(&context("/b")));
}
