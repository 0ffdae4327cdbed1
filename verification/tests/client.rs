use ai_shell::chat::{ChatChoice, ChatMessage, ChatResponse};
use ai_shell::client::{completions_url, LlmClient, PlanStep, PlanTask, CONTENT_TYPE};
use ai_shell::config::Config;
use ai_shell::error::AiError;
use ai_shell::history::HistoryDb;
use ai_shell::plan::ModelPlan;
use ai_shell::prompt::{system_prompt, DirectoryListing, ShellContext};

fn config(api_key: &str) -> Config {
    Config {
        api_key: api_key.to_string(),
        model: "m".to_string(),
        base_url: "http://h/v1//".to_string(),
        temperature: None,
    }
}

/// A configuration with a temperature.
fn warm(api_key: &str) -> Config {
    Config { temperature: Some("0.50".to_string()), ..config(api_key) }
}

fn client(debug: bool) -> LlmClient {
    LlmClient::new(warm("key"), "0.5".to_string(), debug).unwrap()
}

fn context(cwd: &str) -> ShellContext {
    ShellContext {
        shell: "sh".to_string(),
        os: "os".to_string(),
        cwd: cwd.to_string(),
        listings: vec![],
    }
}

fn reply(content: &str) -> ChatResponse {
    ChatResponse {
        choices: vec![ChatChoice {
            message: ChatMessage { role: "assistant".to_string(), content: content.to_string() },
        }],
    }
}

const PLAN: &str = r#"{"type":"command","command":"ls","explanation":"e"}"#;

fn plan() -> ModelPlan {
    ModelPlan::Command {
        command: "ls".to_string(),
        explanation: "e".to_string(),
        dry_runs: vec![],
    }
}

fn task(client: &LlmClient) -> PlanTask {
    client.plan_command(&context("/a"), "show")
}

#[test]
fn the_api_key_stands_in_a_header() {
    assert_eq!(client(false).authorization, b"Bearer key".to_vec());
    assert_eq!(
        LlmClient::new(config("k\té~"), String::new(), false).unwrap().authorization,
        "Bearer k\té~".as_bytes().to_vec()
    );
    for bad in ["a\nb", "a\u{0}", "\u{7f}", "\r"] {
        assert_eq!(
            LlmClient::new(config(bad), String::new(), false),
            Err(AiError::InvalidApiKey("failed to parse header value".to_string()))
        );
    }
}

#[test]
fn the_address_has_one_slash() {
    assert_eq!(completions_url("https://api.openai.com/v1"), "https://api.openai.com/v1/chat/completions");
    assert_eq!(completions_url("https://api.openai.com/v1///"), "https://api.openai.com/v1/chat/completions");
    assert_eq!(completions_url(""), "/chat/completions");
}

#[test]
fn a_task_names_the_model_the_surroundings_and_the_prompt() {
    let c = client(false);
    let t = task(&c);
    assert_eq!(t.key.model, "m");
    assert_eq!(t.key.system_prompt, system_prompt(&context("/a")));
    assert_eq!(t.key.user_prompt, "show");
    assert_eq!(t.request.model, "m");
    assert_eq!(t.request.temperature, Some("0.5".to_string()));
    assert_eq!(t.request.messages.len(), 2);
    assert_eq!(t.request.messages[0].role, "system");
    assert_eq!(t.request.messages[0].content, system_prompt(&context("/a")));
    assert_eq!(t.request.messages[1].role, "user");
    assert_eq!(t.request.messages[1].content, "show");
}

#[test]
fn another_directory_is_searched_for_by_another_statement() {
    let c = client(false);
    let here = c.plan_command(&context("/a"), "show");
    let there = c.plan_command(&context("/b"), "show");
    assert_ne!(HistoryDb::lookup(&here.key), HistoryDb::lookup(&there.key));
}

#[test]
fn what_is_not_in_the_history_is_asked() {
    let c = client(false);
    let t = task(&c);
    assert_eq!(
        c.after_lookup(&t, None),
        PlanStep::Call {
            notice: String::new(),
            url: "http://h/v1/chat/completions".to_string(),
            body: t.request.to_json(),
        }
    );
}

#[test]
fn what_is_in_the_history_is_replayed() {
    let c = client(false);
    let t = task(&c);
    assert_eq!(
        c.after_lookup(&t, Some(reply(PLAN))),
        PlanStep::Replayed { notice: String::new(), plan: Ok(plan()) }
    );
    assert_eq!(
        c.after_lookup(&t, Some(reply("?"))),
        PlanStep::Replayed { notice: String::new(), plan: Err(AiError::InvalidPlan("?".to_string())) }
    );
}

#[test]
fn a_reply_is_kept_and_replays_as_it_was() {
    let c = client(false);
    let t = task(&c);
    let text = format!(r#"{{"id":1,"choices":[{{"message":{{"content":{:?},"role":"assistant"}}}}]}}"#, PLAN);
    let received = c.after_reply(&t, &text.into_bytes()).unwrap();
    assert_eq!(received.plan, Ok(plan()));
    assert_eq!(received.notice, "");
    assert_eq!(received.store, HistoryDb::store(&t.key, &t.request.to_json(), &reply(PLAN).to_json()));
    let replayed = HistoryDb::replay(&received.store.parameters[4]).unwrap();
    assert_eq!(
        c.after_lookup(&t, Some(replayed)),
        PlanStep::Replayed { notice: String::new(), plan: Ok(plan()) }
    );
}

#[test]
fn a_reply_without_a_plan_is_kept_too() {
    let c = client(false);
    let t = task(&c);
    let received = c.after_reply(&t, &reply("sorry").to_json().into_bytes()).unwrap();
    assert_eq!(received.plan, Err(AiError::InvalidPlan("sorry".to_string())));
    assert_eq!(received.store.parameters[4], reply("sorry").to_json());
    assert_eq!(c.after_reply(&t, &b"{}".to_vec()), Err(AiError::InvalidReply));
    assert_eq!(
        c.after_reply(&t, &br#"{"choices":[]}"#.to_vec()).unwrap().plan,
        Err(AiError::NoChoices)
    );
}

#[test]
fn requests_and_responses_can_be_inspected() {
    let c = LlmClient::new(config("key"), String::new(), true).unwrap();
    let mut t = task(&c);
    t.request.messages.truncate(1);
    t.request.messages[0].content = "s".to_string();
    let request = "{\n  \"model\": \"m\",\n  \"messages\": [\n    {\n      \"role\": \"system\",\n      \"content\": \"s\"\n    }\n  ]\n}";
    let response = "{\n  \"choices\": [\n    {\n      \"message\": {\n        \"role\": \"assistant\",\n        \"content\": \"x\"\n      }\n    }\n  ]\n}";
    assert_eq!(
        c.debug_request(&t.request),
        format!("--- ai-shell debug: request ---\n{request}\n")
    );
    assert_eq!(
        c.debug_response(&reply("x")),
        format!("--- ai-shell debug: response ---\n{response}\n")
    );
    assert_eq!(
        c.debug_cache_hit(&t.request, &reply("x")),
        format!("--- ai-shell debug: cache hit ---\nrequest:\n{request}\ncached response:\n{response}\n")
    );
    assert_eq!(
        c.after_reply(&t, &reply("x").to_json().into_bytes()).unwrap().notice,
        c.debug_response(&reply("x"))
    );
}

#[test]
fn a_temperature_is_shown_as_it_is_sent() {
    for number in ["0.2", "1e-6", "1e13", "null"] {
        let c = LlmClient::new(warm("key"), number.to_string(), true).unwrap();
        let mut t = task(&c);
        t.request.messages.clear();
        assert_eq!(
            t.request.to_json(),
            format!("{{\"model\":\"m\",\"messages\":[],\"temperature\":{number}}}")
        );
        let shown =
            format!("{{\n  \"model\": \"m\",\n  \"messages\": [],\n  \"temperature\": {number}\n}}");
        assert_eq!(
            c.debug_request(&t.request),
            format!("--- ai-shell debug: request ---\n{shown}\n")
        );
    }
}

#[test]
fn requests_say_that_they_hold_json() {
    assert_eq!(CONTENT_TYPE, "application/json");
    assert_eq!(client(false).content_type, "application/json");
}

#[test]
fn bytes_that_are_not_text_may_stand_in_what_is_skipped() {
    let c = client(false);
    let t = task(&c);
    let body = |parts: &[&[u8]]| parts.concat();
    let good = body(&[
        b" {\"x\":\"\xff\",\"choices\":[{\"i\":[\"\xc3\"],\"message\":{\"content\":",
        serde_json::to_string(PLAN).unwrap().as_bytes(),
        ",\"role\":\"é\",\"y\":{\"é".as_bytes(),
        b"\xe9\":null}}}]}\n",
    ]);
    let received = c.after_reply(&t, &good).unwrap();
    assert_eq!(received.plan, Ok(plan()));
    assert!(received.store.parameters[4].contains("\"role\":\"é\""));
    for bad in [
        b"{\"choices\":[],\"\xff\":1}".to_vec(),
        b"{\"choices\":[],\"x\":\xff}".to_vec(),
        b"{\"choices\":[],\"x\":\"\\\xff\"}".to_vec(),
        b"{\"choices\":[]}\xff".to_vec(),
        b"\xff{\"choices\":[]}".to_vec(),
        b"{\"choices\":[{\"message\":{\"role\":\"a\",\"content\":\"\xff\"}}]}".to_vec(),
        b"{\"choices\":[{\"message\":[\"\xff\",\"b\"]}]}".to_vec(),
        vec![0xff],
    ] {
        assert_eq!(c.after_reply(&t, &bad), Err(AiError::InvalidReply));
        assert!(serde_json::from_slice::<serde_json::Value>(&bad).is_err());
    }
}

#[test]
fn a_temperature_is_sent_where_the_configuration_has_one() {
    let cold = LlmClient::new(config("key"), "0.5".to_string(), false).unwrap();
    assert_eq!(task(&cold).request.temperature, None);
    assert!(!task(&cold).request.to_json().contains("temperature"));
    let warm = LlmClient::new(warm("key"), "0.5".to_string(), false).unwrap();
    assert_eq!(task(&warm).request.temperature, Some("0.5".to_string()));
}

#[test]
fn another_directory_is_another_key_whatever_is_listed() {
    let c = client(false);
    let mut here = context("/a");
    here.listings.push(DirectoryListing { path: ".".to_string(), output: "x".to_string() });
    let mut there = context("/b");
    there.shell = "zsh".to_string();
    there.listings.push(DirectoryListing { path: ".".to_string(), output: "y".to_string() });
    assert_ne!(
        HistoryDb::lookup(&c.plan_command(&here, "show").key),
        HistoryDb::lookup(&c.plan_command(&there, "show").key)
    );
}
