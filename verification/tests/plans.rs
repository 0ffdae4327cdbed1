use ai_shell::chat::{ChatChoice, ChatMessage, ChatResponse};
use ai_shell::error::AiError;
use ai_shell::plan::{
    parse_model_plan, plan_from_fields, plan_from_response, read_plan, ModelPlan, PlanField,
    PlanFields,
};

fn test_response(content: &str) -> ChatResponse {
    ChatResponse {
        choices: vec![ChatChoice {
            message: ChatMessage { role: "assistant".to_string(), content: content.to_string() },
        }],
    }
}

fn command(command: &str, explanation: &str, dry_runs: &[&str]) -> ModelPlan {
    ModelPlan::Command {
        command: command.to_string(),
        explanation: explanation.to_string(),
        dry_runs: dry_runs.iter().map(|s| s.to_string()).collect(),
    }
}

fn clarification(question: &str, options: &[&str]) -> ModelPlan {
    ModelPlan::Clarification {
        question: question.to_string(),
        options: options.iter().map(|s| s.to_string()).collect(),
    }
}

fn invalid(text: &str) -> Result<ModelPlan, AiError> {
    Err(AiError::InvalidPlan(text.to_string()))
}

#[test]
fn parses_command_plan() {
    let plan = parse_model_plan(
        r#"{
                "type": "command",
                "command": "ls -la",
                "explanation": "Lists files.",
                "dry_runs": ["ls"]
            }"#,
    )
    .unwrap();

    assert_eq!(
        plan,
        ModelPlan::Command {
            command: "ls -la".to_string(),
            explanation: "Lists files.".to_string(),
            dry_runs: vec!["ls".to_string()],
        }
    );
}

#[test]
fn parses_markdown_wrapped_plan() {
    let plan = parse_model_plan(
        r#"```json
{"type":"clarification","question":"Which branch?","options":["main","current"]}
```"#,
    )
    .unwrap();

    assert_eq!(
        plan,
        ModelPlan::Clarification {
            question: "Which branch?".to_string(),
            options: vec!["main".to_string(), "current".to_string()],
        }
    );
}

#[test]
fn cached_clarification_response_replays_as_question() {
    let response = test_response(
        r#"{"type":"clarification","question":"Which branch?","options":["main","current"]}"#,
    );

    assert_eq!(
        plan_from_response(&response).unwrap(),
        ModelPlan::Clarification {
            question: "Which branch?".to_string(),
            options: vec!["main".to_string(), "current".to_string()],
        }
    );
}

#[test]
fn a_response_without_choices_has_no_plan() {
    let response = ChatResponse { choices: vec![] };
    assert_eq!(plan_from_response(&response), Err(AiError::NoChoices));
}

#[test]
fn only_the_first_choice_is_read() {
    let mut response = test_response(r#"{"type":"command","command":"a","explanation":"b"}"#);
    response.choices.push(ChatChoice {
        message: ChatMessage { role: "assistant".to_string(), content: "nonsense".to_string() },
    });
    assert_eq!(plan_from_response(&response), Ok(command("a", "b", &[])));
}

#[test]
fn white_space_around_an_answer_is_trimmed() {
    let text = "\u{2003}\n```\n {\"type\":\"command\",\"command\":\"a\",\"explanation\":\"b\"} \n```\u{a0}\n";
    assert_eq!(plan_from_response(&test_response(text)), Ok(command("a", "b", &[])));
    assert_eq!(
        parse_model_plan(text),
        Err(AiError::InvalidPlan(text.trim().to_string()))
    );
}

#[test]
fn a_fence_must_close() {
    let open = "```json\n{\"type\":\"command\",\"command\":\"a\",\"explanation\":\"b\"}";
    assert_eq!(parse_model_plan(open), invalid(open));
    assert_eq!(parse_model_plan("```json```"), invalid(""));
    assert_eq!(parse_model_plan("````"), invalid("````"));
}

#[test]
fn dry_runs_may_be_left_out_but_not_null() {
    assert_eq!(
        read_plan(r#"{"type":"command","command":"a","explanation":"b"}"#),
        Some(command("a", "b", &[]))
    );
    assert_eq!(
        read_plan(r#"{"type":"command","command":"a","explanation":"b","dry_runs":[]}"#),
        Some(command("a", "b", &[]))
    );
    assert_eq!(
        read_plan(r#"{"type":"command","command":"a","explanation":"b","dry_runs":null}"#),
        None
    );
    assert_eq!(
        read_plan(r#"{"type":"command","command":"a","explanation":"b","dry_runs":["x",1]}"#),
        None
    );
}

#[test]
fn members_that_are_asked_for_must_be_there() {
    assert_eq!(read_plan(r#"{"command":"a","explanation":"b"}"#), None);
    assert_eq!(read_plan(r#"{"type":"command","explanation":"b"}"#), None);
    assert_eq!(read_plan(r#"{"type":"command","command":"a"}"#), None);
    assert_eq!(read_plan(r#"{"type":"clarification","options":[]}"#), None);
    assert_eq!(read_plan(r#"{"type":"clarification","question":"q"}"#), None);
    assert_eq!(read_plan(r#"{"type":"Command","command":"a","explanation":"b"}"#), None);
    assert_eq!(read_plan(r#"{"type":1,"command":"a","explanation":"b"}"#), None);
    assert_eq!(read_plan("{}"), None);
    assert_eq!(read_plan(""), None);
    assert_eq!(read_plan("\"command\""), None);
}

#[test]
fn members_may_stand_in_any_order_and_among_others() {
    let text = r#" { "x" : {"type":"clarification","y":[1,{"z":"}"}]} , "explanation":"b, c: {" ,
        "question": 7, "dry_runs":["x","y"], "command":"a\"\\","type":"command","x":1e3} "#;
    assert_eq!(read_plan(text), Some(command("a\"\\", "b, c: {", &["x", "y"])));
    let escaped = r#"{"\u0074ype":"clarification","question":"\u00e9","options":[" a "]}"#;
    assert_eq!(read_plan(escaped), Some(clarification("é", &[" a "])));
}

#[test]
fn repeated_members_leave_no_plan() {
    assert_eq!(
        read_plan(r#"{"type":"command","command":"a","command":"a","explanation":"b"}"#),
        None
    );
    assert_eq!(
        read_plan(r#"{"type":"command","type":"command","command":"a","explanation":"b"}"#),
        None
    );
    assert_eq!(
        read_plan(r#"{"type":"command","command":"a","explanation":"b","dry_runs":[],"dry_runs":[]}"#),
        None
    );
    assert_eq!(
        read_plan(r#"{"type":"command","command":"a","\u0063ommand":"b","explanation":"b"}"#),
        None
    );
    // What a command does not have may be there twice.
    assert_eq!(
        read_plan(r#"{"type":"command","command":"a","explanation":"b","question":1,"question":2}"#),
        Some(command("a", "b", &[]))
    );
}

#[test]
fn a_plan_may_be_a_list() {
    assert_eq!(read_plan(r#"["command","a","b",["c"]]"#), Some(command("a", "b", &["c"])));
    assert_eq!(read_plan(r#"["command","a","b"]"#), Some(command("a", "b", &[])));
    assert_eq!(read_plan(r#" [ "clarification" , "q" , ["x","y"] ] "#), Some(clarification("q", &["x", "y"])));
    assert_eq!(read_plan(r#"["command","a","b",["c"],1]"#), None);
    assert_eq!(read_plan(r#"["command","a"]"#), None);
    assert_eq!(read_plan(r#"["clarification","q"]"#), None);
    assert_eq!(read_plan("[]"), None);
}

#[test]
fn texts_that_are_not_json_hold_no_plan() {
    assert_eq!(read_plan(r#"{"type":"command","command":"a","explanation":"b",}"#), None);
    assert_eq!(read_plan(r#"{"type":"command","command":"a","explanation":"b"}}"#), None);
    assert_eq!(read_plan(r#"{"type":"command","command":"a","explanation":"b"} x"#), None);
    assert_eq!(read_plan(r#"{"type":"command","command":"a","explanation":"b","x":1e999}"#), None);
    assert_eq!(read_plan(r#"{"type":"command","command":"\ud800","explanation":"b"}"#), None);
    let deep = format!(
        r#"{{"type":"command","command":"a","explanation":"b","x":{}{}}}"#,
        "[".repeat(200),
        "]".repeat(200)
    );
    assert_eq!(read_plan(&deep), None);
}

fn fields(kind: &str) -> PlanFields {
    PlanFields {
        kind: PlanField::Text(kind.to_string()),
        command: PlanField::Text("c".to_string()),
        explanation: PlanField::Text("e".to_string()),
        dry_runs: PlanField::Texts(vec!["d".to_string()]),
        question: PlanField::Text("q".to_string()),
        options: PlanField::Texts(vec!["o".to_string()]),
    }
}

#[test]
fn fields_make_up_a_plan() {
    assert_eq!(plan_from_fields(fields("command")), Some(command("c", "e", &["d"])));
    assert_eq!(plan_from_fields(fields("clarification")), Some(clarification("q", &["o"])));
    assert_eq!(plan_from_fields(fields("")), None);
    assert_eq!(plan_from_fields(PlanFields { dry_runs: PlanField::Other, ..fields("command") }), None);
    assert_eq!(
        plan_from_fields(PlanFields { dry_runs: PlanField::Absent, ..fields("command") }),
        Some(command("c", "e", &[]))
    );
    assert_eq!(plan_from_fields(PlanFields { command: PlanField::Absent, ..fields("command") }), None);
    assert_eq!(plan_from_fields(PlanFields { options: PlanField::Absent, ..fields("clarification") }), None);
}

#[test]
fn plans_written_in_json_are_read_as_written() {
    let odd = "a \"b\" \\ {[,:]}\n\u{1}é";
    let quote = |s: &str| serde_json::to_string(s).unwrap();
    let text = [
        r#"{"type":"command","command":"#,
        &quote(odd),
        r#","explanation":"#,
        &quote("e"),
        r#","dry_runs":["#,
        &quote(odd),
        ",",
        &quote(""),
        "]}",
    ]
    .concat();
    assert_eq!(read_plan(&text), Some(command(odd, "e", &[odd, ""])));
    assert_eq!(parse_model_plan(&text).unwrap(), command(odd, "e", &[odd, ""]));
    let text =
        [r#"{"type":"clarification","question":"#, &quote(odd), r#","options":[]}"#].concat();
    assert_eq!(read_plan(&text), Some(clarification(odd, &[])));
}

#[test]
fn plans_read_alike_with_and_without_a_fence() {
    let json = " \n{\"type\":\"clarification\",\"question\":\"q\",\"options\":[]}\t\r\n";
    let plan = || clarification("q", &[]);
    assert_eq!(read_plan(json), Some(plan()));
    assert_eq!(parse_model_plan(json), Ok(plan()));
    assert_eq!(parse_model_plan(&format!("```json\n{json}\n```")), Ok(plan()));
    assert_eq!(parse_model_plan(&format!("```\n{json}\n```")), Ok(plan()));
    let open = |fence: &str| format!("{fence}\n{json}");
    assert_eq!(parse_model_plan(&open("```json")), invalid(open("```json").trim()));
    assert_eq!(parse_model_plan(&open("```")), invalid(open("```").trim()));
}
