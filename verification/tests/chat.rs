use ai_shell::chat::{ChatChoice, ChatMessage, ChatRequest, ChatResponse};
use ai_shell::json::{
    read_elements, read_field, read_members, read_strings, write_array, Coding, Field,
};

fn message(role: &str, content: &str) -> ChatMessage {
    ChatMessage { role: role.to_string(), content: content.to_string() }
}

fn response(messages: &[(&str, &str)]) -> ChatResponse {
    ChatResponse {
        choices: messages
            .iter()
            .map(|(role, content)| ChatChoice { message: message(role, content) })
            .collect(),
    }
}

#[test]
fn a_response_is_written_in_one_line() {
    assert_eq!(
        response(&[("assistant", "a\n\"b\"")]).to_json(),
        r#"{"choices":[{"message":{"role":"assistant","content":"a\n\"b\""}}]}"#
    );
    assert_eq!(response(&[]).to_json(), r#"{"choices":[]}"#);
}

#[test]
fn a_response_reads_back() {
    for r in [
        response(&[]),
        response(&[("assistant", "ls")]),
        response(&[("", ""), ("a,b:c", "{[\"\\"), ("é\u{1F600}", "\u{0}\u{1f}\u{7f}\r\n\t ]},:")]),
    ] {
        assert_eq!(ChatResponse::parse(&r.to_json()), Some(r));
    }
}

#[test]
fn members_that_are_not_asked_for_are_skipped() {
    let text = r#"
        {"id":"x","usage":{"a":[1,2,{"choices":"}"}],"a":1},
         "choices":[{"index":0,"message":{"role":"assistant","refusal":null,"content":"hi"},"logprobs":null}],
         "n":1e999,"s":"\ud800"}
    "#;
    assert_eq!(ChatResponse::parse(text), Some(response(&[("assistant", "hi")])));
    let deep = format!(r#"{{"x":{}{},"choices":[]}}"#, "[".repeat(500), "]".repeat(500));
    assert_eq!(ChatResponse::parse(&deep), Some(response(&[])));
}

#[test]
fn a_response_may_be_a_list() {
    assert_eq!(
        ChatResponse::parse(r#"[[[["assistant","hi"]],{"message":["a","b"]}]]"#),
        Some(response(&[("assistant", "hi"), ("a", "b")]))
    );
    assert_eq!(ChatResponse::parse(r#"[[],1]"#), None);
    assert_eq!(ChatResponse::parse(r#"[[[["assistant"]]]]"#), None);
    assert_eq!(ChatResponse::parse(r#"[[[["assistant","hi",1]]]]"#), None);
}

#[test]
fn what_is_no_response_is_refused() {
    for text in [
        "",
        "null",
        "{}",
        "[]",
        r#"{"choices":null}"#,
        r#"{"choices":{}}"#,
        r#"{"choices":[],"choices":[]}"#,
        r#"{"choices":[],}"#,
        r#"{"choices":[],"x":}"#,
        r#"{"choices":[],"x":tru}"#,
        r#"{"choices":[]"#,
        r#"{"choices":[]}}"#,
        r#"{"choices":[]} x"#,
        r#"{choices:[]}"#,
        r#"{"choices":[1]}"#,
        r#"{"choices":[{}]}"#,
        r#"{"choices":[{"message":{"role":"a","content":"b"},"message":{"role":"a","content":"b"}}]}"#,
        r#"{"choices":[{"message":{"role":"a"}}]}"#,
        r#"{"choices":[{"message":{"content":"a"}}]}"#,
        r#"{"choices":[{"message":{"role":"a","content":null}}]}"#,
        r#"{"choices":[{"message":{"role":"a","content":"b","content":"b"}}]}"#,
        r#"{"choices":[{"message":{"role":"a","content":"\ud800"}}]}"#,
        "\u{a0}{\"choices\":[]}",
    ] {
        assert_eq!(ChatResponse::parse(text), None, "{text}");
    }
}

#[test]
fn a_request_leaves_out_a_temperature_that_is_not_set() {
    let mut request = ChatRequest {
        model: "gpt-4.1-mini".to_string(),
        messages: vec![message("system", "s"), message("user", "show \"files\"")],
        temperature: None,
    };
    assert_eq!(
        request.to_json(),
        r#"{"model":"gpt-4.1-mini","messages":[{"role":"system","content":"s"},{"role":"user","content":"show \"files\""}]}"#
    );
    request.temperature = Some("0.2".to_string());
    assert_eq!(
        request.to_json(),
        r#"{"model":"gpt-4.1-mini","messages":[{"role":"system","content":"s"},{"role":"user","content":"show \"files\""}],"temperature":0.2}"#
    );
}

#[test]
fn messages_and_choices_read_back() {
    let m = message("user", "\\\"");
    assert_eq!(ChatMessage::parse(Coding::Text, &m.to_json()), Some(message("user", "\\\"")));
    let c = ChatChoice { message: m };
    assert_eq!(
        ChatChoice::parse(Coding::Text, &c.to_json()),
        Some(ChatChoice { message: message("user", "\\\"") })
    );
}

#[test]
fn arrays_are_cut_at_their_own_commas() {
    assert_eq!(
        read_elements(r#" [1, [2,3] ,{"a":4,"b":5},"x,]" ] "#),
        Some(vec![
            "1".to_string(),
            " [2,3] ".to_string(),
            r#"{"a":4,"b":5}"#.to_string(),
            r#""x,]" "#.to_string(),
        ])
    );
    assert_eq!(read_elements("[ \n ]"), Some(vec![]));
    assert_eq!(read_elements("{}"), None);
    assert_eq!(read_strings(r#"["a" , "\u0062"]"#), Some(vec!["a".to_string(), "b".to_string()]));
    assert_eq!(read_strings(r#"["a",1]"#), None);
    assert_eq!(write_array(&vec!["1".to_string(), "[]".to_string()]), "[1,[]]");
}

#[test]
fn objects_keep_repeated_members() {
    let members = read_members(Coding::Text, r#"{"a":1,"b" : "x:y" ,"a":[2]}"#).unwrap();
    assert_eq!(members.len(), 3);
    assert_eq!(members[0].name, "a");
    assert_eq!(members[0].value, "1");
    assert_eq!(members[1].value, r#" "x:y" "#);
    assert_eq!(members[2].value, "[2]");
    assert!(matches!(read_field(&members, "a"), Field::Repeated));
    assert!(matches!(read_field(&members, "b"), Field::Once(_)));
    assert!(matches!(read_field(&members, "c"), Field::Absent));
    assert!(read_members(Coding::Text, r#"{"a"}"#).is_none());
    assert!(read_members(Coding::Text, r#"{1:2}"#).is_none());
    assert!(read_members(Coding::Text, "[]").is_none());
}
