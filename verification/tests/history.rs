use ai_shell::chat::{ChatChoice, ChatMessage, ChatRequest, ChatResponse};
use ai_shell::error::AiError;
use ai_shell::history::{ExchangeKey, HistoryDb, LookupStep, Statement};
use ai_shell::plan::{plan_from_response, ModelPlan};
use rusqlite::{params_from_iter, Connection, OptionalExtension};

struct Database {
    connection: Connection,
}

impl Database {
    fn open() -> Database {
        let connection = Connection::open_in_memory().unwrap();
        connection.execute_batch(&HistoryDb::migrate().sql).unwrap();
        Database { connection }
    }

    fn execute(&self, statement: &Statement) -> usize {
        self.connection.execute(&statement.sql, params_from_iter(statement.parameters.iter())).unwrap()
    }

    fn lookup(&self, model: &str, system: &str, user: &str) -> Result<Option<ChatResponse>, AiError> {
        let key = key(model, system, user);
        let query = HistoryDb::lookup(&key);
        let row = self
            .connection
            .query_row(&query.sql, params_from_iter(query.parameters.iter()), |row| {
                row.get::<_, String>(0)
            })
            .optional()
            .unwrap();
        match HistoryDb::found(&key, row) {
            LookupStep::Miss => Ok(None),
            LookupStep::Hit { touch, response_json } => {
                assert_eq!(self.execute(&touch), 1);
                HistoryDb::replay(&response_json).map(Some)
            }
        }
    }

    fn store(&self, user: &str, request: &ChatRequest, response: &ChatResponse) {
        let statement = HistoryDb::store(
            &key("model", "system", user),
            &request.to_json(),
            &response.to_json(),
        );
        assert_eq!(self.execute(&statement), 1);
    }

    fn completion_prompts(&self) -> Vec<String> {
        let query = HistoryDb::completion_query();
        let mut statement = self.connection.prepare(&query.sql).unwrap();
        let rows = statement
            .query_map(params_from_iter(query.parameters.iter()), |row| row.get::<_, String>(0))
            .unwrap()
            .map(|row| row.unwrap())
            .collect::<Vec<String>>();
        HistoryDb::completion_prompts(&rows)
    }

    fn number(&self, sql: &str) -> i64 {
        self.connection.query_row(sql, [], |row| row.get::<_, i64>(0)).unwrap()
    }
}

fn key(model: &str, system: &str, user: &str) -> ExchangeKey {
    ExchangeKey {
        model: model.to_string(),
        system_prompt: system.to_string(),
        user_prompt: user.to_string(),
    }
}

fn test_request(prompt: &str) -> ChatRequest {
    ChatRequest {
        model: "model".to_string(),
        temperature: None,
        messages: vec![
            ChatMessage { role: "system".to_string(), content: "system".to_string() },
            ChatMessage { role: "user".to_string(), content: prompt.to_string() },
        ],
    }
}

fn test_response(content: &str) -> ChatResponse {
    ChatResponse {
        choices: vec![ChatChoice {
            message: ChatMessage { role: "assistant".to_string(), content: content.to_string() },
        }],
    }
}

#[test]
fn stores_and_replays_history_response() {
    let history = Database::open();
    let request = test_request("show files");
    let response = test_response(
        r#"{"type":"command","command":"ls","explanation":"Lists files.","dry_runs":[]}"#,
    );

    assert!(history.lookup("model", "system", "show files").unwrap().is_none());
    history.store("show files", &request, &response);

    let cached = history.lookup("model", "system", "show files").unwrap().unwrap();
    assert_eq!(
        plan_from_response(&cached).unwrap(),
        ModelPlan::Command {
            command: "ls".to_string(),
            explanation: "Lists files.".to_string(),
            dry_runs: Vec::new(),
        }
    );
}

#[test]
fn history_completion_prompts_are_newest_first_unique_first_lines() {
    let history = Database::open();
    let response = test_response(
        r#"{"type":"command","command":"ls","explanation":"Lists files.","dry_runs":[]}"#,
    );

    history.store("list files", &test_request("list files"), &response);
    history.store(
        "remove cache\nClarification: Which cache?\nAnswer: npm",
        &test_request("remove cache"),
        &response,
    );

    let prompts = history.completion_prompts();
    assert_eq!(prompts, vec!["remove cache".to_string(), "list files".to_string()]);
}

#[test]
fn exchanges_are_found_by_all_three_parts_of_their_key() {
    let history = Database::open();
    let response = test_response("x");
    history.store("p", &test_request("p"), &response);
    assert_eq!(history.lookup("model", "system", "p"), Ok(Some(test_response("x"))));
    assert_eq!(history.lookup("other", "system", "p"), Ok(None));
    assert_eq!(history.lookup("model", "other", "p"), Ok(None));
    assert_eq!(history.lookup("model", "system", "other"), Ok(None));
}

#[test]
fn a_later_response_replaces_an_earlier_one() {
    let history = Database::open();
    history.store("p", &test_request("p"), &test_response("old"));
    history.store("p", &test_request("p"), &test_response("new \"\\\n"));
    assert_eq!(history.lookup("model", "system", "p"), Ok(Some(test_response("new \"\\\n"))));
    assert_eq!(history.number("SELECT COUNT(*) FROM llm_exchanges"), 1);
}

#[test]
fn every_use_is_counted() {
    let history = Database::open();
    history.store("p", &test_request("p"), &test_response("x"));
    assert_eq!(history.number("SELECT use_count FROM llm_exchanges"), 0);
    history.lookup("model", "system", "p").unwrap();
    history.lookup("model", "system", "p").unwrap();
    assert_eq!(history.number("SELECT use_count FROM llm_exchanges"), 2);
}

#[test]
fn setting_up_twice_keeps_what_is_there() {
    let history = Database::open();
    history.store("p", &test_request("p"), &test_response("x"));
    history.connection.execute_batch(&HistoryDb::migrate().sql).unwrap();
    assert_eq!(history.lookup("model", "system", "p"), Ok(Some(test_response("x"))));
}

#[test]
fn what_is_no_response_is_not_replayed() {
    assert_eq!(HistoryDb::replay("{}"), Err(AiError::InvalidCachedReply));
    assert_eq!(
        HistoryDb::replay(r#"{"choices":[{"message":{"role":"assistant","content":"ab"}}]}"#),
        Ok(test_response("ab"))
    );
}

#[test]
fn blank_lines_are_not_offered() {
    let rows = |list: &[&str]| list.iter().map(|s| s.to_string()).collect::<Vec<String>>();
    assert_eq!(
        HistoryDb::completion_prompts(&rows(&["", " \nb", "\nc", "d\r\ne", "  f  ", "g\r", "d"])),
        rows(&["d", "  f  ", "g\r"])
    );
}

#[test]
fn a_line_is_offered_once() {
    let history = Database::open();
    history.store("remove cache", &test_request("p"), &test_response("x"));
    history.store("list files", &test_request("p"), &test_response("x"));
    history.store(
        "remove cache\nClarification: Which cache?\nAnswer: npm",
        &test_request("p"),
        &test_response("x"),
    );
    let prompts = history.completion_prompts();
    assert_eq!(prompts, vec!["remove cache".to_string(), "list files".to_string()]);
}

#[test]
fn at_most_fifty_prompts_are_offered() {
    let history = Database::open();
    for i in 0..60 {
        history.store(&format!("prompt {i}"), &test_request("p"), &test_response("x"));
    }
    let prompts = history.completion_prompts();
    assert_eq!(prompts.len(), 50);
    assert_eq!(prompts[0], "prompt 59");
    assert_eq!(prompts[49], "prompt 10");
}
