//! The history of exchanges with the model, as statements for an SQLite database and as what is
//! made of the rows that come back.
use vstd::prelude::*;
use crate::chat::{response_of, ChatResponse};
use crate::error::AiError;
use crate::text::{first_line, first_line_of, same_text, texts, trim, trimmed};

verus! {

/// Sets the database up. An exchange is found by its model, system prompt and user prompt, and
/// there is one of each.
pub const MIGRATION: &'static str = r#"
CREATE TABLE IF NOT EXISTS llm_exchanges (
    id INTEGER PRIMARY KEY,
    model TEXT NOT NULL,
    system_prompt TEXT NOT NULL,
    user_prompt TEXT NOT NULL,
    request_json TEXT NOT NULL,
    response_json TEXT NOT NULL,
    created_at TEXT NOT NULL DEFAULT CURRENT_TIMESTAMP,
    last_used_at TEXT NOT NULL DEFAULT CURRENT_TIMESTAMP,
    use_count INTEGER NOT NULL DEFAULT 0,
    UNIQUE(model, system_prompt, user_prompt)
);
"#;

/// Finds the response of an exchange.
pub const LOOKUP: &'static str = r#"
SELECT response_json
FROM llm_exchanges
WHERE model = ?1 AND system_prompt = ?2 AND user_prompt = ?3
"#;

/// Notes that the response of an exchange was used again.
pub const TOUCH: &'static str = r#"
UPDATE llm_exchanges
SET last_used_at = CURRENT_TIMESTAMP,
    use_count = use_count + 1
WHERE model = ?1 AND system_prompt = ?2 AND user_prompt = ?3
"#;

/// Keeps an exchange, in place of an older one with the same key.
pub const STORE: &'static str = r#"
INSERT INTO llm_exchanges (
    model,
    system_prompt,
    user_prompt,
    request_json,
    response_json
) VALUES (?1, ?2, ?3, ?4, ?5)
ON CONFLICT(model, system_prompt, user_prompt) DO UPDATE SET
    request_json = excluded.request_json,
    response_json = excluded.response_json,
    last_used_at = CURRENT_TIMESTAMP
"#;

/// Finds the prompts that were used last.
pub const COMPLETIONS: &'static str = r#"
SELECT user_prompt
FROM llm_exchanges
GROUP BY user_prompt
ORDER BY MAX(last_used_at) DESC, MAX(id) DESC
LIMIT 50
"#;

/// A statement for the database, and the values of its parameters in order.
#[derive(Debug, PartialEq)]
pub struct Statement {
    pub sql: String,
    pub parameters: Vec<String>,
}

/// What a statement says.
pub struct StatementView {
    pub sql: Seq<char>,
    pub parameters: Seq<Seq<char>>,
}

impl View for Statement {
    type V = StatementView;

    open spec fn view(&self) -> StatementView {
        StatementView { sql: self.sql@, parameters: texts(self.parameters@) }
    }
}

/// What an exchange is found by.
#[derive(Debug, PartialEq)]
pub struct ExchangeKey {
    pub model: String,
    pub system_prompt: String,
    pub user_prompt: String,
}

/// What a key says.
pub struct KeyView {
    pub model: Seq<char>,
    pub system_prompt: Seq<char>,
    pub user_prompt: Seq<char>,
}

impl View for ExchangeKey {
    type V = KeyView;

    open spec fn view(&self) -> KeyView {
        KeyView {
            model: self.model@,
            system_prompt: self.system_prompt@,
            user_prompt: self.user_prompt@,
        }
    }
}

/// The parameters that name an exchange.
pub open spec fn key_parameters(key: KeyView) -> Seq<Seq<char>> {
    seq![key.model, key.system_prompt, key.user_prompt]
}

/// The statement that finds an exchange.
pub open spec fn lookup_statement(key: KeyView) -> StatementView {
    StatementView { sql: LOOKUP@, parameters: key_parameters(key) }
}

/// The statement that notes the use of an exchange.
pub open spec fn touch_statement(key: KeyView) -> StatementView {
    StatementView { sql: TOUCH@, parameters: key_parameters(key) }
}

/// The statement that keeps an exchange.
pub open spec fn store_statement(
    key: KeyView,
    request_json: Seq<char>,
    response_json: Seq<char>,
) -> StatementView {
    StatementView {
        sql: STORE@,
        parameters: key_parameters(key) + seq![request_json, response_json],
    }
}

/// What follows a search for an exchange.
#[derive(Debug, PartialEq)]
pub enum LookupStep {
    /// There is no such exchange.
    Miss,
    /// Note the use of the exchange, then read its response.
    Hit { touch: Statement, response_json: String },
}

/// The line by which a prompt is offered for completion: its first line, where that is not blank.
pub open spec fn offered(prompt: Seq<char>) -> Option<Seq<char>> {
    match first_line_of(prompt) {
        Some(line) if trimmed(line).len() > 0 => Some(line),
        _ => None,
    }
}

/// The lines that are offered for completion: of each prompt its first line, unless that is blank
/// or was offered before.
pub open spec fn completion_lines(rows: Seq<Seq<char>>) -> Seq<Seq<char>>
    decreases rows.len(),
{
    if rows.len() == 0 {
        Seq::empty()
    } else {
        let before = completion_lines(rows.drop_last());
        match offered(rows.last()) {
            Some(line) if !before.contains(line) => before.push(line),
            _ => before,
        }
    }
}

/// Whether `line` is in `list`.
fn holds(list: &Vec<String>, line: &str) -> (b: bool)
    ensures
        b == texts(list@).contains(line@),
{
    let mut i: usize = 0;
    while i < list.len()
        invariant
            i <= list.len(),
            forall|k: int| 0 <= k < i ==> (#[trigger] list@[k])@ != line@,
        decreases list.len() - i,
    {
        if same_text(list[i].as_str(), line) {
            assert(texts(list@)[i as int] == line@);
            return true;
        }
        i = i + 1;
    }
    false
}

impl ExchangeKey {
    /// The parameters that name the exchange.
    fn parameters(&self) -> (list: Vec<String>)
        ensures
            texts(list@) == key_parameters(self@),
            list@.len() == 3,
            list@[0]@ == self.model@,
            list@[1]@ == self.system_prompt@,
            list@[2]@ == self.user_prompt@,
    {
        let mut list: Vec<String> = Vec::new();
        list.push(self.model.clone());
        list.push(self.system_prompt.clone());
        list.push(self.user_prompt.clone());
        assert(texts(list@) == key_parameters(self@));
        list
    }
}

/// The history database. What it keeps lies in a file; here stands what it is asked and what its
/// answers mean.
pub struct HistoryDb;

impl HistoryDb {
    /// The statement that sets the database up.
    pub fn migrate() -> (statement: Statement)
        ensures
            statement@ == (StatementView { sql: MIGRATION@, parameters: Seq::empty() }),
    {
        let parameters: Vec<String> = Vec::new();
        assert(texts(parameters@) == Seq::<Seq<char>>::empty());
        Statement { sql: MIGRATION.to_string(), parameters }
    }

    /// The statement that finds an exchange.
    pub fn lookup(key: &ExchangeKey) -> (statement: Statement)
        ensures
            statement@ == lookup_statement(key@),
            statement.parameters@.len() == 3,
            statement.parameters@[0]@ == key.model@,
            statement.parameters@[1]@ == key.system_prompt@,
            statement.parameters@[2]@ == key.user_prompt@,
    {
        Statement { sql: LOOKUP.to_string(), parameters: key.parameters() }
    }

    /// What follows once the search for an exchange has given `row`.
    pub fn found(key: &ExchangeKey, row: Option<String>) -> (step: LookupStep)
        ensures
            match row {
                None => step is Miss,
                Some(json) => step matches LookupStep::Hit { touch, response_json } && touch@
                    == touch_statement(key@) && response_json == json && touch.parameters@.len()
                    == 3 && touch.parameters@[0]@ == key.model@ && touch.parameters@[1]@
                    == key.system_prompt@ && touch.parameters@[2]@ == key.user_prompt@,
            },
    {
        match row {
            None => LookupStep::Miss,
            Some(response_json) => LookupStep::Hit {
                touch: Statement { sql: TOUCH.to_string(), parameters: key.parameters() },
                response_json,
            },
        }
    }

    /// The response that an exchange was kept with.
    pub fn replay(response_json: &str) -> (response: Result<ChatResponse, AiError>)
        ensures
            match response_of(response_json@) {
                Some(choices) => response matches Ok(r) && r@ == choices,
                None => response == Err::<ChatResponse, AiError>(AiError::InvalidCachedReply),
            },
    {
        match ChatResponse::parse(response_json) {
            Some(response) => Ok(response),
            None => Err(AiError::InvalidCachedReply),
        }
    }

    /// The statement that keeps an exchange.
    pub fn store(key: &ExchangeKey, request_json: &str, response_json: &str) -> (statement:
        Statement)
        ensures
            statement@ == store_statement(key@, request_json@, response_json@),
            statement.parameters@.len() == 5,
            statement.parameters@[0]@ == key.model@,
            statement.parameters@[1]@ == key.system_prompt@,
            statement.parameters@[2]@ == key.user_prompt@,
            statement.parameters@[3]@ == request_json@,
            statement.parameters@[4]@ == response_json@,
    {
        let mut parameters = key.parameters();
        parameters.push(request_json.to_string());
        parameters.push(response_json.to_string());
        assert(texts(parameters@) == key_parameters(key@) + seq![request_json@, response_json@]);
        Statement { sql: STORE.to_string(), parameters }
    }

    /// The statement that finds the prompts that were used last.
    pub fn completion_query() -> (statement: Statement)
        ensures
            statement@ == (StatementView { sql: COMPLETIONS@, parameters: Seq::empty() }),
    {
        let parameters: Vec<String> = Vec::new();
        assert(texts(parameters@) == Seq::<Seq<char>>::empty());
        Statement { sql: COMPLETIONS.to_string(), parameters }
    }

    /// The lines that are offered for completion, in the order of the prompts they come from, each
    /// of them once.
    pub fn completion_prompts(rows: &Vec<String>) -> (prompts: Vec<String>)
        ensures
            texts(prompts@) == completion_lines(texts(rows@)),
            texts(prompts@).no_duplicates(),
    {
        let ghost all = texts(rows@);
        let mut prompts: Vec<String> = Vec::new();
        let mut i: usize = 0;
        assert(texts(prompts@) == Seq::<Seq<char>>::empty());
        while i < rows.len()
            invariant
                i <= rows.len(),
                all == texts(rows@),
                texts(prompts@) == completion_lines(all.take(i as int)),
            decreases rows.len() - i,
        {
            let ghost before = texts(prompts@);
            assert(all.take(i + 1).drop_last() == all.take(i as int));
            assert(all.take(i + 1).last() == rows@[i as int]@);
            if let Some(line) = first_line(rows[i].as_str()) {
                if !trim(line).is_empty() && !holds(&prompts, line) {
                    prompts.push(line.to_string());
                    assert(texts(prompts@) == before.push(line@));
                }
            }
            i = i + 1;
        }
        assert(all.take(all.len() as int) == all);
        proof {
            completions_are_unique(all);
        }
        prompts
    }
}

/// Statements that search for exchanges differ where the model, the system prompt or the user
/// prompt does.
pub proof fn exchanges_are_told_apart(a: KeyView, b: KeyView)
    requires
        a != b,
    ensures
        lookup_statement(a) != lookup_statement(b),
        touch_statement(a) != touch_statement(b),
{
    let p = key_parameters(a);
    let q = key_parameters(b);
    if p == q {
        assert(p[0] == q[0] && p[1] == q[1] && p[2] == q[2]);
        assert(a == b);
    }
}

/// A line that is offered for completion is the first line of a prompt in the history, and not
/// blank.
pub proof fn completions_are_first_lines(rows: Seq<Seq<char>>, i: int)
    requires
        0 <= i < completion_lines(rows).len(),
    ensures
        completion_lines(rows).len() <= rows.len(),
        trimmed(completion_lines(rows)[i]).len() > 0,
        !completion_lines(rows)[i].contains('\n'),
        exists|k: int|
            0 <= k < rows.len() && #[trigger] first_line_of(rows[k]) == Some(
                completion_lines(rows)[i],
            ),
    decreases rows.len(),
{
    let d = rows.drop_last();
    let before = completion_lines(d);
    lemma_completions_fit(rows);
    if i < before.len() {
        completions_are_first_lines(d, i);
        let k = choose|k: int|
            0 <= k < d.len() && #[trigger] first_line_of(d[k]) == Some(before[i]);
        assert(rows[k] == d[k]);
        assert(first_line_of(rows[k]) == Some(completion_lines(rows)[i]));
    } else {
        crate::text::a_line_is_one_line(rows.last());
        assert(first_line_of(rows[rows.len() - 1]) == Some(completion_lines(rows)[i]));
    }
}

proof fn lemma_completions_fit(rows: Seq<Seq<char>>)
    ensures
        completion_lines(rows).len() <= rows.len(),
    decreases rows.len(),
{
    if rows.len() > 0 {
        lemma_completions_fit(rows.drop_last());
    }
}

/// The prompts keep their order: what was used before another prompt is offered before it. One more
/// prompt adds its line at the end, unless that is blank or was offered before.
pub proof fn completions_keep_their_order(rows: Seq<Seq<char>>, row: Seq<char>)
    ensures
        match offered(row) {
            Some(line) => completion_lines(rows.push(row)) == if completion_lines(rows).contains(
                line,
            ) {
                completion_lines(rows)
            } else {
                completion_lines(rows).push(line)
            },
            None => completion_lines(rows.push(row)) == completion_lines(rows),
        },
{
    assert(rows.push(row).drop_last() == rows);
    assert(rows.push(row).last() == row);
}

/// Every prompt whose first line is not blank is offered by that line.
pub proof fn every_prompt_is_offered(rows: Seq<Seq<char>>, k: int)
    requires
        0 <= k < rows.len(),
        offered(rows[k]) is Some,
    ensures
        completion_lines(rows).contains(offered(rows[k])->0),
    decreases rows.len(),
{
    let before = completion_lines(rows.drop_last());
    let line = offered(rows[k])->0;
    if k < rows.len() - 1 {
        every_prompt_is_offered(rows.drop_last(), k);
        let i = choose|i: int| 0 <= i < before.len() && before[i] == line;
        assert(completion_lines(rows)[i] == line);
    } else if !before.contains(line) {
        assert(completion_lines(rows) == before.push(line));
        assert(completion_lines(rows)[before.len() as int] == line);
    }
}

/// No line is offered twice, also where several prompts begin with it.
pub proof fn completions_are_unique(rows: Seq<Seq<char>>)
    ensures
        completion_lines(rows).no_duplicates(),
    decreases rows.len(),
{
    if rows.len() > 0 {
        completions_are_unique(rows.drop_last());
    }
}

} // verus!
