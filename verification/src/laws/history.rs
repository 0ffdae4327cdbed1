//! What the statements for the history are about, and what is offered for completion.
use vstd::prelude::*;
use crate::history::{
    completion_lines, completions_keep_their_order, lookup_statement, offered, store_statement,
    touch_statement, ExchangeKey, KeyView, Statement, COMPLETIONS, MIGRATION,
};
use crate::text::{first_line_of, only_blank_text_is_trimmed_away, white_space};

verus! {

/// Each value stands in the column that the statement names for it: the first parameter is the
/// model, the second the system prompt, the third the user prompt, and what is kept of the request
/// and of the response follows them.
pub proof fn values_stand_in_their_columns(
    key: KeyView,
    request_json: Seq<char>,
    response_json: Seq<char>,
)
    ensures
        lookup_statement(key).parameters.len() == 3,
        lookup_statement(key).parameters[0] == key.model,
        lookup_statement(key).parameters[1] == key.system_prompt,
        lookup_statement(key).parameters[2] == key.user_prompt,
        touch_statement(key).parameters.len() == 3,
        touch_statement(key).parameters[0] == key.model,
        touch_statement(key).parameters[1] == key.system_prompt,
        touch_statement(key).parameters[2] == key.user_prompt,
        store_statement(key, request_json, response_json).parameters.len() == 5,
        store_statement(key, request_json, response_json).parameters[0] == key.model,
        store_statement(key, request_json, response_json).parameters[1] == key.system_prompt,
        store_statement(key, request_json, response_json).parameters[2] == key.user_prompt,
        store_statement(key, request_json, response_json).parameters[3] == request_json,
        store_statement(key, request_json, response_json).parameters[4] == response_json,
{
}

/// Whatever the exchange is, it is searched for, noted and kept by the same three statements: a
/// search by the three columns of the key, a count of one more use under the same key, and a row
/// under the same key that takes the place of an older one.
pub proof fn the_statements_are_the_same_for_every_exchange(
    key: KeyView,
    request_json: Seq<char>,
    response_json: Seq<char>,
)
    ensures
        lookup_statement(key).sql == r#"
SELECT response_json
FROM llm_exchanges
WHERE model = ?1 AND system_prompt = ?2 AND user_prompt = ?3
"#@,
        touch_statement(key).sql == r#"
UPDATE llm_exchanges
SET last_used_at = CURRENT_TIMESTAMP,
    use_count = use_count + 1
WHERE model = ?1 AND system_prompt = ?2 AND user_prompt = ?3
"#@,
        store_statement(key, request_json, response_json).sql == r#"
INSERT INTO llm_exchanges (
    model,
    system_prompt,
    user_prompt,
    request_json,
    response_json
) VALUES (?1, ?2, ?3, ?4, ?5)
ON CONFLICT(model, system_prompt, user_prompt) DO UPDATE SET
    request_json = excluded.request_json,
    response_json = excluded.response_json,
    last_used_at = CURRENT_TIMESTAMP
"#@,
{
}

/// The table has one row for each key, and the prompts are found newest first.
pub proof fn the_table_is_set_up_and_listed()
    ensures
        MIGRATION@ == r#"
CREATE TABLE IF NOT EXISTS llm_exchanges (
    id INTEGER PRIMARY KEY,
    model TEXT NOT NULL,
    system_prompt TEXT NOT NULL,
    user_prompt TEXT NOT NULL,
    request_json TEXT NOT NULL,
    response_json TEXT NOT NULL,
    created_at TEXT NOT NULL DEFAULT CURRENT_TIMESTAMP,
    last_used_at TEXT NOT NULL DEFAULT CURRENT_TIMESTAMP,
    use_count INTEGER NOT NULL DEFAULT 0,
    UNIQUE(model, system_prompt, user_prompt)
);
"#@,
        COMPLETIONS@ == r#"
SELECT user_prompt
FROM llm_exchanges
GROUP BY user_prompt
ORDER BY MAX(last_used_at) DESC, MAX(id) DESC
LIMIT 50
"#@,
{
}

/// A key and a statement are seen with all that they hold.
pub proof fn keys_and_statements_are_seen_whole(key: ExchangeKey, statement: Statement, i: int)
    ensures
        key@.model == key.model@,
        key@.system_prompt == key.system_prompt@,
        key@.user_prompt == key.user_prompt@,
        statement@.sql == statement.sql@,
        statement@.parameters.len() == statement.parameters@.len(),
        0 <= i < statement.parameters@.len() ==> statement@.parameters[i]
            == statement.parameters@[i]@,
{
}

/// A prompt is offered by its first line, where some character of that line is not white space, and
/// by nothing otherwise.
pub proof fn prompts_are_offered_by_their_first_line(prompt: Seq<char>, line: Seq<char>)
    ensures
        offered(prompt) == Some(line) <==> first_line_of(prompt) == Some(line) && exists|i: int|
            0 <= i < line.len() && !white_space(#[trigger] line[i]),
{
    only_blank_text_is_trimmed_away(line);
}

/// What is offered for some prompts is offered first, in the same order, when older prompts follow.
pub proof fn older_prompts_come_later(newer: Seq<Seq<char>>, older: Seq<Seq<char>>)
    ensures
        completion_lines(newer).len() <= completion_lines(newer + older).len(),
        completion_lines(newer + older).take(completion_lines(newer).len() as int)
            == completion_lines(newer),
    decreases older.len(),
{
    let n = completion_lines(newer).len() as int;
    if older.len() == 0 {
        assert(newer + older == newer);
        assert(completion_lines(newer).take(n) == completion_lines(newer));
    } else {
        let d = older.drop_last();
        older_prompts_come_later(newer, d);
        assert(newer + older == (newer + d).push(older.last()));
        completions_keep_their_order(newer + d, older.last());
        let before = completion_lines(newer + d);
        let after = completion_lines(newer + older);
        assert(after.take(n) == before.take(n));
    }
}

/// One prompt alone is offered by its line, and none where there is none.
pub proof fn one_prompt_alone_is_offered(prompt: Seq<char>)
    ensures
        offered(prompt) matches Some(line) ==> completion_lines(seq![prompt]) == seq![line],
        offered(prompt) is None ==> completion_lines(seq![prompt]) == Seq::<Seq<char>>::empty(),
        completion_lines(Seq::empty()) == Seq::<Seq<char>>::empty(),
{
    reveal_with_fuel(completion_lines, 2);
    assert(seq![prompt].drop_last() == Seq::<Seq<char>>::empty());
    if let Some(line) = offered(prompt) {
        assert(!Seq::<Seq<char>>::empty().contains(line));
        assert(Seq::<Seq<char>>::empty().push(line) == seq![line]);
    }
}

} // verus!
