//! How a plan is asked for: from the history where the same was asked before, from the chat API
//! otherwise.
use vstd::prelude::*;
use crate::chat::{
    fixed_members, reply_of, request_text, response_of, response_text, ChatMessage, ChatRequest,
    ChatResponse, MessageView, RequestView,
};
use crate::config::{Config, ConfigView};
use crate::error::AiError;
use crate::history::{
    exchanges_are_told_apart, lookup_statement, store_statement, ExchangeKey, HistoryDb, KeyView,
    Statement,
};
use crate::json::{json_pretty, object_text, pretty};
use crate::plan::{plan_from_response, plan_result, response_plan, ModelPlan};
use crate::prompt::{
    another_directory_has_another_prompt, directories_have_their_own_prompt, on_lines,
    system_prompt, system_prompt_text, ContextView, ShellContext,
};
use crate::text::{
    ends_with, one_more_trailing_changes_nothing, strip_suffix, trim_trailing, without_trailing,
};

verus! {

/// A text that can stand in an HTTP header: no control character but the tabulator.
pub open spec fn header_safe(text: Seq<char>) -> bool {
    forall|i: int|
        0 <= i < text.len() ==> {
            let u = (#[trigger] text[i]) as u32;
            u == 9 || (u >= 32 && u != 127)
        }
}

/// Calls `reqwest::header::HeaderValue::from_str` and gives the bytes of the header value: those of
/// the text in UTF-8. It refuses a text with a byte below 32 that is not a tabulator, or with the
/// byte 127, and says so in words that are always the same.
#[verifier::external_body]
fn header_bytes(text: &str) -> (bytes: Result<Vec<u8>, String>)
    ensures
        bytes is Ok <==> header_safe(text@),
        bytes matches Ok(b) ==> b@ == vstd::utf8::encode_utf8(text@),
        bytes matches Err(cause) ==> cause@ == "failed to parse header value"@,
{
    match reqwest::header::HeaderValue::from_str(text) {
        Ok(value) => Ok(value.as_bytes().to_vec()),
        Err(error) => Err(error.to_string()),
    }
}

/// The value of the header that says what the requests hold.
pub const CONTENT_TYPE: &'static str = "application/json";

/// The value of the header that names the API key.
pub open spec fn authorization_text(api_key: Seq<char>) -> Seq<char> {
    "Bearer "@ + api_key
}

/// The address to which a chat request goes.
pub open spec fn completions_address(base_url: Seq<char>) -> Seq<char> {
    without_trailing(base_url, '/') + "/chat/completions"@
}

/// The address to which a chat request goes.
pub fn completions_url(base_url: &str) -> (url: String)
    ensures
        url@ == completions_address(base_url@),
{
    let mut url = trim_trailing(base_url, '/').to_string();
    url.append("/chat/completions");
    url
}

/// A JSON text as it is shown for inspection.
pub open spec fn shown_json(text: Seq<char>) -> Seq<char> {
    match json_pretty(text) {
        Some(indented) => indented,
        None => text,
    }
}

/// A JSON text as it is shown for inspection.
fn show_json(text: String) -> (shown: String)
    ensures
        shown@ == shown_json(text@),
{
    match pretty(text.as_str()) {
        Some(indented) => indented,
        None => text,
    }
}

/// A request as it is shown for inspection. Its temperature stands last and exactly as it is sent.
pub open spec fn shown_request(request: RequestView) -> Seq<char> {
    let fixed = shown_json(object_text(fixed_members(request)));
    match request.temperature {
        Some(number) => if ends_with(fixed, "\n}"@) {
            fixed.take(fixed.len() - 2) + ",\n  \"temperature\": "@ + number + "\n}"@
        } else {
            request_text(request)
        },
        None => fixed,
    }
}

/// A request as it is shown for inspection.
fn show_request(request: &ChatRequest) -> (shown: String)
    ensures
        shown@ == shown_request(request@),
{
    let fixed = show_json(request.to_json_without_temperature());
    proof {
        reveal_strlit("\n}");
    }
    match &request.temperature {
        Some(number) => match strip_suffix(fixed.as_str(), "\n}") {
            Some(head) => head.to_string().concat(",\n  \"temperature\": ").concat(
                number.as_str(),
            ).concat("\n}"),
            None => request.to_json(),
        },
        None => fixed,
    }
}

/// What is shown of a request, where that is wanted.
pub open spec fn request_notice(debug: bool, request: RequestView) -> Seq<char> {
    if debug {
        "--- ai-shell debug: request ---\n"@ + shown_request(request) + "\n"@
    } else {
        Seq::empty()
    }
}

/// What is shown of a response, where that is wanted.
pub open spec fn response_notice(debug: bool, response: Seq<MessageView>) -> Seq<char> {
    if debug {
        "--- ai-shell debug: response ---\n"@ + shown_json(response_text(response)) + "\n"@
    } else {
        Seq::empty()
    }
}

/// What is shown of a response that was found in the history, where that is wanted.
pub open spec fn cache_hit_notice(
    debug: bool,
    request: RequestView,
    response: Seq<MessageView>,
) -> Seq<char> {
    if debug {
        "--- ai-shell debug: cache hit ---\nrequest:\n"@ + shown_request(request)
            + "\ncached response:\n"@ + shown_json(response_text(response)) + "\n"@
    } else {
        Seq::empty()
    }
}

/// Whoever asks the model for plans. The number is the temperature of the configuration as a JSON
/// number, and counts where the configuration has one. Every request carries the two headers
/// `Authorization` and `Content-Type`.
#[derive(Debug, PartialEq)]
pub struct LlmClient {
    pub config: Config,
    pub number: String,
    pub debug: bool,
    pub authorization: Vec<u8>,
    pub content_type: String,
}

/// A plan that is being asked for: what it is found by in the history, and what the API is asked.
#[derive(Debug, PartialEq)]
pub struct PlanTask {
    pub key: ExchangeKey,
    pub request: ChatRequest,
}

/// What follows once the history was searched.
#[derive(Debug, PartialEq)]
pub enum PlanStep {
    /// The history had the response: show the notice and take the plan.
    Replayed { notice: String, plan: Result<ModelPlan, AiError> },
    /// Show the notice and send the body to the address.
    Call { notice: String, url: String, body: String },
}

/// What follows once the API has replied: show the notice, keep the exchange, and take the plan.
#[derive(Debug, PartialEq)]
pub struct Received {
    pub notice: String,
    pub store: Statement,
    pub plan: Result<ModelPlan, AiError>,
}

/// The temperature that is sent: a request has one exactly where the configuration does.
pub open spec fn sent_temperature(config: ConfigView, number: Seq<char>) -> Option<Seq<char>> {
    match config.temperature {
        Some(_) => Some(number),
        None => None,
    }
}

/// What the API is asked for a plan.
pub open spec fn plan_request(
    model: Seq<char>,
    temperature: Option<Seq<char>>,
    system: Seq<char>,
    prompt: Seq<char>,
) -> RequestView {
    RequestView {
        model,
        messages: seq![
            MessageView { role: "system"@, content: system },
            MessageView { role: "user"@, content: prompt },
        ],
        temperature,
    }
}

/// What a plan is found by in the history: the model, what it is told of the surroundings, and what
/// it is asked.
pub open spec fn plan_key(model: Seq<char>, context: ContextView, prompt: Seq<char>) -> KeyView {
    KeyView { model, system_prompt: system_prompt_text(context), user_prompt: prompt }
}

impl LlmClient {
    /// A client for a configuration whose API key can stand in a header. `number` is the
    /// temperature of the configuration as a JSON number; where the configuration has none, it
    /// counts for nothing.
    pub fn new(config: Config, number: String, debug: bool) -> (client: Result<LlmClient, AiError>)
        ensures
            header_safe(config.api_key@) ==> (client matches Ok(c) && c.config == config
                && c.number == number && c.debug == debug && c.authorization@
                == vstd::utf8::encode_utf8(authorization_text(config.api_key@)) && c.authorization@
                == vstd::utf8::encode_utf8("Bearer "@ + config.api_key@)
                && c.content_type@ == "application/json"@),
            !header_safe(config.api_key@) ==> (client matches Err(AiError::InvalidApiKey(cause))
                && cause@ == "failed to parse header value"@),
    {
        let mut text = "Bearer ".to_string();
        text.append(config.api_key.as_str());
        proof {
            reveal_strlit("Bearer ");
            let key = config.api_key@;
            if header_safe(key) {
                assert forall|i: int| 0 <= i < text@.len() implies {
                    let u = (#[trigger] text@[i]) as u32;
                    u == 9 || (u >= 32 && u != 127)
                } by {
                    if i >= 7 {
                        assert(text@[i] == key[i - 7]);
                    }
                }
            }
            if header_safe(text@) {
                assert forall|i: int| 0 <= i < key.len() implies {
                    let u = (#[trigger] key[i]) as u32;
                    u == 9 || (u >= 32 && u != 127)
                } by {
                    assert(text@[i + 7] == key[i]);
                }
            }
        }
        match header_bytes(text.as_str()) {
            Ok(authorization) => Ok(
                LlmClient {
                    config,
                    number,
                    debug,
                    authorization,
                    content_type: CONTENT_TYPE.to_string(),
                },
            ),
            Err(cause) => Err(AiError::InvalidApiKey(cause)),
        }
    }

    /// Prepares to ask for a plan: what to look for in the history, and what to ask the API.
    pub fn plan_command(&self, context: &ShellContext, prompt: &str) -> (task: PlanTask)
        ensures
            task.key@ == plan_key(self.config.model@, context@, prompt@),
            task.request@ == plan_request(
                self.config.model@,
                sent_temperature(self.config@, self.number@),
                system_prompt_text(context@),
                prompt@,
            ),
            task.key.model@ == self.config.model@,
            task.key.system_prompt@ == system_prompt_text(context@),
            task.key.user_prompt@ == prompt@,
            task.request.model@ == self.config.model@,
            task.request.messages@.len() == 2,
            task.request.messages@[0].role@ == "system"@,
            task.request.messages@[0].content@ == system_prompt_text(context@),
            task.request.messages@[1].role@ == "user"@,
            task.request.messages@[1].content@ == prompt@,
            self.config.temperature is None ==> task.request.temperature is None,
            self.config.temperature is Some ==> (task.request.temperature matches Some(t) && t@
                == self.number@),
    {
        let system = system_prompt(context);
        let mut messages: Vec<ChatMessage> = Vec::new();
        messages.push(ChatMessage { role: "system".to_string(), content: system.clone() });
        messages.push(ChatMessage { role: "user".to_string(), content: prompt.to_string() });
        let temperature = match &self.config.temperature {
            Some(_) => Some(self.number.clone()),
            None => None,
        };
        let request = ChatRequest { model: self.config.model.clone(), messages, temperature };
        assert(request@.messages == seq![
            MessageView { role: "system"@, content: system@ },
            MessageView { role: "user"@, content: prompt@ },
        ]);
        PlanTask {
            key: ExchangeKey {
                model: self.config.model.clone(),
                system_prompt: system,
                user_prompt: prompt.to_string(),
            },
            request,
        }
    }

    /// What is shown of a request.
    pub fn debug_request(&self, request: &ChatRequest) -> (notice: String)
        ensures
            notice@ == request_notice(self.debug, request@),
            !self.debug ==> notice@.len() == 0,
            self.debug ==> notice@ == "--- ai-shell debug: request ---\n"@ + shown_request(request@)
                + "\n"@,
    {
        if !self.debug {
            return String::new();
        }
        "--- ai-shell debug: request ---\n".to_string().concat(
            show_request(request).as_str(),
        ).concat("\n")
    }

    /// What is shown of a response.
    pub fn debug_response(&self, response: &ChatResponse) -> (notice: String)
        ensures
            notice@ == response_notice(self.debug, response@),
            !self.debug ==> notice@.len() == 0,
            self.debug ==> notice@ == "--- ai-shell debug: response ---\n"@ + shown_json(
                response_text(response@),
            ) + "\n"@,
    {
        if !self.debug {
            return String::new();
        }
        "--- ai-shell debug: response ---\n".to_string().concat(
            show_json(response.to_json()).as_str(),
        ).concat("\n")
    }

    /// What is shown of a response that was found in the history.
    pub fn debug_cache_hit(&self, request: &ChatRequest, response: &ChatResponse) -> (notice:
        String)
        ensures
            notice@ == cache_hit_notice(self.debug, request@, response@),
            !self.debug ==> notice@.len() == 0,
            self.debug ==> notice@ == "--- ai-shell debug: cache hit ---\nrequest:\n"@
                + shown_request(request@) + "\ncached response:\n"@ + shown_json(
                response_text(response@),
            ) + "\n"@,
    {
        if !self.debug {
            return String::new();
        }
        "--- ai-shell debug: cache hit ---\nrequest:\n".to_string().concat(
            show_request(request).as_str(),
        ).concat("\ncached response:\n").concat(show_json(response.to_json()).as_str()).concat("\n")
    }

    /// What follows once the history was searched for the exchange of `task`.
    pub fn after_lookup(&self, task: &PlanTask, found: Option<ChatResponse>) -> (step: PlanStep)
        ensures
            match found {
                Some(response) => step matches PlanStep::Replayed { notice, plan } && notice@
                    == cache_hit_notice(self.debug, task.request@, response@) && plan_result(plan)
                    == response_plan(response@),
                None => step matches PlanStep::Call { notice, url, body } && notice@
                    == request_notice(self.debug, task.request@) && url@ == completions_address(
                    self.config.base_url@,
                ) && body@ == request_text(task.request@),
            },
    {
        match found {
            Some(response) => PlanStep::Replayed {
                notice: self.debug_cache_hit(&task.request, &response),
                plan: plan_from_response(&response),
            },
            None => PlanStep::Call {
                notice: self.debug_request(&task.request),
                url: completions_url(self.config.base_url.as_str()),
                body: task.request.to_json(),
            },
        }
    }

    /// What follows once the API has replied to the request of `task`. The exchange is kept whether
    /// or not its response holds a plan, under the key that the history was searched for, and as a
    /// text that is read back as the same response.
    pub fn after_reply(&self, task: &PlanTask, reply: &Vec<u8>) -> (received: Result<
        Received,
        AiError,
    >)
        ensures
            match reply_of(reply@) {
                Some(response) => received matches Ok(r) && r.notice@ == response_notice(
                    self.debug,
                    response,
                ) && r.store@ == store_statement(
                    task.key@,
                    request_text(task.request@),
                    response_text(response),
                ) && response_of(r.store@.parameters[4]) == Some(response) && plan_result(r.plan)
                    == response_plan(response),
                None => received == Err::<Received, AiError>(AiError::InvalidReply),
            },
    {
        match ChatResponse::parse_reply(reply) {
            Some(response) => {
                let request_json = task.request.to_json();
                let response_json = response.to_json();
                Ok(
                    Received {
                        notice: self.debug_response(&response),
                        store: HistoryDb::store(
                            &task.key,
                            request_json.as_str(),
                            response_json.as_str(),
                        ),
                        plan: plan_from_response(&response),
                    },
                )
            },
            None => Err(AiError::InvalidReply),
        }
    }
}

// ---------------------------------------------------------------------------------------------
// Laws
// ---------------------------------------------------------------------------------------------

/// What was answered in one working directory is neither found nor replaced from another: the
/// exchanges have different keys and are searched for by different statements. Everything else may
/// differ, where the shell, the system and the directories stand on one line each; where they do
/// not, everything else is the same.
pub proof fn answers_stay_in_their_directory(
    model: Seq<char>,
    here: ContextView,
    there: ContextView,
    prompt: Seq<char>,
)
    requires
        here.cwd != there.cwd,
        (on_lines(here) && on_lines(there)) || (here.shell == there.shell && here.os == there.os
            && here.listings == there.listings),
    ensures
        plan_key(model, here, prompt) != plan_key(model, there, prompt),
        lookup_statement(plan_key(model, here, prompt)) != lookup_statement(
            plan_key(model, there, prompt),
        ),
        forall|r: Seq<char>, s: Seq<char>, t: Seq<char>, u: Seq<char>|
            (#[trigger] store_statement(plan_key(model, here, prompt), r, s)).parameters.take(3)
                != (#[trigger] store_statement(
                plan_key(model, there, prompt),
                t,
                u,
            )).parameters.take(3),
{
    if on_lines(here) && on_lines(there) {
        another_directory_has_another_prompt(here, there);
    } else {
        directories_have_their_own_prompt(here, there);
    }
    let a = plan_key(model, here, prompt);
    let b = plan_key(model, there, prompt);
    exchanges_are_told_apart(a, b);
    assert forall|r: Seq<char>, s: Seq<char>, t: Seq<char>, u: Seq<char>|
        #![trigger store_statement(a, r, s), store_statement(b, t, u)]
        store_statement(a, r, s).parameters.take(3) != store_statement(b, t, u).parameters.take(
            3,
        ) by {
        exchanges_are_kept_where_they_are_sought(a, r, s);
        exchanges_are_kept_where_they_are_sought(b, t, u);
    }
}

/// What is kept is found: the statement that keeps an exchange names it by the parameters by which
/// the statement that searches for it does.
pub proof fn exchanges_are_kept_where_they_are_sought(
    key: KeyView,
    request_json: Seq<char>,
    response_json: Seq<char>,
)
    ensures
        store_statement(key, request_json, response_json).parameters.take(3)
            == lookup_statement(key).parameters,
        store_statement(key, request_json, response_json).parameters[4] == response_json,
{
    assert(store_statement(key, request_json, response_json).parameters.take(3)
        == lookup_statement(key).parameters);
}

/// A slash at the end of the endpoint changes nothing.
pub proof fn a_trailing_slash_changes_nothing(base_url: Seq<char>)
    ensures
        completions_address(base_url.push('/')) == completions_address(base_url),
{
    one_more_trailing_changes_nothing(base_url, '/');
}

} // verus!
