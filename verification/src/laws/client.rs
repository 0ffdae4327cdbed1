//! What the chat API and the history are asked for a plan.
use vstd::prelude::*;
use crate::chat::{fixed_members, request_text, response_text, MessageView, RequestView};
use crate::client::{
    authorization_text, cache_hit_notice, completions_address, header_safe, plan_key, plan_request,
    request_notice, response_notice, sent_temperature, shown_json, shown_request,
};
use crate::config::ConfigView;
use crate::json::{json_pretty, object_text};
use crate::prompt::{system_prompt_text, ContextView};

verus! {

/// Whatever the model, the temperature and the texts are, a request holds two messages: first the
/// system prompt, then what the user asked.
pub proof fn requests_hold_the_system_prompt_and_the_users(
    model: Seq<char>,
    temperature: Option<Seq<char>>,
    system: Seq<char>,
    prompt: Seq<char>,
)
    ensures
        plan_request(model, temperature, system, prompt).model == model,
        plan_request(model, temperature, system, prompt).messages.len() == 2,
        plan_request(model, temperature, system, prompt).messages[0].role == "system"@,
        plan_request(model, temperature, system, prompt).messages[0].content == system,
        plan_request(model, temperature, system, prompt).messages[1].role == "user"@,
        plan_request(model, temperature, system, prompt).messages[1].content == prompt,
        plan_request(model, temperature, system, prompt).temperature == temperature,
{
}

/// To set a temperature, to leave it out, or to ask another model changes nothing of the messages.
pub proof fn temperature_and_model_leave_the_messages_alone(
    models: (Seq<char>, Seq<char>),
    temperatures: (Option<Seq<char>>, Option<Seq<char>>),
    system: Seq<char>,
    prompt: Seq<char>,
)
    ensures
        plan_request(models.0, temperatures.0, system, prompt).messages == plan_request(
            models.1,
            temperatures.1,
            system,
            prompt,
        ).messages,
{
}

/// A temperature is sent exactly where the configuration has one, and then it is the number that it
/// stands for.
pub proof fn the_configured_temperature_is_sent(config: ConfigView, number: Seq<char>)
    ensures
        sent_temperature(config, number) is Some <==> config.temperature is Some,
        sent_temperature(config, number) matches Some(n) ==> n == number,
{
}

/// Exchanges are kept by the model, by all that the model is told, and by what the user asked: two
/// plans share a key exactly where they share all three.
pub proof fn keys_hold_all_three_parts(
    models: (Seq<char>, Seq<char>),
    contexts: (ContextView, ContextView),
    prompts: (Seq<char>, Seq<char>),
)
    ensures
        plan_key(models.0, contexts.0, prompts.0) == plan_key(models.1, contexts.1, prompts.1)
            <==> models.0 == models.1 && system_prompt_text(contexts.0) == system_prompt_text(
            contexts.1,
        ) && prompts.0 == prompts.1,
        plan_key(models.0, contexts.0, prompts.0).model == models.0,
        plan_key(models.0, contexts.0, prompts.0).system_prompt == system_prompt_text(contexts.0),
        plan_key(models.0, contexts.0, prompts.0).user_prompt == prompts.0,
{
}

/// Requests go to `/chat/completions` below the endpoint, which stands in front as it is set, but
/// for slashes at its end.
pub proof fn requests_go_below_the_endpoint(endpoint: Seq<char>)
    ensures
        endpoint.len() == 0 || endpoint[endpoint.len() - 1] != '/' ==> completions_address(endpoint)
            == endpoint + "/chat/completions"@,
        completions_address(endpoint.push('/')) == completions_address(endpoint),
{
    crate::client::a_trailing_slash_changes_nothing(endpoint);
}

/// The key of the API is sent as it is set.
pub proof fn the_key_is_sent_as_it_is(api_key: Seq<char>)
    ensures
        authorization_text(api_key) == "Bearer "@ + api_key,
{
}

/// Nothing is shown unless that is wanted; what is wanted is shown under its heading, whole.
pub proof fn what_is_wanted_is_shown_whole(request: RequestView, response: Seq<MessageView>)
    ensures
        request_notice(false, request).len() == 0,
        response_notice(false, response).len() == 0,
        cache_hit_notice(false, request, response).len() == 0,
        request_notice(true, request) == "--- ai-shell debug: request ---\n"@ + shown_request(
            request,
        ) + "\n"@,
        response_notice(true, response) == "--- ai-shell debug: response ---\n"@ + shown_json(
            response_text(response),
        ) + "\n"@,
        cache_hit_notice(true, request, response)
            == "--- ai-shell debug: cache hit ---\nrequest:\n"@ + shown_request(request) + "\ncached response:\n"@ + shown_json(response_text(response))
            + "\n"@,
{
}

/// A JSON text is shown as it is laid out for reading, and as it is where it cannot be laid out.
pub proof fn texts_are_shown_laid_out(text: Seq<char>)
    ensures
        json_pretty(text) is Some ==> shown_json(text) == json_pretty(text)->0,
        json_pretty(text) is None ==> shown_json(text) == text,
{
}

/// A request with a temperature is shown as the same request without one, with one more line before
/// the last: the temperature as it is sent.
pub proof fn a_temperature_is_one_more_line(
    request: RequestView,
    number: Seq<char>,
    head: Seq<char>,
)
    requires
        shown_request((RequestView { temperature: None, ..request })) == head + "\n}"@,
    ensures
        shown_request((RequestView { temperature: Some(number), ..request })) == head
            + ",\n  \"temperature\": "@ + number + "\n}"@,
        shown_request((RequestView { temperature: None, ..request })) == shown_json(
            request_text((RequestView { temperature: None, ..request })),
        ),
{
    let cold = RequestView { temperature: None, ..request };
    let warm = RequestView { temperature: Some(number), ..request };
    assert(fixed_members(cold) == fixed_members(warm));
    let fixed = shown_json(object_text(fixed_members(warm)));
    reveal_strlit("\n}");
    assert(fixed == head + "\n}"@);
    assert(fixed.skip(fixed.len() - 2) == "\n}"@);
    assert(fixed.take(fixed.len() - 2) == head);
}

/// A character can stand in a header where it is no control character, or the tabulator; and a text
/// can where all of it can.
pub proof fn control_characters_cannot_stand_in_headers(c: char, a: Seq<char>, b: Seq<char>)
    ensures
        header_safe(seq![c]) <==> c == '\t' || (c >= ' ' && c != '\u{7f}'),
        header_safe(a + b) <==> header_safe(a) && header_safe(b),
        header_safe(Seq::empty()),
{
    let one = seq![c];
    assert(one[0] == c);
    if header_safe(a + b) {
        assert forall|i: int| 0 <= i < a.len() implies {
            let u = (#[trigger] a[i]) as u32;
            u == 9 || (u >= 32 && u != 127)
        } by {
            assert((a + b)[i] == a[i]);
        }
        assert forall|i: int| 0 <= i < b.len() implies {
            let u = (#[trigger] b[i]) as u32;
            u == 9 || (u >= 32 && u != 127)
        } by {
            assert((a + b)[a.len() + i] == b[i]);
        }
    }
}

} // verus!
