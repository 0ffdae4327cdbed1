//! What plan is read from what the model answers.
use vstd::prelude::*;
use crate::chat::MessageView;
use crate::error::AiError;
use crate::json::{
    array_text, elements_of, field_of, json_string, json_value, members_of, quoted, reads_back,
    strings_of, Coding, FieldView, MemberView,
};
use crate::json_laws::{
    lemma_array_reads_back, lemma_quoted_is_whole, lemma_string_has_no_elements,
    lemma_strings_read_back,
};
use crate::plan::{
    answer_plan, lemma_fenced, lemma_unfenced, listed_fields, plan_field_of, plan_fields_of,
    plan_from, plan_of, plan_result, plan_strings_read_back, plan_text, plans_are_read_as_written,
    plans_read_alike_in_fences, response_plan, unfenced, value_of, ModelPlan, NoPlan, PlanField,
    PlanFieldView, PlanFields, PlanFieldsView, PlanView,
};
use crate::text::{begins_with, blank, ends_with, padding_is_trimmed, texts, trimmed};

verus! {

/// An answer gives exactly the plan that its JSON text holds, with all that is in it, and where
/// that holds none, the text that does not.
pub proof fn answers_give_the_plan_they_hold(content: Seq<char>, plan: PlanView)
    ensures
        plan_of(unfenced(content)) == Some(plan) <==> answer_plan(content) == Ok::<
            PlanView,
            NoPlan,
        >(plan),
        plan_of(unfenced(content)) is None <==> answer_plan(content) == Err::<PlanView, NoPlan>(
            NoPlan::Invalid(unfenced(content)),
        ),
{
}

/// Whatever plan the model writes as it is told to comes out whole, with every option and every dry
/// run: bare or between fences, and none where the closing fence is left off.
pub proof fn written_plans_come_out_of_answers(plan: PlanView)
    requires
        json_value(plan_text(plan)),
        plan_strings_read_back(plan),
    ensures
        answer_plan(plan_text(plan)) == Ok::<PlanView, NoPlan>(plan),
        answer_plan("```json\n"@ + plan_text(plan) + "\n```"@) == Ok::<PlanView, NoPlan>(plan),
        answer_plan("```\n"@ + plan_text(plan) + "\n```"@) == Ok::<PlanView, NoPlan>(plan),
        answer_plan("```json\n"@ + plan_text(plan)) is Err,
        answer_plan("```\n"@ + plan_text(plan)) is Err,
{
    plans_are_read_as_written(plan);
    plans_read_alike_in_fences(plan_text(plan), plan);
}

/// Such a plan comes out of a response whose first choice has it, with whatever white space around
/// it, whoever says it and whatever the other choices are.
pub proof fn written_plans_come_out_of_responses(
    plan: PlanView,
    role: Seq<char>,
    before: Seq<char>,
    after: Seq<char>,
    others: Seq<MessageView>,
)
    requires
        json_value(plan_text(plan)),
        plan_strings_read_back(plan),
        blank(before),
        blank(after),
    ensures
        response_plan(
            seq![MessageView { role, content: before + plan_text(plan) + after }] + others,
        ) == Ok::<PlanView, NoPlan>(plan),
        response_plan(
            seq![
                MessageView {
                    role,
                    content: before + ("```json\n"@ + plan_text(plan) + "\n```"@) + after,
                },
            ] + others,
        ) == Ok::<PlanView, NoPlan>(plan),
        response_plan(
            seq![
                MessageView {
                    role,
                    content: before + ("```\n"@ + plan_text(plan) + "\n```"@) + after,
                },
            ] + others,
        ) == Ok::<PlanView, NoPlan>(plan),
{
    written_plans_come_out_of_answers(plan);
    reveal_strlit("```json\n");
    reveal_strlit("```\n");
    reveal_strlit("\n```");
    let bare = plan_text(plan);
    let one = "```json\n"@ + bare + "\n```"@;
    let two = "```\n"@ + bare + "\n```"@;
    padding_is_trimmed(before, bare, after);
    padding_is_trimmed(before, one, after);
    padding_is_trimmed(before, two, after);
    assert(bare.first() == '{' && bare.last() == '}');
    assert(one.first() == '`' && one.last() == '`');
    assert(two.first() == '`' && two.last() == '`');
    assert(trimmed(bare) == bare);
    assert(trimmed(one) == one);
    assert(trimmed(two) == two);
    let a = MessageView { role, content: before + bare + after };
    let b = MessageView { role, content: before + one + after };
    let c = MessageView { role, content: before + two + after };
    assert((seq![a] + others)[0] == a);
    assert((seq![b] + others)[0] == b);
    assert((seq![c] + others)[0] == c);
}

/// A response gives what its first choice answers, without the white space around it; one without
/// choices gives no plan, for just that reason.
pub proof fn responses_give_their_first_answer(choices: Seq<MessageView>)
    ensures
        choices.len() == 0 <==> response_plan(choices) == Err::<PlanView, NoPlan>(
            NoPlan::NoChoices,
        ),
        choices.len() > 0 ==> response_plan(choices) == answer_plan(trimmed(choices[0].content)),
{
}

/// A fence is taken off, with or without a language, whatever stands between its ends; a text that
/// is not between two fences stays as it is, but for white space around it.
pub proof fn fences_are_taken_off(body: Seq<char>, content: Seq<char>)
    ensures
        unfenced("```json"@ + body + "```"@) == trimmed(body),
        !begins_with(body, "json"@) ==> unfenced("```"@ + body + "```"@) == trimmed(body),
        !(begins_with(content, "```"@) && content.len() >= 6 && ends_with(content, "```"@))
            ==> unfenced(content) == trimmed(content),
{
    lemma_fenced("```json"@, body);
    lemma_fenced("```"@, body);
    reveal_strlit("```");
    reveal_strlit("```json");
    reveal_strlit("json");
    let plain = "```"@ + body + "```"@;
    if begins_with(plain, "```json"@) {
        let head = plain.take(7);
        assert(head[3] == 'j' && head[4] == 's' && head[5] == 'o' && head[6] == 'n');
        assert(plain[3] == 'j' && plain[4] == 's' && plain[5] == 'o' && plain[6] == 'n');
        assert(body.len() >= 4) by {
            if body.len() < 4 {
                assert(plain[3 + body.len() as int] == '`');
            }
        }
        assert(body.take(4) =~= "json"@);
    }
    if !begins_with(content, "```"@) {
        lemma_unfenced(content);
    } else if content.len() < 6 || !ends_with(content, "```"@) {
        let rest = content.skip(3);
        if content.len() >= 6 {
            assert(rest.skip(rest.len() - 3) == content.skip(content.len() - 3));
        }
        if begins_with(content, "```json"@) {
            let tail = content.skip(7);
            if tail.len() >= 3 {
                assert(tail.skip(tail.len() - 3) == content.skip(content.len() - 3));
            }
        }
    }
}

/// Fields make up a command exactly where they say so and give it with its explanation, and its dry
/// runs are those that are given; they make up a question exactly where they say so and give it
/// with its options, all of them.
pub proof fn plans_are_what_their_fields_say(
    f: PlanFieldsView,
    command: Seq<char>,
    explanation: Seq<char>,
    dry_runs: Seq<Seq<char>>,
    question: Seq<char>,
    options: Seq<Seq<char>>,
)
    ensures
        plan_from(f) == Some((PlanView::Command { command, explanation, dry_runs })) <==> {
            &&& f.kind == PlanFieldView::Text("command"@)
            &&& f.command == PlanFieldView::Text(command)
            &&& f.explanation == PlanFieldView::Text(explanation)
            &&& f.dry_runs == PlanFieldView::Texts(dry_runs) || (f.dry_runs is Absent && dry_runs
                == Seq::<Seq<char>>::empty())
        },
        plan_from(f) == Some((PlanView::Clarification { question, options })) <==> {
            &&& f.kind == PlanFieldView::Text("clarification"@)
            &&& f.question == PlanFieldView::Text(question)
            &&& f.options == PlanFieldView::Texts(options)
        },
{
    reveal_strlit("command");
    reveal_strlit("clarification");
    assert("command"@.len() != "clarification"@.len());
}

/// Each field of a plan is read from the only member of its name: a string as that string, an array
/// of strings as all of them in order; a member that is missing leaves it out, and one that is
/// repeated spoils it.
pub proof fn fields_are_read_from_their_members(members: Seq<MemberView>, name: Seq<char>)
    ensures
        plan_fields_of(members).kind == plan_field_of(members, "type"@),
        plan_fields_of(members).command == plan_field_of(members, "command"@),
        plan_fields_of(members).explanation == plan_field_of(members, "explanation"@),
        plan_fields_of(members).dry_runs == plan_field_of(members, "dry_runs"@),
        plan_fields_of(members).question == plan_field_of(members, "question"@),
        plan_fields_of(members).options == plan_field_of(members, "options"@),
        plan_field_of(members, name) is Absent <==> field_of(members, name) is Absent,
        field_of(members, name) is Repeated ==> plan_field_of(members, name) is Other,
        field_of(members, name) matches FieldView::Once(value) ==> plan_field_of(members, name)
            == value_of(value),
{
}

/// A string says its content, an array of strings says all of them in order, and nothing else says
/// anything.
pub proof fn values_say_their_strings(text: Seq<char>, content: Seq<char>, list: Seq<Seq<char>>)
    ensures
        strings_of(text) == Some(list) ==> value_of(text) == PlanFieldView::Texts(list),
        strings_of(text) is None && json_string(text) == Some(content) ==> value_of(text)
            == PlanFieldView::Text(content),
        strings_of(text) is None && json_string(text) is None ==> value_of(text) is Other,
        reads_back(content) ==> value_of(quoted(content)) == PlanFieldView::Text(content),
        (forall|i: int| 0 <= i < list.len() ==> reads_back(#[trigger] list[i])) ==> value_of(
            array_text(list.map_values(|s: Seq<char>| quoted(s))),
        ) == PlanFieldView::Texts(list),
{
    lemma_string_has_no_elements(content);
    if forall|i: int| 0 <= i < list.len() ==> reads_back(#[trigger] list[i]) {
        lemma_strings_read_back(list);
    }
}

/// An object is read by its members, whatever stands among them and in whatever order, as long as
/// `serde_json` takes it for a value.
pub proof fn objects_are_read_by_their_members(text: Seq<char>, members: Seq<MemberView>)
    requires
        json_value(crate::json::bare(text)),
        elements_of(text) is None,
        members_of(Coding::Text, text) == Some(members),
    ensures
        plan_of(text) == plan_from(plan_fields_of(members)),
{
}

/// What `serde_json` does not take for a value holds no plan, and neither does what is no object
/// and no array.
pub proof fn only_values_hold_plans(text: Seq<char>)
    ensures
        !json_value(crate::json::bare(text)) ==> plan_of(text) is None,
        elements_of(text) is None && members_of(Coding::Text, text) is None ==> plan_of(text)
            is None,
{
}

/// A plan may also be written as an array: the kind, and then the fields in order. A command may
/// come without dry runs, and a question has its options, all of them.
pub proof fn arrays_are_read_in_order(
    command: Seq<char>,
    explanation: Seq<char>,
    list: Seq<Seq<char>>,
)
    requires
        reads_back("command"@),
        reads_back("clarification"@),
        reads_back(command),
        reads_back(explanation),
        forall|i: int| 0 <= i < list.len() ==> reads_back(#[trigger] list[i]),
    ensures
        ({
            let strings = array_text(list.map_values(|s: Seq<char>| quoted(s)));
            let short = array_text(seq![quoted("command"@), quoted(command), quoted(explanation)]);
            let long = array_text(
                seq![quoted("command"@), quoted(command), quoted(explanation), strings],
            );
            let asked = array_text(seq![quoted("clarification"@), quoted(command), strings]);
            &&& json_value(short) ==> plan_of(short) == Some(
                (PlanView::Command { command, explanation, dry_runs: Seq::empty() }),
            )
            &&& json_value(long) ==> plan_of(long) == Some(
                (PlanView::Command { command, explanation, dry_runs: list }),
            )
            &&& json_value(asked) ==> plan_of(asked) == Some(
                (PlanView::Clarification { question: command, options: list }),
            )
        }),
{
    let strings = array_text(list.map_values(|s: Seq<char>| quoted(s)));
    lemma_strings_read_back(list);
    lemma_quoted_is_whole("command"@);
    lemma_quoted_is_whole("clarification"@);
    lemma_quoted_is_whole(command);
    lemma_quoted_is_whole(explanation);
    values_say_their_strings(strings, "command"@, list);
    values_say_their_strings(strings, "clarification"@, list);
    values_say_their_strings(strings, command, list);
    values_say_their_strings(strings, explanation, list);
    reveal_strlit("command");
    reveal_strlit("clarification");
    assert("command"@.len() != "clarification"@.len());
    let a = seq![quoted("command"@), quoted(command), quoted(explanation)];
    let b = seq![quoted("command"@), quoted(command), quoted(explanation), strings];
    let c = seq![quoted("clarification"@), quoted(command), strings];
    lemma_array_reads_back(a);
    lemma_array_reads_back(b);
    lemma_array_reads_back(c);
    lemma_array_is_bare(a);
    lemma_array_is_bare(b);
    lemma_array_is_bare(c);
}

proof fn lemma_array_is_bare(elements: Seq<Seq<char>>)
    ensures
        crate::json::bare(array_text(elements)) == array_text(elements),
{
    let t = array_text(elements);
    assert(t.first() == '[' && t.last() == ']');
}

/// An array of another length holds no plan.
pub proof fn arrays_of_another_length_hold_no_plan(values: Seq<PlanFieldView>)
    ensures
        values.len() < 3 || values.len() > 4 ==> listed_fields(values) is None,
        values.len() == 4 && values[0] != PlanFieldView::Text("command"@) ==> listed_fields(values)
            is None,
{
}

/// A plan is seen with all that it holds, and a failure to read one as what it is.
pub proof fn plans_are_seen_whole(
    plan: ModelPlan,
    command: String,
    explanation: String,
    list: Vec<String>,
)
    ensures
        (ModelPlan::Command { command, explanation, dry_runs: list })@ == (PlanView::Command {
            command: command@,
            explanation: explanation@,
            dry_runs: texts(list@),
        }),
        (ModelPlan::Clarification { question: command, options: list })@
            == (PlanView::Clarification { question: command@, options: texts(list@) }),
        plan_result(Ok(plan)) == Ok::<PlanView, NoPlan>(plan@),
        plan_result(Err(AiError::NoChoices)) == Err::<PlanView, NoPlan>(NoPlan::NoChoices),
        plan_result(Err(AiError::InvalidPlan(command))) == Err::<PlanView, NoPlan>(
            NoPlan::Invalid(command@),
        ),
        PlanField::Absent@ is Absent,
        PlanField::Text(command)@ == PlanFieldView::Text(command@),
        PlanField::Texts(list)@ == PlanFieldView::Texts(texts(list@)),
        PlanField::Other@ is Other,
{
}

/// The fields of a plan are seen each in its place.
pub proof fn fields_are_seen_in_their_places(fields: PlanFields)
    ensures
        fields@.kind == fields.kind@,
        fields@.command == fields.command@,
        fields@.explanation == fields.explanation@,
        fields@.dry_runs == fields.dry_runs@,
        fields@.question == fields.question@,
        fields@.options == fields.options@,
{
}

/// An array is read by what its elements say, in order, as long as `serde_json` takes it for a
/// value.
pub proof fn arrays_are_read_by_their_elements(text: Seq<char>, elements: Seq<Seq<char>>)
    requires
        json_value(crate::json::bare(text)),
        elements_of(text) == Some(elements),
    ensures
        listed_fields(elements.map_values(|e: Seq<char>| value_of(e))) matches Some(f)
            ==> plan_of(text) == plan_from(f),
        listed_fields(elements.map_values(|e: Seq<char>| value_of(e))) is None ==> plan_of(text)
            is None,
{
}

/// What is listed is taken for the fields in order: after the kind, a command, its explanation and
/// its dry runs, or a question and its options.
pub proof fn listed_values_are_fields_in_order(values: Seq<PlanFieldView>)
    ensures
        values.len() == 3 && values[0] == PlanFieldView::Text("command"@) ==> (listed_fields(values)
            matches Some(f) && f.kind == values[0] && f.command == values[1] && f.explanation
            == values[2] && f.dry_runs is Absent),
        values.len() == 4 && values[0] == PlanFieldView::Text("command"@) ==> (listed_fields(values)
            matches Some(f) && f.kind == values[0] && f.command == values[1] && f.explanation
            == values[2] && f.dry_runs == values[3]),
        values.len() == 3 && values[0] != PlanFieldView::Text("command"@) ==> (listed_fields(values)
            matches Some(f) && f.kind == values[0] && f.question == values[1] && f.options
            == values[2]),
{
}

} // verus!
