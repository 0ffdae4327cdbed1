//! The plan that the model answers with.
use vstd::prelude::*;
use crate::chat::{ChatResponse, MessageView};
use crate::error::AiError;
use crate::json::{
    array_text, bare, elements_of, field_of, is_value, json_string, json_value, member_views,
    members_of, object_text, quoted, read_elements, read_field, read_members, read_string,
    read_strings, reads_back, strings_of, strip_space, Coding, Field, FieldView, Member, MemberView,
};
use crate::json_laws::{
    lemma_bare_is_trimmed, lemma_object_has_no_elements, lemma_object_reads_back,
    lemma_quoted_is_whole, lemma_string_has_no_elements, lemma_strings_read_back,
    members_may_change_places, other_members_do_not_count, whole,
};
use crate::text::{
    begins_with, blank, ends_with, lemma_trimmed_keeps_first, padding_is_trimmed, same_text,
    strip_prefix, strip_suffix, texts, trim, trimmed, trimmed_start, trimming_twice_is_trimming,
};

verus! {

/// What the model proposes: a command with an explanation and previews, or a question.
#[derive(Debug, PartialEq)]
pub enum ModelPlan {
    Command { command: String, explanation: String, dry_runs: Vec<String> },
    Clarification { question: String, options: Vec<String> },
}

/// What a plan says.
pub enum PlanView {
    Command { command: Seq<char>, explanation: Seq<char>, dry_runs: Seq<Seq<char>> },
    Clarification { question: Seq<char>, options: Seq<Seq<char>> },
}

impl View for ModelPlan {
    type V = PlanView;

    open spec fn view(&self) -> PlanView {
        match self {
            ModelPlan::Command { command, explanation, dry_runs } => PlanView::Command {
                command: command@,
                explanation: explanation@,
                dry_runs: texts(dry_runs@),
            },
            ModelPlan::Clarification { question, options } => PlanView::Clarification {
                question: question@,
                options: texts(options@),
            },
        }
    }
}

/// What was read for one field of a plan: nothing, a string, a list of strings, or something else,
/// such as a field that is repeated.
pub enum PlanField {
    Absent,
    Text(String),
    Texts(Vec<String>),
    Other,
}

/// What a field of a plan says.
pub enum PlanFieldView {
    Absent,
    Text(Seq<char>),
    Texts(Seq<Seq<char>>),
    Other,
}

impl View for PlanField {
    type V = PlanFieldView;

    open spec fn view(&self) -> PlanFieldView {
        match self {
            PlanField::Absent => PlanFieldView::Absent,
            PlanField::Text(s) => PlanFieldView::Text(s@),
            PlanField::Texts(list) => PlanFieldView::Texts(texts(list@)),
            PlanField::Other => PlanFieldView::Other,
        }
    }
}

/// The fields that a plan can have.
pub struct PlanFields {
    pub kind: PlanField,
    pub command: PlanField,
    pub explanation: PlanField,
    pub dry_runs: PlanField,
    pub question: PlanField,
    pub options: PlanField,
}

/// What the fields of a plan say.
pub struct PlanFieldsView {
    pub kind: PlanFieldView,
    pub command: PlanFieldView,
    pub explanation: PlanFieldView,
    pub dry_runs: PlanFieldView,
    pub question: PlanFieldView,
    pub options: PlanFieldView,
}

impl View for PlanFields {
    type V = PlanFieldsView;

    open spec fn view(&self) -> PlanFieldsView {
        PlanFieldsView {
            kind: self.kind@,
            command: self.command@,
            explanation: self.explanation@,
            dry_runs: self.dry_runs@,
            question: self.question@,
            options: self.options@,
        }
    }
}

/// The plan that fields make up. A command may come without dry runs; nothing else may be missing.
pub open spec fn plan_from(fields: PlanFieldsView) -> Option<PlanView> {
    if fields.kind == PlanFieldView::Text("command"@) {
        match (fields.command, fields.explanation, fields.dry_runs) {
            (
                PlanFieldView::Text(command),
                PlanFieldView::Text(explanation),
                PlanFieldView::Texts(dry_runs),
            ) => Some(PlanView::Command { command, explanation, dry_runs }),
            (
                PlanFieldView::Text(command),
                PlanFieldView::Text(explanation),
                PlanFieldView::Absent,
            ) => Some(PlanView::Command { command, explanation, dry_runs: Seq::empty() }),
            _ => None,
        }
    } else if fields.kind == PlanFieldView::Text("clarification"@) {
        match (fields.question, fields.options) {
            (PlanFieldView::Text(question), PlanFieldView::Texts(options)) => Some(
                PlanView::Clarification { question, options },
            ),
            _ => None,
        }
    } else {
        None
    }
}

/// The fields of a plan that is given as a list: first its kind, then its fields in order.
pub open spec fn listed_fields(values: Seq<PlanFieldView>) -> Option<PlanFieldsView> {
    let none = PlanFieldsView {
        kind: PlanFieldView::Absent,
        command: PlanFieldView::Absent,
        explanation: PlanFieldView::Absent,
        dry_runs: PlanFieldView::Absent,
        question: PlanFieldView::Absent,
        options: PlanFieldView::Absent,
    };
    if values.len() == 0 {
        None
    } else if values[0] == PlanFieldView::Text("command"@) {
        if values.len() == 3 {
            Some(
                PlanFieldsView {
                    kind: values[0],
                    command: values[1],
                    explanation: values[2],
                    ..none
                },
            )
        } else if values.len() == 4 {
            Some(
                PlanFieldsView {
                    kind: values[0],
                    command: values[1],
                    explanation: values[2],
                    dry_runs: values[3],
                    ..none
                },
            )
        } else {
            None
        }
    } else if values.len() == 3 {
        Some(
            PlanFieldsView {
                kind: values[0],
                question: values[1],
                options: values[2],
                ..none
            },
        )
    } else {
        None
    }
}

/// What a JSON value says for a plan.
pub open spec fn value_of(text: Seq<char>) -> PlanFieldView {
    match (strings_of(text), json_string(text)) {
        (Some(list), _) => PlanFieldView::Texts(list),
        (None, Some(s)) => PlanFieldView::Text(s),
        (None, None) => PlanFieldView::Other,
    }
}

/// What the member `name` says for a plan.
pub open spec fn plan_field_of(members: Seq<MemberView>, name: Seq<char>) -> PlanFieldView {
    match field_of(members, name) {
        FieldView::Absent => PlanFieldView::Absent,
        FieldView::Once(value) => value_of(value),
        FieldView::Repeated => PlanFieldView::Other,
    }
}

/// What the members of an object say for a plan.
pub open spec fn plan_fields_of(members: Seq<MemberView>) -> PlanFieldsView {
    PlanFieldsView {
        kind: plan_field_of(members, "type"@),
        command: plan_field_of(members, "command"@),
        explanation: plan_field_of(members, "explanation"@),
        dry_runs: plan_field_of(members, "dry_runs"@),
        question: plan_field_of(members, "question"@),
        options: plan_field_of(members, "options"@),
    }
}

/// The plan that a JSON text holds, as an object or as a list, with at most JSON white space around
/// it.
pub open spec fn plan_of(text: Seq<char>) -> Option<PlanView> {
    if !json_value(bare(text)) {
        None
    } else {
        match (elements_of(text), members_of(Coding::Text, text)) {
            (Some(es), _) => match listed_fields(es.map_values(|e: Seq<char>| value_of(e))) {
                Some(fields) => plan_from(fields),
                None => None,
            },
            (None, Some(ms)) => plan_from(plan_fields_of(ms)),
            (None, None) => None,
        }
    }
}

/// What stands between `opening` and a closing fence.
pub open spec fn fenced(content: Seq<char>, opening: Seq<char>) -> Option<Seq<char>> {
    if begins_with(content, opening) && ends_with(content.skip(opening.len() as int), "```"@) {
        let rest = content.skip(opening.len() as int);
        Some(rest.take(rest.len() - "```"@.len()))
    } else {
        None
    }
}

/// The JSON text in an answer of the model, which may stand in a Markdown fence.
pub open spec fn unfenced(content: Seq<char>) -> Seq<char> {
    match (fenced(content, "```json"@), fenced(content, "```"@)) {
        (Some(body), _) => trimmed(body),
        (None, Some(body)) => trimmed(body),
        (None, None) => trimmed(content),
    }
}

/// Why there is no plan.
pub enum NoPlan {
    /// The response has no choice.
    NoChoices,
    /// This text is not a plan.
    Invalid(Seq<char>),
    /// Something that has nothing to do with plans.
    Other,
}

/// The plan in an answer of the model.
pub open spec fn answer_plan(content: Seq<char>) -> Result<PlanView, NoPlan> {
    match plan_of(unfenced(content)) {
        Some(plan) => Ok(plan),
        None => Err(NoPlan::Invalid(unfenced(content))),
    }
}

/// The plan of a response: that of the first choice.
pub open spec fn response_plan(choices: Seq<MessageView>) -> Result<PlanView, NoPlan> {
    if choices.len() == 0 {
        Err(NoPlan::NoChoices)
    } else {
        answer_plan(trimmed(choices[0].content))
    }
}

/// A plan, or why there is none, seen as what it says.
pub open spec fn plan_result(result: Result<ModelPlan, AiError>) -> Result<PlanView, NoPlan> {
    match result {
        Ok(plan) => Ok(plan@),
        Err(AiError::NoChoices) => Err(NoPlan::NoChoices),
        Err(AiError::InvalidPlan(text)) => Err(NoPlan::Invalid(text@)),
        Err(_) => Err(NoPlan::Other),
    }
}

/// Whether a field is the string `name`.
fn is_text(field: &PlanField, name: &str) -> (b: bool)
    ensures
        b == (field@ == PlanFieldView::Text(name@)),
{
    match field {
        PlanField::Text(s) => same_text(s.as_str(), name),
        _ => false,
    }
}

/// The plan that fields make up.
pub fn plan_from_fields(fields: PlanFields) -> (plan: Option<ModelPlan>)
    ensures
        plan is Some <==> plan_from(fields@) is Some,
        plan matches Some(p) ==> plan_from(fields@) == Some(p@),
{
    if is_text(&fields.kind, "command") {
        match (fields.command, fields.explanation, fields.dry_runs) {
            (PlanField::Text(command), PlanField::Text(explanation), PlanField::Texts(dry_runs)) =>
                Some(ModelPlan::Command { command, explanation, dry_runs }),
            (PlanField::Text(command), PlanField::Text(explanation), PlanField::Absent) => {
                let dry_runs: Vec<String> = Vec::new();
                assert(texts(dry_runs@) == Seq::<Seq<char>>::empty());
                Some(ModelPlan::Command { command, explanation, dry_runs })
            },
            _ => None,
        }
    } else if is_text(&fields.kind, "clarification") {
        match (fields.question, fields.options) {
            (PlanField::Text(question), PlanField::Texts(options)) => Some(
                ModelPlan::Clarification { question, options },
            ),
            _ => None,
        }
    } else {
        None
    }
}

/// What a JSON value says for a plan.
fn read_value(text: &str) -> (field: PlanField)
    ensures
        field@ == value_of(text@),
{
    match read_strings(text) {
        Some(list) => PlanField::Texts(list),
        None => match read_string(text) {
            Some(s) => PlanField::Text(s),
            None => PlanField::Other,
        },
    }
}

/// What the member `name` says for a plan.
fn read_plan_field(members: &Vec<Member>, name: &str) -> (field: PlanField)
    ensures
        field@ == plan_field_of(member_views(members@), name@),
{
    match read_field(members, name) {
        Field::Absent => PlanField::Absent,
        Field::Once(value) => read_value(value.as_str()),
        Field::Repeated => PlanField::Other,
    }
}

/// The fields of a plan that is given as a list of JSON values.
fn read_listed_fields(list: &Vec<String>) -> (fields: Option<PlanFields>)
    ensures
        fields is Some <==> listed_fields(
            texts(list@).map_values(|e: Seq<char>| value_of(e)),
        ) is Some,
        fields matches Some(f) ==> listed_fields(
            texts(list@).map_values(|e: Seq<char>| value_of(e)),
        ) == Some(f@),
{
    let ghost values = texts(list@).map_values(|e: Seq<char>| value_of(e));
    assert(forall|i: int| 0 <= i < list@.len() ==> values[i] == value_of(#[trigger] list@[i]@));
    if list.len() == 0 {
        return None;
    }
    let kind = read_value(list[0].as_str());
    if is_text(&kind, "command") {
        if list.len() == 3 || list.len() == 4 {
            let dry_runs = if list.len() == 4 {
                read_value(list[3].as_str())
            } else {
                PlanField::Absent
            };
            return Some(
                PlanFields {
                    kind,
                    command: read_value(list[1].as_str()),
                    explanation: read_value(list[2].as_str()),
                    dry_runs,
                    question: PlanField::Absent,
                    options: PlanField::Absent,
                },
            );
        }
        None
    } else if list.len() == 3 {
        Some(
            PlanFields {
                kind,
                command: PlanField::Absent,
                explanation: PlanField::Absent,
                dry_runs: PlanField::Absent,
                question: read_value(list[1].as_str()),
                options: read_value(list[2].as_str()),
            },
        )
    } else {
        None
    }
}

/// The plan that a JSON text holds. A member that is not asked for is skipped; one that is asked
/// for stands once.
pub fn read_plan(text: &str) -> (plan: Option<ModelPlan>)
    ensures
        plan is Some <==> plan_of(text@) is Some,
        plan matches Some(p) ==> plan_of(text@) == Some(p@),
{
    if !is_value(strip_space(text)) {
        return None;
    }
    match read_elements(text) {
        Some(list) => match read_listed_fields(&list) {
            Some(fields) => plan_from_fields(fields),
            None => None,
        },
        None => match read_members(Coding::Text, text) {
            Some(members) => plan_from_fields(
                PlanFields {
                    kind: read_plan_field(&members, "type"),
                    command: read_plan_field(&members, "command"),
                    explanation: read_plan_field(&members, "explanation"),
                    dry_runs: read_plan_field(&members, "dry_runs"),
                    question: read_plan_field(&members, "question"),
                    options: read_plan_field(&members, "options"),
                },
            ),
            None => None,
        },
    }
}

/// What stands between `opening` and a closing fence.
fn strip_fence<'a>(content: &'a str, opening: &str) -> (body: Option<&'a str>)
    ensures
        body is Some <==> fenced(content@, opening@) is Some,
        body matches Some(t) ==> fenced(content@, opening@) == Some(t@),
{
    match strip_prefix(content, opening) {
        Some(rest) => strip_suffix(rest, "```"),
        None => None,
    }
}

/// Reads the plan in an answer of the model.
pub fn parse_model_plan(content: &str) -> (plan: Result<ModelPlan, AiError>)
    ensures
        plan_result(plan) == answer_plan(content@),
        plan_of(unfenced(content@)) matches Some(p) ==> (plan matches Ok(read) && read@ == p),
        plan_of(unfenced(content@)) is None ==> (plan matches Err(AiError::InvalidPlan(text))
            && text@ == unfenced(content@)),
{
    let body = match strip_fence(content, "```json") {
        Some(body) => body,
        None => match strip_fence(content, "```") {
            Some(body) => body,
            None => content,
        },
    };
    let json = trim(body);
    match read_plan(json) {
        Some(plan) => Ok(plan),
        None => Err(AiError::InvalidPlan(json.to_string())),
    }
}

/// Reads the plan in a response of the chat API.
pub fn plan_from_response(response: &ChatResponse) -> (plan: Result<ModelPlan, AiError>)
    ensures
        plan_result(plan) == response_plan(response@),
        response.choices@.len() == 0 ==> plan == Err::<ModelPlan, AiError>(AiError::NoChoices),
        response.choices@.len() > 0 ==> match plan_of(
            unfenced(trimmed(response.choices@[0].message.content@)),
        ) {
            Some(p) => plan matches Ok(read) && read@ == p,
            None => plan is Err,
        },
{
    if response.choices.len() == 0 {
        return Err(AiError::NoChoices);
    }
    parse_model_plan(trim(response.choices[0].message.content.as_str()))
}

// ---------------------------------------------------------------------------------------------
// Laws
// ---------------------------------------------------------------------------------------------

/// The order of the members of a plan does not matter.
pub proof fn plan_members_may_change_places(
    a: Seq<MemberView>,
    b: Seq<MemberView>,
    c: Seq<MemberView>,
    d: Seq<MemberView>,
)
    ensures
        plan_from(plan_fields_of(a + b + c + d)) == plan_from(plan_fields_of(a + c + b + d)),
{
    members_may_change_places(a, b, c, d, "type"@);
    members_may_change_places(a, b, c, d, "command"@);
    members_may_change_places(a, b, c, d, "explanation"@);
    members_may_change_places(a, b, c, d, "dry_runs"@);
    members_may_change_places(a, b, c, d, "question"@);
    members_may_change_places(a, b, c, d, "options"@);
}

/// A member that plans do not have does not matter.
pub proof fn unknown_members_are_skipped(a: Seq<MemberView>, m: MemberView, b: Seq<MemberView>)
    requires
        m.name != "type"@,
        m.name != "command"@,
        m.name != "explanation"@,
        m.name != "dry_runs"@,
        m.name != "question"@,
        m.name != "options"@,
    ensures
        plan_from(plan_fields_of(a + seq![m] + b)) == plan_from(plan_fields_of(a + b)),
{
    other_members_do_not_count(a, m, b, "type"@);
    other_members_do_not_count(a, m, b, "command"@);
    other_members_do_not_count(a, m, b, "explanation"@);
    other_members_do_not_count(a, m, b, "dry_runs"@);
    other_members_do_not_count(a, m, b, "question"@);
    other_members_do_not_count(a, m, b, "options"@);
}

/// A plan whose kind, command or explanation is given twice is refused, and so is a question that
/// is asked twice.
pub proof fn repeated_members_are_refused(members: Seq<MemberView>)
    ensures
        field_of(members, "type"@) is Repeated ==> plan_from(plan_fields_of(members)) is None,
        (field_of(members, "command"@) is Repeated || field_of(members, "explanation"@) is Repeated
            || field_of(members, "dry_runs"@) is Repeated) ==> !(plan_from(
            plan_fields_of(members),
        ) matches Some(PlanView::Command { .. })),
        (field_of(members, "question"@) is Repeated || field_of(members, "options"@) is Repeated)
            ==> !(plan_from(plan_fields_of(members)) matches Some(PlanView::Clarification { .. })),
{
}

/// Only the first choice of a response counts.
pub proof fn the_first_choice_counts(first: MessageView, others: Seq<MessageView>)
    ensures
        response_plan(seq![first] + others) == response_plan(seq![first]),
{
    assert((seq![first] + others)[0] == first);
}

/// What a fence encloses is found in it.
pub(crate) proof fn lemma_fenced(opening: Seq<char>, body: Seq<char>)
    ensures
        fenced(opening + body + "```"@, opening) == Some(body),
{
    let content = opening + body + "```"@;
    let rest = content.skip(opening.len() as int);
    assert(content.take(opening.len() as int) == opening);
    assert(rest == body + "```"@);
    assert(rest.skip(rest.len() - "```"@.len()) == "```"@);
    assert(rest.take(rest.len() - "```"@.len()) == body);
}

/// What begins with no fence is in none.
pub(crate) proof fn lemma_unfenced(content: Seq<char>)
    requires
        !begins_with(content, "```"@),
    ensures
        unfenced(content) == trimmed(content),
{
    reveal_strlit("```");
    reveal_strlit("```json");
    if begins_with(content, "```json"@) {
        assert(content.take(3) =~= content.take(7).take(3));
        assert("```json"@.take(3) =~= "```"@);
    }
}

/// An answer reads the same in a Markdown fence, with or without a language, as bare.
pub proof fn a_fence_changes_nothing(body: Seq<char>)
    requires
        !begins_with(body, "```"@),
    ensures
        unfenced("```json"@ + body + "```"@) == unfenced(body),
        !begins_with(body, "json"@) ==> unfenced("```"@ + body + "```"@) == unfenced(body),
{
    lemma_unfenced(body);
    lemma_fenced("```json"@, body);
    lemma_fenced("```"@, body);
    reveal_strlit("```");
    reveal_strlit("```json");
    reveal_strlit("json");
    let content = "```"@ + body + "```"@;
    if begins_with(content, "```json"@) {
        let head = content.take(7);
        assert(head[3] == 'j' && head[4] == 's' && head[5] == 'o' && head[6] == 'n');
        assert(content[3] == 'j' && content[4] == 's' && content[5] == 'o' && content[6] == 'n');
        assert(body.len() >= 4) by {
            if body.len() < 4 {
                assert(content[3 + body.len() as int] == '`');
            }
        }
        assert(body.take(4) =~= "json"@);
    }
}

/// An answer reads the same in a fence with blank text around it as bare.
pub proof fn fenced_and_padded_answers_read_alike(
    role: Seq<char>,
    before: Seq<char>,
    body: Seq<char>,
    after: Seq<char>,
)
    requires
        blank(before),
        blank(after),
        !begins_with(trimmed(body), "```"@),
    ensures
        response_plan(
            seq![MessageView { role, content: before + ("```json"@ + body + "```"@) + after }],
        ) == response_plan(seq![MessageView { role, content: body }]),
{
    let fence = "```json"@ + body + "```"@;
    padding_is_trimmed(before, fence, after);
    reveal_strlit("```");
    reveal_strlit("```json");
    assert(fence.first() == '`');
    assert(fence.last() == '`');
    assert(trimmed(fence) == fence);
    lemma_fenced("```json"@, body);
    lemma_unfenced(trimmed(body));
    trimming_twice_is_trimming(body);
}

/// Only what is enclosed in brackets or braces, but for JSON white space, holds a plan.
proof fn lemma_plan_is_enclosed(text: Seq<char>)
    requires
        plan_of(text) is Some,
    ensures
        bare(text).len() >= 2,
        bare(text).first() == '{' || bare(text).first() == '[',
        bare(text).last() == '}' || bare(text).last() == ']',
        trimmed(text) == bare(text),
        plan_of(trimmed(text)) == plan_of(text),
        text.last() != '`',
        text.len() > 0,
        text.first() != '`',
        text.first() != 'j',
{
    let t = bare(text);
    lemma_bare_is_trimmed(text);
    assert(bare(t) == t);
}

/// A text without a fence that closes holds no plan, if it begins with a fence.
proof fn lemma_open_fence(content: Seq<char>)
    requires
        content.len() > 0,
        content.first() == '`',
        content.last() != '`',
    ensures
        plan_of(unfenced(content)) is None,
{
    reveal_strlit("```");
    if fenced(content, "```json"@) is Some {
        let rest = content.skip("```json"@.len() as int);
        assert(rest.skip(rest.len() - 3)[2] == '`');
    }
    if fenced(content, "```"@) is Some {
        let rest = content.skip(3);
        assert(rest.skip(rest.len() - 3)[2] == '`');
    }
    let t = trimmed(content);
    assert(trimmed_start(content) == content);
    if plan_of(t) is Some {
        lemma_trimmed_keeps_first(content);
        lemma_plan_is_enclosed(t);
    }
}

/// Whatever JSON text holds a plan, with whatever JSON white space around it, the same plan is read
/// from it as it stands and between two fences, and none is read where the closing fence is left
/// off.
pub proof fn plans_read_alike_in_fences(json: Seq<char>, plan: PlanView)
    requires
        plan_of(json) == Some(plan),
    ensures
        plan_of(unfenced(json)) == Some(plan),
        plan_of(unfenced("```json\n"@ + json + "\n```"@)) == Some(plan),
        plan_of(unfenced("```\n"@ + json + "\n```"@)) == Some(plan),
        plan_of(unfenced("```json\n"@ + json)) is None,
        plan_of(unfenced("```\n"@ + json)) is None,
{
    lemma_plan_is_enclosed(json);
    reveal_strlit("```");
    reveal_strlit("```json");
    reveal_strlit("```json\n");
    reveal_strlit("```\n");
    reveal_strlit("\n```");
    assert(!begins_with(json, "```"@)) by {
        if begins_with(json, "```"@) {
            assert(json.take(3)[0] == '`');
        }
    }
    lemma_unfenced(json);
    let body = seq!['\n'] + json + seq!['\n'];
    padding_is_trimmed(seq!['\n'], json, seq!['\n']);
    assert("```json\n"@ + json + "\n```"@ == "```json"@ + body + "```"@);
    lemma_fenced("```json"@, body);
    let content = "```\n"@ + json + "\n```"@;
    assert(content == "```"@ + body + "```"@);
    lemma_fenced("```"@, body);
    if begins_with(content, "```json"@) {
        assert(content.take(7)[3] == 'j');
        assert(content[3] == '\n');
    }
    lemma_open_fence("```json\n"@ + json);
    lemma_open_fence("```\n"@ + json);
}

/// The JSON text of a plan, as the model is told to write it.
pub open spec fn plan_text(plan: PlanView) -> Seq<char> {
    object_text(plan_members(plan))
}

/// The members of the JSON text of a plan.
pub open spec fn plan_members(plan: PlanView) -> Seq<MemberView> {
    match plan {
        PlanView::Command { command, explanation, dry_runs } => seq![
            MemberView { name: "type"@, value: quoted("command"@) },
            MemberView { name: "command"@, value: quoted(command) },
            MemberView { name: "explanation"@, value: quoted(explanation) },
            MemberView {
                name: "dry_runs"@,
                value: array_text(dry_runs.map_values(|s: Seq<char>| quoted(s))),
            },
        ],
        PlanView::Clarification { question, options } => seq![
            MemberView { name: "type"@, value: quoted("clarification"@) },
            MemberView { name: "question"@, value: quoted(question) },
            MemberView {
                name: "options"@,
                value: array_text(options.map_values(|s: Seq<char>| quoted(s))),
            },
        ],
    }
}

/// `serde_json` reads every string in the JSON text of a plan as what it was written from.
pub open spec fn plan_strings_read_back(plan: PlanView) -> bool {
    &&& forall|i: int|
        0 <= i < plan_members(plan).len() ==> reads_back((#[trigger] plan_members(plan)[i]).name)
    &&& match plan {
        PlanView::Command { command, explanation, dry_runs } => {
            &&& reads_back("command"@)
            &&& reads_back(command)
            &&& reads_back(explanation)
            &&& forall|i: int| 0 <= i < dry_runs.len() ==> reads_back(#[trigger] dry_runs[i])
        },
        PlanView::Clarification { question, options } => {
            &&& reads_back("clarification"@)
            &&& reads_back(question)
            &&& forall|i: int| 0 <= i < options.len() ==> reads_back(#[trigger] options[i])
        },
    }
}

/// The only member of its name is found wherever it stands.
proof fn lemma_only_member(members: Seq<MemberView>, i: int)
    requires
        0 <= i < members.len(),
        forall|j: int|
            0 <= j < members.len() && j != i ==> (#[trigger] members[j]).name != members[i].name,
    ensures
        field_of(members, members[i].name) == FieldView::Once(members[i].value),
    decreases members.len(),
{
    let d = members.drop_last();
    if i < d.len() {
        assert(members[members.len() - 1].name != members[i].name);
        assert forall|j: int| 0 <= j < d.len() && j != i implies (#[trigger] d[j]).name
            != d[i].name by {
            assert(d[j] == members[j]);
        }
        lemma_only_member(d, i);
    } else {
        assert forall|j: int| 0 <= j < d.len() implies (#[trigger] d[j]).name
            != members[i].name by {
            assert(d[j] == members[j]);
        }
        lemma_no_member(d, members[i].name);
    }
}

/// A name that no member has is not found.
proof fn lemma_no_member(members: Seq<MemberView>, name: Seq<char>)
    requires
        forall|j: int| 0 <= j < members.len() ==> (#[trigger] members[j]).name != name,
    ensures
        field_of(members, name) is Absent,
    decreases members.len(),
{
    if members.len() > 0 {
        assert(members[members.len() - 1].name != name);
        lemma_no_member(members.drop_last(), name);
    }
}

/// Whatever plan the model writes as it is told to, with whatever strings, is read as that plan.
pub proof fn plans_are_read_as_written(plan: PlanView)
    requires
        json_value(plan_text(plan)),
        plan_strings_read_back(plan),
    ensures
        plan_of(plan_text(plan)) == Some(plan),
{
    let ms = plan_members(plan);
    reveal_strlit("type");
    reveal_strlit("command");
    reveal_strlit("explanation");
    reveal_strlit("dry_runs");
    reveal_strlit("clarification");
    reveal_strlit("question");
    reveal_strlit("options");
    assert forall|i: int| 0 <= i < ms.len() implies reads_back((#[trigger] ms[i]).name) && whole(
        ms[i].value,
    ) by {
        match plan {
            PlanView::Command { command, explanation, dry_runs } => {
                lemma_quoted_is_whole("command"@);
                lemma_quoted_is_whole(command);
                lemma_quoted_is_whole(explanation);
                lemma_strings_read_back(dry_runs);
            },
            PlanView::Clarification { question, options } => {
                lemma_quoted_is_whole("clarification"@);
                lemma_quoted_is_whole(question);
                lemma_strings_read_back(options);
            },
        }
    }
    lemma_object_reads_back(ms);
    lemma_object_has_no_elements(ms);
    lemma_only_member(ms, 0);
    lemma_only_member(ms, 1);
    lemma_only_member(ms, 2);
    match plan {
        PlanView::Command { command, explanation, dry_runs } => {
            lemma_only_member(ms, 3);
            lemma_string_has_no_elements("command"@);
            lemma_string_has_no_elements(command);
            lemma_string_has_no_elements(explanation);
            lemma_strings_read_back(dry_runs);
        },
        PlanView::Clarification { question, options } => {
            lemma_string_has_no_elements("clarification"@);
            lemma_string_has_no_elements(question);
            lemma_strings_read_back(options);
        },
    }
}

} // verus!
