//! What is read from replies, and what is written into requests.
use vstd::prelude::*;
use crate::bytes::byte_text;
use crate::chat::{
    choice_of, choices_in, choices_of, lemma_message_reads_back, lemma_response_reads_back,
    message_of, message_reads_back, message_text, reply_of, request_members, request_text,
    response_in, response_of, response_text, ChatMessage, ChatRequest, ChatResponse, MessageView,
    RequestView,
};
use crate::json::{
    array_text, coded_string, elements_of, field_of, members_of, quoted, reads_back, skippable,
    string_field, Coding, FieldView, Member, MemberView,
};
use crate::json_laws::{
    lemma_array_reads_back, lemma_object_reads_back, lemma_quoted_is_whole,
    members_are_found_by_their_names, whole,
};
use crate::text::optional_text;

verus! {

/// A string is read from the only member of its name, and from no other.
pub proof fn strings_are_read_from_their_member(
    coding: Coding,
    members: Seq<MemberView>,
    name: Seq<char>,
    value: Seq<char>,
)
    ensures
        field_of(members, name) == FieldView::Once(value) ==> string_field(coding, members, name)
            == coded_string(coding, value),
        !(field_of(members, name) is Once) ==> string_field(coding, members, name) is None,
{
}

/// A message that is written as an object has the role and the content that its members say, where
/// every other member may be skipped, whether it is text or bytes; and nothing else is such a
/// message.
pub proof fn messages_are_read_by_their_members(
    coding: Coding,
    text: Seq<char>,
    members: Seq<MemberView>,
    m: MessageView,
)
    requires
        elements_of(text) is None,
        members_of(coding, text) == Some(members),
    ensures
        message_of(coding, text) == Some(m) <==> {
            &&& string_field(coding, members, "role"@) == Some(m.role)
            &&& string_field(coding, members, "content"@) == Some(m.content)
            &&& forall|i: int|
                0 <= i < members.len() && (#[trigger] members[i]).name != "role"@ && members[i].name
                    != "content"@ ==> skippable(coding, members[i].value)
        },
{
}

/// A choice that is written as an object has the message that its member says, where every other
/// member may be skipped; and nothing else is such a choice.
pub proof fn choices_are_read_by_their_members(
    coding: Coding,
    text: Seq<char>,
    members: Seq<MemberView>,
    m: MessageView,
)
    requires
        elements_of(text) is None,
        members_of(coding, text) == Some(members),
    ensures
        choice_of(coding, text) == Some(m) <==> {
            &&& field_of(members, "message"@) is Once
            &&& message_of(coding, field_of(members, "message"@)->Once_0) == Some(m)
            &&& forall|i: int|
                0 <= i < members.len() && (#[trigger] members[i]).name != "message"@ ==> skippable(
                    coding,
                    members[i].value,
                )
        },
{
}

/// A response that is written as an object has the choices that its member says, where every other
/// member may be skipped; and nothing else is such a response.
pub proof fn responses_are_read_by_their_members(
    coding: Coding,
    text: Seq<char>,
    members: Seq<MemberView>,
    choices: Seq<MessageView>,
)
    requires
        elements_of(text) is None,
        members_of(coding, text) == Some(members),
    ensures
        response_in(coding, text) == Some(choices) <==> {
            &&& field_of(members, "choices"@) is Once
            &&& choices_of(coding, field_of(members, "choices"@)->Once_0) == Some(choices)
            &&& forall|i: int|
                0 <= i < members.len() && (#[trigger] members[i]).name != "choices"@ ==> skippable(
                    coding,
                    members[i].value,
                )
        },
{
}

/// Messages, choices and responses may also be written as arrays, of exactly what their objects
/// hold.
pub proof fn arrays_hold_the_same_in_order(
    coding: Coding,
    text: Seq<char>,
    elements: Seq<Seq<char>>,
    m: MessageView,
    choices: Seq<MessageView>,
)
    requires
        elements_of(text) == Some(elements),
    ensures
        message_of(coding, text) == Some(m) <==> elements.len() == 2 && coded_string(
            coding,
            elements[0],
        ) == Some(m.role) && coded_string(coding, elements[1]) == Some(m.content),
        choice_of(coding, text) == Some(m) <==> elements.len() == 1 && message_of(
            coding,
            elements[0],
        ) == Some(m),
        response_in(coding, text) == Some(choices) <==> elements.len() == 1 && choices_of(
            coding,
            elements[0],
        ) == Some(choices),
{
}

/// What is neither an object nor an array is no message, no choice and no response, and what is no
/// array is no list of choices.
pub proof fn nothing_else_is_read(coding: Coding, text: Seq<char>)
    requires
        elements_of(text) is None,
    ensures
        choices_of(coding, text) is None,
        members_of(coding, text) is None ==> message_of(coding, text) is None && choice_of(
            coding,
            text,
        ) is None && response_in(coding, text) is None,
{
}

/// A list of choices has all of them, in order: each element is one, and none is left out.
pub proof fn choices_are_read_one_by_one(
    coding: Coding,
    text: Seq<char>,
    elements: Seq<Seq<char>>,
    choices: Seq<MessageView>,
)
    requires
        elements_of(text) == Some(elements),
    ensures
        choices_of(coding, text) == Some(choices) <==> elements.len() == choices.len() && forall|
            i: int,
        |
            0 <= i < elements.len() ==> choice_of(coding, #[trigger] elements[i]) == Some(
                choices[i],
            ),
{
    lemma_choices_one_by_one(coding, elements, choices);
}

proof fn lemma_choices_one_by_one(
    coding: Coding,
    parts: Seq<Seq<char>>,
    choices: Seq<MessageView>,
)
    ensures
        choices_in(coding, parts) == Some(choices) <==> parts.len() == choices.len() && forall|
            i: int,
        |
            0 <= i < parts.len() ==> choice_of(coding, #[trigger] parts[i]) == Some(choices[i]),
    decreases parts.len(),
{
    if parts.len() > 0 {
        let d = parts.drop_last();
        let one_by_one = parts.len() == choices.len() && forall|i: int|
            0 <= i < parts.len() ==> choice_of(coding, #[trigger] parts[i]) == Some(choices[i]);
        if choices.len() > 0 {
            let e = choices.drop_last();
            lemma_choices_one_by_one(coding, d, e);
            assert(e.push(choices.last()) == choices);
            if one_by_one {
                assert(choice_of(coding, parts[parts.len() - 1]) == Some(choices.last()));
                assert forall|i: int| 0 <= i < d.len() implies choice_of(coding, #[trigger] d[i])
                    == Some(e[i]) by {
                    assert(d[i] == parts[i]);
                }
            }
            if choices_in(coding, parts) == Some(choices) {
                let cs = choices_in(coding, d)->0;
                assert(cs.push(choice_of(coding, parts.last())->0) == choices);
                assert(cs == e);
                assert(choice_of(coding, parts.last())->0 == choices.last());
                assert forall|i: int| 0 <= i < parts.len() implies choice_of(
                    coding,
                    #[trigger] parts[i],
                ) == Some(choices[i]) by {
                    if i < d.len() {
                        assert(d[i] == parts[i]);
                    }
                }
            }
        }
    } else {
        if choices.len() == 0 {
            assert(choices == Seq::<MessageView>::empty());
        }
    }
}

/// The bytes of a text are read as the text is, and bytes that are no text by what stands in them
/// byte by byte.
pub proof fn replies_are_read_as_their_text(text: Seq<char>, bytes: Seq<u8>)
    ensures
        reply_of(vstd::utf8::encode_utf8(text)) == response_of(text),
        response_of(text) == response_in(Coding::Text, text),
        !vstd::utf8::valid_utf8(bytes) ==> reply_of(bytes) == response_in(
            Coding::Bytes,
            byte_text(bytes),
        ),
{
    vstd::utf8::encode_utf8_valid_utf8(text);
    vstd::utf8::encode_utf8_decode_utf8(text);
}

/// A response is read back from its JSON text with every choice, and each choice with its role and
/// its content.
pub proof fn responses_come_back(choices: Seq<MessageView>)
    requires
        reads_back("choices"@),
        reads_back("message"@),
        forall|i: int| 0 <= i < choices.len() ==> message_reads_back(#[trigger] choices[i]),
    ensures
        response_of(response_text(choices)) == Some(choices),
{
    lemma_response_reads_back(choices);
}

/// Every string in a request reads back, and its temperature can stand as a value.
pub open spec fn request_reads_back(r: RequestView) -> bool {
    &&& reads_back("model"@)
    &&& reads_back("messages"@)
    &&& reads_back("temperature"@)
    &&& reads_back(r.model)
    &&& r.temperature matches Some(number) ==> whole(number)
    &&& forall|i: int| 0 <= i < r.messages.len() ==> message_reads_back(#[trigger] r.messages[i])
}

/// The JSON text of a request holds the model, every message in order, and the temperature where
/// there is one: whoever reads it finds these, and nothing else.
pub proof fn requests_come_back(r: RequestView) -> (members: Seq<MemberView>)
    requires
        request_reads_back(r),
    ensures
        members_of(Coding::Text, request_text(r)) == Some(members),
        string_field(Coding::Text, members, "model"@) == Some(r.model),
        field_of(members, "messages"@) is Once,
        elements_of(field_of(members, "messages"@)->Once_0) matches Some(es) && es.len()
            == r.messages.len() && forall|i: int|
            0 <= i < es.len() ==> message_of(Coding::Text, #[trigger] es[i]) == Some(r.messages[i]),
        r.temperature matches Some(number) ==> field_of(members, "temperature"@)
            == FieldView::Once(number) && members.len() == 3,
        r.temperature is None ==> field_of(members, "temperature"@) is Absent && members.len() == 2,
{
    let members = request_members(r);
    let es = r.messages.map_values(|m: MessageView| message_text(m));
    assert forall|i: int| 0 <= i < es.len() implies whole(#[trigger] es[i]) && message_of(
        Coding::Text,
        es[i],
    ) == Some(r.messages[i]) by {
        assert(message_reads_back(r.messages[i]));
        lemma_message_reads_back(r.messages[i]);
    }
    lemma_array_reads_back(es);
    lemma_quoted_is_whole(r.model);
    reveal_strlit("model");
    reveal_strlit("messages");
    reveal_strlit("temperature");
    assert(members[0].name == "model"@);
    assert(members[1].name == "messages"@);
    assert forall|i: int| 0 <= i < members.len() implies reads_back((#[trigger] members[i]).name)
        && whole(members[i].value) by {
        assert(i == 0 || i == 1 || i == 2);
    }
    lemma_object_reads_back(members);
    assert("model"@.len() == 5 && "messages"@.len() == 8 && "temperature"@.len() == 11);
    members_are_found_by_their_names(members, "model"@, 0, 0);
    members_are_found_by_their_names(members, "messages"@, 1, 1);
    members_are_found_by_their_names(members, "temperature"@, 2, 2);
    assert(members[1].value == array_text(es));
    assert(members[0].value == quoted(r.model));
    members
}

/// Messages, requests, responses and members are seen with all that they hold.
pub proof fn messages_are_seen_whole(
    message: ChatMessage,
    request: ChatRequest,
    response: ChatResponse,
    member: Member,
    i: int,
)
    ensures
        message@.role == message.role@,
        message@.content == message.content@,
        request@.model == request.model@,
        request@.temperature == optional_text(request.temperature),
        request@.messages.len() == request.messages@.len(),
        0 <= i < request.messages@.len() ==> request@.messages[i] == request.messages@[i]@,
        response@.len() == response.choices@.len(),
        0 <= i < response.choices@.len() ==> response@[i] == response.choices@[i].message@,
        member@.name == member.name@,
        member@.value == member.value@,
{
}

} // verus!
