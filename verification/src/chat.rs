//! The messages exchanged with the chat API, and their JSON texts.
use vstd::prelude::*;
use crate::bytes::{byte_text, text_of_bytes};
use crate::json::{
    array_text, coded_string, elements_of, field_of, may_skip, member_views, members_of,
    object_text, quote, quoted, read_coded_string, read_elements, read_field, read_members,
    read_string_field, reads_back, skippable, string_field, write_array, write_object, Coding,
    Field, FieldView, Member, MemberView,
};
use crate::json_laws::{
    lemma_array_reads_back, lemma_object_has_no_elements, lemma_object_reads_back,
    lemma_quoted_is_whole, whole,
};
use crate::text::{optional_text, same_text, texts, utf8_text};

verus! {

/// One message of a conversation with the model.
#[derive(Debug, PartialEq)]
pub struct ChatMessage {
    pub role: String,
    pub content: String,
}

/// One answer that the API offers.
#[derive(Debug, PartialEq)]
pub struct ChatChoice {
    pub message: ChatMessage,
}

/// A reply of the chat API.
#[derive(Debug, PartialEq)]
pub struct ChatResponse {
    pub choices: Vec<ChatChoice>,
}

/// A request to the chat API. The temperature is the text of a JSON number.
#[derive(Debug, PartialEq)]
pub struct ChatRequest {
    pub model: String,
    pub messages: Vec<ChatMessage>,
    pub temperature: Option<String>,
}

/// What a message says.
pub struct MessageView {
    pub role: Seq<char>,
    pub content: Seq<char>,
}

/// What a request asks.
pub struct RequestView {
    pub model: Seq<char>,
    pub messages: Seq<MessageView>,
    pub temperature: Option<Seq<char>>,
}

impl View for ChatMessage {
    type V = MessageView;

    open spec fn view(&self) -> MessageView {
        MessageView { role: self.role@, content: self.content@ }
    }
}

impl View for ChatResponse {
    /// The messages of the choices.
    type V = Seq<MessageView>;

    open spec fn view(&self) -> Seq<MessageView> {
        self.choices@.map_values(|c: ChatChoice| c.message@)
    }
}

impl View for ChatRequest {
    type V = RequestView;

    open spec fn view(&self) -> RequestView {
        RequestView {
            model: self.model@,
            messages: message_views(self.messages@),
            temperature: optional_text(self.temperature),
        }
    }
}

/// What the messages of a list say.
pub open spec fn message_views(list: Seq<ChatMessage>) -> Seq<MessageView> {
    list.map_values(|m: ChatMessage| m@)
}

// ---------------------------------------------------------------------------------------------
// Reading a reply
// ---------------------------------------------------------------------------------------------

/// Every member but those named `a` or `b` may be skipped.
pub open spec fn others_skip(
    coding: Coding,
    members: Seq<MemberView>,
    a: Seq<char>,
    b: Seq<char>,
) -> bool {
    forall|i: int|
        0 <= i < members.len() ==> (#[trigger] members[i]).name == a || members[i].name == b
            || skippable(coding, members[i].value)
}

/// The message that a JSON text holds: an object with one `role` and one `content`, or an array of
/// the two.
pub open spec fn message_of(coding: Coding, text: Seq<char>) -> Option<MessageView> {
    match (elements_of(text), members_of(coding, text)) {
        (Some(es), _) => if es.len() == 2 {
            match (coded_string(coding, es[0]), coded_string(coding, es[1])) {
                (Some(role), Some(content)) => Some(MessageView { role, content }),
                _ => None,
            }
        } else {
            None
        },
        (None, Some(ms)) => if others_skip(coding, ms, "role"@, "content"@) {
            match (string_field(coding, ms, "role"@), string_field(coding, ms, "content"@)) {
                (Some(role), Some(content)) => Some(MessageView { role, content }),
                _ => None,
            }
        } else {
            None
        },
        (None, None) => None,
    }
}

/// The message of the choice that a JSON text holds: an object with one `message`, or an array of
/// it.
pub open spec fn choice_of(coding: Coding, text: Seq<char>) -> Option<MessageView> {
    match (elements_of(text), members_of(coding, text)) {
        (Some(es), _) => if es.len() == 1 {
            message_of(coding, es[0])
        } else {
            None
        },
        (None, Some(ms)) => match field_of(ms, "message"@) {
            FieldView::Once(value) => if others_skip(coding, ms, "message"@, "message"@) {
                message_of(coding, value)
            } else {
                None
            },
            _ => None,
        },
        (None, None) => None,
    }
}

/// The messages of the choices that `parts` hold, where each holds one.
pub open spec fn choices_in(coding: Coding, parts: Seq<Seq<char>>) -> Option<Seq<MessageView>>
    decreases parts.len(),
{
    if parts.len() == 0 {
        Some(Seq::empty())
    } else {
        match (choices_in(coding, parts.drop_last()), choice_of(coding, parts.last())) {
            (Some(cs), Some(c)) => Some(cs.push(c)),
            _ => None,
        }
    }
}

/// The messages of the choices in a JSON array.
pub open spec fn choices_of(coding: Coding, text: Seq<char>) -> Option<Seq<MessageView>> {
    match elements_of(text) {
        Some(parts) => choices_in(coding, parts),
        None => None,
    }
}

/// The response that a JSON text holds: an object with one `choices`, or an array of it.
pub open spec fn response_in(coding: Coding, text: Seq<char>) -> Option<Seq<MessageView>> {
    match (elements_of(text), members_of(coding, text)) {
        (Some(es), _) => if es.len() == 1 {
            choices_of(coding, es[0])
        } else {
            None
        },
        (None, Some(ms)) => match field_of(ms, "choices"@) {
            FieldView::Once(value) => if others_skip(coding, ms, "choices"@, "choices"@) {
                choices_of(coding, value)
            } else {
                None
            },
            _ => None,
        },
        (None, None) => None,
    }
}

/// The response that a JSON text holds.
pub open spec fn response_of(text: Seq<char>) -> Option<Seq<MessageView>> {
    response_in(Coding::Text, text)
}

/// The response that the bytes of a reply hold. Where they are not UTF-8, what is skipped may hold
/// those that are not, and nothing else.
pub open spec fn reply_of(bytes: Seq<u8>) -> Option<Seq<MessageView>> {
    if vstd::utf8::valid_utf8(bytes) {
        response_of(vstd::utf8::decode_utf8(bytes))
    } else {
        response_in(Coding::Bytes, byte_text(bytes))
    }
}

/// Whether every member but those named `a` or `b` may be skipped.
fn skips_others(coding: Coding, members: &Vec<Member>, a: &str, b: &str) -> (all: bool)
    ensures
        all == others_skip(coding, member_views(members@), a@, b@),
{
    let ghost views = member_views(members@);
    let mut i: usize = 0;
    while i < members.len()
        invariant
            i <= members.len(),
            views == member_views(members@),
            forall|k: int|
                0 <= k < i ==> (#[trigger] views[k]).name == a@ || views[k].name == b@
                    || skippable(coding, views[k].value),
        decreases members.len() - i,
    {
        if !same_text(members[i].name.as_str(), a) && !same_text(members[i].name.as_str(), b)
            && !may_skip(coding, members[i].value.as_str()) {
            assert(views[i as int] == members@[i as int]@);
            return false;
        }
        i = i + 1;
    }
    true
}

impl ChatMessage {
    /// Reads a message from its JSON text.
    pub fn parse(coding: Coding, text: &str) -> (message: Option<ChatMessage>)
        ensures
            message is Some <==> message_of(coding, text@) is Some,
            message matches Some(m) ==> message_of(coding, text@) == Some(m@),
    {
        if let Some(es) = read_elements(text) {
            if es.len() != 2 {
                return None;
            }
            assert(elements_of(text@) == Some(texts(es@)));
            return match (
                read_coded_string(coding, es[0].as_str()),
                read_coded_string(coding, es[1].as_str()),
            ) {
                (Some(role), Some(content)) => Some(ChatMessage { role, content }),
                _ => None,
            };
        }
        match read_members(coding, text) {
            Some(ms) => {
                if !skips_others(coding, &ms, "role", "content") {
                    return None;
                }
                match (
                    read_string_field(coding, &ms, "role"),
                    read_string_field(coding, &ms, "content"),
                ) {
                    (Some(role), Some(content)) => Some(ChatMessage { role, content }),
                    _ => None,
                }
            },
            None => None,
        }
    }
}

impl ChatChoice {
    /// Reads a choice from its JSON text.
    pub fn parse(coding: Coding, text: &str) -> (choice: Option<ChatChoice>)
        ensures
            choice is Some <==> choice_of(coding, text@) is Some,
            choice matches Some(c) ==> choice_of(coding, text@) == Some(c.message@),
    {
        let message = match read_elements(text) {
            Some(es) => {
                if es.len() != 1 {
                    return None;
                }
                assert(elements_of(text@) == Some(texts(es@)));
                ChatMessage::parse(coding, es[0].as_str())
            },
            None => match read_members(coding, text) {
                Some(ms) => match read_field(&ms, "message") {
                    Field::Once(value) => if skips_others(coding, &ms, "message", "message") {
                        ChatMessage::parse(coding, value.as_str())
                    } else {
                        None
                    },
                    _ => None,
                },
                None => None,
            },
        };
        match message {
            Some(message) => Some(ChatChoice { message }),
            None => None,
        }
    }
}

/// One part that holds no choice leaves the whole list unread.
proof fn lemma_unreadable_choice(coding: Coding, all: Seq<Seq<char>>, i: int)
    requires
        0 <= i < all.len(),
        choice_of(coding, all[i]) is None,
    ensures
        choices_in(coding, all) is None,
    decreases all.len(),
{
    if i < all.len() - 1 {
        lemma_unreadable_choice(coding, all.drop_last(), i);
    }
}

/// Reads a list of choices from its JSON text.
fn parse_choices(coding: Coding, text: &str) -> (response: Option<ChatResponse>)
    ensures
        response is Some <==> choices_of(coding, text@) is Some,
        response matches Some(r) ==> choices_of(coding, text@) == Some(r@),
{
    let list = match read_elements(text) {
        Some(list) => list,
        None => return None,
    };
    let ghost all = texts(list@);
    let mut response = ChatResponse { choices: Vec::new() };
    let mut i: usize = 0;
    assert(response@ == Seq::<MessageView>::empty());
    while i < list.len()
        invariant
            i <= list.len(),
            all == texts(list@),
            choices_of(coding, text@) == choices_in(coding, all),
            choices_in(coding, all.take(i as int)) == Some(response@),
        decreases list.len() - i,
    {
        let ghost before = response@;
        assert(all.take(i + 1).drop_last() == all.take(i as int));
        match ChatChoice::parse(coding, list[i].as_str()) {
            Some(choice) => {
                response.choices.push(choice);
                assert(response@ == before.push(choice.message@));
            },
            None => {
                proof {
                    lemma_unreadable_choice(coding, all, i as int);
                }
                return None;
            },
        }
        i = i + 1;
    }
    assert(all.take(all.len() as int) == all);
    Some(response)
}

impl ChatResponse {
    /// Reads a response. A member that is not asked for is skipped; one that is asked for stands
    /// exactly once.
    fn parse_coded(coding: Coding, text: &str) -> (response: Option<ChatResponse>)
        ensures
            response is Some <==> response_in(coding, text@) is Some,
            response matches Some(r) ==> response_in(coding, text@) == Some(r@),
    {
        match read_elements(text) {
            Some(es) => {
                if es.len() != 1 {
                    return None;
                }
                assert(elements_of(text@) == Some(texts(es@)));
                parse_choices(coding, es[0].as_str())
            },
            None => match read_members(coding, text) {
                Some(ms) => match read_field(&ms, "choices") {
                    Field::Once(value) => if skips_others(coding, &ms, "choices", "choices") {
                        parse_choices(coding, value.as_str())
                    } else {
                        None
                    },
                    _ => None,
                },
                None => None,
            },
        }
    }

    /// Reads a response from its JSON text.
    pub fn parse(text: &str) -> (response: Option<ChatResponse>)
        ensures
            response is Some <==> response_of(text@) is Some,
            response matches Some(r) ==> response_of(text@) == Some(r@),
    {
        ChatResponse::parse_coded(Coding::Text, text)
    }

    /// Reads a response from the bytes of a reply.
    pub fn parse_reply(bytes: &Vec<u8>) -> (response: Option<ChatResponse>)
        ensures
            response is Some <==> reply_of(bytes@) is Some,
            response matches Some(r) ==> reply_of(bytes@) == Some(r@),
    {
        match utf8_text(bytes.clone()) {
            Some(text) => ChatResponse::parse(text.as_str()),
            None => ChatResponse::parse_coded(Coding::Bytes, text_of_bytes(bytes).as_str()),
        }
    }
}

// ---------------------------------------------------------------------------------------------
// Writing a reply and a request
// ---------------------------------------------------------------------------------------------

/// The JSON text of a message.
pub open spec fn message_text(m: MessageView) -> Seq<char> {
    object_text(
        seq![
            MemberView { name: "role"@, value: quoted(m.role) },
            MemberView { name: "content"@, value: quoted(m.content) },
        ],
    )
}

/// The JSON text of a choice.
pub open spec fn choice_text(m: MessageView) -> Seq<char> {
    object_text(seq![MemberView { name: "message"@, value: message_text(m) }])
}

/// The JSON text of a response.
pub open spec fn response_text(choices: Seq<MessageView>) -> Seq<char> {
    object_text(
        seq![
            MemberView {
                name: "choices"@,
                value: array_text(choices.map_values(|m: MessageView| choice_text(m))),
            },
        ],
    )
}

/// The members that the JSON text of every request has.
pub open spec fn fixed_members(r: RequestView) -> Seq<MemberView> {
    seq![
        MemberView { name: "model"@, value: quoted(r.model) },
        MemberView {
            name: "messages"@,
            value: array_text(r.messages.map_values(|m: MessageView| message_text(m))),
        },
    ]
}

/// The members of the JSON text of a request.
pub open spec fn request_members(r: RequestView) -> Seq<MemberView> {
    match r.temperature {
        Some(number) => fixed_members(r).push(MemberView { name: "temperature"@, value: number }),
        None => fixed_members(r),
    }
}

/// The JSON text of a request.
pub open spec fn request_text(r: RequestView) -> Seq<char> {
    object_text(request_members(r))
}

/// Everything that the JSON text of a message quotes reads back.
pub open spec fn message_reads_back(m: MessageView) -> bool {
    &&& reads_back("role"@)
    &&& reads_back("content"@)
    &&& reads_back(m.role)
    &&& reads_back(m.content)
}

/// A message reads back from its JSON text.
pub(crate) proof fn lemma_message_reads_back(m: MessageView)
    requires
        message_reads_back(m),
    ensures
        message_of(Coding::Text, message_text(m)) == Some(m),
        whole(message_text(m)),
{
    let ms = seq![
        MemberView { name: "role"@, value: quoted(m.role) },
        MemberView { name: "content"@, value: quoted(m.content) },
    ];
    lemma_quoted_is_whole(m.role);
    lemma_quoted_is_whole(m.content);
    lemma_object_reads_back(ms);
    lemma_object_has_no_elements(ms);
    reveal_strlit("role");
    reveal_strlit("content");
    assert("role"@.len() != "content"@.len());
    reveal_with_fuel(field_of, 3);
    assert(ms.drop_last().drop_last() == Seq::<MemberView>::empty());
    assert(ms.drop_last().last() == ms[0]);
    assert(ms.last() == ms[1]);
}

/// A choice reads back from its JSON text.
proof fn lemma_choice_reads_back(m: MessageView)
    requires
        message_reads_back(m),
        reads_back("message"@),
    ensures
        choice_of(Coding::Text, choice_text(m)) == Some(m),
        whole(choice_text(m)),
{
    let ms = seq![MemberView { name: "message"@, value: message_text(m) }];
    lemma_message_reads_back(m);
    lemma_object_reads_back(ms);
    lemma_object_has_no_elements(ms);
    reveal_with_fuel(field_of, 2);
    assert(ms.drop_last() == Seq::<MemberView>::empty());
    assert(ms.last() == ms[0]);
}

proof fn lemma_choices_in(choices: Seq<MessageView>)
    requires
        reads_back("message"@),
        forall|i: int| 0 <= i < choices.len() ==> message_reads_back(#[trigger] choices[i]),
    ensures
        choices_in(Coding::Text, choices.map_values(|m: MessageView| choice_text(m))) == Some(
            choices,
        ),
    decreases choices.len(),
{
    let parts = choices.map_values(|m: MessageView| choice_text(m));
    if choices.len() == 0 {
        assert(choices == Seq::<MessageView>::empty());
    } else {
        let d = choices.drop_last();
        assert forall|i: int| 0 <= i < d.len() implies message_reads_back(#[trigger] d[i]) by {
            assert(d[i] == choices[i]);
        }
        lemma_choices_in(d);
        assert(parts.drop_last() == d.map_values(|m: MessageView| choice_text(m)));
        lemma_choice_reads_back(choices.last());
        assert(d.push(choices.last()) == choices);
    }
}

/// A response reads back from its JSON text.
pub(crate) proof fn lemma_response_reads_back(choices: Seq<MessageView>)
    requires
        reads_back("choices"@),
        choices.len() > 0 ==> reads_back("message"@),
        forall|i: int| 0 <= i < choices.len() ==> message_reads_back(#[trigger] choices[i]),
    ensures
        response_of(response_text(choices)) == Some(choices),
{
    let parts = choices.map_values(|m: MessageView| choice_text(m));
    let ms = seq![MemberView { name: "choices"@, value: array_text(parts) }];
    assert forall|i: int| 0 <= i < parts.len() implies whole(#[trigger] parts[i]) by {
        assert(parts[i] == choice_text(choices[i]));
        lemma_choice_reads_back(choices[i]);
    }
    lemma_array_reads_back(parts);
    if choices.len() > 0 {
        lemma_choices_in(choices);
    } else {
        assert(choices == Seq::<MessageView>::empty());
    }
    lemma_object_reads_back(ms);
    lemma_object_has_no_elements(ms);
    reveal_with_fuel(field_of, 2);
    assert(ms.drop_last() == Seq::<MemberView>::empty());
    assert(ms.last() == ms[0]);
}

impl ChatMessage {
    /// The JSON text of the message.
    pub fn to_json(&self) -> (text: String)
        ensures
            text@ == message_text(self@),
            message_of(Coding::Text, text@) == Some(self@),
            message_reads_back(self@),
    {
        let mut ms: Vec<Member> = Vec::new();
        ms.push(Member { name: "role".to_string(), value: quote(self.role.as_str()) });
        ms.push(Member { name: "content".to_string(), value: quote(self.content.as_str()) });
        assert(member_views(ms@) == seq![
            MemberView { name: "role"@, value: quoted(self@.role) },
            MemberView { name: "content"@, value: quoted(self@.content) },
        ]);
        let text = write_object(&ms);
        proof {
            assert(ms@[0].name@ == "role"@ && ms@[1].name@ == "content"@);
            lemma_message_reads_back(self@);
        }
        text
    }
}

impl ChatChoice {
    /// The JSON text of the choice.
    pub fn to_json(&self) -> (text: String)
        ensures
            text@ == choice_text(self.message@),
            choice_of(Coding::Text, text@) == Some(self.message@),
            message_reads_back(self.message@) && reads_back("message"@),
    {
        let mut ms: Vec<Member> = Vec::new();
        ms.push(Member { name: "message".to_string(), value: self.message.to_json() });
        assert(member_views(ms@) == seq![
            MemberView { name: "message"@, value: message_text(self.message@) },
        ]);
        let text = write_object(&ms);
        proof {
            assert(ms@[0].name@ == "message"@);
            lemma_choice_reads_back(self.message@);
        }
        text
    }
}

impl ChatResponse {
    /// The JSON text of the response, from which `parse` gives the response back.
    pub fn to_json(&self) -> (text: String)
        ensures
            text@ == response_text(self@),
            response_of(text@) == Some(self@),
    {
        let mut list: Vec<String> = Vec::new();
        let mut i: usize = 0;
        while i < self.choices.len()
            invariant
                i <= self.choices.len(),
                list.len() == i,
                i > 0 ==> reads_back("message"@),
                forall|k: int| 0 <= k < i ==> (#[trigger] list@[k])@ == choice_text(self@[k]),
                forall|k: int| 0 <= k < i ==> message_reads_back(#[trigger] self@[k]),
            decreases self.choices.len() - i,
        {
            list.push(self.choices[i].to_json());
            i = i + 1;
        }
        assert(texts(list@) == self@.map_values(|m: MessageView| choice_text(m)));
        let mut ms: Vec<Member> = Vec::new();
        ms.push(Member { name: "choices".to_string(), value: write_array(&list) });
        assert(member_views(ms@) == seq![
            MemberView {
                name: "choices"@,
                value: array_text(self@.map_values(|m: MessageView| choice_text(m))),
            },
        ]);
        let text = write_object(&ms);
        proof {
            assert(ms@[0].name@ == "choices"@);
            lemma_response_reads_back(self@);
        }
        text
    }
}

impl ChatRequest {
    /// The members that the JSON text of every request has.
    fn members(&self) -> (ms: Vec<Member>)
        ensures
            member_views(ms@) == fixed_members(self@),
    {
        let mut list: Vec<String> = Vec::new();
        let mut i: usize = 0;
        while i < self.messages.len()
            invariant
                i <= self.messages.len(),
                list.len() == i,
                forall|k: int|
                    0 <= k < i ==> (#[trigger] list@[k])@ == message_text(self.messages@[k]@),
            decreases self.messages.len() - i,
        {
            list.push(self.messages[i].to_json());
            i = i + 1;
        }
        assert(texts(list@) == self@.messages.map_values(|m: MessageView| message_text(m)));
        let mut ms: Vec<Member> = Vec::new();
        ms.push(Member { name: "model".to_string(), value: quote(self.model.as_str()) });
        ms.push(Member { name: "messages".to_string(), value: write_array(&list) });
        assert(member_views(ms@) == fixed_members(self@));
        ms
    }

    /// The JSON text of the request. A temperature that is not set is left out.
    pub fn to_json(&self) -> (text: String)
        ensures
            text@ == request_text(self@),
    {
        let mut ms = self.members();
        if let Some(number) = &self.temperature {
            ms.push(Member { name: "temperature".to_string(), value: number.clone() });
        }
        assert(member_views(ms@) == request_members(self@));
        write_object(&ms)
    }

    /// The JSON text of the request without its temperature.
    pub(crate) fn to_json_without_temperature(&self) -> (text: String)
        ensures
            text@ == object_text(fixed_members(self@)),
    {
        write_object(&self.members())
    }
}

/// A response may carry members that are not asked for, wherever they stand among the others.
pub proof fn responses_may_carry_more(members: Seq<MemberView>, choices: Seq<char>)
    requires
        forall|i: int|
            0 <= i < members.len() ==> reads_back((#[trigger] members[i]).name) && whole(
                members[i].value,
            ),
        field_of(members, "choices"@) == FieldView::Once(choices),
        others_skip(Coding::Text, members, "choices"@, "choices"@),
    ensures
        response_of(object_text(members)) == choices_of(Coding::Text, choices),
{
    lemma_object_reads_back(members);
    lemma_object_has_no_elements(members);
}

} // verus!
