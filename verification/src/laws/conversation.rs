//! How a conversation goes on.
use vstd::prelude::*;
use crate::conversation::{clarified, goes_on, revised, turn_for, Conversation, Turn, ROUNDS};
use crate::error::AiError;
use crate::plan::PlanView;
use crate::text::{begins_with, ends_with, texts};

verus! {

/// What the user answered stands at the end of the prompt, the question before it, and what was
/// asked at first in front; nothing else stands there.
pub proof fn answers_stand_behind_their_questions(
    prompt: Seq<char>,
    question: Seq<char>,
    answer: Seq<char>,
)
    ensures
        begins_with(clarified(prompt, question, answer), prompt + "\nClarification: "@ + question),
        ends_with(clarified(prompt, question, answer), "\nAnswer: "@ + answer),
        clarified(prompt, question, answer).len() == prompt.len() + "\nClarification: "@.len()
            + question.len() + "\nAnswer: "@.len() + answer.len(),
        clarified(prompt, question, answer) == prompt + "\nClarification: "@ + question
            + "\nAnswer: "@ + answer,
{
    let whole = clarified(prompt, question, answer);
    let head = prompt + "\nClarification: "@ + question;
    let tail = "\nAnswer: "@ + answer;
    assert(whole.take(head.len() as int) == head);
    assert(whole.skip(whole.len() - tail.len()) == tail);
}

/// What the user wants changed stands at the end of the prompt, the command before it, and what was
/// asked at first in front; nothing else stands there.
pub proof fn revisions_stand_behind_their_commands(
    prompt: Seq<char>,
    command: Seq<char>,
    revision: Seq<char>,
)
    ensures
        begins_with(revised(prompt, command, revision), prompt + "\nPrevious command: "@ + command),
        ends_with(revised(prompt, command, revision), "\nRevision request: "@ + revision),
        revised(prompt, command, revision).len() == prompt.len() + "\nPrevious command: "@.len()
            + command.len() + "\nRevision request: "@.len() + revision.len(),
        revised(prompt, command, revision) == prompt + "\nPrevious command: "@ + command
            + "\nRevision request: "@ + revision,
{
    let whole = revised(prompt, command, revision);
    let head = prompt + "\nPrevious command: "@ + command;
    let tail = "\nRevision request: "@ + revision;
    assert(whole.take(head.len() as int) == head);
    assert(whole.skip(whole.len() - tail.len()) == tail);
}

/// A conversation that has just begun goes on twice with whatever prompt comes next, and the third
/// time it is told that there were too many rounds.
pub proof fn a_conversation_goes_on_twice(
    first: Conversation,
    p: Seq<char>,
    second: Result<Conversation, AiError>,
    q: Seq<char>,
    third: Result<Conversation, AiError>,
    r: Seq<char>,
    fourth: Result<Conversation, AiError>,
)
    requires
        first.rounds_left == ROUNDS,
        goes_on(first, p, second),
        second is Ok ==> goes_on(second->Ok_0, q, third),
        third is Ok ==> goes_on(third->Ok_0, r, fourth),
    ensures
        second matches Ok(c) && c.prompt@ == p && c.plain == first.plain,
        second is Ok ==> (third matches Ok(c) && c.prompt@ == q && c.plain == first.plain),
        third is Ok ==> (fourth matches Err(e) && e is TooManyRounds),
{
}

/// A command is printed where nothing else is wanted, and offered with its explanation and all its
/// dry runs otherwise; a question is asked with all its options and one more, for the user's own
/// words.
pub proof fn turns_hand_the_plan_on(plan: PlanView, plain: bool, turn: Turn)
    requires
        turn_for(plan, plain, turn),
    ensures
        plan matches PlanView::Command { command, explanation, dry_runs } ==> {
            &&& plain ==> (turn matches Turn::Print(text) && text@ == command)
            &&& !plain ==> (turn matches Turn::Offer(s) && s.command@ == command && s.explanation@
                == explanation && texts(s.dry_runs@) == dry_runs)
        },
        plan matches PlanView::Clarification { question, options } ==> {
            turn matches Turn::Ask { question: asked, choices } && asked@ == question
                && choices@.len() == options.len() + 1 && texts(choices@).take(options.len() as int)
                == options && texts(choices@)[options.len() as int] == "Write your own"@
        },
{
    if let PlanView::Clarification { question, options } = plan {
        if let Turn::Ask { question: asked, choices } = turn {
            assert(texts(choices@).len() == choices@.len());
            assert(texts(choices@).take(options.len() as int) == options);
        }
    }
}

} // verus!
