//! The rounds in which a prompt grows until a command is settled on.
use vstd::prelude::*;
use crate::error::AiError;
use crate::plan::{ModelPlan, PlanView};
use crate::session::{question_choices, CommandSession, CUSTOM_ANSWER_OPTION};
use crate::text::{
    begins_with, first_line_of, join, joined, later_lines_leave_the_first, texts,
};

verus! {

/// How many plans are asked for at most.
pub const ROUNDS: u64 = 3;

/// A prompt, and how many more plans may be asked for with it.
#[derive(Debug, PartialEq)]
pub struct Conversation {
    pub prompt: String,
    pub rounds_left: u64,
    pub plain: bool,
}

/// What follows once the model has answered.
#[derive(Debug, PartialEq)]
pub enum Turn {
    /// Print the command, and that is all.
    Print(String),
    /// Show the command and let the user choose what to do with it.
    Offer(CommandSession),
    /// Ask the question and let the user choose an answer.
    Ask { question: String, choices: Vec<String> },
}

/// The prompt after a question was answered.
pub open spec fn clarified(prompt: Seq<char>, question: Seq<char>, answer: Seq<char>) -> Seq<char> {
    prompt + "\nClarification: "@ + question + "\nAnswer: "@ + answer
}

/// The prompt after a change to a command was asked for.
pub open spec fn revised(prompt: Seq<char>, command: Seq<char>, revision: Seq<char>) -> Seq<char> {
    prompt + "\nPrevious command: "@ + command + "\nRevision request: "@ + revision
}

/// A turn is what a plan asks for.
pub open spec fn turn_for(plan: PlanView, plain: bool, turn: Turn) -> bool {
    match plan {
        PlanView::Command { command, explanation, dry_runs } => if plain {
            turn matches Turn::Print(text) && text@ == command
        } else {
            turn matches Turn::Offer(session) && session.command@ == command
                && session.explanation@ == explanation && texts(session.dry_runs@) == dry_runs
        },
        PlanView::Clarification { question, options } => turn matches Turn::Ask {
            question: asked,
            choices,
        } && asked@ == question && texts(choices@) == options.push(CUSTOM_ANSWER_OPTION@),
    }
}

/// `next` goes on where `now` stands, with another prompt.
pub open spec fn goes_on(
    now: Conversation,
    prompt: Seq<char>,
    next: Result<Conversation, AiError>,
) -> bool {
    if now.rounds_left <= 1 {
        next == Err::<Conversation, AiError>(AiError::TooManyRounds)
    } else {
        next matches Ok(c) && c.prompt@ == prompt && c.rounds_left == now.rounds_left - 1 && c.plain
            == now.plain
    }
}

impl Conversation {
    /// Begins with the words of the command line. There must be one.
    pub fn begin(words: &Vec<String>, plain: bool) -> (conversation: Result<Conversation, AiError>)
        ensures
            words@.len() == 0 ==> conversation == Err::<Conversation, AiError>(
                AiError::MissingPrompt,
            ),
            words@.len() > 0 ==> (conversation matches Ok(c) && c.prompt@ == joined(
                texts(words@),
                " "@,
            ) && c.rounds_left == ROUNDS && c.plain == plain && c.rounds_left == 3),
    {
        if words.len() == 0 {
            return Err(AiError::MissingPrompt);
        }
        Ok(Conversation { prompt: join(words, " "), rounds_left: ROUNDS, plain })
    }

    /// What follows once the model has answered with `plan`.
    pub fn answered(&self, plan: ModelPlan) -> (turn: Turn)
        ensures
            turn_for(plan@, self.plain, turn),
            match plan {
                ModelPlan::Command { command, explanation, dry_runs } => if self.plain {
                    turn == Turn::Print(command)
                } else {
                    turn matches Turn::Offer(session) && session.command == command
                        && session.explanation == explanation && session.dry_runs == dry_runs
                },
                ModelPlan::Clarification { question, options } => turn matches Turn::Ask {
                    question: asked,
                    choices,
                } && asked == question && texts(choices@) == texts(options@).push(
                    "Write your own"@,
                ),
            },
    {
        match plan {
            ModelPlan::Command { command, explanation, dry_runs } => if self.plain {
                Turn::Print(command)
            } else {
                Turn::Offer(CommandSession { command, explanation, dry_runs })
            },
            ModelPlan::Clarification { question, options } => {
                let choices = question_choices(&options);
                Turn::Ask { question, choices }
            },
        }
    }

    /// Goes on with `prompt`, where a round is left.
    fn continued(self, prompt: String) -> (next: Result<Conversation, AiError>)
        ensures
            goes_on(self, prompt@, next),
    {
        if self.rounds_left <= 1 {
            Err(AiError::TooManyRounds)
        } else {
            Ok(Conversation { prompt, rounds_left: self.rounds_left - 1, plain: self.plain })
        }
    }

    /// Goes on once `question` was answered.
    pub fn clarify(self, question: &str, answer: &str) -> (next: Result<Conversation, AiError>)
        ensures
            goes_on(self, clarified(self.prompt@, question@, answer@), next),
            next is Ok <==> self.rounds_left > 1,
            next matches Ok(c) ==> c.prompt@ == self.prompt@ + "\nClarification: "@ + question@
                + "\nAnswer: "@ + answer@ && c.plain == self.plain && c.rounds_left
                == self.rounds_left - 1,
            next matches Err(e) ==> e is TooManyRounds,
    {
        let mut prompt = self.prompt.clone();
        prompt.append("\nClarification: ");
        prompt.append(question);
        prompt.append("\nAnswer: ");
        prompt.append(answer);
        self.continued(prompt)
    }

    /// Goes on once a change to `command` was asked for.
    pub fn revise(self, command: &str, revision: &str) -> (next: Result<Conversation, AiError>)
        ensures
            goes_on(self, revised(self.prompt@, command@, revision@), next),
            next is Ok <==> self.rounds_left > 1,
            next matches Ok(c) ==> c.prompt@ == self.prompt@ + "\nPrevious command: "@ + command@
                + "\nRevision request: "@ + revision@ && c.plain == self.plain && c.rounds_left
                == self.rounds_left - 1,
            next matches Err(e) ==> e is TooManyRounds,
    {
        let mut prompt = self.prompt.clone();
        prompt.append("\nPrevious command: ");
        prompt.append(command);
        prompt.append("\nRevision request: ");
        prompt.append(revision);
        self.continued(prompt)
    }
}

// ---------------------------------------------------------------------------------------------
// Laws
// ---------------------------------------------------------------------------------------------

/// However a prompt grows, it still begins with what the user asked first.
pub proof fn prompts_only_grow(prompt: Seq<char>, a: Seq<char>, b: Seq<char>)
    ensures
        begins_with(clarified(prompt, a, b), prompt),
        begins_with(revised(prompt, a, b), prompt),
{
    assert(clarified(prompt, a, b).take(prompt.len() as int) == prompt);
    assert(revised(prompt, a, b).take(prompt.len() as int) == prompt);
}

/// However a prompt grows, it is offered for completion by the line that the user asked first. Left
/// out are the empty prompt, and a prompt of one line that ends in a carriage return.
pub proof fn prompts_keep_their_first_line(prompt: Seq<char>, a: Seq<char>, b: Seq<char>)
    requires
        prompt.len() > 0,
        prompt.contains('\n') || prompt.last() != '\r',
    ensures
        first_line_of(clarified(prompt, a, b)) == first_line_of(prompt),
        first_line_of(revised(prompt, a, b)) == first_line_of(prompt),
{
    reveal_strlit("\nClarification: ");
    reveal_strlit("\nPrevious command: ");
    let c = "\nClarification: "@.skip(1) + a + "\nAnswer: "@ + b;
    assert(clarified(prompt, a, b) == prompt + seq!['\n'] + c);
    later_lines_leave_the_first(prompt, c);
    let r = "\nPrevious command: "@.skip(1) + a + "\nRevision request: "@ + b;
    assert(revised(prompt, a, b) == prompt + seq!['\n'] + r);
    later_lines_leave_the_first(prompt, r);
}

/// No more than three plans are asked for: a conversation that has just begun can go on twice, and
/// not a third time.
pub proof fn three_plans_at_most(
    first: Conversation,
    second: Conversation,
    third: Conversation,
    p: Seq<char>,
    q: Seq<char>,
    r: Seq<char>,
    next: Result<Conversation, AiError>,
)
    requires
        first.rounds_left == ROUNDS,
        goes_on(first, p, Ok(second)),
        goes_on(second, q, Ok(third)),
        goes_on(third, r, next),
    ensures
        next == Err::<Conversation, AiError>(AiError::TooManyRounds),
{
}

} // verus!
