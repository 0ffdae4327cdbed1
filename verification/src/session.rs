//! How a proposed command is shown, and what the user can do with it or with a question.
use vstd::prelude::*;
use crate::error::AiError;
use crate::text::{same_text, texts, trim, trimmed};

verus! {

/// The choice that leads to an answer in the user's own words.
pub const CUSTOM_ANSWER_OPTION: &'static str = "Write your own";

/// What the user can do with a proposed command.
#[derive(Clone, Copy, Debug, PartialEq)]
pub enum CommandAction {
    Run,
    Edit,
    RunDryRun,
    RequestRevision,
}

impl CommandAction {
    /// How the action is called in the menu.
    pub open spec fn called(self) -> Seq<char> {
        match self {
            CommandAction::Run => "Run"@,
            CommandAction::Edit => "Edit"@,
            CommandAction::RunDryRun => "Run Dry-Run"@,
            CommandAction::RequestRevision => "Request Revision"@,
        }
    }

    /// How the action is called in the menu.
    pub fn label(&self) -> (text: String)
        ensures
            text@ == self.called(),
            *self is Run ==> text@ == "Run"@,
            *self is Edit ==> text@ == "Edit"@,
            *self is RunDryRun ==> text@ == "Run Dry-Run"@,
            *self is RequestRevision ==> text@ == "Request Revision"@,
    {
        match self {
            CommandAction::Run => "Run".to_string(),
            CommandAction::Edit => "Edit".to_string(),
            CommandAction::RunDryRun => "Run Dry-Run".to_string(),
            CommandAction::RequestRevision => "Request Revision".to_string(),
        }
    }
}

/// The menu for a command: dry runs can be run where there are any.
pub fn command_actions(dry_runs: &[String]) -> (actions: Vec<CommandAction>)
    ensures
        dry_runs@.len() == 0 ==> actions@ == seq![
            CommandAction::Run,
            CommandAction::Edit,
            CommandAction::RequestRevision,
        ],
        dry_runs@.len() > 0 ==> actions@ == seq![
            CommandAction::Run,
            CommandAction::Edit,
            CommandAction::RunDryRun,
            CommandAction::RequestRevision,
        ],
{
    let mut actions: Vec<CommandAction> = Vec::new();
    actions.push(CommandAction::Run);
    actions.push(CommandAction::Edit);
    if dry_runs.len() > 0 {
        actions.push(CommandAction::RunDryRun);
    }
    actions.push(CommandAction::RequestRevision);
    actions
}

/// The lines that name dry runs.
pub open spec fn dry_run_lines(dry_runs: Seq<Seq<char>>) -> Seq<char>
    decreases dry_runs.len(),
{
    if dry_runs.len() == 0 {
        Seq::empty()
    } else {
        dry_run_lines(dry_runs.drop_last()) + "- "@ + dry_runs.last() + "\n"@
    }
}

/// How a command is shown: the command, its explanation, and its dry runs where there are any.
pub open spec fn presentation(
    command: Seq<char>,
    explanation: Seq<char>,
    dry_runs: Seq<Seq<char>>,
) -> Seq<char> {
    let head = command + "\n\n"@ + explanation + "\n"@;
    if dry_runs.len() == 0 {
        head
    } else {
        head + "\nDry-run variants:\n"@ + dry_run_lines(dry_runs)
    }
}

/// How a command is shown.
pub fn present_command(command: &str, explanation: &str, dry_runs: &[String]) -> (text: String)
    ensures
        text@ == presentation(command@, explanation@, texts(dry_runs@)),
{
    let mut text = command.to_string();
    text.append("\n\n");
    text.append(explanation);
    text.append("\n");
    if dry_runs.len() > 0 {
        text.append("\nDry-run variants:\n");
        let ghost head = text@;
        let ghost all = texts(dry_runs@);
        let mut i: usize = 0;
        while i < dry_runs.len()
            invariant
                i <= dry_runs.len(),
                all == texts(dry_runs@),
                text@ == head + dry_run_lines(all.take(i as int)),
            decreases dry_runs.len() - i,
        {
            assert(all.take(i + 1).drop_last() == all.take(i as int));
            assert(all.take(i + 1).last() == dry_runs@[i as int]@);
            text.append("- ");
            text.append(dry_runs[i].as_str());
            text.append("\n");
            assert(text@ == head + (dry_run_lines(all.take(i as int)) + "- "@
                + dry_runs@[i as int]@ + "\n"@));
            i = i + 1;
        }
        assert(all.take(all.len() as int) == all);
    }
    text
}

// ---------------------------------------------------------------------------------------------
// A command in the hands of the user
// ---------------------------------------------------------------------------------------------

/// Where the handling of a command stands: what is to be asked or done next.
#[derive(Debug, PartialEq)]
pub enum SessionStep {
    /// Ask for an action of the menu.
    ChooseAction,
    /// Let the user edit the command.
    EditCommand,
    /// Ask for one of the dry runs.
    ChooseDryRun,
    /// Ask what should change.
    AskRevision,
    /// Run a command.
    Run(String),
    /// Nothing is left to do, but for a revision that was asked for.
    Finished(Option<String>),
}

/// What came of a step.
#[derive(Debug, PartialEq)]
pub enum SessionInput {
    /// An action was chosen.
    Action(CommandAction),
    /// A text was entered or chosen.
    Text(String),
    /// The command was run.
    Ran,
}

/// A step, seen as what it says.
pub enum StepView {
    ChooseAction,
    EditCommand,
    ChooseDryRun,
    AskRevision,
    Run(Seq<char>),
    Finished(Option<Seq<char>>),
}

impl View for SessionStep {
    type V = StepView;

    open spec fn view(&self) -> StepView {
        match self {
            SessionStep::ChooseAction => StepView::ChooseAction,
            SessionStep::EditCommand => StepView::EditCommand,
            SessionStep::ChooseDryRun => StepView::ChooseDryRun,
            SessionStep::AskRevision => StepView::AskRevision,
            SessionStep::Run(command) => StepView::Run(command@),
            SessionStep::Finished(Some(revision)) => StepView::Finished(Some(revision@)),
            SessionStep::Finished(None) => StepView::Finished(None),
        }
    }
}

/// An input, seen as what it says.
pub enum InputView {
    Action(CommandAction),
    Text(Seq<char>),
    Ran,
}

impl View for SessionInput {
    type V = InputView;

    open spec fn view(&self) -> InputView {
        match self {
            SessionInput::Action(action) => InputView::Action(*action),
            SessionInput::Text(text) => InputView::Text(text@),
            SessionInput::Ran => InputView::Ran,
        }
    }
}

/// The step that follows. An input that the step does not ask for changes nothing.
pub open spec fn step_after(command: Seq<char>, step: StepView, input: InputView) -> StepView {
    match (step, input) {
        (StepView::ChooseAction, InputView::Action(CommandAction::Run)) => StepView::Run(command),
        (StepView::ChooseAction, InputView::Action(CommandAction::Edit)) => StepView::EditCommand,
        (StepView::ChooseAction, InputView::Action(CommandAction::RunDryRun)) =>
            StepView::ChooseDryRun,
        (StepView::ChooseAction, InputView::Action(CommandAction::RequestRevision)) =>
            StepView::AskRevision,
        (StepView::EditCommand, InputView::Text(edited)) => StepView::Run(edited),
        (StepView::ChooseDryRun, InputView::Text(dry_run)) => StepView::Run(dry_run),
        (StepView::AskRevision, InputView::Text(revision)) => StepView::Finished(Some(revision)),
        (StepView::Run(_), InputView::Ran) => StepView::Finished(None),
        _ => step,
    }
}

/// What the user is asked in a step.
pub open spec fn step_question(step: StepView) -> Option<Seq<char>> {
    match step {
        StepView::ChooseAction => Some("What would you like to do?"@),
        StepView::EditCommand => Some("Edit command:"@),
        StepView::ChooseDryRun => Some("Which dry-run command?"@),
        StepView::AskRevision => Some("What should change?"@),
        _ => None,
    }
}

/// The texts that the user can choose from in a step.
pub open spec fn step_offers(step: StepView, dry_runs: Seq<Seq<char>>) -> Seq<Seq<char>> {
    match step {
        StepView::ChooseDryRun => dry_runs,
        _ => Seq::empty(),
    }
}

/// The text that stands in the answer to a step before the user changes it.
pub open spec fn step_initial_text(step: StepView, command: Seq<char>) -> Option<Seq<char>> {
    match step {
        StepView::EditCommand => Some(command),
        _ => None,
    }
}

/// A command that the model proposes.
#[derive(Debug, PartialEq)]
pub struct CommandSession {
    pub command: String,
    pub explanation: String,
    pub dry_runs: Vec<String>,
}

impl CommandSession {
    /// How the command is shown.
    pub fn shown(&self) -> (text: String)
        ensures
            text@ == presentation(self.command@, self.explanation@, texts(self.dry_runs@)),
    {
        present_command(
            self.command.as_str(),
            self.explanation.as_str(),
            self.dry_runs.as_slice(),
        )
    }

    /// The texts that the user can choose from in `step`: the dry runs in order, where one of them
    /// is asked for.
    pub fn offers(&self, step: &SessionStep) -> (list: Vec<String>)
        ensures
            texts(list@) == step_offers(step@, texts(self.dry_runs@)),
            *step is ChooseDryRun ==> texts(list@) == texts(self.dry_runs@),
            !(*step is ChooseDryRun) ==> list@.len() == 0,
    {
        match step {
            SessionStep::ChooseDryRun => crate::text::copied(&self.dry_runs),
            _ => {
                let list: Vec<String> = Vec::new();
                assert(texts(list@) == Seq::<Seq<char>>::empty());
                list
            },
        }
    }

    /// The text that stands in the answer to `step` at first: the command, where it is edited.
    pub fn initial_text(&self, step: &SessionStep) -> (text: Option<String>)
        ensures
            crate::text::optional_text(text) == step_initial_text(step@, self.command@),
            *step is EditCommand ==> (text matches Some(t) && t@ == self.command@),
            !(*step is EditCommand) ==> text is None,
    {
        match step {
            SessionStep::EditCommand => Some(self.command.clone()),
            _ => None,
        }
    }

    /// The step that follows `step` once it has given `input`.
    pub fn next(&self, step: SessionStep, input: SessionInput) -> (following: SessionStep)
        ensures
            following@ == step_after(self.command@, step@, input@),
            step is ChooseAction && input == SessionInput::Action(CommandAction::Run) ==> (
            following matches SessionStep::Run(run) && run@ == self.command@),
            step is ChooseAction && input == SessionInput::Action(CommandAction::Edit)
                ==> following is EditCommand,
            step is ChooseAction && input == SessionInput::Action(CommandAction::RunDryRun)
                ==> following is ChooseDryRun,
            step is ChooseAction && input == SessionInput::Action(CommandAction::RequestRevision)
                ==> following is AskRevision,
            (step is EditCommand || step is ChooseDryRun) ==> (input matches SessionInput::Text(t)
                ==> following == SessionStep::Run(t)),
            step is AskRevision ==> (input matches SessionInput::Text(t) ==> following
                == SessionStep::Finished(Some(t))),
            step is Run && input is Ran ==> following == SessionStep::Finished(None),
            step is Finished ==> following == step,
    {
        match (step, input) {
            (SessionStep::ChooseAction, SessionInput::Action(action)) => match action {
                CommandAction::Run => SessionStep::Run(self.command.clone()),
                CommandAction::Edit => SessionStep::EditCommand,
                CommandAction::RunDryRun => SessionStep::ChooseDryRun,
                CommandAction::RequestRevision => SessionStep::AskRevision,
            },
            (SessionStep::EditCommand, SessionInput::Text(edited)) => SessionStep::Run(edited),
            (SessionStep::ChooseDryRun, SessionInput::Text(dry_run)) => SessionStep::Run(dry_run),
            (SessionStep::AskRevision, SessionInput::Text(revision)) => SessionStep::Finished(
                Some(revision),
            ),
            (SessionStep::Run(_), SessionInput::Ran) => SessionStep::Finished(None),
            (step, _) => step,
        }
    }
}

impl SessionStep {
    /// What the user is asked in this step.
    pub fn question(&self) -> (text: Option<String>)
        ensures
            crate::text::optional_text(text) == step_question(self@),
            *self is ChooseAction ==> (text matches Some(t) && t@ == "What would you like to do?"@),
            *self is EditCommand ==> (text matches Some(t) && t@ == "Edit command:"@),
            *self is ChooseDryRun ==> (text matches Some(t) && t@ == "Which dry-run command?"@),
            *self is AskRevision ==> (text matches Some(t) && t@ == "What should change?"@),
            *self is Run || *self is Finished ==> text is None,
    {
        match self {
            SessionStep::ChooseAction => Some("What would you like to do?".to_string()),
            SessionStep::EditCommand => Some("Edit command:".to_string()),
            SessionStep::ChooseDryRun => Some("Which dry-run command?".to_string()),
            SessionStep::AskRevision => Some("What should change?".to_string()),
            SessionStep::Run(_) => None,
            SessionStep::Finished(_) => None,
        }
    }
}

// ---------------------------------------------------------------------------------------------
// A question to the user
// ---------------------------------------------------------------------------------------------

/// What follows a choice among the answers to a question.
#[derive(Debug, PartialEq)]
pub enum AnswerStep {
    /// Ask for an answer in the user's own words.
    AskCustom,
    /// This is the answer.
    Answer(String),
}

/// The answers to choose from: those that the model offers, and the user's own words.
pub fn question_choices(options: &Vec<String>) -> (choices: Vec<String>)
    ensures
        texts(choices@) == texts(options@).push(CUSTOM_ANSWER_OPTION@),
        choices@.len() == options@.len() + 1,
        choices@[options@.len() as int]@ == "Write your own"@,
        forall|i: int| 0 <= i < options@.len() ==> (#[trigger] choices@[i])@ == options@[i]@,
{
    let mut choices = crate::text::copied(options);
    choices.push(CUSTOM_ANSWER_OPTION.to_string());
    assert(texts(choices@) == texts(options@).push(CUSTOM_ANSWER_OPTION@));
    assert forall|i: int| 0 <= i < options@.len() implies (#[trigger] choices@[i])@
        == options@[i]@ by {
        assert(texts(choices@)[i] == texts(options@)[i]);
    }
    choices
}

/// The answer that a text gives: what is left of it without the white space around it, which must
/// be something.
pub fn clarification_answer(text: &str) -> (answer: Result<String, AiError>)
    ensures
        trimmed(text@).len() > 0 ==> (answer matches Ok(a) && a@ == trimmed(text@)),
        trimmed(text@).len() == 0 ==> answer == Err::<String, AiError>(AiError::EmptyAnswer),
{
    let answer = trim(text);
    if answer.is_empty() {
        Err(AiError::EmptyAnswer)
    } else {
        Ok(answer.to_string())
    }
}

/// What follows once `selected` was chosen among the answers to a question.
pub fn answer_selected(selected: &str) -> (step: Result<AnswerStep, AiError>)
    ensures
        selected@ == CUSTOM_ANSWER_OPTION@ ==> (step matches Ok(s) && s is AskCustom),
        selected@ == "Write your own"@ <==> (step matches Ok(s) && s is AskCustom),
        selected@ != CUSTOM_ANSWER_OPTION@ && trimmed(selected@).len() > 0 ==> (step matches Ok(
            AnswerStep::Answer(a),
        ) && a@ == trimmed(selected@)),
        selected@ != CUSTOM_ANSWER_OPTION@ && trimmed(selected@).len() == 0 ==> step == Err::<
            AnswerStep,
            AiError,
        >(AiError::EmptyAnswer),
{
    if same_text(selected, CUSTOM_ANSWER_OPTION) {
        return Ok(AnswerStep::AskCustom);
    }
    match clarification_answer(selected) {
        Ok(answer) => Ok(AnswerStep::Answer(answer)),
        Err(e) => Err(e),
    }
}

/// Whether a step asks for an input.
pub open spec fn awaits(step: StepView, input: InputView) -> bool {
    match step {
        StepView::ChooseAction => input is Action,
        StepView::EditCommand => input is Text,
        StepView::ChooseDryRun => input is Text,
        StepView::AskRevision => input is Text,
        StepView::Run(_) => input is Ran,
        StepView::Finished(_) => false,
    }
}

/// How many steps are left at most.
pub open spec fn steps_left(step: StepView) -> nat {
    match step {
        StepView::ChooseAction => 3,
        StepView::EditCommand => 2,
        StepView::ChooseDryRun => 2,
        StepView::AskRevision => 2,
        StepView::Run(_) => 1,
        StepView::Finished(_) => 0,
    }
}

/// Nothing is run but the proposed command when the user chose to run it, what the user made of it,
/// or the dry run that the user chose.
pub proof fn nothing_runs_unasked(
    command: Seq<char>,
    step: StepView,
    input: InputView,
    run: Seq<char>,
)
    requires
        !(step is Run),
        step_after(command, step, input) == StepView::Run(run),
    ensures
        (step is ChooseAction && input == InputView::Action(CommandAction::Run) && run == command)
            || (step is EditCommand && input == InputView::Text(run)) || (step is ChooseDryRun
            && input == InputView::Text(run)),
{
}

/// Every input that a step asks for brings the session nearer to its end, and no other changes it.
pub proof fn sessions_end(command: Seq<char>, step: StepView, input: InputView)
    ensures
        awaits(step, input) ==> steps_left(step_after(command, step, input)) < steps_left(step),
        !awaits(step, input) ==> step_after(command, step, input) == step,
        steps_left(step) == 0 <==> step is Finished,
{
}

/// A session leads to another round exactly where the user asked for a revision.
pub proof fn only_a_revision_leads_on(
    command: Seq<char>,
    step: StepView,
    input: InputView,
    revision: Option<Seq<char>>,
)
    requires
        !(step is Finished),
        step_after(command, step, input) == StepView::Finished(revision),
    ensures
        revision is Some <==> step is AskRevision,
        revision matches Some(text) ==> input == InputView::Text(text),
{
}

} // verus!
