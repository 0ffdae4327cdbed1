//! What comes of the choices of the user.
use vstd::prelude::*;
use crate::session::{
    dry_run_lines, presentation, step_after, step_initial_text, step_offers, step_question,
    CommandAction, InputView, SessionInput, SessionStep, StepView,
};

verus! {

/// What the user chooses is done. To run the command runs exactly that command; to edit it, or to
/// ask for a dry run, runs exactly the text that is then given; to ask for a revision hands exactly
/// the wish on.
pub proof fn what_is_chosen_is_done(command: Seq<char>, text: Seq<char>)
    ensures
        step_after(command, StepView::ChooseAction, InputView::Action(CommandAction::Run))
            == StepView::Run(command),
        step_after(
            command,
            step_after(command, StepView::ChooseAction, InputView::Action(CommandAction::Edit)),
            InputView::Text(text),
        ) == StepView::Run(text),
        step_after(
            command,
            step_after(
                command,
                StepView::ChooseAction,
                InputView::Action(CommandAction::RunDryRun),
            ),
            InputView::Text(text),
        ) == StepView::Run(text),
        step_after(
            command,
            step_after(
                command,
                StepView::ChooseAction,
                InputView::Action(CommandAction::RequestRevision),
            ),
            InputView::Text(text),
        ) == StepView::Finished(Some(text)),
        step_after(command, StepView::Run(text), InputView::Ran) == StepView::Finished(None),
{
}

/// The user edits where the command is to be edited, and chooses among the dry runs where one is to
/// be run: the first choice leads to the step that asks for just that.
pub proof fn choices_lead_to_their_questions(command: Seq<char>, action: CommandAction)
    ensures
        step_after(command, StepView::ChooseAction, InputView::Action(action)) is Run
            <==> action is Run,
        step_after(command, StepView::ChooseAction, InputView::Action(action)) is EditCommand
            <==> action is Edit,
        step_after(command, StepView::ChooseAction, InputView::Action(action)) is ChooseDryRun
            <==> action is RunDryRun,
        step_after(command, StepView::ChooseAction, InputView::Action(action)) is AskRevision
            <==> action is RequestRevision,
{
}

/// A session ends without a revision only once a command was run.
pub proof fn sessions_end_once_a_command_was_run(
    command: Seq<char>,
    step: StepView,
    input: InputView,
)
    requires
        !(step is Finished),
        step_after(command, step, input) == StepView::Finished(None),
    ensures
        step is Run,
        input is Ran,
{
}

/// What is offered to choose from are the dry runs, all of them in order, and what there is to edit
/// is the command.
pub proof fn steps_offer_what_they_ask_about(
    step: StepView,
    command: Seq<char>,
    dry_runs: Seq<Seq<char>>,
)
    ensures
        step is ChooseDryRun ==> step_offers(step, dry_runs) == dry_runs,
        !(step is ChooseDryRun) ==> step_offers(step, dry_runs).len() == 0,
        step is EditCommand <==> step_initial_text(step, command) is Some,
        step is EditCommand ==> step_initial_text(step, command) == Some(command),
        step_question(step) is Some <==> !(step is Run || step is Finished),
{
}

/// A command is shown before its explanation, and every further dry run adds one line at the end;
/// the first one also adds a heading.
pub proof fn commands_are_shown_with_all_their_dry_runs(
    command: Seq<char>,
    explanation: Seq<char>,
    dry_runs: Seq<Seq<char>>,
    one: Seq<char>,
)
    ensures
        presentation(command, explanation, Seq::empty()) == command + "\n\n"@ + explanation
            + "\n"@,
        dry_runs.len() == 0 ==> presentation(command, explanation, dry_runs.push(one))
            == presentation(command, explanation, dry_runs) + "\nDry-run variants:\n"@ + "- "@ + one
            + "\n"@,
        dry_runs.len() > 0 ==> presentation(command, explanation, dry_runs.push(one))
            == presentation(command, explanation, dry_runs) + "- "@ + one + "\n"@,
{
    assert(dry_runs.push(one).drop_last() == dry_runs);
    assert(dry_runs.push(one).last() == one);
    let shown = presentation(command, explanation, dry_runs.push(one));
    let head = command + "\n\n"@ + explanation + "\n"@ + "\nDry-run variants:\n"@;
    let lines = dry_run_lines(dry_runs);
    assert(dry_run_lines(dry_runs.push(one)) == lines + "- "@ + one + "\n"@);
    assert(shown == head + (lines + "- "@ + one + "\n"@));
    if dry_runs.len() == 0 {
        assert(lines == Seq::<char>::empty());
        assert(shown == head + "- "@ + one + "\n"@);
    } else {
        assert(presentation(command, explanation, dry_runs) == head + lines);
        assert(shown == head + lines + "- "@ + one + "\n"@);
    }
}

/// The actions have names by which they are told apart in the menu.
pub proof fn actions_have_their_names(action: CommandAction)
    ensures
        action is Run ==> action.called() == "Run"@,
        action is Edit ==> action.called() == "Edit"@,
        action is RunDryRun ==> action.called() == "Run Dry-Run"@,
        action is RequestRevision ==> action.called() == "Request Revision"@,
{
}

/// Steps and inputs are seen with all that they hold.
pub proof fn steps_and_inputs_are_seen_whole(text: String, action: CommandAction)
    ensures
        SessionStep::ChooseAction@ is ChooseAction,
        SessionStep::EditCommand@ is EditCommand,
        SessionStep::ChooseDryRun@ is ChooseDryRun,
        SessionStep::AskRevision@ is AskRevision,
        SessionStep::Run(text)@ == StepView::Run(text@),
        SessionStep::Finished(Some(text))@ == StepView::Finished(Some(text@)),
        SessionStep::Finished(None)@ == StepView::Finished(None),
        SessionInput::Action(action)@ == InputView::Action(action),
        SessionInput::Text(text)@ == InputView::Text(text@),
        SessionInput::Ran@ is Ran,
{
}

} // verus!
