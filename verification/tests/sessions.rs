use ai_shell::conversation::{Conversation, Turn};
use ai_shell::error::AiError;
use ai_shell::plan::ModelPlan;
use ai_shell::session::{
    answer_selected, clarification_answer, command_actions, present_command, question_choices,
    AnswerStep, CommandAction, CommandSession, SessionInput, SessionStep,
};

fn strings(list: &[&str]) -> Vec<String> {
    list.iter().map(|s| s.to_string()).collect()
}

fn session() -> CommandSession {
    CommandSession {
        command: "rm x".to_string(),
        explanation: "Removes x.".to_string(),
        dry_runs: strings(&["ls x"]),
    }
}

#[test]
fn dry_run_action_only_appears_when_available() {
    assert_eq!(
        command_actions(&[]),
        vec![
            CommandAction::Run,
            CommandAction::Edit,
            CommandAction::RequestRevision,
        ]
    );

    assert_eq!(
        command_actions(&["ls --dry-run".to_string()]),
        vec![
            CommandAction::Run,
            CommandAction::Edit,
            CommandAction::RunDryRun,
            CommandAction::RequestRevision,
        ]
    );
}

#[test]
fn actions_have_labels() {
    assert_eq!(CommandAction::Run.label(), "Run");
    assert_eq!(CommandAction::Edit.label(), "Edit");
    assert_eq!(CommandAction::RunDryRun.label(), "Run Dry-Run");
    assert_eq!(CommandAction::RequestRevision.label(), "Request Revision");
}

#[test]
fn a_command_is_shown_with_its_dry_runs() {
    assert_eq!(present_command("a", "b", &[]), "a\n\nb\n");
    assert_eq!(
        present_command("a", "b", &strings(&["c", "d"])),
        "a\n\nb\n\nDry-run variants:\n- c\n- d\n"
    );
    assert_eq!(session().shown(), "rm x\n\nRemoves x.\n\nDry-run variants:\n- ls x\n");
}

#[test]
fn a_command_can_be_run() {
    let s = session();
    let step = s.next(SessionStep::ChooseAction, SessionInput::Action(CommandAction::Run));
    assert_eq!(step, SessionStep::Run("rm x".to_string()));
    assert_eq!(s.next(step, SessionInput::Ran), SessionStep::Finished(None));
}

#[test]
fn a_command_can_be_edited() {
    let s = session();
    let step = s.next(SessionStep::ChooseAction, SessionInput::Action(CommandAction::Edit));
    assert_eq!(step, SessionStep::EditCommand);
    let step = s.next(step, SessionInput::Text("rm y".to_string()));
    assert_eq!(step, SessionStep::Run("rm y".to_string()));
}

#[test]
fn a_dry_run_can_be_run() {
    let s = session();
    let step = s.next(SessionStep::ChooseAction, SessionInput::Action(CommandAction::RunDryRun));
    assert_eq!(step, SessionStep::ChooseDryRun);
    let step = s.next(step, SessionInput::Text("ls x".to_string()));
    assert_eq!(step, SessionStep::Run("ls x".to_string()));
}

#[test]
fn a_revision_can_be_asked_for() {
    let s = session();
    let step = s.next(SessionStep::ChooseAction, SessionInput::Action(CommandAction::RequestRevision));
    assert_eq!(step, SessionStep::AskRevision);
    let step = s.next(step, SessionInput::Text("".to_string()));
    assert_eq!(step, SessionStep::Finished(Some("".to_string())));
}

#[test]
fn other_inputs_change_nothing() {
    let s = session();
    assert_eq!(s.next(SessionStep::ChooseAction, SessionInput::Ran), SessionStep::ChooseAction);
    assert_eq!(
        s.next(SessionStep::Run("a".to_string()), SessionInput::Action(CommandAction::Run)),
        SessionStep::Run("a".to_string())
    );
    assert_eq!(
        s.next(SessionStep::Finished(None), SessionInput::Text("a".to_string())),
        SessionStep::Finished(None)
    );
}

#[test]
fn steps_have_questions() {
    let asks = |step: SessionStep| step.question();
    assert_eq!(asks(SessionStep::ChooseAction), Some("What would you like to do?".to_string()));
    assert_eq!(asks(SessionStep::EditCommand), Some("Edit command:".to_string()));
    assert_eq!(asks(SessionStep::ChooseDryRun), Some("Which dry-run command?".to_string()));
    assert_eq!(asks(SessionStep::AskRevision), Some("What should change?".to_string()));
    assert_eq!(asks(SessionStep::Run("a".to_string())), None);
    assert_eq!(asks(SessionStep::Finished(None)), None);
}

#[test]
fn questions_can_be_answered_in_own_words() {
    assert_eq!(question_choices(&strings(&["a", "b"])), strings(&["a", "b", "Write your own"]));
    assert_eq!(answer_selected(" a "), Ok(AnswerStep::Answer("a".to_string())));
    assert_eq!(answer_selected("Write your own"), Ok(AnswerStep::AskCustom));
    assert_eq!(
        answer_selected("Write your own "),
        Ok(AnswerStep::Answer("Write your own".to_string()))
    );
    assert_eq!(answer_selected(" "), Err(AiError::EmptyAnswer));
    assert_eq!(clarification_answer("\tnpm\n"), Ok("npm".to_string()));
    assert_eq!(clarification_answer("\u{2003}"), Err(AiError::EmptyAnswer));
}

fn begun(plain: bool) -> Conversation {
    Conversation::begin(&strings(&["remove", "cache"]), plain).unwrap()
}

#[test]
fn a_prompt_is_needed() {
    assert_eq!(Conversation::begin(&vec![], false), Err(AiError::MissingPrompt));
    assert_eq!(begun(false).prompt, "remove cache");
}

#[test]
fn plain_output_is_the_command_alone() {
    let plan = || ModelPlan::Command {
        command: "rm x".to_string(),
        explanation: "Removes x.".to_string(),
        dry_runs: strings(&["ls x"]),
    };
    assert_eq!(begun(true).answered(plan()), Turn::Print("rm x".to_string()));
    assert_eq!(begun(false).answered(plan()), Turn::Offer(session()));
}

#[test]
fn a_question_is_asked_even_where_output_is_plain() {
    let plan = || ModelPlan::Clarification {
        question: "Which?".to_string(),
        options: strings(&["npm"]),
    };
    let ask = || Turn::Ask {
        question: "Which?".to_string(),
        choices: strings(&["npm", "Write your own"]),
    };
    assert_eq!(begun(true).answered(plan()), ask());
    assert_eq!(begun(false).answered(plan()), ask());
}

#[test]
fn prompts_grow_by_answers_and_revisions() {
    let c = begun(false).clarify("Which cache?", "npm").unwrap();
    assert_eq!(c.prompt, "remove cache\nClarification: Which cache?\nAnswer: npm");
    let c = c.revise("rm -r x", "be careful").unwrap();
    assert_eq!(
        c.prompt,
        "remove cache\nClarification: Which cache?\nAnswer: npm\nPrevious command: rm -r x\nRevision request: be careful"
    );
    assert_eq!(ai_shell::text::first_line(&c.prompt), Some("remove cache"));
}

#[test]
fn three_rounds_are_the_limit() {
    let c = begun(true).revise("a", "b").unwrap().clarify("c", "d").unwrap();
    assert!(c.plain);
    let error = c.clarify("e", "f").unwrap_err();
    assert_eq!(error, AiError::TooManyRounds);
    assert_eq!(error.message(), "too many clarification rounds without a command");
}

#[test]
fn steps_offer_the_dry_runs_and_the_command() {
    let s = session();
    assert_eq!(s.offers(&SessionStep::ChooseDryRun), s.dry_runs);
    assert!(!s.dry_runs.is_empty());
    assert_eq!(s.offers(&SessionStep::ChooseAction), Vec::<String>::new());
    assert_eq!(s.initial_text(&SessionStep::EditCommand), Some(s.command.clone()));
    assert_eq!(s.initial_text(&SessionStep::AskRevision), None);
}
