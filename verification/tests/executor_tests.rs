use tfocus::error::TfocusError;
use tfocus::executor::{
    apply_suggestion, command_arguments, command_line, conclude, create_target_options,
    get_working_directory, operation_choices, select_operation, working_directory_from,
    ChildExit, Operation, Outcome, SignalState,
};
use tfocus::invocation::{Action, Event, Invocation, Stage};
use tfocus::types::Resource;

fn resource(resource_type: &str, name: &str, file_path: &str) -> Resource {
    Resource {
        resource_type: resource_type.to_string(),
        name: name.to_string(),
        is_module: false,
        file_path: file_path.to_string(),
        has_count: false,
        has_for_each: false,
        index: None,
    }
}

fn flags(items: &[&str]) -> Vec<String> {
    items.iter().map(|s| s.to_string()).collect()
}

#[test]
fn test_create_target_options() {
    let resources = vec![
        Resource {
            resource_type: "aws_instance".to_string(),
            name: "web".to_string(),
            is_module: false,
            file_path: "main.tf".to_string(),
            has_count: false,
            has_for_each: false,
            index: None,
        },
        Resource {
            resource_type: "aws_instance".to_string(),
            name: "app".to_string(),
            is_module: false,
            file_path: "main.tf".to_string(),
            has_count: true,
            has_for_each: false,
            index: Some("0".to_string()),
        },
    ];

    let options = create_target_options(&resources).unwrap();
    assert_eq!(options[0], "-target=aws_instance.web");
    assert_eq!(options[1], "-target=aws_instance.app[0]");
}

#[test]
fn target_options_keep_the_order_and_the_number_of_the_entities() {
    let resources = vec![
        resource("b_type", "second", "a.tf"),
        resource("a_type", "first", "b.tf"),
        resource("b_type", "second", "a.tf"),
    ];
    let options = create_target_options(&resources).unwrap();
    assert_eq!(
        options,
        vec![
            "-target=b_type.second".to_string(),
            "-target=a_type.first".to_string(),
            "-target=b_type.second".to_string(),
        ]
    );
}

#[test]
fn target_options_of_nothing_are_refused() {
    let none: Vec<Resource> = Vec::new();
    match create_target_options(&none) {
        Err(TfocusError::ParseError(message)) => assert_eq!(message, "No targets specified"),
        other => panic!("unexpected result: {:?}", other),
    }
}

#[test]
fn target_option_of_a_module() {
    let mut module = resource("", "network", "main.tf");
    module.is_module = true;
    module.has_for_each = true;
    module.index = Some("\"eu\"".to_string());
    let options = create_target_options(&[module]).unwrap();
    assert_eq!(options, vec!["-target=module.network[\"eu\"]".to_string()]);
}

#[test]
fn the_choices_offered_are_plan_and_apply() {
    let items = operation_choices();
    assert_eq!(items.len(), 2);
    assert_eq!(items[0].display, "plan  - Show changes to be made");
    assert_eq!(items[0].search_text, "plan terraform show changes");
    assert_eq!(items[0].data, "1");
    assert_eq!(items[1].display, "apply - Execute the planned changes");
    assert_eq!(items[1].search_text, "apply terraform execute changes");
    assert_eq!(items[1].data, "2");
}

#[test]
fn every_choice_offered_is_accepted() {
    let items = operation_choices();
    assert!(matches!(
        select_operation(Some(items[0].data.clone())),
        Ok(Some(Operation::Plan))
    ));
    assert!(matches!(
        select_operation(Some(items[1].data.clone())),
        Ok(Some(Operation::Apply))
    ));
}

#[test]
fn no_choice_is_no_error() {
    assert!(matches!(select_operation(None), Ok(None)));
}

#[test]
fn a_choice_that_was_not_offered_is_refused() {
    match select_operation(Some("3".to_string())) {
        Err(TfocusError::InvalidOperation(choice)) => assert_eq!(choice, "3"),
        other => panic!("unexpected result: {:?}", other),
    }
    match select_operation(Some("".to_string())) {
        Err(TfocusError::InvalidOperation(choice)) => assert_eq!(choice, ""),
        other => panic!("unexpected result: {:?}", other),
    }
    match select_operation(Some("12".to_string())) {
        Err(TfocusError::InvalidOperation(choice)) => assert_eq!(choice, "12"),
        other => panic!("unexpected result: {:?}", other),
    }
}

#[test]
fn operation_keywords() {
    assert_eq!(Operation::Plan.keyword(), "plan");
    assert_eq!(Operation::Apply.keyword(), "apply");
}

#[test]
fn working_directory_is_the_parent_of_the_first_file() {
    let resources = vec![
        resource("aws_instance", "web", "infra/prod/main.tf"),
        resource("aws_instance", "app", "other/main.tf"),
    ];
    assert_eq!(get_working_directory(&resources).unwrap(), "infra/prod");
}

#[test]
fn working_directory_of_a_file_in_the_root() {
    let resources = vec![resource("aws_instance", "web", "/main.tf")];
    assert_eq!(get_working_directory(&resources).unwrap(), "/");
}

#[test]
fn working_directory_of_a_bare_file_name_is_the_empty_parent() {
    let resources = vec![resource("aws_instance", "web", "main.tf")];
    assert_eq!(get_working_directory(&resources).unwrap(), "");
}

#[test]
fn working_directory_without_a_parent_is_the_current_directory() {
    let resources = vec![resource("aws_instance", "web", "/")];
    assert_eq!(get_working_directory(&resources).unwrap(), ".");
    assert_eq!(working_directory_from(None), ".");
    assert_eq!(working_directory_from(Some("infra".to_string())), "infra");
}

#[test]
fn the_working_directory_is_a_shorter_initial_part_of_the_path() {
    let samples = [
        ("a/b", "a"),
        ("a/b/", "a"),
        ("a//b", "a"),
        ("a/b//", "a"),
        ("./a", "."),
        ("a/./b", "a"),
        ("a/b/.", "a"),
        ("a/..", "a"),
        ("../a", ".."),
        ("/a/b/c.tf", "/a/b"),
        ("//a", "/"),
        ("a", ""),
        (".", ""),
        ("é/ü.tf", "é"),
        ("dir with space/x.tf", "dir with space"),
    ];
    for (path, parent) in samples {
        let directory = get_working_directory(&[resource("t", "n", path)]).unwrap();
        assert_eq!(directory, parent, "parent of {:?}", path);
        assert!(path.starts_with(&directory), "{:?} begins {:?}", directory, path);
        assert!(directory.len() < path.len());
    }
}

#[test]
fn a_path_that_ends_in_a_root_has_no_parent() {
    for path in ["", "/", "//"] {
        let directory = get_working_directory(&[resource("t", "n", path)]).unwrap();
        assert_eq!(directory, ".", "directory for {:?}", path);
    }
}

#[test]
fn working_directory_of_nothing_is_refused() {
    let none: Vec<Resource> = Vec::new();
    match get_working_directory(&none) {
        Err(TfocusError::ParseError(message)) => assert_eq!(message, "No resources specified"),
        other => panic!("unexpected result: {:?}", other),
    }
}

#[test]
fn arguments_of_a_plan() {
    let targets = flags(&["-target=aws_instance.web", "-target=module.app"]);
    assert_eq!(
        command_arguments(Operation::Plan, &targets),
        flags(&["plan", "-target=aws_instance.web", "-target=module.app"])
    );
}

#[test]
fn arguments_of_an_apply_end_with_the_approval_flag() {
    let targets = flags(&["-target=aws_instance.web", "-target=module.app"]);
    assert_eq!(
        command_arguments(Operation::Apply, &targets),
        flags(&["apply", "-target=aws_instance.web", "-target=module.app", "-auto-approve"])
    );
}

#[test]
fn command_line_of_a_plan_and_of_an_apply() {
    let targets = flags(&["-target=aws_instance.web", "-target=module.app"]);
    assert_eq!(
        command_line(Operation::Plan, &targets),
        "terraform plan -target=aws_instance.web -target=module.app"
    );
    assert_eq!(
        command_line(Operation::Apply, &targets),
        "terraform apply -target=aws_instance.web -target=module.app -auto-approve"
    );
    let one = flags(&["-target=aws_instance.web"]);
    assert_eq!(command_line(Operation::Plan, &one), "terraform plan -target=aws_instance.web");
}

#[test]
fn suggestion_repeats_the_targets() {
    let targets = flags(&["-target=aws_instance.web", "-target=module.app"]);
    assert_eq!(
        apply_suggestion(&targets),
        "terraform apply -target=aws_instance.web -target=module.app"
    );
}

#[test]
fn signal_state_starts_running_without_a_child() {
    let state = SignalState::new();
    assert!(state.running);
    assert_eq!(state.child_pid, None);
}

#[test]
fn interrupt_before_the_child_exists_terminates_nothing() {
    let mut state = SignalState::new();
    assert_eq!(state.interrupt(), None);
    assert!(!state.running);
    assert_eq!(state.child_pid, None);
}

#[test]
fn interrupt_names_the_recorded_child() {
    let mut state = SignalState::new();
    state.record_child(4242);
    assert!(state.running);
    assert_eq!(state.child_pid, Some(4242));
    assert_eq!(state.interrupt(), Some(4242));
    assert!(!state.running);
    assert_eq!(state.child_pid, Some(4242));
}

fn exited(success: bool, status: &str) -> ChildExit {
    ChildExit::Exited { success, status: status.to_string() }
}

#[test]
fn success_without_interrupt_succeeds() {
    assert!(matches!(conclude(exited(true, "exit status: 0"), true), Outcome::Succeeded));
}

#[test]
fn interrupt_cancels_even_a_successful_exit() {
    assert!(matches!(conclude(exited(true, "exit status: 0"), false), Outcome::Cancelled));
}

#[test]
fn interrupt_cancels_whatever_the_exit_status() {
    assert!(matches!(conclude(exited(false, "signal: 15"), false), Outcome::Cancelled));
}

#[test]
fn failure_without_interrupt_embeds_the_status() {
    match conclude(exited(false, "exit status: 1"), true) {
        Outcome::Failed(TfocusError::TerraformError(message)) => {
            assert_eq!(message, "Terraform command failed with status: exit status: 1")
        }
        other => panic!("unexpected outcome: {:?}", other),
    }
}

#[test]
fn a_failed_wait_embeds_the_system_message() {
    for still_running in [true, false] {
        match conclude(ChildExit::WaitFailed("no child".to_string()), still_running) {
            Outcome::Failed(TfocusError::CommandExecutionError(message)) => {
                assert_eq!(message, "Failed to execute terraform command: no child")
            }
            other => panic!("unexpected outcome: {:?}", other),
        }
    }
}

fn spawned(resources: Vec<Resource>, choice: &str) -> Invocation {
    let mut invocation = Invocation::new(resources);
    assert!(matches!(invocation.step(Event::Started), Action::InstallHandler));
    assert!(matches!(invocation.step(Event::HandlerInstalled), Action::ChooseOperation(_)));
    assert!(matches!(
        invocation.step(Event::OperationPicked(Some(choice.to_string()))),
        Action::Spawn(_)
    ));
    assert!(matches!(invocation.step(Event::ChildStarted), Action::Wait));
    assert_eq!(invocation.stage(), Stage::ChildSpawned);
    invocation
}

#[test]
fn invocation_walks_through_its_stages() {
    let resources = vec![
        resource("aws_instance", "web", "infra/main.tf"),
        resource("aws_instance", "app", "infra/app.tf"),
    ];
    let mut invocation = Invocation::new(resources);
    assert_eq!(invocation.stage(), Stage::Idle);

    assert!(matches!(invocation.step(Event::Started), Action::InstallHandler));
    assert_eq!(invocation.stage(), Stage::SignalArmed);

    match invocation.step(Event::HandlerInstalled) {
        Action::ChooseOperation(items) => {
            assert_eq!(items.len(), 2);
            assert_eq!(items[0].data, "1");
            assert_eq!(items[1].data, "2");
        }
        other => panic!("unexpected action: {:?}", other),
    }
    assert_eq!(invocation.stage(), Stage::TargetsBuilt);

    match invocation.step(Event::OperationPicked(Some("2".to_string()))) {
        Action::Spawn(command) => {
            assert_eq!(
                command.arguments,
                flags(&[
                    "apply",
                    "-target=aws_instance.web",
                    "-target=aws_instance.app",
                    "-auto-approve"
                ])
            );
            assert_eq!(command.working_dir, "infra");
            assert_eq!(
                command.display,
                "terraform apply -target=aws_instance.web -target=aws_instance.app -auto-approve"
            );
        }
        other => panic!("unexpected action: {:?}", other),
    }
    assert_eq!(invocation.stage(), Stage::OperationChosen);

    assert!(matches!(invocation.step(Event::ChildStarted), Action::Wait));
    assert_eq!(invocation.stage(), Stage::ChildSpawned);

    let ended = Event::ChildEnded { exit: exited(true, "exit status: 0"), still_running: true };
    match invocation.step(ended) {
        Action::Finish { outcome: Outcome::Succeeded, follow_up } => assert_eq!(follow_up, None),
        other => panic!("unexpected action: {:?}", other),
    }
    assert_eq!(invocation.stage(), Stage::Succeeded);
}

#[test]
fn a_plan_that_succeeds_suggests_the_apply() {
    let mut invocation = spawned(vec![resource("aws_instance", "web", "infra/main.tf")], "1");
    let ended = Event::ChildEnded { exit: exited(true, "exit status: 0"), still_running: true };
    match invocation.step(ended) {
        Action::Finish { outcome: Outcome::Succeeded, follow_up } => {
            assert_eq!(follow_up, Some("terraform apply -target=aws_instance.web".to_string()))
        }
        other => panic!("unexpected action: {:?}", other),
    }
}

#[test]
fn an_interrupted_invocation_is_cancelled_though_the_child_exits_with_success() {
    let mut invocation = spawned(vec![resource("aws_instance", "web", "infra/main.tf")], "1");
    let mut signal = SignalState::new();
    signal.record_child(77);
    assert_eq!(signal.interrupt(), Some(77));
    let ended = Event::ChildEnded {
        exit: exited(true, "exit status: 0"),
        still_running: signal.running,
    };
    match invocation.step(ended) {
        Action::Finish { outcome: Outcome::Cancelled, follow_up } => assert_eq!(follow_up, None),
        other => panic!("unexpected action: {:?}", other),
    }
    assert_eq!(invocation.stage(), Stage::Cancelled);
}

#[test]
fn a_failing_tool_fails_the_invocation() {
    let mut invocation = spawned(vec![resource("aws_instance", "web", "infra/main.tf")], "2");
    let ended = Event::ChildEnded { exit: exited(false, "exit status: 1"), still_running: true };
    match invocation.step(ended) {
        Action::Finish { outcome: Outcome::Failed(TfocusError::TerraformError(message)), follow_up } => {
            assert_eq!(message, "Terraform command failed with status: exit status: 1");
            assert_eq!(follow_up, None);
        }
        other => panic!("unexpected action: {:?}", other),
    }
    assert_eq!(invocation.stage(), Stage::Failed);
}

#[test]
fn an_invocation_without_entities_fails_for_want_of_targets() {
    let mut invocation = Invocation::new(Vec::new());
    assert!(matches!(invocation.step(Event::Started), Action::InstallHandler));
    match invocation.step(Event::HandlerInstalled) {
        Action::Finish { outcome: Outcome::Failed(TfocusError::ParseError(message)), follow_up } => {
            assert_eq!(message, "No targets specified");
            assert_eq!(follow_up, None);
        }
        other => panic!("unexpected action: {:?}", other),
    }
    assert_eq!(invocation.stage(), Stage::Failed);
}

#[test]
fn a_handler_that_cannot_be_installed_fails_the_invocation() {
    let mut invocation = Invocation::new(vec![resource("aws_instance", "web", "main.tf")]);
    invocation.step(Event::Started);
    match invocation.step(Event::HandlerFailed("handler already set".to_string())) {
        Action::Finish {
            outcome: Outcome::Failed(TfocusError::CommandExecutionError(message)),
            ..
        } => assert_eq!(message, "handler already set"),
        other => panic!("unexpected action: {:?}", other),
    }
    assert_eq!(invocation.stage(), Stage::Failed);
}

#[test]
fn declining_the_operation_ends_the_invocation_well() {
    let mut invocation = Invocation::new(vec![resource("aws_instance", "web", "main.tf")]);
    invocation.step(Event::Started);
    invocation.step(Event::HandlerInstalled);
    assert!(matches!(invocation.step(Event::OperationPicked(None)), Action::Quit));
    assert_eq!(invocation.stage(), Stage::Succeeded);
}

#[test]
fn an_unknown_payload_fails_the_invocation() {
    let mut invocation = Invocation::new(vec![resource("aws_instance", "web", "main.tf")]);
    invocation.step(Event::Started);
    invocation.step(Event::HandlerInstalled);
    match invocation.step(Event::OperationPicked(Some("destroy".to_string()))) {
        Action::Finish {
            outcome: Outcome::Failed(TfocusError::InvalidOperation(choice)),
            ..
        } => assert_eq!(choice, "destroy"),
        other => panic!("unexpected action: {:?}", other),
    }
    assert_eq!(invocation.stage(), Stage::Failed);
}

#[test]
fn a_tool_that_cannot_be_started_fails_the_invocation() {
    let mut invocation = Invocation::new(vec![resource("aws_instance", "web", "main.tf")]);
    invocation.step(Event::Started);
    invocation.step(Event::HandlerInstalled);
    invocation.step(Event::OperationPicked(Some("1".to_string())));
    match invocation.step(Event::SpawnFailed("No such file or directory".to_string())) {
        Action::Finish {
            outcome: Outcome::Failed(TfocusError::CommandExecutionError(message)),
            ..
        } => assert_eq!(message, "No such file or directory"),
        other => panic!("unexpected action: {:?}", other),
    }
    assert_eq!(invocation.stage(), Stage::Failed);
}

#[test]
fn an_event_out_of_turn_changes_nothing() {
    let mut invocation = Invocation::new(vec![resource("aws_instance", "web", "main.tf")]);
    assert!(matches!(invocation.step(Event::ChildStarted), Action::Ignore));
    assert_eq!(invocation.stage(), Stage::Idle);
    invocation.step(Event::Started);
    assert!(matches!(invocation.step(Event::Started), Action::Ignore));
    assert_eq!(invocation.stage(), Stage::SignalArmed);
    let ended = Event::ChildEnded { exit: exited(true, "exit status: 0"), still_running: true };
    assert!(matches!(invocation.step(ended), Action::Ignore));
    assert_eq!(invocation.stage(), Stage::SignalArmed);
}
