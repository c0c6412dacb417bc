//! Tests of process matching, termination outcomes, the workflow machines,
//! and the tray menu model.

use antigravity_agent::errors::AgentError;
use antigravity_agent::orchestrator::{
    SignOutPhase, SignOutRun, StepOutcome, SwitchPhase, SwitchRun, WorkflowAction,
};
use antigravity_agent::platform::HostOs;
use antigravity_agent::process::{
    get_antigravity_process_patterns, get_antigravity_process_patterns_for_debug,
    kill_antigravity_processes, matches_antigravity_process,
    matches_antigravity_process_for_debug, ProcessPattern,
};
use antigravity_agent::tray::{
    build_tray_menu, menu_id_for_account, parse_menu_event, MenuAction, MenuEntry, TrayCore,
};

#[test]
fn renderer_suffix_matches_helper_process() {
    let pattern = ProcessPattern::EndsWith("(Renderer)".to_string());
    assert!(matches_antigravity_process_for_debug(
        "Antigravity Helper (Renderer)",
        "",
        &pattern
    ));
    assert!(!matches_antigravity_process_for_debug("Chrome", "", &pattern));
}

#[test]
fn pattern_table_excludes_unrelated_process() {
    let patterns = get_antigravity_process_patterns(HostOs::MacOs);
    assert!(matches_antigravity_process(
        "Antigravity Helper (Renderer)",
        "",
        &patterns
    ));
    assert!(!matches_antigravity_process("Chrome", "", &patterns));
}

#[test]
fn pattern_tables_per_host() {
    assert_eq!(get_antigravity_process_patterns_for_debug(HostOs::MacOs).len(), 12);
    assert_eq!(get_antigravity_process_patterns(HostOs::Windows).len(), 4);
    assert_eq!(get_antigravity_process_patterns(HostOs::Linux).len(), 5);
    assert_eq!(get_antigravity_process_patterns(HostOs::Other).len(), 2);
    assert!(matches_antigravity_process(
        "something",
        "/opt/Antigravity.AppImage --flag",
        &get_antigravity_process_patterns(HostOs::Linux)
    ));
}

#[test]
fn no_matching_process_is_soft_outcome() {
    let patterns = vec![ProcessPattern::ExactName(
        "definitely-not-a-real-process-name-zzz".to_string(),
    )];
    let err = kill_antigravity_processes(&patterns).unwrap_err();
    assert!(matches!(err, AgentError::NoProcessFound));
    assert!(err.is_soft());
}

#[test]
fn switch_workflow_proceeds_after_no_process_found() {
    let mut run = SwitchRun::new();
    assert_eq!(run.begin(), WorkflowAction::Terminate);
    // terminating found nothing to stop: soft, the restore still happens
    let a = run.advance(&StepOutcome::Failed(AgentError::NoProcessFound));
    assert_eq!(run.phase, SwitchPhase::Restoring);
    assert_eq!(a, Some(WorkflowAction::Restore));
    let a = run.advance(&StepOutcome::Completed("5 keys".to_string()));
    assert_eq!(a, Some(WorkflowAction::Launch));
    let a = run.advance(&StepOutcome::Completed("spawned".to_string()));
    assert_eq!(a, None);
    assert_eq!(run.phase, SwitchPhase::Done);
    assert_eq!(run.trace.len(), 3);
    assert_eq!(run.trace[0], "terminate: failed - no matching process found");
    assert_eq!(run.trace[1], "restore: ok - 5 keys");
    assert_eq!(run.trace[2], "launch: ok - spawned");
}

#[test]
fn failed_restore_aborts_switch_before_launch() {
    let mut run = SwitchRun::new();
    run.begin();
    run.advance(&StepOutcome::Completed("stopped".to_string()));
    let a = run.advance(&StepOutcome::Failed(AgentError::SnapshotNotFound));
    assert_eq!(run.phase, SwitchPhase::Failed);
    assert_eq!(a, None);
    assert_eq!(run.trace[1], "restore: failed - snapshot not found");
}

#[test]
fn launch_failure_does_not_roll_back_switch() {
    let mut run = SwitchRun::new();
    run.begin();
    run.advance(&StepOutcome::Completed("stopped".to_string()));
    run.advance(&StepOutcome::Completed("restored".to_string()));
    let a = run.advance(&StepOutcome::Failed(AgentError::LaunchFailed("all failed".to_string())));
    assert_eq!(run.phase, SwitchPhase::Done);
    assert_eq!(a, None);
    assert_eq!(run.trace[2], "launch: failed - launch failed: all failed");
}

#[test]
fn missing_identity_aborts_sign_out() {
    let mut run = SignOutRun::new();
    assert_eq!(run.begin(), WorkflowAction::Terminate);
    let a = run.advance(&StepOutcome::Completed("stopped".to_string()));
    assert_eq!(a, Some(WorkflowAction::ReadIdentity));
    let a = run.advance(&StepOutcome::Failed(AgentError::NoActiveIdentity));
    assert_eq!(run.phase, SignOutPhase::Failed);
    assert_eq!(a, None);
    assert_eq!(run.trace[1], "extract identity: failed - no active identity in the store");
}

#[test]
fn sign_out_runs_all_steps_in_order() {
    let mut run = SignOutRun::new();
    let mut actions = vec![run.begin()];
    loop {
        match run.advance(&StepOutcome::Completed("ok".to_string())) {
            Some(a) => actions.push(a),
            None => break,
        }
    }
    assert_eq!(
        actions,
        vec![
            WorkflowAction::Terminate,
            WorkflowAction::ReadIdentity,
            WorkflowAction::Capture,
            WorkflowAction::ClearAll,
            WorkflowAction::Launch,
        ]
    );
    assert_eq!(run.phase, SignOutPhase::Done);
    assert_eq!(run.trace.len(), 5);
}

#[test]
fn menu_identifier_round_trip() {
    let id = menu_id_for_account("user@example.com");
    assert_eq!(id, "switch_account:user@example.com");
    match parse_menu_event(&id) {
        Some(MenuAction::SwitchAccount(a)) => assert_eq!(a, "user@example.com"),
        other => panic!("unexpected action {:?}", other),
    }
    assert_eq!(parse_menu_event("quit"), Some(MenuAction::Quit));
    assert_eq!(parse_menu_event("refresh_accounts"), Some(MenuAction::RefreshAccounts));
    assert_eq!(parse_menu_event("unknown-id"), None);
}

#[test]
fn tray_menu_model_shapes() {
    // no accounts: only the window-control entries
    let menu = build_tray_menu(&vec![], &vec![]);
    assert_eq!(menu.len(), 5);
    assert!(matches!(&menu[0], MenuEntry::Item { id, .. } if id == "show"));
    assert!(matches!(&menu[4], MenuEntry::Item { id, .. } if id == "quit"));

    // three accounts, two recent: quick switch, submenu, refresh, controls
    let all = vec!["a@x".to_string(), "b@x".to_string(), "c@x".to_string()];
    let recent = vec!["a@x".to_string(), "b@x".to_string()];
    let menu = build_tray_menu(&recent, &all);
    assert!(matches!(&menu[0], MenuEntry::Caption(c) if c == "quick switch"));
    assert!(
        matches!(&menu[1], MenuEntry::Item { id, label } if id == "switch_account:a@x" && label == "  a@x")
    );
    let has_submenu = menu.iter().any(|e| match e {
        MenuEntry::Submenu { label, items } => label == "all accounts" && items.len() == 3,
        _ => false,
    });
    assert!(has_submenu);

    // two accounts: no submenu
    let two = vec!["a@x".to_string(), "b@x".to_string()];
    let menu = build_tray_menu(&two, &two);
    assert!(!menu.iter().any(|e| matches!(e, MenuEntry::Submenu { .. })));
}

#[test]
fn tray_core_transitions() {
    let mut t = TrayCore::new(false);
    assert!(!t.is_tray_created());
    let create = t.enable();
    assert!(create);
    assert!(t.enabled);
    let installed = t.commit_icon();
    assert!(installed);
    assert!(t.is_tray_created());
    // a second enable does not create a duplicate icon
    let create_again = t.enable();
    assert!(!create_again);
    // toggling off drops the icon
    let now_enabled = t.toggle();
    assert!(!now_enabled);
    assert!(!t.is_tray_created());
    let now_enabled = t.toggle();
    assert!(now_enabled);
}
