use scribe::executor::execute_action_plan;
use scribe::executor::needs_snapshot;
use scribe::executor::rollback_actions;
use scribe::executor::undo_action;
use scribe::fs_model::execute_fs_action;
use scribe::fs_model::FsNode;
use scribe::fs_model::FsState;
use scribe::parser::parse_intent;
use scribe::plan_verifier::calculate_action_risk;
use scribe::plan_verifier::plan_with_llm;
use scribe::plan_verifier::preview_action_plan;
use scribe::plan_verifier::validate_action_type;
use scribe::plan_verifier::verify_action_plan;
use scribe::policy::mint_capability_token;
use scribe::snapshot::SnapshotManager;
use scribe::types::Action;
use scribe::types::ActionArgs;
use scribe::types::ActionMetadata;
use scribe::types::ActionOrigin;
use scribe::types::ActionPlan;
use scribe::types::ActionSchema;
use scribe::types::ActionSource;
use scribe::types::ActionType;
use scribe::types::CoreError;
use scribe::types::ExecutionContext;
use scribe::validator::validate_path;

const NOW: i64 = 1_700_000_000;

fn fs_with(files: Vec<(&str, &str)>) -> FsState {
    let mut fs = FsState::new("/home/user".to_string());
    for (path, content) in files {
        fs.set_node(&path.to_string(), FsNode::File { content: content.to_string() });
    }
    fs
}

fn one_action_plan(risk_score: u32, action: Action) -> ActionPlan {
    ActionPlan {
        schema: ActionSchema {
            id: "plan-1".to_string(),
            origin: ActionOrigin {
                user_input: "test".to_string(),
                source: ActionSource::Ui,
                request_id: "req-1".to_string(),
            },
            actions: vec![action],
            summary: "test".to_string(),
            risk_score,
            dry_run: true,
        },
    }
}

fn delete_action(id: &str, path: &str) -> Action {
    Action {
        id: id.to_string(),
        action_type: ActionType::FsDeleteFile,
        args: ActionArgs::DeleteFile { path: path.to_string() },
        preconditions: None,
        metadata: Some(ActionMetadata { confidence: Some(900) }),
    }
}

#[test]
fn verify_accepts_parsed_plan_with_resolvable_paths() {
    let fs = fs_with(vec![("/tmp/x.txt", "hi")]);
    let plan = parse_intent("read file /tmp/x.txt", "/home/user", "/home/user").unwrap();
    let vp = verify_action_plan(&plan, &fs).unwrap();
    assert_eq!(vp.plan.schema.risk_score, 150);
    assert!(vp.verification_notes.is_empty());
}

#[test]
fn verify_rejects_traversal_above_the_root() {
    let fs = fs_with(vec![]);
    let plan = parse_intent("create file /../../escape.txt", "/home/user", "/home/user").unwrap();
    match verify_action_plan(&plan, &fs) {
        Err(CoreError::ValidationFailure { path }) => {
            assert_eq!(path.as_str(), "/../../escape.txt");
        },
        _ => panic!("expected a validation failure"),
    }
}

#[test]
fn verify_rejects_failed_exists_precondition() {
    let fs = fs_with(vec![]);
    let plan = parse_intent("delete file /tmp/gone.txt", "/home/user", "/home/user").unwrap();
    assert!(matches!(
        verify_action_plan(&plan, &fs),
        Err(CoreError::PreconditionFailure { .. })
    ));
}

#[test]
fn verified_risk_of_low_plan_with_one_delete_is_345() {
    let fs = fs_with(vec![("/tmp/doomed.txt", "x")]);
    let plan = one_action_plan(150, delete_action("a1", "/tmp/doomed.txt"));
    let vp = verify_action_plan(&plan, &fs).unwrap();
    assert_eq!(vp.plan.schema.risk_score, 345);
}

#[test]
fn risk_fold_keeps_low_plans_low() {
    let fs = fs_with(vec![("/tmp/x.txt", "hi")]);
    let plan = parse_intent("read file /tmp/x.txt", "/home/user", "/home/user").unwrap();
    let vp = plan_with_llm(&plan, &fs).unwrap();
    assert_eq!(vp.plan.schema.risk_score, 150);
    assert_eq!(calculate_action_risk(&ActionType::FsMoveFile), 800);
    assert!(validate_action_type(&ActionType::FsCopyFile).is_ok());
}

#[test]
fn preview_reports_missing_path_and_confirmation() {
    let fs = fs_with(vec![]);
    let plan = parse_intent("delete file", "/home/user", "/home/user").unwrap();
    let vp = verify_action_plan(&plan, &fs).unwrap();
    assert!(vp.verification_notes.is_empty());
    let pv = preview_action_plan(&plan, &fs).unwrap();
    assert_eq!(pv.missing_paths.len(), 1);
    assert_eq!(pv.missing_paths[0].as_str(), plan.schema.actions[0].id.as_str());
    assert!(pv.requires_explicit_confirmation);
    assert_eq!(pv.affected_items.len(), 1);
    assert_eq!(pv.affected_items[0].path.as_str(), "[Path needed]");
    assert_eq!(pv.affected_items[0].operation.as_str(), "FsDeleteFile");
}

#[test]
fn preview_of_calm_plan_needs_no_confirmation() {
    let fs = fs_with(vec![("/tmp/x.txt", "hi")]);
    let plan = parse_intent("read file /tmp/x.txt", "/home/user", "/home/user").unwrap();
    let pv = preview_action_plan(&plan, &fs).unwrap();
    assert!(!pv.requires_explicit_confirmation);
    assert!(pv.missing_paths.is_empty());
    assert_eq!(pv.affected_items[0].path.as_str(), "/tmp/x.txt");
}

#[test]
fn executing_a_delete_takes_a_snapshot_and_offers_undo() {
    let mut fs = fs_with(vec![("/home/user/notes.txt", "important")]);
    let mut mgr = SnapshotManager::new("/home/user".to_string()).unwrap();
    let plan = one_action_plan(800, delete_action("a1", "/home/user/notes.txt"));
    let res = execute_action_plan(&plan, None, &mut fs, &mut mgr, NOW).unwrap();
    assert!(res.success);
    assert!(!fs.path_exists(&"/home/user/notes.txt".to_string()));
    assert!(res.undo_available);
    assert_eq!(res.undo_ttl, Some(NOW + 604800));
    assert_eq!(res.results.len(), 1);
    assert!(res.results[0].snapshot_id.is_some());
    assert_eq!(mgr.snapshots.len(), 1);
    assert_eq!(mgr.snapshots[0].content.as_str(), "important");

    undo_action(&"a1".to_string(), &mgr, &mut fs).unwrap();
    assert_eq!(fs.read(&"/home/user/notes.txt".to_string()).unwrap().as_str(), "important");
    // undo is idempotent: doing it again changes nothing
    undo_action(&"a1".to_string(), &mgr, &mut fs).unwrap();
    assert_eq!(fs.read(&"/home/user/notes.txt".to_string()).unwrap().as_str(), "important");
}

#[test]
fn failed_second_action_rolls_back_the_first() {
    let mut fs = fs_with(vec![("/a.txt", "original")]);
    let mut mgr = SnapshotManager::new("/home/user".to_string()).unwrap();
    let plan = ActionPlan {
        schema: ActionSchema {
            id: "plan-2".to_string(),
            origin: ActionOrigin {
                user_input: "test".to_string(),
                source: ActionSource::Ui,
                request_id: "req-2".to_string(),
            },
            actions: vec![
                delete_action("a1", "/a.txt"),
                Action {
                    id: "a2".to_string(),
                    action_type: ActionType::FsMoveFile,
                    args: ActionArgs::MoveFile {
                        source_path: "/missing.txt".to_string(),
                        destination_path: "/b.txt".to_string(),
                    },
                    preconditions: None,
                    metadata: None,
                },
            ],
            summary: "delete then move".to_string(),
            risk_score: 150,
            dry_run: false,
        },
    };
    match execute_action_plan(&plan, None, &mut fs, &mut mgr, NOW) {
        Err(CoreError::ExecutionFailure { action_id, .. }) => {
            assert_eq!(action_id.as_str(), "a2");
        },
        _ => panic!("expected an execution failure"),
    }
    // the deleted file is back in place
    assert_eq!(fs.read(&"/a.txt".to_string()).unwrap().as_str(), "original");
}

#[test]
fn creations_are_not_rolled_back() {
    let mut fs = fs_with(vec![]);
    let mut mgr = SnapshotManager::new("/home/user".to_string()).unwrap();
    let plan = ActionPlan {
        schema: ActionSchema {
            id: "plan-3".to_string(),
            origin: ActionOrigin {
                user_input: "test".to_string(),
                source: ActionSource::Ui,
                request_id: "req-3".to_string(),
            },
            actions: vec![
                Action {
                    id: "c1".to_string(),
                    action_type: ActionType::FsCreateFile,
                    args: ActionArgs::CreateFile {
                        path: "/made.txt".to_string(),
                        content: "fresh".to_string(),
                        encoding: "utf-8".to_string(),
                    },
                    preconditions: None,
                    metadata: None,
                },
                delete_action("c2", "/never-there.txt"),
            ],
            summary: "create then fail".to_string(),
            risk_score: 150,
            dry_run: false,
        },
    };
    assert!(execute_action_plan(&plan, None, &mut fs, &mut mgr, NOW).is_err());
    // rollback is type-scoped: the created file stays
    assert!(fs.path_exists(&"/made.txt".to_string()));
}

#[test]
fn execution_respects_token_scopes() {
    let mut fs = fs_with(vec![("/home/user/a.txt", "x"), ("/etc/passwd", "secret")]);
    let mut mgr = SnapshotManager::new("/home/user".to_string()).unwrap();
    let token = mint_capability_token(
        vec!["fs:*:/home/user/*".to_string()],
        600,
        "s".to_string(),
    )
    .unwrap();
    let allowed = one_action_plan(800, delete_action("t1", "/home/user/a.txt"));
    assert!(execute_action_plan(&allowed, Some(&token), &mut fs, &mut mgr, NOW).is_ok());
    let denied = one_action_plan(800, delete_action("t2", "/etc/passwd"));
    match execute_action_plan(&denied, Some(&token), &mut fs, &mut mgr, NOW) {
        Err(CoreError::PermissionDenied { path }) => assert_eq!(path.as_str(), "/etc/passwd"),
        _ => panic!("expected a permission denial"),
    }
    // denial happens before any side effect
    assert!(fs.path_exists(&"/etc/passwd".to_string()));
}

#[test]
fn copy_plan_executes_end_to_end() {
    let mut fs = fs_with(vec![("/a/src.txt", "payload")]);
    let mut mgr = SnapshotManager::new("/home/user".to_string()).unwrap();
    let plan = parse_intent("copy /a/src.txt to /a/dst.txt", "/home/user", "/home/user").unwrap();
    let res = execute_action_plan(&plan, None, &mut fs, &mut mgr, NOW).unwrap();
    assert_eq!(res.results.len(), 2);
    assert!(!res.undo_available);
    assert_eq!(fs.read(&"/a/dst.txt".to_string()).unwrap().as_str(), "payload");
    assert_eq!(fs.read(&"/a/src.txt".to_string()).unwrap().as_str(), "payload");
}

#[test]
fn adapter_errors_name_the_problem() {
    let mut fs = fs_with(vec![]);
    let a = Action {
        id: "r1".to_string(),
        action_type: ActionType::FsReadFile,
        args: ActionArgs::ReadFile { path: "/nope.txt".to_string() },
        preconditions: None,
        metadata: None,
    };
    assert!(matches!(
        execute_fs_action(&a, &mut fs),
        Err(scribe::types::FsError::NotFound { .. })
    ));
    let b = Action {
        id: "w1".to_string(),
        action_type: ActionType::FsCreateFile,
        args: ActionArgs::CreateFile {
            path: "/x.txt".to_string(),
            content: "data".to_string(),
            encoding: "latin-1".to_string(),
        },
        preconditions: None,
        metadata: None,
    };
    assert!(matches!(
        execute_fs_action(&b, &mut fs),
        Err(scribe::types::FsError::UnsupportedEncoding { .. })
    ));
}

#[test]
fn snapshot_manager_backs_up_and_cleans_up() {
    let fs = fs_with(vec![("/keep.txt", "bytes")]);
    let mut mgr = SnapshotManager::new("/home/user".to_string()).unwrap();
    let meta = mgr
        .create_snapshot(&"act-1".to_string(), &"/keep.txt".to_string(), &fs)
        .unwrap();
    assert_eq!(meta.retention_until, meta.created_at + 604800);
    assert_eq!(meta.snapshot_path.as_str(), meta.id.as_str());
    assert!(mgr
        .create_snapshot(&"act-2".to_string(), &"/missing.txt".to_string(), &fs)
        .is_err());

    let lapsed = scribe::types::ActionSnapshot {
        id: meta.id.clone(),
        action_id: meta.action_id.clone(),
        original_path: meta.original_path.clone(),
        snapshot_path: meta.snapshot_path.clone(),
        created_at: meta.created_at,
        retention_until: 0,
    };
    let cleaned = mgr.cleanup_expired(vec![lapsed]).unwrap();
    assert_eq!(cleaned, 1);
    assert_eq!(mgr.snapshots.len(), 0);
}

#[test]
fn rollback_actions_restores_in_reverse() {
    let mut fs = fs_with(vec![("/one.txt", "1"), ("/two.txt", "2")]);
    let mut mgr = SnapshotManager::new("/home/user".to_string()).unwrap();
    let m1 = mgr.create_snapshot(&"a1".to_string(), &"/one.txt".to_string(), &fs).unwrap();
    let m2 = mgr.create_snapshot(&"a2".to_string(), &"/two.txt".to_string(), &fs).unwrap();
    fs.remove_path(&"/one.txt".to_string());
    fs.remove_path(&"/two.txt".to_string());
    rollback_actions(&vec![m1, m2], &mgr, &mut fs).unwrap();
    assert_eq!(fs.read(&"/one.txt".to_string()).unwrap().as_str(), "1");
    assert_eq!(fs.read(&"/two.txt".to_string()).unwrap().as_str(), "2");
}

#[test]
fn validator_normalizes_relative_paths() {
    let fs = fs_with(vec![]);
    let c = validate_path(&"x/../y".to_string(), &fs).unwrap();
    assert_eq!(c.as_str(), "/home/user/y");
    let c2 = validate_path(&"/tmp/ok.txt".to_string(), &fs).unwrap();
    assert_eq!(c2.as_str(), "/tmp/ok.txt");
    assert!(validate_path(&"/a/../../b".to_string(), &fs).is_err());
    // an existing path is accepted as canonical even with odd structure
    let mut fs2 = fs_with(vec![]);
    fs2.set_node(&"/a/../b".to_string(), FsNode::File { content: "x".to_string() });
    assert!(validate_path(&"/a/../b".to_string(), &fs2).is_ok());
}

#[test]
fn execution_context_carries_token() {
    let ctx = ExecutionContext::new("/home/user".to_string());
    assert!(ctx.capability_token.is_none());
    assert_eq!(ctx.allowed_paths.len(), 1);
    let token = mint_capability_token(vec![], 1, "s".to_string()).unwrap();
    let ctx2 = ctx.with_token(token);
    assert!(ctx2.capability_token.is_some());
    assert!(needs_snapshot(&ActionType::FsMoveFile));
    assert!(!needs_snapshot(&ActionType::FsCreateFile));
}

#[test]
fn mismatched_kind_and_payload_is_invalid() {
    let fs = fs_with(vec![]);
    let plan = one_action_plan(
        150,
        Action {
            id: "m1".to_string(),
            action_type: ActionType::FsReadFile,
            args: ActionArgs::DeleteFile { path: "/x.txt".to_string() },
            preconditions: None,
            metadata: None,
        },
    );
    assert!(matches!(verify_action_plan(&plan, &fs), Err(CoreError::InvalidAction)));
}

#[test]
fn directories_are_not_files() {
    let mut fs = fs_with(vec![("/real.txt", "x")]);
    fs.set_node(&"/somedir".to_string(), FsNode::Dir);
    let read_dir = Action {
        id: "d1".to_string(),
        action_type: ActionType::FsReadFile,
        args: ActionArgs::ReadFile { path: "/somedir".to_string() },
        preconditions: None,
        metadata: None,
    };
    assert!(matches!(
        execute_fs_action(&read_dir, &mut fs),
        Err(scribe::types::FsError::NotAFile { .. })
    ));
    let copy_onto_dir = Action {
        id: "d2".to_string(),
        action_type: ActionType::FsCopyFile,
        args: ActionArgs::CopyFile {
            source_path: "/real.txt".to_string(),
            destination_path: "/somedir".to_string(),
        },
        preconditions: None,
        metadata: None,
    };
    assert!(matches!(
        execute_fs_action(&copy_onto_dir, &mut fs),
        Err(scribe::types::FsError::DestinationIsDir { .. })
    ));
}

#[test]
fn undo_of_unknown_action_is_a_snapshot_failure() {
    let mut fs = fs_with(vec![]);
    let mgr = SnapshotManager::new("/home/user".to_string()).unwrap();
    assert!(matches!(
        undo_action(&"nobody".to_string(), &mgr, &mut fs),
        Err(CoreError::SnapshotFailure { .. })
    ));
}

#[test]
fn create_directory_succeeds_and_conflicts_with_files() {
    let mut fs = fs_with(vec![("/taken.txt", "x")]);
    let mut mgr = SnapshotManager::new("/home/user".to_string()).unwrap();
    let plan = parse_intent("create directory /fresh/dir", "/home/user", "/home/user").unwrap();
    assert!(execute_action_plan(&plan, None, &mut fs, &mut mgr, NOW).is_ok());
    assert!(fs.path_exists(&"/fresh/dir".to_string()));
    assert!(!fs.is_file(&"/fresh/dir".to_string()));
    let clash = one_action_plan(
        150,
        Action {
            id: "k1".to_string(),
            action_type: ActionType::FsCreateDirectory,
            args: ActionArgs::CreateDirectory { path: "/taken.txt".to_string() },
            preconditions: None,
            metadata: None,
        },
    );
    assert!(execute_action_plan(&clash, None, &mut fs, &mut mgr, NOW).is_err());
}
