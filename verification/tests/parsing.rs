use scribe::parser::parse_intent;
use scribe::parser::parse_llm_response;
use scribe::types::ActionArgs;
use scribe::types::ActionPlan;
use scribe::types::ActionType;
use scribe::types::CoreError;

fn parse_ok(input: &str) -> ActionPlan {
    parse_intent(input, "/home/user", "/home/user").expect("parse should succeed")
}

fn action_path(args: &ActionArgs) -> &str {
    match args {
        ActionArgs::CreateFile { path, .. } => path.as_str(),
        ActionArgs::ReadFile { path } => path.as_str(),
        ActionArgs::DeleteFile { path } => path.as_str(),
        ActionArgs::CreateDirectory { path } => path.as_str(),
        ActionArgs::CopyFile { source_path, .. } => source_path.as_str(),
        ActionArgs::MoveFile { source_path, .. } => source_path.as_str(),
    }
}

#[test]
fn scenario_create_with_content() {
    let plan = parse_ok("create file /tmp/foo.txt with content hello");
    assert_eq!(plan.schema.actions.len(), 1);
    let a = &plan.schema.actions[0];
    assert!(matches!(a.action_type, ActionType::FsCreateFile));
    match &a.args {
        ActionArgs::CreateFile { path, content, encoding } => {
            assert_eq!(path.as_str(), "/tmp/foo.txt");
            assert_eq!(content.as_str(), "hello");
            assert_eq!(encoding.as_str(), "utf-8");
        },
        _ => panic!("wrong payload"),
    }
    assert_eq!(a.metadata.as_ref().unwrap().confidence, Some(900));
    assert_eq!(plan.schema.risk_score, 150);
    assert!(plan.schema.dry_run);
}

#[test]
fn scenario_delete_without_path() {
    let plan = parse_ok("delete file");
    assert_eq!(plan.schema.actions.len(), 1);
    let a = &plan.schema.actions[0];
    assert!(matches!(a.action_type, ActionType::FsDeleteFile));
    match &a.args {
        ActionArgs::DeleteFile { path } => assert_eq!(path.as_str(), "__PROMPT_PATH__"),
        _ => panic!("wrong payload"),
    }
    assert_eq!(a.metadata.as_ref().unwrap().confidence, Some(700));
    assert_eq!(plan.schema.risk_score, 800);
}

#[test]
fn parsing_is_deterministic_up_to_ids() {
    let input = "copy /notes/a.txt to /notes/b.txt";
    let p1 = parse_ok(input);
    let p2 = parse_ok(input);
    assert_eq!(p1.schema.actions.len(), p2.schema.actions.len());
    assert_eq!(p1.schema.summary.as_str(), p2.schema.summary.as_str());
    assert_eq!(p1.schema.risk_score, p2.schema.risk_score);
    for (a, b) in p1.schema.actions.iter().zip(p2.schema.actions.iter()) {
        assert_eq!(a.action_type, b.action_type);
        assert_eq!(action_path(&a.args), action_path(&b.args));
    }
    assert_ne!(p1.schema.id.as_str(), p2.schema.id.as_str());
}

#[test]
fn copy_parses_to_two_actions() {
    let plan = parse_ok("copy /a/src.txt to /a/dst.txt");
    assert_eq!(plan.schema.actions.len(), 2);
    assert!(matches!(plan.schema.actions[0].action_type, ActionType::FsReadFile));
    match &plan.schema.actions[1].args {
        ActionArgs::CopyFile { source_path, destination_path } => {
            assert_eq!(source_path.as_str(), "/a/src.txt");
            assert_eq!(destination_path.as_str(), "/a/dst.txt");
        },
        _ => panic!("wrong payload"),
    }
    assert_eq!(plan.schema.risk_score, 500);
    assert_eq!(plan.schema.summary.as_str(), "Copy file");
}

#[test]
fn move_and_rename_parse() {
    let plan = parse_ok("move /a/x.txt to /b/x.txt");
    assert_eq!(plan.schema.actions.len(), 1);
    assert!(matches!(plan.schema.actions[0].action_type, ActionType::FsMoveFile));
    assert_eq!(plan.schema.risk_score, 800);

    let plan2 = parse_ok("rename old.txt new.txt");
    match &plan2.schema.actions[0].args {
        ActionArgs::MoveFile { source_path, destination_path } => {
            assert_eq!(source_path.as_str(), "/home/user/old.txt");
            assert_eq!(destination_path.as_str(), "/home/user/new.txt");
        },
        _ => panic!("wrong payload"),
    }
}

#[test]
fn read_and_mkdir_parse() {
    let plan = parse_ok("show file /etc/hosts");
    assert!(matches!(plan.schema.actions[0].action_type, ActionType::FsReadFile));
    assert_eq!(action_path(&plan.schema.actions[0].args), "/etc/hosts");

    let plan2 = parse_ok("mkdir /tmp/newdir");
    assert!(matches!(plan2.schema.actions[0].action_type, ActionType::FsCreateDirectory));
    assert_eq!(plan2.schema.risk_score, 150);
    assert_eq!(plan2.schema.summary.as_str(), "Create directory: /tmp/newdir");
}

#[test]
fn create_and_read_missing_paths() {
    let plan = parse_ok("create file");
    assert_eq!(action_path(&plan.schema.actions[0].args), "__PROMPT_PATH__");
    let plan2 = parse_ok("READ FILE");
    assert!(matches!(plan2.schema.actions[0].action_type, ActionType::FsReadFile));
    assert_eq!(action_path(&plan2.schema.actions[0].args), "__PROMPT_PATH__");
}

#[test]
fn relative_paths_resolve_against_cwd() {
    let plan = parse_intent("create file notes.txt", "/home/user", "/work/dir").unwrap();
    assert_eq!(action_path(&plan.schema.actions[0].args), "/work/dir/notes.txt");
}

#[test]
fn unmatched_input_is_a_parse_failure() {
    let r = parse_intent("sing a song", "/home/user", "/home/user");
    assert!(matches!(r, Err(CoreError::ParseFailure)));
}

#[test]
fn family_precedence_create_wins_over_read() {
    // contains both a create and a read phrase; create is tried first
    let plan = parse_ok("create file /tmp/a.txt and open file /tmp/b.txt");
    assert!(matches!(plan.schema.actions[0].action_type, ActionType::FsCreateFile));
}

#[test]
fn summary_extracts_quoted_and_pathlike_segments() {
    let plan = parse_ok("delete file \"/tmp/with space.txt\"");
    assert_eq!(plan.schema.summary.as_str(), "Delete file: /tmp/with space.txt");
    let plan2 = parse_ok("delete file /tmp/plain.txt");
    assert_eq!(plan2.schema.summary.as_str(), "Delete file: /tmp/plain.txt");
}

#[test]
fn llm_planning_is_external() {
    assert!(parse_llm_response("anything").is_err());
}
