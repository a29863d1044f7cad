use action_lite::action::Action;
use action_lite::error::WorkspaceError;
use action_lite::parser::MarkdownParser;
use action_lite::project::Project;
use action_lite::template::{get_project_readme, get_workspace_readme, ActionTemplate};
use action_lite::workspace::Workspace;
use action_lite::Status;

fn sample() -> Action {
    let mut a = Action::new("My Proj".to_string(), "Fix bug".to_string(), true);
    a.notes = Some("  some notes\nmore  ".to_string());
    a.statement_of_action = Some(String::new());
    a.statement_of_design = Some("  \n ".to_string());
    a.analysis_of_impact = Some("impact".to_string());
    a
}

#[test]
fn markdown_round_trips_sections() {
    let a = sample();
    let text = a.to_markdown();
    assert!(text.contains("#project #my-proj #discovery #priority"));
    assert!(!text.contains("## Statement of Action"));
    assert!(text.contains("## Statement of Design\n\n  \n \n\n"));
    let (_, sections) = MarkdownParser::new(&text).parse();
    assert_eq!(sections.get("Notes").unwrap(), "some notes\nmore");
    assert_eq!(sections.get("Analysis of Impact").unwrap(), "impact");
    assert!(sections.get("Statement of Action").is_none());
    assert_eq!(sections.get("Statement of Design").unwrap(), "");
}

#[test]
fn from_markdown_restores_fields() {
    let mut a = sample();
    a.set_status(Status::Design);
    let text = a.to_markdown();
    let b = Action::from_markdown("/w/p/fix_bug.md".to_string(), "fix_bug".to_string(), "p".to_string(), &text);
    assert_eq!(b.title(), "fix_bug");
    assert_eq!(b.project(), "p");
    assert_eq!(*b.status(), Status::Design);
    assert!(b.is_priority());
    assert_eq!(b.id, a.id);
    assert_eq!(b.created_at, a.created_at);
    assert_eq!(b.notes().unwrap(), "some notes\nmore");
    assert_eq!(b.meta_graph_path(), "/w/p/fix_bug");
}

#[test]
fn from_markdown_falls_back_on_bad_metadata() {
    let b = Action::from_markdown("x.md".to_string(), "x".to_string(), "p".to_string(), "---\nstatus: nope\npriority: TRUE\ncreated_at: never\n---\n");
    assert_eq!(*b.status(), Status::Discovery);
    assert!(b.is_priority());
    assert!(b.notes().is_none());
}

#[test]
fn update_section_by_name() {
    let mut a = sample();
    a.update_section("STATEMENT OF DESIGN", Some("d".to_string()));
    assert_eq!(a.statement_of_design().unwrap(), "d");
    a.update_section("notes", None);
    assert!(a.notes().is_none());
    a.update_section("unknown", Some("z".to_string()));
    assert_eq!(a.analysis_of_impact().unwrap(), "impact");
    a.set_priority(false);
    assert!(!a.is_priority());
}

#[test]
fn create_action_twice_is_refused() {
    let mut p = Project::new("proj".to_string(), "/tmp/ws/proj".to_string());
    let a = p.create_action("Fix bug", true, false).unwrap();
    assert_eq!(a.file_path, "/tmp/ws/proj/fix_bug.md");
    assert_eq!(a.notes().unwrap(), "General notes on the task");
    // once the first document is written, its file exists
    match p.create_action("Fix bug", false, true) {
        Err(WorkspaceError::AlreadyExists { project, title }) => {
            assert_eq!(project, "proj");
            assert_eq!(title, "Fix bug");
        }
        _ => panic!("duplicate accepted"),
    }
    assert!(p.get_action("Fix bug").unwrap().is_priority());
    assert_eq!(p.list_actions().len(), 1);
    // an indexed title without a file is created afresh in its place
    let b = p.create_action("Fix bug", false, false).unwrap();
    assert!(!b.is_priority());
    assert!(!p.get_action("Fix bug").unwrap().is_priority());
    assert_eq!(p.list_actions().len(), 1);
    assert!(matches!(p.create_action("Other", false, true), Err(WorkspaceError::AlreadyExists { .. })));
}

#[test]
fn workspace_scenario_status_survives_reload() {
    let mut ws = Workspace::new("/tmp/ws".to_string());
    let a = ws.create_action("proj", "Fix bug", true, false).unwrap();
    assert_eq!(a.file_path, "/tmp/ws/proj/fix_bug.md");
    ws.update_action_status("proj", "Fix bug", Status::from_str("design").unwrap()).unwrap();
    let saved = ws.get_action("proj", "Fix bug").unwrap().to_markdown();
    let b = Action::from_markdown(a.file_path.clone(), "fix_bug".to_string(), "proj".to_string(), &saved);
    assert_eq!(*b.status(), Status::Design);
    assert!(b.is_priority());
    assert!(matches!(ws.get_action("nope", "x"), Err(WorkspaceError::ProjectNotFound { .. })));
    assert!(matches!(ws.get_action("proj", "x"), Err(WorkspaceError::ActionNotFound { .. })));
}

#[test]
fn list_actions_filters_and_sorts() {
    let mut ws = Workspace::new("/r".to_string());
    ws.create_action("b", "Zeta", false, false).unwrap();
    ws.create_action("a", "beta", true, false).unwrap();
    ws.create_action("a", "Alpha", false, false).unwrap();
    ws.update_action_status("a", "Alpha", Status::Test).unwrap();
    let all = ws.list_actions(None, None, false).unwrap();
    let keys: Vec<(String, String)> = all.iter().map(|a| (a.project.clone(), a.title.clone())).collect();
    assert_eq!(keys, vec![
        ("a".to_string(), "Alpha".to_string()),
        ("a".to_string(), "beta".to_string()),
        ("b".to_string(), "Zeta".to_string()),
    ]);
    assert_eq!(ws.list_actions(Some("b"), None, false).unwrap().len(), 1);
    assert_eq!(ws.list_actions(None, Some("TEST"), false).unwrap()[0].title, "Alpha");
    assert_eq!(ws.list_actions(None, None, true).unwrap()[0].title, "beta");
    assert!(matches!(ws.list_actions(None, Some("bogus"), false), Err(WorkspaceError::InvalidStatus(_))));
}

#[test]
fn validate_checks_marker_files_and_sections() {
    let ws = Workspace::new("/r".to_string());
    assert!(ws.validate(true, &vec![]).is_ok());
    assert!(matches!(ws.validate(false, &vec![]), Err(WorkspaceError::MissingMarker { .. })));

    let mut ws = Workspace::new("/r".to_string());
    let a = ws.create_action("proj", "Doc", false, false).unwrap();
    let existing = vec!["/r/proj".to_string(), a.file_path.clone()];
    assert!(ws.validate(true, &existing).is_ok());
    assert!(matches!(ws.validate(true, &vec!["/r/proj".to_string()]), Err(WorkspaceError::MissingActionFile { .. })));
    assert!(matches!(ws.validate(true, &vec![]), Err(WorkspaceError::MissingProjectDirectory { .. })));
    ws.update_action_status("proj", "Doc", Status::Document).unwrap();
    match ws.validate(true, &existing) {
        Err(WorkspaceError::MissingSection { project, title, section }) => {
            assert_eq!(project, "proj");
            assert_eq!(title, "Doc");
            assert_eq!(section, "Analysis of Impact");
        }
        _ => panic!("missing section not reported"),
    }
    assert_eq!(ws.meta_graph_path("proj", "Doc").unwrap(), "/r/proj/doc");
}

#[test]
fn templates_render() {
    let t = ActionTemplate::new("My Proj".to_string(), "T".to_string(), false);
    let md = t.to_markdown();
    assert!(md.contains("# T\n\n#project #action #discovery #my-proj\n\n## Notes"));
    assert!(!md.contains("## Statement of Design"));
    assert!(get_project_readme("p").starts_with("# p\n\nThis is a project directory"));
    assert!(get_workspace_readme().starts_with("# Action Lite Workspace"));
}

#[test]
fn identifier_is_written_hyphenated() {
    let mut a = Action::new("p".to_string(), "t".to_string(), false);
    a.id = action_lite::stamp::ActionId { value: 0x0123_4567_89ab_cdef_0123_4567_89ab_cdef };
    let text = a.to_markdown();
    assert!(text.starts_with("---\nid: 01234567-89ab-cdef-0123-456789abcdef\ncreated_at: "));
    let b = Action::from_markdown("/w/p/t.md".to_string(), "t".to_string(), "p".to_string(), &text);
    assert_eq!(b.id, a.id);
}

#[test]
fn modification_time_never_goes_back() {
    let mut a = Action::new("p".to_string(), "t".to_string(), false);
    a.updated_at.secs += 1_000_000_000;
    let before = a.updated_at;
    a.set_status(Status::Test);
    assert_eq!(a.updated_at, before);
    a.update_section("notes", Some("n".to_string()));
    assert_eq!(a.updated_at, before);
    assert_eq!(a.notes().unwrap(), "n");
}
