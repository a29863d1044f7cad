use action_lite::paths::{action_project_of, action_title_of, is_markdown_file};
use action_lite::utils::{
    format_relative_path, title_to_filename, validate_action_title, validate_project_name,
    NameError,
};

#[test]
fn test_title_to_filename() {
    assert_eq!(title_to_filename("Simple Title"), "simple_title");
    assert_eq!(
        title_to_filename("Complex: Title/With*Special?Chars"),
        "complex-_title-with-special-chars"
    );
    assert_eq!(title_to_filename("Unicode: 你好"), "unicode-_你好");
}

#[test]
fn test_validate_project_name() {
    assert!(validate_project_name("valid-project").is_ok());
    assert!(validate_project_name("ValidProject123").is_ok());
    assert!(validate_project_name("").is_err());
    assert!(validate_project_name("project/with/slash").is_err());
    assert!(validate_project_name(".hidden").is_err());
}

#[test]
fn test_validate_action_title() {
    assert!(validate_action_title("Valid Title").is_ok());
    assert!(validate_action_title("").is_err());
    assert!(validate_action_title(&"x".repeat(101)).is_err());
}

#[test]
fn validate_names_report_each_error() {
    assert_eq!(validate_project_name(""), Err(NameError::EmptyProjectName));
    assert_eq!(validate_project_name("a\\b"), Err(NameError::ProjectNameHasSeparator));
    assert_eq!(validate_project_name(".x"), Err(NameError::ProjectNameStartsWithDot));
    assert_eq!(validate_action_title(""), Err(NameError::EmptyTitle));
    assert_eq!(validate_action_title(&"x".repeat(101)), Err(NameError::TitleTooLong));
    assert_eq!(validate_action_title(&"x".repeat(100)), Ok(()));
    // 34 three-byte characters are 102 bytes
    assert_eq!(validate_action_title(&"你".repeat(34)), Err(NameError::TitleTooLong));
}

#[test]
fn title_to_filename_is_idempotent_on_examples() {
    for t in ["Simple Title", "Complex: Title/With*Special?Chars", "Unicode: 你好", "A-b_c.d"] {
        let once = title_to_filename(t);
        assert_eq!(title_to_filename(&once), once);
    }
    assert_eq!(title_to_filename("ÄÖ Ü"), "äö_ü");
}

#[test]
fn relative_path_strips_base() {
    assert_eq!(format_relative_path("/tmp/ws/proj/a.md", "/tmp/ws"), "proj/a.md");
    assert_eq!(format_relative_path("/other/a.md", "/tmp/ws"), "/other/a.md");
}

#[test]
fn title_to_filename_twice_can_differ_after_lowercasing() {
    // Lowercasing the dotted capital I adds a combining mark, which the
    // second pass replaces.
    let once = title_to_filename("\u{130}");
    assert_eq!(once, "i\u{307}");
    assert_eq!(title_to_filename(&once), "i_");
}

#[test]
fn identity_comes_from_the_path() {
    assert_eq!(action_title_of("/w/proj/Fix Bug.md"), "Fix Bug");
    assert_eq!(action_title_of("/w/proj/a.b.md"), "a.b");
    assert_eq!(action_title_of("/w/proj/.hidden"), ".hidden");
    assert_eq!(action_title_of("/w/proj/"), "untitled");
    assert_eq!(action_project_of("/w/proj/x.md"), "proj");
    assert_eq!(action_project_of("x.md"), "unknown");
    assert_eq!(action_project_of("/x.md"), "unknown");
    assert!(is_markdown_file("/w/p/x.md"));
    assert!(!is_markdown_file("/w/p/x.mdx"));
    assert!(!is_markdown_file("/w/p/.md"));
    assert!(!is_markdown_file("/w/p.md/x"));
}

#[test]
fn file_characters_follow_the_replacement_rules() {
    let cases = [
        (' ', false, '_'),
        (':', false, '-'),
        ('|', false, '-'),
        ('a', true, 'a'),
        ('-', false, '-'),
        ('.', false, '.'),
        ('!', false, '_'),
        ('é', true, 'é'),
        ('é', false, '_'),
    ];
    for (c, alnum, want) in cases {
        assert_eq!(action_lite::utils::file_char_of(c, alnum), want);
    }
}

#[test]
fn hidden_names_open_with_a_dot() {
    assert!(action_lite::paths::is_hidden_name(".git"));
    assert!(!action_lite::paths::is_hidden_name("proj"));
    assert!(!action_lite::paths::is_hidden_name(""));
}
