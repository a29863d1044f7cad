use vstd::prelude::*;
use vstd::string::StringExecFns;

use crate::text::{chars_of, lower_of, lowercase, string_from_chars};

verus! {

/// Whether a character is alphabetic or numeric by the Unicode rules.
pub uninterp spec fn alphanumeric(c: char) -> bool;

/// Relies on std's `char::is_alphanumeric`: whether a character is
/// alphabetic or numeric; the answer depends on the character alone.
#[verifier::external_body]
fn is_alphanumeric(c: char) -> (r: bool)
    ensures
        r == alphanumeric(c),
{
    c.is_alphanumeric()
}

/// Whether a character is one that file systems reserve.
pub open spec fn is_reserved(c: char) -> bool {
    c == '/' || c == '\\' || c == ':' || c == '*' || c == '?' || c == '"' || c == '<' || c == '>'
        || c == '|'
}

/// A title character as it stands in a file name, given whether it is a
/// letter or digit: a space becomes an underscore, a reserved character a
/// hyphen; letters, digits, `-`, `_` and `.` stay; anything else becomes an
/// underscore.
pub open spec fn file_char_with(c: char, alnum: bool) -> char {
    if c == ' ' {
        '_'
    } else if is_reserved(c) {
        '-'
    } else if alnum || c == '-' || c == '_' || c == '.' {
        c
    } else {
        '_'
    }
}

/// A title character as it stands in a file name.
pub open spec fn file_char(c: char) -> char {
    file_char_with(c, alphanumeric(c))
}

/// A title character as it stands in a file name, where `alnum` tells
/// whether it is a letter or digit.
pub fn file_char_of(c: char, alnum: bool) -> (r: char)
    ensures
        r == file_char_with(c, alnum),
{
    if c == ' ' {
        '_'
    } else if c == '/' || c == '\\' || c == ':' || c == '*' || c == '?' || c == '"' || c == '<'
        || c == '>' || c == '|' {
        '-'
    } else if alnum || c == '-' || c == '_' || c == '.' {
        c
    } else {
        '_'
    }
}

/// A title with each character as it stands in a file name.
pub open spec fn sanitize(s: Seq<char>) -> Seq<char> {
    s.map_values(|c: char| file_char(c))
}

/// The file name (without extension) for a title.
pub open spec fn file_name_of(s: Seq<char>) -> Seq<char> {
    lower_of(sanitize(s))
}

/// Converts a title to a file name: unsafe characters replaced, then
/// lowercased.
pub fn title_to_filename(title: &str) -> (r: String)
    ensures
        r@ == file_name_of(title@),
{
    let v = chars_of(title);
    let mut w: Vec<char> = Vec::new();
    let mut i: usize = 0;
    while i < v.len()
        invariant
            i <= v@.len(),
            v@ == title@,
            w@ == sanitize(v@.subrange(0, i as int)),
        decreases v@.len() - i,
    {
        let c = v[i];
        let d = file_char_of(c, is_alphanumeric(c));
        w.push(d);
        i = i + 1;
        assert(w@ =~= sanitize(v@.subrange(0, i as int)));
    }
    assert(v@.subrange(0, v@.len() as int) =~= v@);
    let s = string_from_chars(&w);
    lowercase(s.as_str())
}

/// Replacing unsafe characters a second time changes nothing.
pub proof fn lemma_sanitize_idempotent(s: Seq<char>)
    ensures
        sanitize(sanitize(s)) == sanitize(s),
{
    assert(sanitize(sanitize(s)) =~= sanitize(s));
}

/// Converting a title to a file name twice gives what converting once gives,
/// wherever the lowercase form of the converted characters is again made of
/// characters that conversion keeps and is its own lowercase form.
pub proof fn lemma_title_to_filename_idempotent(t: Seq<char>)
    requires
        sanitize(file_name_of(t)) == file_name_of(t),
        lower_of(file_name_of(t)) == file_name_of(t),
    ensures
        file_name_of(file_name_of(t)) == file_name_of(t),
{
}

/// Why a project name or an action title is refused.
#[derive(Debug, Clone, Copy, PartialEq, Eq, Structural)]
pub enum NameError {
    EmptyProjectName,
    ProjectNameHasSeparator,
    ProjectNameStartsWithDot,
    EmptyTitle,
    TitleTooLong,
}

impl NameError {
    /// What the error says to a user.
    pub fn message(&self) -> (r: &'static str)
        ensures
            r@ == match self {
                NameError::EmptyProjectName => "Project name cannot be empty"@,
                NameError::ProjectNameHasSeparator => "Project name cannot contain path separators"@,
                NameError::ProjectNameStartsWithDot => "Project name cannot start with a dot"@,
                NameError::EmptyTitle => "Action title cannot be empty"@,
                NameError::TitleTooLong => "Action title cannot be longer than 100 characters"@,
            },
    {
        match self {
            NameError::EmptyProjectName => "Project name cannot be empty",
            NameError::ProjectNameHasSeparator => "Project name cannot contain path separators",
            NameError::ProjectNameStartsWithDot => "Project name cannot start with a dot",
            NameError::EmptyTitle => "Action title cannot be empty",
            NameError::TitleTooLong => "Action title cannot be longer than 100 characters",
        }
    }
}

/// Whether `s` holds the character `c`.
pub open spec fn has_char(s: Seq<char>, c: char) -> bool {
    exists|i: int| 0 <= i < s.len() && s[i] == c
}

fn contains_char(s: &Vec<char>, c: char) -> (r: bool)
    ensures
        r == has_char(s@, c),
{
    let mut i: usize = 0;
    while i < s.len()
        invariant
            i <= s@.len(),
            forall|j: int| 0 <= j < i ==> s@[j] != c,
        decreases s@.len() - i,
    {
        if s[i] == c {
            return true;
        }
        i = i + 1;
    }
    false
}

/// Checks a project name: not empty, no path separator, no leading dot.
pub fn validate_project_name(name: &str) -> (r: Result<(), NameError>)
    ensures
        name@.len() == 0 ==> r == Err::<(), NameError>(NameError::EmptyProjectName),
        name@.len() > 0 && (has_char(name@, '/') || has_char(name@, '\\')) ==> r == Err::<
            (),
            NameError,
        >(NameError::ProjectNameHasSeparator),
        name@.len() > 0 && !has_char(name@, '/') && !has_char(name@, '\\') && name@[0] == '.'
            ==> r == Err::<(), NameError>(NameError::ProjectNameStartsWithDot),
        r is Ok <==> (name@.len() > 0 && !has_char(name@, '/') && !has_char(name@, '\\')
            && name@[0] != '.'),
{
    let v = chars_of(name);
    if v.len() == 0 {
        return Err(NameError::EmptyProjectName);
    }
    if contains_char(&v, '/') || contains_char(&v, '\\') {
        return Err(NameError::ProjectNameHasSeparator);
    }
    if v[0] == '.' {
        return Err(NameError::ProjectNameStartsWithDot);
    }
    Ok(())
}

/// Checks an action title: not empty, at most 100 bytes long in UTF-8.
pub fn validate_action_title(title: &str) -> (r: Result<(), NameError>)
    ensures
        title@.len() == 0 ==> r == Err::<(), NameError>(NameError::EmptyTitle),
        title@.len() > 0 && title.len() > 100 ==> r == Err::<(), NameError>(
            NameError::TitleTooLong,
        ),
        r is Ok <==> (title@.len() > 0 && title.len() <= 100),
{
    if title.is_empty() {
        return Err(NameError::EmptyTitle);
    }
    if title.len() > 100 {
        return Err(NameError::TitleTooLong);
    }
    Ok(())
}

/// What remains of a path after a base path is taken off its front, by whole
/// components; none where the base is not a prefix.
pub uninterp spec fn path_after(path: Seq<char>, base: Seq<char>) -> Option<Seq<char>>;

/// Relies on std's `Path::strip_prefix`: the rest of `path` below `base`,
/// shown as text; none where `base` is not a leading part of `path`.
#[verifier::external_body]
fn strip_path_prefix(path: &str, base: &str) -> (r: Option<String>)
    ensures
        match path_after(path@, base@) {
            Some(x) => r matches Some(s) && s@ == x,
            None => r is None,
        },
{
    match std::path::Path::new(path).strip_prefix(base) {
        Ok(rest) => Some(rest.display().to_string()),
        Err(_) => None,
    }
}

/// A path shown relative to `base` where it lies below it, else in full.
pub fn format_relative_path(path: &str, base: &str) -> (r: String)
    ensures
        r@ == match path_after(path@, base@) {
            Some(x) => x,
            None => path@,
        },
{
    match strip_path_prefix(path, base) {
        Some(s) => s,
        None => String::from_str(path),
    }
}

} // verus!
