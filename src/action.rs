use vstd::prelude::*;
use vstd::string::StringExecFns;

use crate::paths::{strip_extension, without_extension};
use crate::parser::{parse_meta, parse_sections, MarkdownParser};
use crate::stamp::{
    fresh_id, id_text, later, now, parse_id, parse_timestamp, rfc3339_instant, rfc3339_text,
    timestamp_text, ts_le, uuid_text, uuid_value, ActionId, Timestamp,
};
use crate::status::{parse_status, status_name, Status};
use crate::text::{
    ascii_lower, ascii_lower_str, chars_of, lower_of, lowercase, str_eq, string_from_chars,
};

verus! {

/// One unit of work, stored as one markdown document.
#[derive(Debug, Clone)]
pub struct Action {
    pub id: ActionId,
    pub title: String,
    pub project: String,
    pub status: Status,
    pub priority: bool,
    pub created_at: Timestamp,
    pub updated_at: Timestamp,
    pub file_path: String,
    pub notes: Option<String>,
    pub statement_of_action: Option<String>,
    pub statement_of_inputs: Option<String>,
    pub statement_of_design: Option<String>,
    pub analysis_of_impact: Option<String>,
}

/// The characters of an optional string.
pub open spec fn opt_view(o: Option<String>) -> Option<Seq<char>> {
    match o {
        Some(s) => Some(s@),
        None => None,
    }
}

/// The characters of an optional borrowed string.
pub open spec fn ref_view(o: Option<&String>) -> Option<Seq<char>> {
    match o {
        Some(s) => Some(s@),
        None => None,
    }
}

/// The value of `k` in `m`, if any.
pub open spec fn entry(m: Map<Seq<char>, Seq<char>>, k: Seq<char>) -> Option<Seq<char>> {
    if m.contains_key(k) {
        Some(m[k])
    } else {
        None
    }
}

/// The RFC 3339 text of an instant; empty where it cannot be represented.
pub open spec fn stamp_text(t: Timestamp) -> Seq<char> {
    match rfc3339_text(t.secs, t.nanos) {
        Some(x) => x,
        None => Seq::empty(),
    }
}

/// `s` with each space replaced by a hyphen.
pub open spec fn hyphenate(s: Seq<char>) -> Seq<char> {
    s.map_values(|c: char| if c == ' ' { '-' } else { c })
}

/// The tag that names a project: hyphens for spaces, then lowercase.
pub open spec fn project_slug(p: Seq<char>) -> Seq<char> {
    lower_of(hyphenate(p))
}

/// Text of the metadata value of the priority flag.
pub open spec fn bool_text(b: bool) -> Seq<char> {
    if b {
        "true"@
    } else {
        "false"@
    }
}

/// A section as it is written: present only when it is not empty.
pub open spec fn section_block(name: Seq<char>, c: Option<String>) -> Seq<char> {
    match c {
        Some(x) => if x@.len() > 0 {
            "## "@ + name + "\n\n"@ + x@ + "\n\n"@
        } else {
            Seq::empty()
        },
        None => Seq::empty(),
    }
}

/// The metadata block of an action's document.
pub open spec fn front_text(a: Action) -> Seq<char> {
    "---\n"@ + "id: "@ + uuid_text(a.id.value) + "\n"@ + "created_at: "@ + stamp_text(a.created_at)
        + "\n"@ + "updated_at: "@ + stamp_text(a.updated_at) + "\n"@ + "status: "@ + status_name(
        a.status,
    ) + "\n"@ + "priority: "@ + bool_text(a.priority) + "\n"@ + "---\n\n"@
}

/// The tag line of an action's document.
pub open spec fn tag_line(a: Action) -> Seq<char> {
    "#project #"@ + project_slug(a.project@) + " #"@ + status_name(a.status) + (if a.priority {
        " #priority"@
    } else {
        Seq::empty()
    })
}

/// The sections of an action's document, in their fixed order.
pub open spec fn sections_text(a: Action) -> Seq<char> {
    section_block("Notes"@, a.notes) + section_block("Statement of Action"@, a.statement_of_action)
        + section_block("Statement of Inputs"@, a.statement_of_inputs) + section_block(
        "Statement of Design"@,
        a.statement_of_design,
    ) + section_block("Analysis of Impact"@, a.analysis_of_impact)
}

/// The whole document of an action.
pub open spec fn render(a: Action) -> Seq<char> {
    front_text(a) + "# "@ + a.title@ + "\n\n"@ + tag_line(a) + "\n\n"@ + sections_text(a)
}

/// The status that metadata records; the first stage where it records none
/// that parses.
pub open spec fn meta_status(m: Map<Seq<char>, Seq<char>>) -> Status {
    match entry(m, "status"@) {
        Some(v) => match parse_status(v) {
            Some(s) => s,
            None => Status::Discovery,
        },
        None => Status::Discovery,
    }
}

/// The priority flag that metadata records: `true` in any letter case.
pub open spec fn meta_priority(m: Map<Seq<char>, Seq<char>>) -> bool {
    match entry(m, "priority"@) {
        Some(v) => ascii_lower(v) == "true"@,
        None => false,
    }
}

/// The instant that metadata records under `k`, if it parses.
pub open spec fn meta_instant(m: Map<Seq<char>, Seq<char>>, k: Seq<char>) -> Option<Timestamp> {
    match entry(m, k) {
        Some(v) => match rfc3339_instant(v) {
            Some(p) => Some(Timestamp { secs: p.0, nanos: p.1 }),
            None => None,
        },
        None => None,
    }
}

/// The identifier that metadata records, if it parses.
pub open spec fn meta_id(m: Map<Seq<char>, Seq<char>>) -> Option<ActionId> {
    match entry(m, "id"@) {
        Some(v) => match uuid_value(v) {
            Some(x) => Some(ActionId { value: x }),
            None => None,
        },
        None => None,
    }
}

impl Action {
    /// Never updated before it was created.
    pub open spec fn wf(&self) -> bool {
        ts_le(self.created_at, self.updated_at)
    }

    /// All fields but the modification time agree.
    pub open spec fn same_but_time(&self, o: &Action) -> bool {
        &&& self.id == o.id
        &&& self.title == o.title
        &&& self.project == o.project
        &&& self.status == o.status
        &&& self.priority == o.priority
        &&& self.created_at == o.created_at
        &&& self.file_path == o.file_path
        &&& self.notes == o.notes
        &&& self.statement_of_action == o.statement_of_action
        &&& self.statement_of_inputs == o.statement_of_inputs
        &&& self.statement_of_design == o.statement_of_design
        &&& self.analysis_of_impact == o.analysis_of_impact
    }

    /// A new action at the first stage, with a fresh identifier, no sections
    /// and no file location yet.
    pub fn new(project: String, title: String, priority: bool) -> (r: Action)
        ensures
            r.wf(),
            r.title == title,
            r.project == project,
            r.priority == priority,
            r.status == Status::Discovery,
            r.created_at == r.updated_at,
            r.file_path@.len() == 0,
            r.notes is None,
            r.statement_of_action is None,
            r.statement_of_inputs is None,
            r.statement_of_design is None,
            r.analysis_of_impact is None,
    {
        let t = now();
        Action {
            id: fresh_id(),
            title,
            project,
            status: Status::Discovery,
            priority,
            created_at: t,
            updated_at: t,
            file_path: String::new(),
            notes: None,
            statement_of_action: None,
            statement_of_inputs: None,
            statement_of_design: None,
            analysis_of_impact: None,
        }
    }

    /// Rebuilds an action from its document. Title and project come from the
    /// file's location, never from the text. What the metadata lacks or
    /// cannot be parsed falls back: a fresh identifier, the first stage, no
    /// priority, the current time. The modification time is never earlier
    /// than the creation time.
    pub fn from_markdown(file_path: String, title: String, project: String, content: &str) -> (r:
        Action)
        ensures
            r.wf(),
            r.title == title,
            r.project == project,
            r.file_path == file_path,
            r.status == meta_status(parse_meta(content@)),
            r.priority == meta_priority(parse_meta(content@)),
            meta_id(parse_meta(content@)) matches Some(i) ==> r.id == i,
            meta_instant(parse_meta(content@), "created_at"@) matches Some(t) ==> r.created_at == t,
            meta_instant(parse_meta(content@), "updated_at"@) matches Some(t) ==> r.updated_at == (
            if ts_le(t, r.created_at) {
                r.created_at
            } else {
                t
            }),
            opt_view(r.notes) == entry(parse_sections(content@), "Notes"@),
            opt_view(r.statement_of_action) == entry(
                parse_sections(content@),
                "Statement of Action"@,
            ),
            opt_view(r.statement_of_inputs) == entry(
                parse_sections(content@),
                "Statement of Inputs"@,
            ),
            opt_view(r.statement_of_design) == entry(
                parse_sections(content@),
                "Statement of Design"@,
            ),
            opt_view(r.analysis_of_impact) == entry(parse_sections(content@), "Analysis of Impact"@),
    {
        let parser = MarkdownParser::new(content);
        let (metadata, sections) = parser.parse();
        let id = match metadata.get("id") {
            Some(v) => match parse_id(v.as_str()) {
                Some(i) => i,
                None => fresh_id(),
            },
            None => fresh_id(),
        };
        let status = match metadata.get("status") {
            Some(v) => match Status::from_str(v.as_str()) {
                Ok(s) => s,
                Err(_) => Status::Discovery,
            },
            None => Status::Discovery,
        };
        proof {
            reveal_strlit("true");
        }
        let priority = match metadata.get("priority") {
            Some(v) => {
                let l = ascii_lower_str(v.as_str());
                str_eq(l.as_str(), "true")
            },
            None => false,
        };
        let created_at = match metadata.get("created_at") {
            Some(v) => match parse_timestamp(v.as_str()) {
                Some(t) => t,
                None => now(),
            },
            None => now(),
        };
        let updated = match metadata.get("updated_at") {
            Some(v) => match parse_timestamp(v.as_str()) {
                Some(t) => t,
                None => now(),
            },
            None => now(),
        };
        let updated_at = later(updated, created_at);
        Action {
            id,
            title,
            project,
            status,
            priority,
            created_at,
            updated_at,
            file_path,
            notes: cloned(sections.get("Notes")),
            statement_of_action: cloned(sections.get("Statement of Action")),
            statement_of_inputs: cloned(sections.get("Statement of Inputs")),
            statement_of_design: cloned(sections.get("Statement of Design")),
            analysis_of_impact: cloned(sections.get("Analysis of Impact")),
        }
    }
}

impl Action {
    /// The document of the action: metadata, title heading, tag line and
    /// each section that has content, in the fixed order.
    pub fn to_markdown(&self) -> (r: String)
        ensures
            r@ == render(*self),
    {
        let mut s = String::from_str("---\n");
        s.append("id: ");
        let idt = id_text(self.id);
        s.append(idt.as_str());
        s.append("\n");
        s.append("created_at: ");
        append_stamp(&mut s, self.created_at);
        s.append("\n");
        s.append("updated_at: ");
        append_stamp(&mut s, self.updated_at);
        s.append("\n");
        s.append("status: ");
        s.append(self.status.as_str());
        s.append("\n");
        s.append("priority: ");
        s.append(if self.priority {
            "true"
        } else {
            "false"
        });
        s.append("\n");
        s.append("---\n\n");
        let ghost front = s@;
        assert(front =~= front_text(*self));
        s.append("# ");
        s.append(self.title.as_str());
        s.append("\n\n");
        s.append("#project #");
        let slug = slug_of(self.project.as_str());
        s.append(slug.as_str());
        s.append(" #");
        s.append(self.status.as_str());
        if self.priority {
            s.append(" #priority");
        }
        s.append("\n\n");
        let ghost head = s@;
        assert(head =~= front_text(*self) + "# "@ + self.title@ + "\n\n"@ + tag_line(*self)
            + "\n\n"@);
        append_section(&mut s, "Notes", &self.notes);
        append_section(&mut s, "Statement of Action", &self.statement_of_action);
        append_section(&mut s, "Statement of Inputs", &self.statement_of_inputs);
        append_section(&mut s, "Statement of Design", &self.statement_of_design);
        append_section(&mut s, "Analysis of Impact", &self.analysis_of_impact);
        assert(s@ =~= render(*self));
        s
    }

    pub fn title(&self) -> (r: &str)
        ensures
            r@ == self.title@,
    {
        self.title.as_str()
    }

    pub fn project(&self) -> (r: &str)
        ensures
            r@ == self.project@,
    {
        self.project.as_str()
    }

    pub fn status(&self) -> (r: &Status)
        ensures
            *r == self.status,
    {
        &self.status
    }

    pub fn is_priority(&self) -> (r: bool)
        ensures
            r == self.priority,
    {
        self.priority
    }

    pub fn notes(&self) -> (r: Option<&String>)
        ensures
            ref_view(r) == opt_view(self.notes),
    {
        self.notes.as_ref()
    }

    pub fn statement_of_action(&self) -> (r: Option<&String>)
        ensures
            ref_view(r) == opt_view(self.statement_of_action),
    {
        self.statement_of_action.as_ref()
    }

    pub fn statement_of_inputs(&self) -> (r: Option<&String>)
        ensures
            ref_view(r) == opt_view(self.statement_of_inputs),
    {
        self.statement_of_inputs.as_ref()
    }

    pub fn statement_of_design(&self) -> (r: Option<&String>)
        ensures
            ref_view(r) == opt_view(self.statement_of_design),
    {
        self.statement_of_design.as_ref()
    }

    pub fn analysis_of_impact(&self) -> (r: Option<&String>)
        ensures
            ref_view(r) == opt_view(self.analysis_of_impact),
    {
        self.analysis_of_impact.as_ref()
    }

    /// A copy of the action.
    pub fn duplicate(&self) -> (r: Action)
        ensures
            r == *self,
    {
        Action {
            id: self.id,
            title: self.title.clone(),
            project: self.project.clone(),
            status: self.status,
            priority: self.priority,
            created_at: self.created_at,
            updated_at: self.updated_at,
            file_path: self.file_path.clone(),
            notes: clone_opt(&self.notes),
            statement_of_action: clone_opt(&self.statement_of_action),
            statement_of_inputs: clone_opt(&self.statement_of_inputs),
            statement_of_design: clone_opt(&self.statement_of_design),
            analysis_of_impact: clone_opt(&self.analysis_of_impact),
        }
    }

    /// Location of the action's meta-graph directory: its file path without
    /// the extension.
    pub fn meta_graph_path(&self) -> (r: String)
        ensures
            r@ == without_extension(self.file_path@),
    {
        strip_extension(self.file_path.as_str())
    }

    /// Stamps the modification time with the current time, never earlier
    /// than the previous modification time.
    pub fn touch(&mut self)
        requires
            old(self).wf(),
        ensures
            final(self).wf(),
            ts_le(old(self).updated_at, final(self).updated_at),
            final(self).same_but_time(old(self)),
    {
        self.updated_at = later(now(), self.updated_at);
    }

    /// Moves the action to another stage; any stage may follow any other.
    pub fn set_status(&mut self, status: Status)
        requires
            old(self).wf(),
        ensures
            final(self).wf(),
            ts_le(old(self).updated_at, final(self).updated_at),
            final(self).same_but_time(&(Action { status, ..*old(self) })),
    {
        self.status = status;
        self.touch();
    }

    pub fn set_priority(&mut self, priority: bool)
        requires
            old(self).wf(),
        ensures
            final(self).wf(),
            ts_le(old(self).updated_at, final(self).updated_at),
            final(self).same_but_time(&(Action { priority, ..*old(self) })),
    {
        self.priority = priority;
        self.touch();
    }

    /// Replaces the content of the section named `section` (in any ASCII
    /// letter case); a name of no known section changes no content. The
    /// modification time is refreshed either way.
    pub fn update_section(&mut self, section: &str, content: Option<String>)
        requires
            old(self).wf(),
        ensures
            final(self).wf(),
            ts_le(old(self).updated_at, final(self).updated_at),
            final(self).same_but_time(
                &(if ascii_lower(section@) == "notes"@ {
                    Action { notes: content, ..*old(self) }
                } else if ascii_lower(section@) == "statement of action"@ {
                    Action { statement_of_action: content, ..*old(self) }
                } else if ascii_lower(section@) == "statement of inputs"@ {
                    Action { statement_of_inputs: content, ..*old(self) }
                } else if ascii_lower(section@) == "statement of design"@ {
                    Action { statement_of_design: content, ..*old(self) }
                } else if ascii_lower(section@) == "analysis of impact"@ {
                    Action { analysis_of_impact: content, ..*old(self) }
                } else {
                    *old(self)
                }),
            ),
    {
        let l = ascii_lower_str(section);
        let k = l.as_str();
        if str_eq(k, "notes") {
            self.notes = content;
        } else if str_eq(k, "statement of action") {
            self.statement_of_action = content;
        } else if str_eq(k, "statement of inputs") {
            self.statement_of_inputs = content;
        } else if str_eq(k, "statement of design") {
            self.statement_of_design = content;
        } else if str_eq(k, "analysis of impact") {
            self.analysis_of_impact = content;
        }
        self.touch();
    }
}

/// Appends the RFC 3339 text of an instant, or nothing where it has none.
fn append_stamp(s: &mut String, t: Timestamp)
    ensures
        final(s)@ == old(s)@ + stamp_text(t),
{
    match timestamp_text(t) {
        Some(x) => s.append(x.as_str()),
        None => {
            assert(old(s)@ + stamp_text(t) =~= old(s)@);
        },
    }
}

/// Appends a section as it is written.
fn append_section(s: &mut String, name: &str, c: &Option<String>)
    ensures
        final(s)@ == old(s)@ + section_block(name@, *c),
{
    match c {
        Some(x) => {
            if x.unicode_len() > 0 {
                s.append("## ");
                s.append(name);
                s.append("\n\n");
                s.append(x.as_str());
                s.append("\n\n");
                assert(final(s)@ =~= old(s)@ + section_block(name@, *c));
            } else {
                assert(old(s)@ + section_block(name@, *c) =~= old(s)@);
            }
        },
        None => {
            assert(old(s)@ + section_block(name@, *c) =~= old(s)@);
        },
    }
}

/// The tag that names a project.
pub fn slug_of(p: &str) -> (r: String)
    ensures
        r@ == project_slug(p@),
{
    let v = chars_of(p);
    let mut w: Vec<char> = Vec::new();
    let mut i: usize = 0;
    while i < v.len()
        invariant
            i <= v@.len(),
            v@ == p@,
            w@ == hyphenate(v@.subrange(0, i as int)),
        decreases v@.len() - i,
    {
        let c = v[i];
        w.push(if c == ' ' { '-' } else { c });
        i = i + 1;
        assert(w@ =~= hyphenate(v@.subrange(0, i as int)));
    }
    assert(v@.subrange(0, v@.len() as int) =~= v@);
    let h = string_from_chars(&w);
    lowercase(h.as_str())
}

fn clone_opt(o: &Option<String>) -> (r: Option<String>)
    ensures
        r == *o,
{
    match o {
        Some(s) => Some(s.clone()),
        None => None,
    }
}

/// An owned copy of an optional borrowed string.
fn cloned(o: Option<&String>) -> (r: Option<String>)
    ensures
        opt_view(r) == match o {
            Some(s) => Some(s@),
            None => None::<Seq<char>>,
        },
{
    match o {
        Some(s) => Some(s.clone()),
        None => None,
    }
}

} // verus!
