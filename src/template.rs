use vstd::prelude::*;
use vstd::string::StringExecFns;

use crate::action::{project_slug, slug_of, stamp_text};
use crate::stamp::{fresh_id, id_text, now, timestamp_text, uuid_text, ActionId, Timestamp};
use crate::status::{status_name, Status};

verus! {

/// The starting document of a new action, with guidance text in each section
/// that its stage asks for.
#[derive(Debug, Clone)]
pub struct ActionTemplate {
    pub id: ActionId,
    pub title: String,
    pub project: String,
    pub status: Status,
    pub priority: bool,
    pub created_at: Timestamp,
}

/// The guidance sections of a template at a stage.
pub open spec fn template_sections(st: Status) -> Seq<char> {
    "## Notes\n\nGeneral notes on the task\n\n"@
        + "## Statement of Action\n\nThe task to be performed, more in depth than title, may include why the action is needed\n\n"@
        + "## Statement of Inputs\n\nA list of .md links to other markdown files:\n\n- [Related Action](../other-project/related-action.md)\n\n"@
        + (if st != Status::Discovery {
        "## Statement of Design\n\n### Output\n\nThe action produced by the design\n\n### Design\n\nA detailed design for how to proceed\n\n"@
    } else {
        Seq::empty()
    }) + (if st == Status::Document || st == Status::Publish || st == Status::Published {
        "## Analysis of Impact\n\nAnalysis of the impact and outcomes of this action\n\n"@
    } else {
        Seq::empty()
    })
}

/// The whole template document.
pub open spec fn template_text(t: ActionTemplate) -> Seq<char> {
    "---\n"@ + "id: "@ + uuid_text(t.id.value) + "\n"@ + "created_at: "@ + stamp_text(t.created_at)
        + "\n"@ + "updated_at: "@ + stamp_text(t.created_at) + "\n"@ + "---\n\n"@ + "# "@ + t.title@
        + "\n\n"@ + "#project #action #"@ + status_name(t.status) + " #"@ + project_slug(t.project@)
        + (if t.priority {
        " #priority"@
    } else {
        Seq::empty()
    }) + "\n\n"@ + template_sections(t.status)
}

impl ActionTemplate {
    /// A template at the first stage, with a fresh identifier, made now.
    pub fn new(project: String, title: String, priority: bool) -> (r: ActionTemplate)
        ensures
            r.project == project,
            r.title == title,
            r.priority == priority,
            r.status == Status::Discovery,
    {
        ActionTemplate {
            id: fresh_id(),
            title,
            project,
            status: Status::Discovery,
            priority,
            created_at: now(),
        }
    }

    /// The template document.
    pub fn to_markdown(&self) -> (r: String)
        ensures
            r@ == template_text(*self),
    {
        let mut s = String::from_str("---\n");
        s.append("id: ");
        let idt = id_text(self.id);
        s.append(idt.as_str());
        s.append("\n");
        let stamp = match timestamp_text(self.created_at) {
            Some(x) => x,
            None => String::new(),
        };
        s.append("created_at: ");
        s.append(stamp.as_str());
        s.append("\n");
        s.append("updated_at: ");
        s.append(stamp.as_str());
        s.append("\n");
        s.append("---\n\n");
        s.append("# ");
        s.append(self.title.as_str());
        s.append("\n\n");
        s.append("#project #action #");
        s.append(self.status.as_str());
        s.append(" #");
        let slug = slug_of(self.project.as_str());
        s.append(slug.as_str());
        if self.priority {
            s.append(" #priority");
        }
        s.append("\n\n");
        let ghost head = s@;
        s.append("## Notes\n\nGeneral notes on the task\n\n");
        s.append(
            "## Statement of Action\n\nThe task to be performed, more in depth than title, may include why the action is needed\n\n",
        );
        s.append(
            "## Statement of Inputs\n\nA list of .md links to other markdown files:\n\n- [Related Action](../other-project/related-action.md)\n\n",
        );
        if self.status != Status::Discovery {
            s.append(
                "## Statement of Design\n\n### Output\n\nThe action produced by the design\n\n### Design\n\nA detailed design for how to proceed\n\n",
            );
        }
        match self.status {
            Status::Document | Status::Publish | Status::Published => {
                s.append(
                    "## Analysis of Impact\n\nAnalysis of the impact and outcomes of this action\n\n",
                );
            },
            _ => {},
        }
        assert(s@ =~= head + template_sections(self.status));
        assert(s@ =~= template_text(*self));
        s
    }
}

/// The README text placed at the root of a new workspace.
pub open spec fn workspace_readme() -> Seq<char> {
    "# Action Lite Workspace\n\nThis directory is an Action Lite workspace. Each subdirectory is a project, and each markdown file in a project is an action.\n\n## Layout\n\n- `.action-lite` marks the workspace root.\n- `<project>/<action>.md` holds one action.\n- `<project>/<action>/` holds the action's meta-graph, if it has one.\n\n## Stages\n\nActions move through discovery, design, implement, test, document, publish and published.\n"@
}

/// The README text placed at the root of a new workspace.
pub fn get_workspace_readme() -> (r: &'static str)
    ensures
        r@ == workspace_readme(),
{
    "# Action Lite Workspace\n\nThis directory is an Action Lite workspace. Each subdirectory is a project, and each markdown file in a project is an action.\n\n## Layout\n\n- `.action-lite` marks the workspace root.\n- `<project>/<action>.md` holds one action.\n- `<project>/<action>/` holds the action's meta-graph, if it has one.\n\n## Stages\n\nActions move through discovery, design, implement, test, document, publish and published.\n"
}

/// The README text of a project directory, headed by the project's name.
pub fn get_project_readme(project_name: &str) -> (r: String)
    ensures
        r@ == "# "@ + project_name@
            + "\n\nThis is a project directory in the Action Lite workspace.\n\n## Actions\n\nActions for this project are stored as markdown files in this directory.\n\n## Meta-graphs\n\nMeta-graph directories (if any) are stored alongside their corresponding action files.\n"@,
{
    let mut s = String::from_str("# ");
    s.append(project_name);
    s.append(
        "\n\nThis is a project directory in the Action Lite workspace.\n\n## Actions\n\nActions for this project are stored as markdown files in this directory.\n\n## Meta-graphs\n\nMeta-graph directories (if any) are stored alongside their corresponding action files.\n",
    );
    s
}

} // verus!
