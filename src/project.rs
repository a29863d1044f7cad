use vstd::prelude::*;
use vstd::string::StringExecFns;

use crate::action::Action;
use crate::error::WorkspaceError;
use crate::paths::{action_file_name, action_file_name_of, join, join_path};
use crate::text::str_eq;
use crate::status::Status;

verus! {

/// Index of the first action titled `t`, or the length when there is none.
pub open spec fn find_title(s: Seq<Action>, t: Seq<char>) -> int
    decreases s.len(),
{
    if s.len() == 0 {
        0
    } else if s[0].title@ == t {
        0
    } else {
        1 + find_title(s.drop_first(), t)
    }
}

/// The action titled `t`, if any.
pub open spec fn lookup(s: Seq<Action>, t: Seq<char>) -> Option<Action> {
    let i = find_title(s, t);
    if 0 <= i < s.len() {
        Some(s[i])
    } else {
        None
    }
}

pub proof fn lemma_find_title_bounds(s: Seq<Action>, t: Seq<char>)
    ensures
        0 <= find_title(s, t) <= s.len(),
        find_title(s, t) < s.len() ==> s[find_title(s, t)].title@ == t,
        forall|k: int| 0 <= k < find_title(s, t) ==> s[k].title@ != t,
    decreases s.len(),
{
    if s.len() > 0 && s[0].title@ != t {
        lemma_find_title_bounds(s.drop_first(), t);
        assert forall|k: int| 0 <= k < find_title(s, t) implies s[k].title@ != t by {
            if k > 0 {
                assert(s[k] == s.drop_first()[k - 1]);
            }
        }
    }
}

pub proof fn lemma_find_title_at(s: Seq<Action>, t: Seq<char>, m: int)
    requires
        0 <= m <= s.len(),
        m == s.len() || s[m].title@ == t,
        forall|k: int| 0 <= k < m ==> s[k].title@ != t,
    ensures
        find_title(s, t) == m,
    decreases s.len(),
{
    if s.len() > 0 && m > 0 {
        lemma_find_title_at(s.drop_first(), t, m - 1);
    }
}

/// Index of the action titled `t` in `v`; the length when there is none.
pub fn position_of(v: &Vec<Action>, t: &str) -> (r: usize)
    ensures
        r == find_title(v@, t@),
{
    let mut i: usize = 0;
    while i < v.len()
        invariant
            i <= v@.len(),
            forall|k: int| 0 <= k < i ==> v@[k].title@ != t@,
        decreases v@.len() - i,
    {
        if str_eq(v[i].title.as_str(), t) {
            proof {
                lemma_find_title_at(v@, t@, i as int);
            }
            return i;
        }
        i = i + 1;
    }
    proof {
        lemma_find_title_at(v@, t@, i as int);
    }
    i
}

/// The actions of `s` at stage `st`, in order.
pub open spec fn with_status(s: Seq<Action>, st: Status) -> Seq<Action>
    decreases s.len(),
{
    if s.len() == 0 {
        Seq::empty()
    } else if s.last().status == st {
        with_status(s.drop_last(), st).push(s.last())
    } else {
        with_status(s.drop_last(), st)
    }
}

/// The priority actions of `s`, in order.
pub open spec fn with_priority(s: Seq<Action>) -> Seq<Action>
    decreases s.len(),
{
    if s.len() == 0 {
        Seq::empty()
    } else if s.last().priority {
        with_priority(s.drop_last()).push(s.last())
    } else {
        with_priority(s.drop_last())
    }
}

/// The actions that references point to.
pub open spec fn deref_all(s: Seq<&Action>) -> Seq<Action> {
    s.map_values(|a: &Action| *a)
}

/// Template text of the notes of a new action.
pub open spec fn notes_template() -> Seq<char> {
    "General notes on the task"@
}

/// Template text of the statement of action of a new action.
pub open spec fn action_template() -> Seq<char> {
    "The task to be performed, more in depth than title, may include why the action is needed"@
}

/// Template text of the statement of inputs of a new action.
pub open spec fn inputs_template() -> Seq<char> {
    "A list of .md links to other markdown files"@
}

/// Whether `file` is the directory `dir` joined with some name.
pub open spec fn lies_in(dir: Seq<char>, file: Seq<char>) -> bool {
    exists|n: Seq<char>| file == #[trigger] join_path(dir, n)
}

/// A named directory of actions, indexed by title.
#[derive(Debug)]
pub struct Project {
    pub name: String,
    pub path: String,
    pub actions: Vec<Action>,
}

impl Project {
    pub open spec fn actions(&self) -> Seq<Action> {
        self.actions@
    }

    /// Titles are unique; every action belongs to this project, is well
    /// formed, and has its file in the project's directory.
    pub open spec fn wf(&self) -> bool {
        &&& forall|i: int, j: int|
            0 <= i < j < self.actions().len() ==> self.actions()[i].title@
                != self.actions()[j].title@
        &&& forall|i: int|
            0 <= i < self.actions().len() ==> (#[trigger] self.actions()[i]).project@
                == self.name@ && self.actions()[i].wf() && lies_in(
                self.path@,
                self.actions()[i].file_path@,
            )
    }

    /// An empty project.
    pub fn new(name: String, path: String) -> (r: Project)
        ensures
            r.wf(),
            r.name == name,
            r.path == path,
            r.actions().len() == 0,
    {
        Project { name, path, actions: Vec::new() }
    }

    /// Adds an action, replacing one with the same title.
    pub fn insert_action(&mut self, action: Action)
        requires
            old(self).wf(),
            action.wf(),
            action.project@ == old(self).name@,
            lies_in(old(self).path@, action.file_path@),
        ensures
            final(self).wf(),
            final(self).name == old(self).name,
            final(self).path == old(self).path,
            ({
                let i = find_title(old(self).actions(), action.title@);
                if i < old(self).actions().len() {
                    final(self).actions() == old(self).actions().update(i, action)
                } else {
                    final(self).actions() == old(self).actions().push(action)
                }
            }),
    {
        let i = position_of(&self.actions, action.title.as_str());
        proof {
            lemma_find_title_bounds(self.actions@, action.title@);
        }
        if i < self.actions.len() {
            self.actions.remove(i);
            self.actions.insert(i, action);
            assert(self.actions@ =~= old(self).actions@.update(i as int, action));
        } else {
            self.actions.push(action);
        }
    }

    /// Where the document of an action with this title lives.
    pub fn action_path(&self, title: &str) -> (r: String)
        ensures
            r@ == join_path(self.path@, action_file_name(title@)),
    {
        let f = action_file_name_of(title);
        join(self.path.as_str(), f.as_str())
    }

    /// Makes a new action from the template, unless a document already sits
    /// at its location (`file_exists`). The new action is indexed, in place
    /// of one the project may already hold under that title, and returned;
    /// the caller writes its document.
    pub fn create_action(&mut self, title: &str, priority: bool, file_exists: bool) -> (r: Result<
        Action,
        WorkspaceError,
    >)
        requires
            old(self).wf(),
        ensures
            final(self).wf(),
            final(self).name == old(self).name,
            final(self).path == old(self).path,
            file_exists ==> (r matches Err(WorkspaceError::AlreadyExists { project, title: t })
                && project@ == old(self).name@ && t@ == title@ && *final(self) == *old(self)),
            !file_exists ==> (r matches Ok(a) && {
                &&& a.wf()
                &&& a.title@ == title@
                &&& a.project@ == old(self).name@
                &&& a.priority == priority
                &&& a.status == Status::Discovery
                &&& a.file_path@ == join_path(old(self).path@, action_file_name(title@))
                &&& a.notes matches Some(n) && n@ == notes_template()
                &&& a.statement_of_action matches Some(n) && n@ == action_template()
                &&& a.statement_of_inputs matches Some(n) && n@ == inputs_template()
                &&& a.statement_of_design is None
                &&& a.analysis_of_impact is None
                &&& lookup(final(self).actions(), title@) == Some(a)
                &&& ({
                    let i = find_title(old(self).actions(), title@);
                    if i < old(self).actions().len() {
                        final(self).actions() == old(self).actions().update(i, a)
                    } else {
                        final(self).actions() == old(self).actions().push(a)
                    }
                })
            }),
    {
        if file_exists {
            return Err(
                WorkspaceError::AlreadyExists {
                    project: self.name.clone(),
                    title: String::from_str(title),
                },
            );
        }
        let mut action = Action::new(self.name.clone(), String::from_str(title), priority);
        action.file_path = self.action_path(title);
        action.notes = Some(String::from_str("General notes on the task"));
        action.statement_of_action = Some(
            String::from_str(
                "The task to be performed, more in depth than title, may include why the action is needed",
            ),
        );
        action.statement_of_inputs = Some(
            String::from_str("A list of .md links to other markdown files"),
        );
        assert(lies_in(self.path@, join_path(self.path@, action_file_name(title@))));
        let copy = action.duplicate();
        self.insert_action(copy);
        proof {
            let o = old(self).actions();
            lemma_find_title_bounds(o, title@);
            let i = find_title(o, title@);
            assert forall|k: int| 0 <= k < i implies self.actions@[k].title@ != title@ by {
                assert(self.actions@[k] == o[k]);
            }
            lemma_find_title_at(self.actions@, title@, i);
        }
        Ok(action)
    }

    /// The action with this title, if any.
    pub fn get_action(&self, title: &str) -> (r: Option<&Action>)
        ensures
            match r {
                Some(a) => lookup(self.actions(), title@) == Some(*a),
                None => lookup(self.actions(), title@) is None,
            },
    {
        let i = position_of(&self.actions, title);
        proof {
            lemma_find_title_bounds(self.actions@, title@);
        }
        if i < self.actions.len() {
            Some(&self.actions[i])
        } else {
            None
        }
    }

    /// Sets the stage of the action with this title; the caller writes its
    /// document again.
    pub fn update_action_status(&mut self, title: &str, status: Status) -> (r: Result<
        (),
        WorkspaceError,
    >)
        requires
            old(self).wf(),
        ensures
            final(self).wf(),
            final(self).name == old(self).name,
            final(self).path == old(self).path,
            final(self).actions().len() == old(self).actions().len(),
            match lookup(old(self).actions(), title@) {
                None => r matches Err(WorkspaceError::ActionNotFound { project, title: t })
                    && project@ == old(self).name@ && t@ == title@ && *final(self) == *old(self),
                Some(a) => {
                    &&& r is Ok
                    &&& (lookup(final(self).actions(), title@) matches Some(b) && b.same_but_time(
                        &(Action { status, ..a }),
                    ))
                    &&& forall|j: int|
                        0 <= j < old(self).actions().len() && j != find_title(
                            old(self).actions(),
                            title@,
                        ) ==> final(self).actions()[j] == old(self).actions()[j]
                },
            },
    {
        let i = position_of(&self.actions, title);
        proof {
            lemma_find_title_bounds(self.actions@, title@);
        }
        if i >= self.actions.len() {
            return Err(
                WorkspaceError::ActionNotFound {
                    project: self.name.clone(),
                    title: String::from_str(title),
                },
            );
        }
        let mut a = self.actions.remove(i);
        a.set_status(status);
        self.actions.insert(i, a);
        proof {
            assert(self.actions@ =~= old(self).actions@.update(i as int, a));
            lemma_find_title_at(self.actions@, title@, i as int);
        }
        Ok(())
    }

    /// Sets the priority flag of the action with this title; the caller
    /// writes its document again.
    pub fn set_action_priority(&mut self, title: &str, priority: bool) -> (r: Result<
        (),
        WorkspaceError,
    >)
        requires
            old(self).wf(),
        ensures
            final(self).wf(),
            final(self).name == old(self).name,
            final(self).path == old(self).path,
            final(self).actions().len() == old(self).actions().len(),
            match lookup(old(self).actions(), title@) {
                None => r matches Err(WorkspaceError::ActionNotFound { project, title: t })
                    && project@ == old(self).name@ && t@ == title@ && *final(self) == *old(self),
                Some(a) => {
                    &&& r is Ok
                    &&& (lookup(final(self).actions(), title@) matches Some(b) && b.same_but_time(
                        &(Action { priority, ..a }),
                    ))
                    &&& forall|j: int|
                        0 <= j < old(self).actions().len() && j != find_title(
                            old(self).actions(),
                            title@,
                        ) ==> final(self).actions()[j] == old(self).actions()[j]
                },
            },
    {
        let i = position_of(&self.actions, title);
        proof {
            lemma_find_title_bounds(self.actions@, title@);
        }
        if i >= self.actions.len() {
            return Err(
                WorkspaceError::ActionNotFound {
                    project: self.name.clone(),
                    title: String::from_str(title),
                },
            );
        }
        let mut a = self.actions.remove(i);
        a.set_priority(priority);
        self.actions.insert(i, a);
        proof {
            assert(self.actions@ =~= old(self).actions@.update(i as int, a));
            lemma_find_title_at(self.actions@, title@, i as int);
        }
        Ok(())
    }

    /// Every action of the project.
    pub fn list_actions(&self) -> (r: Vec<&Action>)
        ensures
            deref_all(r@) == self.actions(),
    {
        let mut r: Vec<&Action> = Vec::new();
        let mut i: usize = 0;
        while i < self.actions.len()
            invariant
                i <= self.actions@.len(),
                deref_all(r@) == self.actions@.subrange(0, i as int),
            decreases self.actions@.len() - i,
        {
            let ghost old_r = r@;
            r.push(&self.actions[i]);
            assert(deref_all(r@) =~= deref_all(old_r).push(self.actions@[i as int]));
            assert(self.actions@.subrange(0, i + 1) =~= self.actions@.subrange(0, i as int).push(
                self.actions@[i as int],
            ));
            i = i + 1;
        }
        assert(self.actions@.subrange(0, i as int) =~= self.actions@);
        r
    }

    /// The actions at a stage.
    pub fn actions_by_status(&self, status: &Status) -> (r: Vec<&Action>)
        ensures
            deref_all(r@) == with_status(self.actions(), *status),
    {
        let mut r: Vec<&Action> = Vec::new();
        let mut i: usize = 0;
        while i < self.actions.len()
            invariant
                i <= self.actions@.len(),
                deref_all(r@) == with_status(self.actions@.subrange(0, i as int), *status),
            decreases self.actions@.len() - i,
        {
            proof {
                assert(self.actions@.subrange(0, i + 1).drop_last() =~= self.actions@.subrange(
                    0,
                    i as int,
                ));
            }
            if self.actions[i].status == *status {
                r.push(&self.actions[i]);
            }
            i = i + 1;
            assert(deref_all(r@) =~= with_status(self.actions@.subrange(0, i as int), *status));
        }
        assert(self.actions@.subrange(0, i as int) =~= self.actions@);
        r
    }

    /// The actions marked as priority.
    pub fn priority_actions(&self) -> (r: Vec<&Action>)
        ensures
            deref_all(r@) == with_priority(self.actions()),
    {
        let mut r: Vec<&Action> = Vec::new();
        let mut i: usize = 0;
        while i < self.actions.len()
            invariant
                i <= self.actions@.len(),
                deref_all(r@) == with_priority(self.actions@.subrange(0, i as int)),
            decreases self.actions@.len() - i,
        {
            proof {
                assert(self.actions@.subrange(0, i + 1).drop_last() =~= self.actions@.subrange(
                    0,
                    i as int,
                ));
            }
            if self.actions[i].priority {
                r.push(&self.actions[i]);
            }
            i = i + 1;
            assert(deref_all(r@) =~= with_priority(self.actions@.subrange(0, i as int)));
        }
        assert(self.actions@.subrange(0, i as int) =~= self.actions@);
        r
    }

    /// Location of the meta-graph directory of the action with this title.
    pub fn meta_graph_path(&self, title: &str) -> (r: Result<String, WorkspaceError>)
        ensures
            match lookup(self.actions(), title@) {
                Some(a) => r matches Ok(p) && p@ == crate::paths::without_extension(a.file_path@),
                None => r matches Err(WorkspaceError::ActionNotFound { project, title: t })
                    && project@ == self.name@ && t@ == title@,
            },
    {
        match self.get_action(title) {
            Some(a) => Ok(a.meta_graph_path()),
            None => Err(
                WorkspaceError::ActionNotFound {
                    project: self.name.clone(),
                    title: String::from_str(title),
                },
            ),
        }
    }

    pub fn name(&self) -> (r: &str)
        ensures
            r@ == self.name@,
    {
        self.name.as_str()
    }

    pub fn path(&self) -> (r: &str)
        ensures
            r@ == self.path@,
    {
        self.path.as_str()
    }
}

} // verus!
