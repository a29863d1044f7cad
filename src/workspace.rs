use vstd::prelude::*;
use vstd::string::StringExecFns;

use crate::action::Action;
use crate::error::WorkspaceError;
use crate::order::{compare_key, key_le, lemma_key_order, sorted_by_key};
use crate::paths::{action_file_name, join, join_path, without_extension};
use crate::project::{deref_all, lookup, Project};
use crate::text::str_eq;
use crate::status::{parse_status, required_names, Status};

verus! {

broadcast use vstd::seq_lib::group_to_multiset_ensures;

/// Index of the first project named `n`, or the length when there is none.
pub open spec fn find_name(s: Seq<Project>, n: Seq<char>) -> int
    decreases s.len(),
{
    if s.len() == 0 {
        0
    } else if s[0].name@ == n {
        0
    } else {
        1 + find_name(s.drop_first(), n)
    }
}

/// The project named `n`, if any.
pub open spec fn lookup_project(s: Seq<Project>, n: Seq<char>) -> Option<Project> {
    let i = find_name(s, n);
    if 0 <= i < s.len() {
        Some(s[i])
    } else {
        None
    }
}

proof fn lemma_find_name_bounds(s: Seq<Project>, n: Seq<char>)
    ensures
        0 <= find_name(s, n) <= s.len(),
        find_name(s, n) < s.len() ==> s[find_name(s, n)].name@ == n,
        forall|k: int| 0 <= k < find_name(s, n) ==> s[k].name@ != n,
    decreases s.len(),
{
    if s.len() > 0 && s[0].name@ != n {
        lemma_find_name_bounds(s.drop_first(), n);
        assert forall|k: int| 0 <= k < find_name(s, n) implies s[k].name@ != n by {
            if k > 0 {
                assert(s[k] == s.drop_first()[k - 1]);
            }
        }
    }
}

proof fn lemma_find_name_at(s: Seq<Project>, n: Seq<char>, m: int)
    requires
        0 <= m <= s.len(),
        m == s.len() || s[m].name@ == n,
        forall|k: int| 0 <= k < m ==> s[k].name@ != n,
    ensures
        find_name(s, n) == m,
    decreases s.len(),
{
    if s.len() > 0 && m > 0 {
        lemma_find_name_at(s.drop_first(), n, m - 1);
    }
}

fn project_position(v: &Vec<Project>, n: &str) -> (r: usize)
    ensures
        r == find_name(v@, n@),
{
    let mut i: usize = 0;
    while i < v.len()
        invariant
            i <= v@.len(),
            forall|k: int| 0 <= k < i ==> v@[k].name@ != n@,
        decreases v@.len() - i,
    {
        if str_eq(v[i].name.as_str(), n) {
            proof {
                lemma_find_name_at(v@, n@, i as int);
            }
            return i;
        }
        i = i + 1;
    }
    proof {
        lemma_find_name_at(v@, n@, i as int);
    }
    i
}

/// Whether an action passes the stage and priority filters.
pub open spec fn passes(a: Action, st: Option<Status>, priority_only: bool) -> bool {
    (st matches Some(s) ==> a.status == s) && (priority_only ==> a.priority)
}

/// The actions of `s` that pass the filters, in order.
pub open spec fn pick(s: Seq<Action>, st: Option<Status>, priority_only: bool) -> Seq<Action>
    decreases s.len(),
{
    if s.len() == 0 {
        Seq::empty()
    } else if passes(s.last(), st, priority_only) {
        pick(s.drop_last(), st, priority_only).push(s.last())
    } else {
        pick(s.drop_last(), st, priority_only)
    }
}

/// The actions of the projects (those named `pf`, where it is given) that
/// pass the filters, project by project.
pub open spec fn selection(
    ps: Seq<Project>,
    pf: Option<Seq<char>>,
    st: Option<Status>,
    priority_only: bool,
) -> Seq<Action>
    decreases ps.len(),
{
    if ps.len() == 0 {
        Seq::empty()
    } else {
        selection(ps.drop_last(), pf, st, priority_only) + (if pf is None || pf == Some(
            ps.last().name@,
        ) {
            pick(ps.last().actions(), st, priority_only)
        } else {
            Seq::empty()
        })
    }
}

pub open spec fn str_view(o: Option<&str>) -> Option<Seq<char>> {
    match o {
        Some(s) => Some(s@),
        None => None,
    }
}

/// The stage that a given stage filter denotes.
pub open spec fn status_filter_of(o: Option<&str>) -> Option<Status> {
    match o {
        Some(s) => parse_status(s@),
        None => None,
    }
}

/// Whether `p` is among the listed paths.
pub open spec fn listed(ex: Seq<String>, p: Seq<char>) -> bool {
    exists|i: int| 0 <= i < ex.len() && ex[i]@ == p
}

pub open spec fn filled(o: Option<String>) -> bool {
    o matches Some(s) && s@.len() > 0
}

/// Whether the section titled `name` has content; a title that names no
/// section of an action (none that a stage asks for) is not checked.
pub open spec fn section_filled(a: Action, name: Seq<char>) -> bool {
    if name == "Notes"@ {
        filled(a.notes)
    } else if name == "Statement of Action"@ {
        filled(a.statement_of_action)
    } else if name == "Statement of Inputs"@ {
        filled(a.statement_of_inputs)
    } else if name == "Statement of Design"@ {
        filled(a.statement_of_design)
    } else if name == "Analysis of Impact"@ {
        filled(a.analysis_of_impact)
    } else {
        true
    }
}

/// Whether the action holds every section that its stage asks for.
pub open spec fn content_ok(a: Action) -> bool {
    forall|k: int|
        0 <= k < required_names(a.status).len() ==> section_filled(
            a,
            #[trigger] required_names(a.status)[k],
        )
}

/// Whether an action's file exists and its content suits its stage.
pub open spec fn action_ok(a: Action, ex: Seq<String>) -> bool {
    listed(ex, a.file_path@) && content_ok(a)
}

/// Whether a project's directory exists and each of its actions is sound.
pub open spec fn project_ok(p: Project, ex: Seq<String>) -> bool {
    listed(ex, p.path@) && forall|j: int|
        0 <= j < p.actions().len() ==> action_ok(#[trigger] p.actions()[j], ex)
}

/// Whether an error names a real fault of the workspace.
pub open spec fn real_fault(ps: Seq<Project>, marker: bool, ex: Seq<String>, e: WorkspaceError) -> bool {
    match e {
        WorkspaceError::MissingMarker { .. } => !marker,
        WorkspaceError::MissingProjectDirectory { path } => exists|i: int|
            0 <= i < ps.len() && ps[i].path@ == path@ && !listed(ex, path@),
        WorkspaceError::MissingActionFile { path } => exists|i: int, j: int|
            0 <= i < ps.len() && 0 <= j < ps[i].actions().len() && ps[i].actions()[j].file_path@
                == path@ && !listed(ex, path@),
        WorkspaceError::MissingSection { project, title, section } => exists|i: int, j: int|
            0 <= i < ps.len() && 0 <= j < ps[i].actions().len() && ps[i].name@ == project@
                && ps[i].actions()[j].title@ == title@ && required_names(
                ps[i].actions()[j].status,
            ).contains(section@) && !section_filled(ps[i].actions()[j], section@),
        _ => false,
    }
}

fn is_listed(ex: &Vec<String>, p: &str) -> (r: bool)
    ensures
        r == listed(ex@, p@),
{
    let mut i: usize = 0;
    while i < ex.len()
        invariant
            i <= ex@.len(),
            forall|m: int| 0 <= m < i ==> ex@[m]@ != p@,
        decreases ex@.len() - i,
    {
        if str_eq(ex[i].as_str(), p) {
            return true;
        }
        i = i + 1;
    }
    false
}

fn has_content(o: &Option<String>) -> (r: bool)
    ensures
        r == filled(*o),
{
    match o {
        Some(s) => s.unicode_len() > 0,
        None => false,
    }
}

/// Whether the section titled `name` has content; see `section_filled`.
fn has_section(a: &Action, name: &str) -> (r: bool)
    ensures
        r == section_filled(*a, name@),
{
    if str_eq(name, "Notes") {
        has_content(&a.notes)
    } else if str_eq(name, "Statement of Action") {
        has_content(&a.statement_of_action)
    } else if str_eq(name, "Statement of Inputs") {
        has_content(&a.statement_of_inputs)
    } else if str_eq(name, "Statement of Design") {
        has_content(&a.statement_of_design)
    } else if str_eq(name, "Analysis of Impact") {
        has_content(&a.analysis_of_impact)
    } else {
        true
    }
}

/// The root directory of all projects, indexed by name.
#[derive(Debug)]
pub struct Workspace {
    pub root: String,
    pub projects: Vec<Project>,
}

impl Workspace {
    /// Names are unique and every project is well formed.
    pub open spec fn wf(&self) -> bool {
        &&& forall|i: int, j: int|
            0 <= i < j < self.projects@.len() ==> self.projects@[i].name@
                != self.projects@[j].name@
        &&& forall|i: int| 0 <= i < self.projects@.len() ==> (#[trigger] self.projects@[i]).wf()
    }

    /// A workspace with no projects.
    pub fn new(root: String) -> (r: Workspace)
        ensures
            r.wf(),
            r.root == root,
            r.projects@.len() == 0,
    {
        Workspace { root, projects: Vec::new() }
    }

    /// Adds a project, replacing one with the same name.
    pub fn insert_project(&mut self, project: Project)
        requires
            old(self).wf(),
            project.wf(),
        ensures
            final(self).wf(),
            final(self).root == old(self).root,
            lookup_project(final(self).projects@, project.name@) == Some(project),
            ({
                let i = find_name(old(self).projects@, project.name@);
                if i < old(self).projects@.len() {
                    final(self).projects@ == old(self).projects@.update(i, project)
                } else {
                    final(self).projects@ == old(self).projects@.push(project)
                }
            }),
    {
        let i = project_position(&self.projects, project.name.as_str());
        proof {
            lemma_find_name_bounds(self.projects@, project.name@);
        }
        let ghost n = project.name@;
        if i < self.projects.len() {
            self.projects.remove(i);
            self.projects.insert(i, project);
            assert(self.projects@ =~= old(self).projects@.update(i as int, project));
            proof {
                lemma_find_name_at(self.projects@, n, i as int);
            }
        } else {
            self.projects.push(project);
            proof {
                lemma_find_name_at(self.projects@, n, i as int);
            }
        }
    }

    /// The directory of the project with this name.
    pub fn project_path(&self, name: &str) -> (r: String)
        ensures
            r@ == join_path(self.root@, name@),
    {
        join(self.root.as_str(), name)
    }

    /// Makes a new action in the named project, adding the project (in the
    /// directory named after it below the root) when it is not there yet;
    /// see `Project::create_action`. A document already at the action's
    /// location (`file_exists`) refuses the call and changes nothing.
    pub fn create_action(
        &mut self,
        project_name: &str,
        title: &str,
        priority: bool,
        file_exists: bool,
    ) -> (r: Result<Action, WorkspaceError>)
        requires
            old(self).wf(),
        ensures
            final(self).wf(),
            final(self).root == old(self).root,
            ({
                let old_ps = old(self).projects@;
                let p_old = lookup_project(old_ps, project_name@);
                let i = find_name(old_ps, project_name@);
                let dir = match p_old {
                    Some(p) => p.path@,
                    None => join_path(old(self).root@, project_name@),
                };
                &&& file_exists ==> (r matches Err(
                    WorkspaceError::AlreadyExists { project, title: t },
                ) && project@ == project_name@ && t@ == title@ && final(self).projects@ == old_ps)
                &&& !file_exists ==> (r matches Ok(a) && {
                    &&& a.title@ == title@
                    &&& a.project@ == project_name@
                    &&& a.priority == priority
                    &&& a.status == Status::Discovery
                    &&& a.file_path@ == join_path(dir, action_file_name(title@))
                    &&& final(self).projects@.len() == (if p_old is Some {
                        old_ps.len()
                    } else {
                        old_ps.len() + 1
                    })
                    &&& final(self).projects@[i].name@ == project_name@
                    &&& final(self).projects@[i].path@ == dir
                    &&& lookup_project(final(self).projects@, project_name@) == Some(
                        final(self).projects@[i],
                    )
                    &&& lookup(final(self).projects@[i].actions(), title@) == Some(a)
                    &&& forall|j: int|
                        0 <= j < old_ps.len() && j != i ==> final(self).projects@[j] == old_ps[j]
                })
            }),
    {
        if file_exists {
            return Err(
                WorkspaceError::AlreadyExists {
                    project: String::from_str(project_name),
                    title: String::from_str(title),
                },
            );
        }
        let i = project_position(&self.projects, project_name);
        proof {
            lemma_find_name_bounds(self.projects@, project_name@);
        }
        if i == self.projects.len() {
            let path = self.project_path(project_name);
            let p = Project::new(String::from_str(project_name), path);
            self.projects.push(p);
        }
        let ghost before = self.projects@;
        proof {
            lemma_find_name_at(self.projects@, project_name@, i as int);
        }
        let mut p = self.projects.remove(i);
        let r = p.create_action(title, priority, false);
        self.projects.insert(i, p);
        proof {
            assert(self.projects@ =~= before.update(i as int, p));
            lemma_find_name_at(self.projects@, project_name@, i as int);
        }
        r
    }

    /// The named action of the named project.
    pub fn get_action(&self, project_name: &str, title: &str) -> (r: Result<
        &Action,
        WorkspaceError,
    >)
        ensures
            match lookup_project(self.projects@, project_name@) {
                None => r matches Err(WorkspaceError::ProjectNotFound { project })
                    && project@ == project_name@,
                Some(p) => match lookup(p.actions(), title@) {
                    Some(a) => r matches Ok(x) && *x == a,
                    None => r matches Err(WorkspaceError::ActionNotFound { project, title: t })
                        && project@ == project_name@ && t@ == title@,
                },
            },
    {
        let i = project_position(&self.projects, project_name);
        proof {
            lemma_find_name_bounds(self.projects@, project_name@);
        }
        if i == self.projects.len() {
            return Err(WorkspaceError::ProjectNotFound { project: String::from_str(project_name) });
        }
        match self.projects[i].get_action(title) {
            Some(a) => Ok(a),
            None => Err(
                WorkspaceError::ActionNotFound {
                    project: String::from_str(project_name),
                    title: String::from_str(title),
                },
            ),
        }
    }

    /// The project with this name, if any.
    pub fn get_project(&self, name: &str) -> (r: Option<&Project>)
        ensures
            match r {
                Some(p) => lookup_project(self.projects@, name@) == Some(*p),
                None => lookup_project(self.projects@, name@) is None,
            },
    {
        let i = project_position(&self.projects, name);
        proof {
            lemma_find_name_bounds(self.projects@, name@);
        }
        if i < self.projects.len() {
            Some(&self.projects[i])
        } else {
            None
        }
    }

    /// Sets the stage of the named action; the caller writes its document
    /// again.
    pub fn update_action_status(&mut self, project_name: &str, title: &str, status: Status) -> (r:
        Result<(), WorkspaceError>)
        requires
            old(self).wf(),
        ensures
            final(self).wf(),
            final(self).root == old(self).root,
            match lookup_project(old(self).projects@, project_name@) {
                None => r matches Err(WorkspaceError::ProjectNotFound { project })
                    && project@ == project_name@ && final(self).projects@ == old(self).projects@,
                Some(p) => match lookup(p.actions(), title@) {
                    None => r matches Err(WorkspaceError::ActionNotFound { project, title: t })
                        && project@ == project_name@ && t@ == title@ && final(self).projects@
                        == old(self).projects@,
                    Some(a) => {
                        &&& r is Ok
                        &&& (lookup_project(final(self).projects@, project_name@) matches Some(q)
                            && lookup(q.actions(), title@) matches Some(b) && b.same_but_time(
                            &(Action { status, ..a }),
                        ))
                        &&& final(self).projects@.len() == old(self).projects@.len()
                        &&& forall|j: int|
                            0 <= j < old(self).projects@.len() && j != find_name(
                                old(self).projects@,
                                project_name@,
                            ) ==> final(self).projects@[j] == old(self).projects@[j]
                    },
                },
            },
    {
        let i = project_position(&self.projects, project_name);
        proof {
            lemma_find_name_bounds(self.projects@, project_name@);
        }
        if i == self.projects.len() {
            return Err(WorkspaceError::ProjectNotFound { project: String::from_str(project_name) });
        }
        let ghost before = self.projects@;
        let mut p = self.projects.remove(i);
        let r = p.update_action_status(title, status);
        self.projects.insert(i, p);
        proof {
            assert(self.projects@ =~= before.update(i as int, p));
            if r is Err {
                assert(self.projects@ =~= before);
            }
            lemma_find_name_at(self.projects@, project_name@, i as int);
        }
        r
    }

    /// Sets the priority flag of the named action; the caller writes its
    /// document again.
    pub fn set_action_priority(&mut self, project_name: &str, title: &str, priority: bool) -> (r:
        Result<(), WorkspaceError>)
        requires
            old(self).wf(),
        ensures
            final(self).wf(),
            final(self).root == old(self).root,
            match lookup_project(old(self).projects@, project_name@) {
                None => r matches Err(WorkspaceError::ProjectNotFound { project })
                    && project@ == project_name@ && final(self).projects@ == old(self).projects@,
                Some(p) => match lookup(p.actions(), title@) {
                    None => r matches Err(WorkspaceError::ActionNotFound { project, title: t })
                        && project@ == project_name@ && t@ == title@ && final(self).projects@
                        == old(self).projects@,
                    Some(a) => {
                        &&& r is Ok
                        &&& (lookup_project(final(self).projects@, project_name@) matches Some(q)
                            && lookup(q.actions(), title@) matches Some(b) && b.same_but_time(
                            &(Action { priority, ..a }),
                        ))
                        &&& final(self).projects@.len() == old(self).projects@.len()
                        &&& forall|j: int|
                            0 <= j < old(self).projects@.len() && j != find_name(
                                old(self).projects@,
                                project_name@,
                            ) ==> final(self).projects@[j] == old(self).projects@[j]
                    },
                },
            },
    {
        let i = project_position(&self.projects, project_name);
        proof {
            lemma_find_name_bounds(self.projects@, project_name@);
        }
        if i == self.projects.len() {
            return Err(WorkspaceError::ProjectNotFound { project: String::from_str(project_name) });
        }
        let ghost before = self.projects@;
        let mut p = self.projects.remove(i);
        let r = p.set_action_priority(title, priority);
        self.projects.insert(i, p);
        proof {
            assert(self.projects@ =~= before.update(i as int, p));
            if r is Err {
                assert(self.projects@ =~= before);
            }
            lemma_find_name_at(self.projects@, project_name@, i as int);
        }
        r
    }

    /// Location of the meta-graph directory of the named action.
    pub fn meta_graph_path(&self, project_name: &str, title: &str) -> (r: Result<
        String,
        WorkspaceError,
    >)
        ensures
            match lookup_project(self.projects@, project_name@) {
                None => r matches Err(WorkspaceError::ProjectNotFound { project })
                    && project@ == project_name@,
                Some(p) => match lookup(p.actions(), title@) {
                    Some(a) => r matches Ok(x) && x@ == without_extension(a.file_path@),
                    None => r matches Err(WorkspaceError::ActionNotFound { .. }),
                },
            },
    {
        match self.get_project(project_name) {
            Some(p) => p.meta_graph_path(title),
            None => Err(WorkspaceError::ProjectNotFound { project: String::from_str(project_name) }),
        }
    }

    /// The actions that pass the filters (project name, stage, priority), in
    /// ascending order of project name, then title. A stage filter that names
    /// no stage fails the whole call.
    pub fn list_actions(
        &self,
        project_filter: Option<&str>,
        status_filter: Option<&str>,
        priority_only: bool,
    ) -> (r: Result<Vec<&Action>, WorkspaceError>)
        ensures
            (status_filter is Some && status_filter_of(status_filter) is None) ==> (r matches Err(
                WorkspaceError::InvalidStatus(crate::status::StatusError::InvalidStatus(t)),
            ) && Some(t@) == str_view(status_filter)),
            !(status_filter is Some && status_filter_of(status_filter) is None) ==> (r matches Ok(
                v,
            ) && sorted_by_key(deref_all(v@)) && deref_all(v@).to_multiset() == selection(
                self.projects@,
                str_view(project_filter),
                status_filter_of(status_filter),
                priority_only,
            ).to_multiset()),
    {
        let st: Option<Status> = match status_filter {
            Some(sf) => match Status::from_str(sf) {
                Ok(s) => Some(s),
                Err(e) => {
                    return Err(WorkspaceError::InvalidStatus(e));
                },
            },
            None => None,
        };
        let ghost pf = str_view(project_filter);
        let mut cand: Vec<&Action> = Vec::new();
        let mut pi: usize = 0;
        while pi < self.projects.len()
            invariant
                pi <= self.projects@.len(),
                st == status_filter_of(status_filter),
                pf == str_view(project_filter),
                deref_all(cand@) == selection(
                    self.projects@.subrange(0, pi as int),
                    pf,
                    st,
                    priority_only,
                ),
            decreases self.projects@.len() - pi,
        {
            let p = &self.projects[pi];
            let ghost base = deref_all(cand@);
            let take = match project_filter {
                Some(f) => str_eq(p.name.as_str(), f),
                None => true,
            };
            proof {
                assert(self.projects@.subrange(0, pi + 1).drop_last() =~= self.projects@.subrange(
                    0,
                    pi as int,
                ));
            }
            if take {
                let mut k: usize = 0;
                while k < p.actions.len()
                    invariant
                        k <= p.actions@.len(),
                        deref_all(cand@) == base + pick(
                            p.actions@.subrange(0, k as int),
                            st,
                            priority_only,
                        ),
                    decreases p.actions@.len() - k,
                {
                    let a = &p.actions[k];
                    proof {
                        assert(p.actions@.subrange(0, k + 1).drop_last() =~= p.actions@.subrange(
                            0,
                            k as int,
                        ));
                    }
                    let ok = match st {
                        Some(s) => a.status == s,
                        None => true,
                    } && (!priority_only || a.priority);
                    let ghost c0 = cand@;
                    if ok {
                        cand.push(a);
                        assert(deref_all(cand@) =~= deref_all(c0).push(*a));
                    }
                    k = k + 1;
                    assert(deref_all(cand@) =~= base + pick(
                        p.actions@.subrange(0, k as int),
                        st,
                        priority_only,
                    ));
                }
                assert(p.actions@.subrange(0, k as int) =~= p.actions@);
            } else {
                assert(base + Seq::<Action>::empty() =~= base);
            }
            pi = pi + 1;
        }
        assert(self.projects@.subrange(0, pi as int) =~= self.projects@);
        let mut out: Vec<&Action> = Vec::new();
        let mut k: usize = 0;
        while k < cand.len()
            invariant
                k <= cand@.len(),
                sorted_by_key(deref_all(out@)),
                deref_all(out@).to_multiset() == deref_all(cand@.subrange(0, k as int)).to_multiset(),
            decreases cand@.len() - k,
        {
            let x = cand[k];
            let mut j: usize = 0;
            while j < out.len() && compare_key(out[j], x) <= 0
                invariant
                    j <= out@.len(),
                    forall|m: int| 0 <= m < j ==> key_le(*out@[m], *x),
                decreases out@.len() - j,
            {
                j = j + 1;
            }
            let ghost o0 = deref_all(out@);
            out.insert(j, x);
            proof {
                let o1 = deref_all(out@);
                assert(o1 =~= o0.insert(j as int, *x));
                if j < o0.len() {
                    lemma_key_order(o0[j as int], *x, *x);
                }
                assert forall|a: int, b: int| 0 <= a < b < o1.len() implies key_le(o1[a], o1[b]) by {
                    if b < j {
                    } else if a < j && b == j {
                    } else if a < j && b > j {
                        lemma_key_order(o0[a], *x, o0[b - 1]);
                        lemma_key_order(o0[a], o0[j as int], o0[b - 1]);
                    } else if a == j {
                        if b - 1 > j {
                            lemma_key_order(*x, o0[j as int], o0[b - 1]);
                        }
                    } else {
                    }
                }
                assert(cand@.subrange(0, k + 1) =~= cand@.subrange(0, k as int).push(x));
                assert(deref_all(cand@.subrange(0, k + 1)) =~= deref_all(cand@.subrange(0, k as int)).push(*x));
            }
            k = k + 1;
        }
        assert(cand@.subrange(0, k as int) =~= cand@);
        Ok(out)
    }

    /// Checks the workspace: its marker file exists (`marker_exists`), each
    /// project's directory and each action's file is among the `existing`
    /// paths, and each action holds the sections that its stage asks for.
    /// The first fault found is reported.
    pub fn validate(&self, marker_exists: bool, existing: &Vec<String>) -> (r: Result<
        (),
        WorkspaceError,
    >)
        ensures
            r is Ok <==> (marker_exists && forall|i: int|
                0 <= i < self.projects@.len() ==> project_ok(
                    #[trigger] self.projects@[i],
                    existing@,
                )),
            r matches Err(e) ==> real_fault(self.projects@, marker_exists, existing@, e),
    {
        if !marker_exists {
            return Err(WorkspaceError::MissingMarker { root: self.root.clone() });
        }
        let mut i: usize = 0;
        while i < self.projects.len()
            invariant
                i <= self.projects@.len(),
                forall|m: int| 0 <= m < i ==> project_ok(#[trigger] self.projects@[m], existing@),
            decreases self.projects@.len() - i,
        {
            let p = &self.projects[i];
            if !is_listed(existing, p.path.as_str()) {
                proof {
                    assert(!project_ok(self.projects@[i as int], existing@));
                }
                return Err(WorkspaceError::MissingProjectDirectory { path: p.path.clone() });
            }
            let mut j: usize = 0;
            while j < p.actions.len()
                invariant
                    i < self.projects@.len(),
                    *p == self.projects@[i as int],
                    j <= p.actions@.len(),
                    forall|m: int| 0 <= m < j ==> action_ok(#[trigger] p.actions@[m], existing@),
                decreases p.actions@.len() - j,
            {
                let a = &p.actions[j];
                if !is_listed(existing, a.file_path.as_str()) {
                    proof {
                        assert(self.projects@[i as int].actions()[j as int] == *a);
                        assert(!project_ok(self.projects@[i as int], existing@));
                    }
                    return Err(WorkspaceError::MissingActionFile { path: a.file_path.clone() });
                }
                let req = a.status.required_outputs();
                let mut k: usize = 0;
                while k < req.len()
                    invariant
                        i < self.projects@.len(),
                        *p == self.projects@[i as int],
                        j < p.actions@.len(),
                        *a == p.actions@[j as int],
                        k <= req@.len(),
                        req@.map_values(|t: &'static str| t@) == required_names(a.status),
                        forall|m: int|
                            0 <= m < k ==> section_filled(*a, #[trigger] required_names(a.status)[m]),
                    decreases req@.len() - k,
                {
                    let name = req[k];
                    assert(name@ == required_names(a.status)[k as int]);
                    if !has_section(a, name) {
                        proof {
                            assert(required_names(a.status).contains(name@));
                            assert(self.projects@[i as int].actions()[j as int] == *a);
                            assert(!content_ok(*a));
                            assert(!project_ok(self.projects@[i as int], existing@));
                        }
                        return Err(
                            WorkspaceError::MissingSection {
                                project: p.name.clone(),
                                title: a.title.clone(),
                                section: String::from_str(name),
                            },
                        );
                    }
                    k = k + 1;
                }
                j = j + 1;
            }
            i = i + 1;
        }
        Ok(())
    }

    pub fn projects(&self) -> (r: &Vec<Project>)
        ensures
            r@ == self.projects@,
    {
        &self.projects
    }

    pub fn root(&self) -> (r: &str)
        ensures
            r@ == self.root@,
    {
        self.root.as_str()
    }
}

/// A workspace with no projects passes validation whenever its marker
/// exists.
pub proof fn lemma_empty_workspace_valid(ws: Workspace, marker: bool, ex: Seq<String>)
    requires
        ws.projects@.len() == 0,
    ensures
        (marker && forall|i: int|
            0 <= i < ws.projects@.len() ==> project_ok(#[trigger] ws.projects@[i], ex)) == marker,
{
}

/// An action at the document stage without an analysis of impact makes its
/// project fail validation.
pub proof fn lemma_missing_impact_fails(p: Project, ex: Seq<String>, j: int)
    requires
        0 <= j < p.actions().len(),
        p.actions()[j].status == Status::Document,
        p.actions()[j].analysis_of_impact is None,
    ensures
        !project_ok(p, ex),
{
    let a = p.actions()[j];
    reveal_strlit("Notes");
    reveal_strlit("Statement of Action");
    reveal_strlit("Statement of Inputs");
    reveal_strlit("Statement of Design");
    reveal_strlit("Analysis of Impact");
    assert(required_names(Status::Document)[0] == "Analysis of Impact"@);
    assert(!section_filled(a, "Analysis of Impact"@));
    assert(!content_ok(a));
}

} // verus!
