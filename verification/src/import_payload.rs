//! The import document of a secrets manager, and how it is made of the
//! variables of a `.env` file.
//!
//! Every variable becomes one secret, in the order of the file. The caller
//! chooses whether the secrets go to no project, to a project that exists, or
//! to a new one that the document declares.
use crate::dotenv::{views_of, DotEnvFile};
use crate::env_var::{EnvVar, EnvVarView};
use std::ops::Deref;
use uuid::Uuid;
use vstd::prelude::*;

verus! {

/// A project, as the import document declares it.
#[derive(Debug, PartialEq, Eq)]
pub struct Project {
    pub id: Uuid,
    pub name: String,
}

/// A [`Project`] as a mathematical value.
pub struct ProjectView {
    pub id: Uuid,
    pub name: Seq<char>,
}

impl View for Project {
    type V = ProjectView;

    open spec fn view(&self) -> ProjectView {
        ProjectView { id: self.id, name: self.name@ }
    }
}

impl Clone for Project {
    fn clone(&self) -> (r: Self)
        ensures
            r@ == self@,
    {
        Project { id: self.id, name: self.name.clone() }
    }
}

/// A secret, as the import document lists it.
#[derive(Debug, PartialEq, Eq)]
pub struct Secret {
    pub key: String,
    pub value: String,
    pub note: String,
    pub project_ids: Vec<Uuid>,
    pub id: Uuid,
}

/// A [`Secret`] as a mathematical value.
pub struct SecretView {
    pub key: Seq<char>,
    pub value: Seq<char>,
    pub note: Seq<char>,
    pub project_ids: Seq<Uuid>,
    pub id: Uuid,
}

impl View for Secret {
    type V = SecretView;

    open spec fn view(&self) -> SecretView {
        SecretView {
            key: self.key@,
            value: self.value@,
            note: self.note@,
            project_ids: self.project_ids@,
            id: self.id,
        }
    }
}

/// The note of a secret: the comment of its record, or the empty string for a
/// record without one.
pub open spec fn note_of(comment: Option<Seq<char>>) -> Seq<char> {
    match comment {
        Some(text) => text,
        None => Seq::empty(),
    }
}

/// The projects that a secret names: the assigned one alone, or none.
pub open spec fn ids_of(project: Option<Uuid>) -> Seq<Uuid> {
    match project {
        Some(id) => seq![id],
        None => Seq::empty(),
    }
}

/// The secret that is made of `record` when `project` is assigned.
pub open spec fn secret_of(record: EnvVarView, project: Option<Uuid>) -> SecretView {
    SecretView {
        key: record.key,
        value: record.value,
        note: note_of(record.comment),
        project_ids: ids_of(project),
        id: record.temp_id,
    }
}

/// The secrets that are made of `records`: one of each, in their order.
pub open spec fn secrets_of(records: Seq<EnvVarView>, project: Option<Uuid>) -> Seq<SecretView> {
    records.map_values(|record: EnvVarView| secret_of(record, project))
}

/// The identifiers of `ids`, copied.
fn copy_ids(ids: &Vec<Uuid>) -> (r: Vec<Uuid>)
    ensures
        r@ == ids@,
{
    let mut r: Vec<Uuid> = Vec::new();
    let mut i: usize = 0;
    while i < ids.len()
        invariant
            i <= ids@.len(),
            r@ == ids@.take(i as int),
        decreases ids@.len() - i,
    {
        r.push(ids[i]);
        assert(r@ =~= ids@.take(i as int + 1));
        i += 1;
    }
    assert(ids@.take(i as int) =~= ids@);
    r
}

impl Clone for Secret {
    fn clone(&self) -> (r: Self)
        ensures
            r@ == self@,
    {
        Secret {
            key: self.key.clone(),
            value: self.value.clone(),
            note: self.note.clone(),
            project_ids: copy_ids(&self.project_ids),
            id: self.id,
        }
    }
}

impl Secret {
    /// Makes the secret of a variable, assigned to `project_id` if there is
    /// one. Key and value are taken as they are, the comment becomes the
    /// note, and the secret's identifier is the variable's.
    pub fn from_env_var(value: EnvVar, project_id: Option<Uuid>) -> (r: Self)
        ensures
            r@ == secret_of(value@, project_id),
    {
        let project_ids = match project_id {
            Some(id) => vec![id],
            None => Vec::new(),
        };
        assert(project_ids@ =~= ids_of(project_id));
        Secret {
            key: value.key,
            value: value.value,
            note: match value.comment {
                Some(text) => text,
                None => String::new(),
            },
            project_ids,
            id: value.temp_id,
        }
    }
}

/// How the secrets of a document are assigned to a project.
pub enum ProjectAssignment {
    /// The secrets belong to no project.
    Unassigned,
    /// The secrets belong to the project with this identifier, which the
    /// document does not declare.
    Existing(Uuid),
    /// The document declares a project of this name, and the secrets belong
    /// to it.
    New(String),
}

/// A [`ProjectAssignment`] as a mathematical value.
pub enum ProjectAssignmentView {
    Unassigned,
    Existing(Uuid),
    New(Seq<char>),
}

impl View for ProjectAssignment {
    type V = ProjectAssignmentView;

    open spec fn view(&self) -> ProjectAssignmentView {
        match self {
            ProjectAssignment::Unassigned => ProjectAssignmentView::Unassigned,
            ProjectAssignment::Existing(id) => ProjectAssignmentView::Existing(*id),
            ProjectAssignment::New(name) => ProjectAssignmentView::New(name@),
        }
    }
}

impl ProjectAssignmentView {
    /// The project that every secret names, where `fresh` is the identifier
    /// of the project that may have to be declared.
    pub open spec fn assigned_id(self, fresh: Uuid) -> Option<Uuid> {
        match self {
            ProjectAssignmentView::Unassigned => None,
            ProjectAssignmentView::Existing(id) => Some(id),
            ProjectAssignmentView::New(_) => Some(fresh),
        }
    }

    /// The projects that the document declares: the new one, under the
    /// identifier `fresh`, or none.
    pub open spec fn declared(self, fresh: Uuid) -> Seq<ProjectView> {
        match self {
            ProjectAssignmentView::New(name) => seq![ProjectView { id: fresh, name }],
            _ => Seq::empty(),
        }
    }
}

impl ProjectAssignment {
    /// The assignment that two optional settings stand for: the identifier of
    /// a project that exists, or the name of one to declare. At most one of
    /// them may be set.
    pub fn from_options(project_id: Option<Uuid>, new_project_name: Option<String>) -> (r: Self)
        requires
            !(project_id is Some && new_project_name is Some),
        ensures
            r@ == (match (project_id, new_project_name) {
                (Some(id), _) => ProjectAssignmentView::Existing(id),
                (None, Some(name)) => ProjectAssignmentView::New(name@),
                (None, None) => ProjectAssignmentView::Unassigned,
            }),
    {
        match (project_id, new_project_name) {
            (Some(id), _) => ProjectAssignment::Existing(id),
            (None, Some(name)) => ProjectAssignment::New(name),
            (None, None) => ProjectAssignment::Unassigned,
        }
    }
}

/// The whole import document.
#[derive(Debug, PartialEq, Eq)]
pub struct ImportPayload {
    pub projects: Vec<Project>,
    pub secrets: Vec<Secret>,
}

/// An [`ImportPayload`] as a mathematical value.
pub struct ImportPayloadView {
    pub projects: Seq<ProjectView>,
    pub secrets: Seq<SecretView>,
}

/// The projects of a vector as mathematical values.
pub open spec fn project_views(projects: Seq<Project>) -> Seq<ProjectView> {
    projects.map_values(|p: Project| p@)
}

/// The secrets of a vector as mathematical values.
pub open spec fn secret_views(secrets: Seq<Secret>) -> Seq<SecretView> {
    secrets.map_values(|s: Secret| s@)
}

impl View for ImportPayload {
    type V = ImportPayloadView;

    open spec fn view(&self) -> ImportPayloadView {
        ImportPayloadView {
            projects: project_views(self.projects@),
            secrets: secret_views(self.secrets@),
        }
    }
}

/// The document that is made of `records` under `assignment`, where `fresh`
/// is the identifier of the project that may have to be declared.
pub open spec fn export_of(
    records: Seq<EnvVarView>,
    assignment: ProjectAssignmentView,
    fresh: Uuid,
) -> ImportPayloadView {
    ImportPayloadView {
        projects: assignment.declared(fresh),
        secrets: secrets_of(records, assignment.assigned_id(fresh)),
    }
}

/// Whether `secret` holds what `record` holds: its key, its value, and its
/// comment as the note.
pub open spec fn mirrors(secret: SecretView, record: EnvVarView) -> bool {
    &&& secret.key == record.key
    &&& secret.value == record.value
    &&& secret.note == note_of(record.comment)
}

/// Whether two records would give secrets of the same key, value and note.
pub open spec fn same_content(a: EnvVarView, b: EnvVarView) -> bool {
    &&& a.key == b.key
    &&& a.value == b.value
    &&& note_of(a.comment) == note_of(b.comment)
}

/// Whether `secrets` are `records` one for one and in order: the secret at
/// each position mirrors the record at that position and carries its
/// identifier.
pub open spec fn follows(secrets: Seq<SecretView>, records: Seq<EnvVarView>) -> bool {
    &&& secrets.len() == records.len()
    &&& forall|i: int|
        0 <= i < records.len() ==> {
            &&& mirrors(#[trigger] secrets[i], records[i])
            &&& secrets[i].id == records[i].temp_id
        }
}

/// Whether every secret of `secrets` names exactly the projects `ids`.
pub open spec fn all_assigned(secrets: Seq<SecretView>, ids: Seq<Uuid>) -> bool {
    forall|i: int| 0 <= i < secrets.len() ==> (#[trigger] secrets[i]).project_ids == ids
}

/// What an assignment asks of a document. With no project, none is declared
/// and no secret names one. With a project that exists, none is declared and
/// every secret names that project alone. With a new project, exactly that
/// one is declared, under its name and some identifier, and every secret
/// names that identifier alone.
pub open spec fn honours(doc: ImportPayloadView, assignment: ProjectAssignmentView) -> bool {
    match assignment {
        ProjectAssignmentView::Unassigned => {
            &&& doc.projects == Seq::<ProjectView>::empty()
            &&& all_assigned(doc.secrets, Seq::empty())
        },
        ProjectAssignmentView::Existing(id) => {
            &&& doc.projects == Seq::<ProjectView>::empty()
            &&& all_assigned(doc.secrets, seq![id])
        },
        ProjectAssignmentView::New(name) => {
            &&& doc.projects.len() == 1
            &&& doc.projects[0].name == name
            &&& all_assigned(doc.secrets, seq![doc.projects[0].id])
        },
    }
}

/// The secrets of a document are its records, one for one and in order,
/// whatever the assignment.
pub proof fn lemma_secrets_follow_records(
    records: Seq<EnvVarView>,
    assignment: ProjectAssignmentView,
    fresh: Uuid,
)
    ensures
        follows(export_of(records, assignment, fresh).secrets, records),
{
}

/// Where no two records have the same content, each record has exactly one
/// secret that mirrors it: the one at its own position.
pub proof fn lemma_one_secret_per_record(secrets: Seq<SecretView>, records: Seq<EnvVarView>)
    requires
        follows(secrets, records),
        forall|i: int, j: int|
            0 <= i < j < records.len() ==> !same_content(
                #[trigger] records[i],
                #[trigger] records[j],
            ),
    ensures
        forall|i: int, j: int|
            0 <= i < records.len() && 0 <= j < secrets.len() ==> (mirrors(
                #[trigger] secrets[j],
                #[trigger] records[i],
            ) <==> i == j),
{
    assert forall|i: int, j: int|
        0 <= i < records.len() && 0 <= j < secrets.len() implies (mirrors(
        #[trigger] secrets[j],
        #[trigger] records[i],
    ) <==> i == j) by {
        assert(mirrors(secrets[i], records[i]));
        assert(mirrors(secrets[j], records[j]));
        if i < j {
            assert(!same_content(records[i], records[j]));
        } else if j < i {
            assert(!same_content(records[j], records[i]));
        }
    }
}

/// The document made under an assignment honours it, whatever the records
/// and whatever the identifier of a new project.
pub proof fn lemma_assignment(
    records: Seq<EnvVarView>,
    assignment: ProjectAssignmentView,
    fresh: Uuid,
)
    ensures
        honours(export_of(records, assignment, fresh), assignment),
        assignment is New ==> export_of(records, assignment, fresh).projects[0].id == fresh,
{
}

/// A text without variables gives a document without secrets, and the
/// assignment alone decides whether it declares a project.
pub proof fn lemma_no_records(assignment: ProjectAssignmentView, fresh: Uuid)
    ensures
        export_of(Seq::empty(), assignment, fresh).secrets == Seq::<SecretView>::empty(),
        export_of(Seq::empty(), assignment, fresh).projects.len() == (if assignment is New {
            1nat
        } else {
            0nat
        }),
{
}

impl Clone for ImportPayload {
    fn clone(&self) -> (r: Self)
        ensures
            r@ == self@,
    {
        let mut projects: Vec<Project> = Vec::new();
        let mut i: usize = 0;
        while i < self.projects.len()
            invariant
                i <= self.projects@.len(),
                project_views(projects@) == project_views(self.projects@).take(i as int),
            decreases self.projects@.len() - i,
        {
            let ghost before = projects@;
            let p = self.projects[i].clone();
            projects.push(p);
            assert(project_views(projects@) =~= project_views(before).push(p@));
            assert(project_views(self.projects@).take(i as int + 1) =~= project_views(
                self.projects@,
            ).take(i as int).push(self.projects@[i as int]@));
            i += 1;
        }
        assert(project_views(self.projects@).take(i as int) =~= project_views(self.projects@));
        let mut secrets: Vec<Secret> = Vec::new();
        let mut j: usize = 0;
        while j < self.secrets.len()
            invariant
                j <= self.secrets@.len(),
                secret_views(secrets@) == secret_views(self.secrets@).take(j as int),
            decreases self.secrets@.len() - j,
        {
            let ghost before = secrets@;
            let s = self.secrets[j].clone();
            secrets.push(s);
            assert(secret_views(secrets@) =~= secret_views(before).push(s@));
            assert(secret_views(self.secrets@).take(j as int + 1) =~= secret_views(
                self.secrets@,
            ).take(j as int).push(self.secrets@[j as int]@));
            j += 1;
        }
        assert(secret_views(self.secrets@).take(j as int) =~= secret_views(self.secrets@));
        ImportPayload { projects, secrets }
    }
}

impl ImportPayload {
    /// The document that declares `projects` and holds one secret for each
    /// variable of `dotenv`, each assigned to `assigned_id` if there is one.
    fn assemble(dotenv: &DotEnvFile, projects: Vec<Project>, assigned_id: Option<Uuid>) -> (r:
        Self)
        ensures
            r.projects == projects,
            r@.secrets == secrets_of(dotenv@, assigned_id),
            r.secrets@.len() == dotenv@.len(),
    {
        let vars = dotenv.deref();
        let mut secrets: Vec<Secret> = Vec::new();
        let mut i: usize = 0;
        while i < vars.len()
            invariant
                i <= vars@.len(),
                views_of(vars@) == dotenv@,
                secret_views(secrets@) == secrets_of(dotenv@, assigned_id).take(i as int),
            decreases vars@.len() - i,
        {
            let ghost before = secrets@;
            let secret = Secret::from_env_var(vars[i].clone(), assigned_id);
            secrets.push(secret);
            assert(secret_views(secrets@) =~= secret_views(before).push(secret@));
            assert(secrets_of(dotenv@, assigned_id).take(i as int + 1) =~= secrets_of(
                dotenv@,
                assigned_id,
            ).take(i as int).push(secret_of(dotenv@[i as int], assigned_id)));
            i += 1;
        }
        assert(secrets_of(dotenv@, assigned_id).take(i as int) =~= secrets_of(
            dotenv@,
            assigned_id,
        ));
        ImportPayload { projects, secrets }
    }

    /// Makes the document that declares one new project, of the name `name`
    /// and with the identifier `id`, and assigns every variable of `dotenv`
    /// to it.
    pub fn with_new_project(dotenv: DotEnvFile, name: String, id: Uuid) -> (r: Self)
        ensures
            r@ == export_of(dotenv@, ProjectAssignmentView::New(name@), id),
            r.projects@.len() == 1,
            r.secrets@.len() == dotenv@.len(),
    {
        let mut projects: Vec<Project> = Vec::new();
        let project = Project { id, name };
        projects.push(project);
        assert(project_views(projects@) =~= seq![project@]);
        Self::assemble(&dotenv, projects, Some(id))
    }

    /// Makes the import document of a parsed [`DotEnvFile`] under the given
    /// [`ProjectAssignment`].
    ///
    /// The secrets are the variables, one for one and in order. The
    /// identifier of a new project is drawn at random; everything else in the
    /// document follows from the arguments.
    pub fn from_dotenv(dotenv: DotEnvFile, project_assignment: ProjectAssignment) -> (r: Self)
        ensures
            exists|fresh: Uuid| r@ == export_of(dotenv@, project_assignment@, fresh),
            follows(r@.secrets, dotenv@),
            honours(r@, project_assignment@),
            r.secrets@.len() == dotenv@.len(),
            r.projects@.len() == (if project_assignment is New {
                1nat
            } else {
                0nat
            }),
    {
        let ghost assignment = project_assignment@;
        let ghost fresh: Uuid;
        let r = match project_assignment {
            ProjectAssignment::Existing(id) => {
                proof {
                    fresh = id;
                }
                Self::assemble(&dotenv, Vec::new(), Some(id))
            },
            ProjectAssignment::New(name) => {
                let id = Uuid::new_v4();
                proof {
                    fresh = id;
                }
                Self::with_new_project(dotenv, name, id)
            },
            ProjectAssignment::Unassigned => {
                proof {
                    fresh = arbitrary();
                }
                Self::assemble(&dotenv, Vec::new(), None)
            },
        };
        proof {
            assert(r@.projects =~= assignment.declared(fresh));
            assert(r@ == export_of(dotenv@, assignment, fresh));
            lemma_secrets_follow_records(dotenv@, assignment, fresh);
            lemma_assignment(dotenv@, assignment, fresh);
        }
        r
    }
}

} // verus!
