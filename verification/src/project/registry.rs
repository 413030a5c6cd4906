//! Registration of projects, and the upkeep of their files.
use vstd::prelude::*;
use vstd::string::*;

use crate::checks::runner;
use crate::clock;
use crate::clock::Instant;
use crate::project::ids;
use crate::project::ids::InvalidProjectId;
use crate::project::LocalProjectRef;
use crate::project::ProjectMetadata;
use crate::project::PROJECT_VERSION;
use crate::state::StateData;
use crate::state::StateView;
use crate::state::TaskState;
use crate::text;

verus! {

/// What is known of a workspace's repository.
#[derive(Debug, Clone, PartialEq, Eq)]
pub struct GitMetadata {
    pub origin_repo: Option<String>,
    pub default_branch: Option<String>,
    pub current_head: Option<String>,
}

/// The contents of a project's metadata.
#[verifier::ext_equal]
pub struct MetadataView {
    pub id: Seq<char>,
    pub name: Seq<char>,
    pub workspace_dir: Seq<char>,
    pub ferrus_dir: Seq<char>,
    pub vcs: Option<Seq<char>>,
    pub origin_repo: Option<Seq<char>>,
    pub default_branch: Option<Seq<char>>,
    pub current_head: Option<Seq<char>>,
    pub created_at: Seq<char>,
    pub last_opened_at: Seq<char>,
    pub version: u32,
}

impl View for ProjectMetadata {
    type V = MetadataView;

    open spec fn view(&self) -> MetadataView {
        MetadataView {
            id: self.id@,
            name: self.name@,
            workspace_dir: self.workspace_dir@,
            ferrus_dir: self.ferrus_dir@,
            vcs: text::opt_view(self.vcs),
            origin_repo: text::opt_view(self.origin_repo),
            default_branch: text::opt_view(self.default_branch),
            current_head: text::opt_view(self.current_head),
            created_at: self.created_at@,
            last_opened_at: self.last_opened_at@,
            version: self.version,
        }
    }
}

/// Where a workspace stands: its directory and the directory's own name, where
/// that has one that is text.
#[derive(Debug, Clone, PartialEq, Eq)]
pub struct Workspace {
    pub dir: String,
    pub name: Option<String>,
    pub ferrus_dir: String,
}

/// What is registered of a project that is opened now.
pub open spec fn metadata_of(
    id: Seq<char>,
    workspace: Workspace,
    git: Option<GitMetadata>,
    created_at: Seq<char>,
    now: Instant,
) -> MetadataView {
    MetadataView {
        id,
        name: match workspace.name {
            Some(name) => name@,
            None => "project"@,
        },
        workspace_dir: workspace.dir@,
        ferrus_dir: workspace.ferrus_dir@,
        vcs: match git {
            Some(_) => Some("git"@),
            None => None,
        },
        origin_repo: match git {
            Some(g) => text::opt_view(g.origin_repo),
            None => None,
        },
        default_branch: match git {
            Some(g) => text::opt_view(g.default_branch),
            None => None,
        },
        current_head: match git {
            Some(g) => text::opt_view(g.current_head),
            None => None,
        },
        created_at,
        last_opened_at: clock::stamp(now),
        version: PROJECT_VERSION,
    }
}

fn project_metadata(
    id: &str,
    workspace: &Workspace,
    git: &Option<GitMetadata>,
    created_at: String,
    now: Instant,
) -> (out: ProjectMetadata)
    requires
        now.wf(),
    ensures
        out@ == metadata_of(id@, *workspace, *git, created_at@, now),
{
    let (vcs, origin_repo, default_branch, current_head): (
        Option<String>,
        Option<String>,
        Option<String>,
        Option<String>,
    ) = match git {
        Some(g) => (
            Some("git".to_owned()),
            text::opt_clone(&g.origin_repo),
            text::opt_clone(&g.default_branch),
            text::opt_clone(&g.current_head),
        ),
        None => (None, None, None, None),
    };
    ProjectMetadata {
        id: id.to_owned(),
        name: match &workspace.name {
            Some(name) => name.clone(),
            None => "project".to_owned(),
        },
        workspace_dir: workspace.dir.clone(),
        ferrus_dir: workspace.ferrus_dir.clone(),
        vcs,
        origin_repo,
        default_branch,
        current_head,
        created_at,
        last_opened_at: clock::timestamp(now),
        version: PROJECT_VERSION,
    }
}

/// The id under which a workspace is registered: the one it has, if that is
/// valid, else the fresh one.
pub fn registration_id(existing: Option<&LocalProjectRef>, fresh: String) -> (out: Result<
    String,
    InvalidProjectId,
>)
    ensures
        match existing {
            None => out is Ok && out->Ok_0 == fresh,
            Some(local) => if ids::valid_project_id(local.project_id@) {
                out is Ok && out->Ok_0 == local.project_id
            } else {
                out is Err && out->Err_0.project_id@ == local.project_id@
            },
        },
{
    match existing {
        Some(local) => match ids::validate_project_id(local.project_id.as_str()) {
            Ok(_) => Ok(local.project_id.clone()),
            Err(invalid) => Err(invalid),
        },
        None => Ok(fresh),
    }
}

/// What a registration writes: the metadata, which keeps the time at which the
/// project was first registered, and the workspace's reference to it.
pub fn register_project(
    id: &str,
    data_dir: &str,
    workspace: &Workspace,
    git: &Option<GitMetadata>,
    previous: Option<&ProjectMetadata>,
    now: Instant,
) -> (out: (ProjectMetadata, LocalProjectRef))
    requires
        now.wf(),
    ensures
        out.0@ == metadata_of(
            id@,
            *workspace,
            *git,
            match previous {
                Some(p) => p.created_at@,
                None => clock::stamp(now),
            },
            now,
        ),
        out.1.project_id@ == id@,
        out.1.name@ == out.0@.name,
        out.1.data_dir@ == data_dir@,
{
    let created_at: String = match previous {
        Some(p) => p.created_at.clone(),
        None => clock::timestamp(now),
    };
    let metadata: ProjectMetadata = project_metadata(id, workspace, git, created_at, now);
    let local_ref = LocalProjectRef {
        project_id: id.to_owned(),
        name: metadata.name.clone(),
        data_dir: data_dir.to_owned(),
    };
    (metadata, local_ref)
}

/// Why a project cannot be opened.
#[derive(Debug, Clone, PartialEq, Eq)]
pub enum TouchError {
    InvalidId(InvalidProjectId),
    IdMismatch { local: String, global: String },
}

/// The failure of a mismatch in words.
pub fn mismatch_message(local: &str, global: &str) -> (out: String)
    ensures
        out@ == "local project_id "@ + local@ + " does not match global metadata id "@ + global@,
{
    let mut out: String = "local project_id ".to_owned();
    out.append(local);
    out.append(" does not match global metadata id ");
    out.append(global);
    out
}

/// What opening a project writes: its metadata as of now. The workspace's
/// reference must be valid and name the same project.
pub fn touch_project(
    local_ref: &LocalProjectRef,
    workspace: &Workspace,
    git: &Option<GitMetadata>,
    previous: &ProjectMetadata,
    now: Instant,
) -> (out: Result<ProjectMetadata, TouchError>)
    requires
        now.wf(),
    ensures
        match out {
            Ok(metadata) => ids::valid_project_id(local_ref.project_id@) && previous.id@
                == local_ref.project_id@ && metadata@ == metadata_of(
                local_ref.project_id@,
                *workspace,
                *git,
                previous.created_at@,
                now,
            ),
            Err(TouchError::InvalidId(invalid)) => !ids::valid_project_id(local_ref.project_id@)
                && invalid.project_id@ == local_ref.project_id@,
            Err(TouchError::IdMismatch { local, global }) => ids::valid_project_id(
                local_ref.project_id@,
            ) && previous.id@ != local_ref.project_id@ && local@ == local_ref.project_id@
                && global@ == previous.id@,
        },
{
    match ids::validate_project_id(local_ref.project_id.as_str()) {
        Ok(_) => {},
        Err(invalid) => {
            return Err(TouchError::InvalidId(invalid));
        },
    }
    if previous.id != local_ref.project_id {
        return Err(
            TouchError::IdMismatch {
                local: local_ref.project_id.clone(),
                global: previous.id.clone(),
            },
        );
    }
    Ok(
        project_metadata(
            local_ref.project_id.as_str(),
            workspace,
            git,
            previous.created_at.clone(),
            now,
        ),
    )
}

// ---------------------------------------------------------------------- git

/// What a git command told: its output without surrounding white space, if
/// anything is left.
pub fn git_value(output: &str) -> (out: Option<String>)
    ensures
        text::opt_view(out) == if text::trim(output@).len() == 0 {
            None
        } else {
            Some(text::trim(output@))
        },
{
    let value: String = text::trim_string(output);
    if value.as_str().is_empty() {
        None
    } else {
        Some(value)
    }
}

/// What a git command told, where it succeeded.
pub fn git_output(success: bool, stdout: &Vec<u8>) -> (out: Option<String>)
    ensures
        text::opt_view(out) == if !success || text::trim(runner::lossy_text(stdout@)).len() == 0 {
            None
        } else {
            Some(text::trim(runner::lossy_text(stdout@)))
        },
{
    if success {
        git_value(runner::text_of_bytes(stdout).as_str())
    } else {
        None
    }
}

/// The default branch: the one that the remote points at, without the remote's
/// name, else the one that is checked out.
pub fn default_branch(remote_head: Option<String>, checked_out: Option<String>) -> (out: Option<
    String,
>)
    ensures
        text::opt_view(out) == match text::opt_view(remote_head) {
            Some(branch) => match text::after_prefix(branch, "origin/"@) {
                Some(rest) => Some(rest),
                None => Some(branch),
            },
            None => text::opt_view(checked_out),
        },
{
    match remote_head {
        Some(branch) => match text::strip_prefix(branch.as_str(), "origin/") {
            Some(rest) => Some(rest),
            None => Some(branch),
        },
        None => checked_out,
    }
}

/// Whether git was asked inside a work tree.
pub fn inside_work_tree(answer: &Option<String>) -> (out: bool)
    ensures
        out == (text::opt_view(*answer) == Some("true"@)),
{
    text::opt_is(answer, "true")
}

// -------------------------------------------------------------------- files

/// The path goes into the project's runtime directory.
pub open spec fn in_ferrus_dir(path: Seq<char>) -> bool {
    path == ".ferrus"@ || ".ferrus/"@.is_prefix_of(path)
}

/// Whether a relative path goes into the project's runtime directory.
pub fn starts_with_ferrus_dir(path: &str) -> (out: bool)
    ensures
        out == in_ferrus_dir(path@),
{
    text::same(path, ".ferrus") || text::starts_with(path, ".ferrus/")
}

/// A relative path under a root.
pub open spec fn joined(root: Seq<char>, path: Seq<char>) -> Seq<char> {
    if root.len() > 0 && root.last() == '/' {
        root + path
    } else {
        root + "/"@ + path
    }
}

/// Where a path of the project stands: paths into the runtime directory stand
/// under the project's root, if one is set.
pub fn project_path(path: &str, root: Option<&str>) -> (out: String)
    ensures
        out@ == if in_ferrus_dir(path@) && root is Some && text::trim(root->0@).len() > 0 {
            joined(text::trim(root->0@), path@)
        } else {
            path@
        },
{
    if !starts_with_ferrus_dir(path) {
        return path.to_owned();
    }
    match root {
        Some(value) => {
            let trimmed: String = text::trim_string(value);
            let chars: Vec<char> = text::chars_of(trimmed.as_str());
            if chars.len() == 0 {
                return path.to_owned();
            }
            let mut out: String = trimmed;
            if chars[chars.len() - 1] != '/' {
                out.append("/");
            }
            out.append(path);
            out
        },
        None => path.to_owned(),
    }
}

/// Whether an artifact is worth copying: it is not there yet, and the source
/// holds more than white space.
pub fn should_copy_artifact(target_exists: bool, contents: Option<&str>) -> (out: bool)
    ensures
        out == (!target_exists && contents is Some && !text::is_blank(contents->0@)),
{
    if target_exists {
        return false;
    }
    match contents {
        Some(contents) => !text::blank(contents),
        None => false,
    }
}

/// The state after the artifacts of an older project were given a task of their
/// own.
pub open spec fn legacy_populated(state: StateView) -> StateView {
    if state.state == TaskState::Idle || state.active_task_id is Some {
        state
    } else {
        StateView {
            active_task_id: Some("t-001"@),
            active_task_path: Some(".ferrus/tasks/t-001.md"@),
            active_run_dir: Some(".ferrus/runs/t-001"@),
            ..state
        }
    }
}

/// Gives the artifacts of an older project a task of their own, where a task is
/// under way that has none.
pub fn populate_legacy_active_artifacts(state: &mut StateData) -> (out: bool)
    ensures
        final(state)@ == legacy_populated(old(state)@),
        out == (old(state).state != TaskState::Idle && old(state).active_task_id is None),
{
    if state.state == TaskState::Idle || state.active_task_id.is_some() {
        return false;
    }
    state.set_active_task_artifacts(
        "t-001".to_owned(),
        ".ferrus/tasks/t-001.md".to_owned(),
        ".ferrus/runs/t-001".to_owned(),
    );
    true
}

// ------------------------------------------------------------------- schema

/// The tables that the runtime database must have.
pub open spec fn required_tables() -> Seq<Seq<char>> {
    seq!["tasks"@, "runs"@, "events"@]
}

/// The columns that the tasks table must have for leases, pauses and budgets.
pub open spec fn required_columns() -> Seq<Seq<char>> {
    seq![
        "paused_status"@,
        "claimed_by"@,
        "lease_until"@,
        "last_heartbeat"@,
        "check_retries"@,
        "review_cycles"@,
        "failure_reason"@,
    ]
}

fn contains_all(list: &Vec<String>, wanted: &Vec<String>) -> (out: bool)
    ensures
        out == (forall|i: int|
            0 <= i < wanted@.len() ==> text::views(list@).contains(
                #[trigger] text::views(wanted@)[i],
            )),
{
    let mut i: usize = 0;
    while i < wanted.len()
        invariant
            i <= wanted@.len(),
            forall|k: int|
                0 <= k < i ==> text::views(list@).contains(#[trigger] text::views(wanted@)[k]),
        decreases wanted@.len() - i,
    {
        if !text::list_contains(list, wanted[i].as_str()) {
            assert(!text::views(list@).contains(text::views(wanted@)[i as int]));
            return false;
        }
        i = i + 1;
    }
    true
}

/// Whether a database has the tables and the task columns that the runtime
/// needs.
pub fn validate_database_schema(tables: &Vec<String>, task_columns: &Vec<String>) -> (out: bool)
    ensures
        out == ((forall|i: int|
            0 <= i < required_tables().len() ==> text::views(tables@).contains(
                #[trigger] required_tables()[i],
            )) && (forall|i: int|
            0 <= i < required_columns().len() ==> text::views(task_columns@).contains(
                #[trigger] required_columns()[i],
            ))),
{
    let mut names: Vec<String> = Vec::new();
    names.push("tasks".to_owned());
    names.push("runs".to_owned());
    names.push("events".to_owned());
    assert(text::views(names@) =~= required_tables());
    let mut columns: Vec<String> = Vec::new();
    columns.push("paused_status".to_owned());
    columns.push("claimed_by".to_owned());
    columns.push("lease_until".to_owned());
    columns.push("last_heartbeat".to_owned());
    columns.push("check_retries".to_owned());
    columns.push("review_cycles".to_owned());
    columns.push("failure_reason".to_owned());
    assert(text::views(columns@) =~= required_columns());
    contains_all(tables, &names) && contains_all(task_columns, &columns)
}

// -------------------------------------------------------------------- laws

/// What is registered of a project tells where its workspace stands and what git says of
/// it; it is opened now, and the time of its creation is the one that is given. Without a
/// repository nothing is told of one.
pub proof fn law_metadata_tells_the_workspace(
    id: Seq<char>,
    workspace: Workspace,
    git: Option<GitMetadata>,
    created_at: Seq<char>,
    now: Instant,
)
    ensures
        ({
            let m = metadata_of(id, workspace, git, created_at, now);
            &&& m.id == id
            &&& m.name == if workspace.name is Some {
                workspace.name->0@
            } else {
                "project"@
            }
            &&& m.workspace_dir == workspace.dir@
            &&& m.ferrus_dir == workspace.ferrus_dir@
            &&& m.created_at == created_at
            &&& m.last_opened_at == clock::rfc3339_text(now.secs, now.nanos, true)
            &&& m.version == 1
            &&& git is None ==> m.vcs is None && m.origin_repo is None && m.default_branch is None
                && m.current_head is None
            &&& git matches Some(g) ==> m.vcs == Some("git"@) && m.origin_repo == text::opt_view(
                g.origin_repo,
            ) && m.default_branch == text::opt_view(g.default_branch) && m.current_head
                == text::opt_view(g.current_head)
        }),
{
}

/// Exactly the runtime directory and what stands below it go there, and below a root they
/// stand behind it with one separator between.
pub proof fn law_runtime_paths_follow_the_root(path: Seq<char>, root: Seq<char>)
    ensures
        in_ferrus_dir(path) <==> path == ".ferrus"@ || (path.len() >= 8 && path.take(8)
            == ".ferrus/"@),
        root.len() > 0 && root.last() == '/' ==> joined(root, path) == root + path,
        root.len() == 0 || root.last() != '/' ==> joined(root, path) == root.push('/') + path,
{
    reveal_strlit(".ferrus/");
    reveal_strlit("/");
    assert(".ferrus/"@.len() == 8);
    if path.len() >= 8 {
        assert(path.take(8) =~= path.subrange(0, 8));
    }
    assert(root + "/"@ =~= root.push('/'));
}

/// A task of an older project that is under way gets the files of the first task; a state
/// that is idle or names a task already stays as it is.
pub proof fn law_older_task_gets_its_files(state: StateView)
    ensures
        state.state is Idle || state.active_task_id is Some ==> legacy_populated(state) == state,
        !(state.state is Idle) && state.active_task_id is None ==> legacy_populated(state) == (
        StateView {
            active_task_id: Some("t-001"@),
            active_task_path: Some(".ferrus/tasks/t-001.md"@),
            active_run_dir: Some(".ferrus/runs/t-001"@),
            ..state
        }),
{
}

/// A database is of use only with the tables of tasks, runs and events, and with what
/// leases, pauses and budgets need.
pub proof fn law_schema_has_what_is_used(name: Seq<char>)
    ensures
        required_tables().contains(name) <==> name == "tasks"@ || name == "runs"@ || name
            == "events"@,
        required_columns().contains(name) <==> name == "paused_status"@ || name == "claimed_by"@
            || name == "lease_until"@ || name == "last_heartbeat"@ || name == "check_retries"@
            || name == "review_cycles"@ || name == "failure_reason"@,
{
    let tables = required_tables();
    assert(tables[0] == "tasks"@ && tables[1] == "runs"@ && tables[2] == "events"@);
    let columns = required_columns();
    assert(columns[0] == "paused_status"@ && columns[1] == "claimed_by"@ && columns[2]
        == "lease_until"@ && columns[3] == "last_heartbeat"@ && columns[4] == "check_retries"@
        && columns[5] == "review_cycles"@ && columns[6] == "failure_reason"@);
}

} // verus!
