//! The health report of a project.
use vstd::prelude::*;
use vstd::string::*;

use crate::project::tasks;
use crate::project::ProjectRegistration;
use crate::project::RuntimeRecovery;
use crate::project::TaskRecord;
use crate::project::TaskView;
use crate::state;
use crate::state::StateData;
use crate::state::StateView;
use crate::state::TaskState;
use crate::text;

verus! {

/// One check of the report.
#[derive(Debug, Clone, PartialEq, Eq)]
pub struct DoctorCheck {
    pub ok: bool,
    pub message: String,
}

/// The contents of a check.
pub struct CheckView {
    pub ok: bool,
    pub message: Seq<char>,
}

impl View for DoctorCheck {
    type V = CheckView;

    open spec fn view(&self) -> CheckView {
        CheckView { ok: self.ok, message: self.message@ }
    }
}

/// The contents of a list of checks.
pub open spec fn check_views(checks: Seq<DoctorCheck>) -> Seq<CheckView> {
    checks.map_values(|c: DoctorCheck| c@)
}

/// The health report of a project.
#[derive(Debug, Clone, PartialEq, Eq)]
pub struct DoctorReport {
    pub registration: ProjectRegistration,
    pub checks: Vec<DoctorCheck>,
}

impl DoctorReport {
    /// Whether some check failed.
    pub fn has_errors(&self) -> (out: bool)
        ensures
            out == exists|i: int| 0 <= i < self.checks@.len() && !(#[trigger] self.checks@[i]).ok,
    {
        let mut i: usize = 0;
        while i < self.checks.len()
            invariant
                i <= self.checks@.len(),
                forall|k: int| 0 <= k < i ==> (#[trigger] self.checks@[k]).ok,
            decreases self.checks@.len() - i,
        {
            if !self.checks[i].ok {
                return true;
            }
            i = i + 1;
        }
        false
    }
}

/// A check with its message.
pub open spec fn check(ok: bool, message: Seq<char>) -> CheckView {
    CheckView { ok, message }
}

fn add_check(checks: &mut Vec<DoctorCheck>, ok: bool, message: String)
    ensures
        check_views(final(checks)@) == check_views(old(checks)@).push(check(ok, message@)),
{
    checks.push(DoctorCheck { ok, message });
    assert(check_views(checks@) =~= check_views(old(checks)@).push(check(ok, message@)));
}

fn text_3(a: &str, b: &str, c: &str) -> (out: String)
    ensures
        out@ == a@ + b@ + c@,
{
    let mut out: String = a.to_owned();
    out.append(b);
    out.append(c);
    out
}

// ----------------------------------------------------------------- recovery

/// The message of a check on pending repairs.
pub open spec fn pending_message(what: Seq<char>, found: usize) -> Seq<char> {
    "no "@ + what + " recovery pending ("@ + text::decimal(found as nat)
        + " found; run `ferrus recover`)"@
}

/// The checks on pending repairs. `preview` is what a recovery would repair, or
/// why that could not be found out.
pub open spec fn recovery_checks(preview: Result<RuntimeRecovery, Seq<char>>) -> Seq<CheckView> {
    match preview {
        Err(reason) => seq![
            check(false, "runtime recovery preview can read ferrus.db ("@ + reason + ")"@),
        ],
        Ok(due) => seq![
            check(
                due.interrupted_runs == 0,
                pending_message("interrupted run"@, due.interrupted_runs),
            ),
            check(
                due.expired_task_leases == 0,
                pending_message("expired task lease"@, due.expired_task_leases),
            ),
            check(
                due.state_lease_mirrors_cleared == 0,
                pending_message("stale STATE.json lease mirror"@, due.state_lease_mirrors_cleared),
            ),
        ],
    }
}

fn pending_text(what: &str, found: usize) -> (out: String)
    ensures
        out@ == pending_message(what@, found),
{
    let mut out: String = "no ".to_owned();
    out.append(what);
    out.append(" recovery pending (");
    out.append(text::decimal_string(found as u64).as_str());
    out.append(" found; run `ferrus recover`)");
    out
}

/// What could not be read, and why.
pub open spec fn preview_view(preview: Result<RuntimeRecovery, String>) -> Result<
    RuntimeRecovery,
    Seq<char>,
> {
    match preview {
        Ok(due) => Ok(due),
        Err(reason) => Err(reason@),
    }
}

/// Adds the checks on pending repairs.
pub fn add_recovery_doctor_checks(
    checks: &mut Vec<DoctorCheck>,
    preview: &Result<RuntimeRecovery, String>,
)
    ensures
        check_views(final(checks)@) == check_views(old(checks)@) + recovery_checks(
            preview_view(*preview),
        ),
{
    match preview {
        Err(reason) => {
            add_check(
                checks,
                false,
                text_3("runtime recovery preview can read ferrus.db (", reason.as_str(), ")"),
            );
        },
        Ok(due) => {
            add_check(
                checks,
                due.interrupted_runs == 0,
                pending_text("interrupted run", due.interrupted_runs),
            );
            add_check(
                checks,
                due.expired_task_leases == 0,
                pending_text("expired task lease", due.expired_task_leases),
            );
            add_check(
                checks,
                due.state_lease_mirrors_cleared == 0,
                pending_text("stale STATE.json lease mirror", due.state_lease_mirrors_cleared),
            );
        },
    }
    assert(check_views(checks@) =~= check_views(old(checks)@) + recovery_checks(
        preview_view(*preview),
    ));
}

// ------------------------------------------------------------------ runtime

/// What was found on disk for the kept state: whether its task file and its run
/// directory are there, and the row of its task or why it could not be read.
#[derive(Debug, PartialEq, Eq)]
pub struct ActiveTaskFindings {
    pub task_path_exists: bool,
    pub run_dir_exists: bool,
    pub row: Result<Option<TaskRecord>, String>,
}

/// The number of fields of the kept state that name the task under way.
pub open spec fn active_fields(s: StateView) -> int {
    (if s.active_task_id is Some {
        1int
    } else {
        0
    }) + (if s.active_task_path is Some {
        1int
    } else {
        0
    }) + (if s.active_run_dir is Some {
        1int
    } else {
        0
    })
}

/// The checks on the fields that name the task under way.
pub open spec fn artifact_checks(
    s: StateView,
    task_path_exists: bool,
    run_dir_exists: bool,
) -> Seq<CheckView> {
    let named = active_fields(s);
    let presence = if s.state == TaskState::Idle {
        check(named == 0, "Idle STATE.json has no active task artifacts"@)
    } else {
        check(named == 3, state::state_name(s.state) + " STATE.json has active task artifacts"@)
    };
    let path = match s.active_task_path {
        Some(p) => seq![check(task_path_exists, "active task path exists at "@ + p)],
        None => Seq::empty(),
    };
    let dir = match s.active_run_dir {
        Some(d) => seq![check(run_dir_exists, "active run directory exists at "@ + d)],
        None => Seq::empty(),
    };
    seq![
        check(true, "STATE.json is readable"@),
        check(named == 0 || named == 3, "active task metadata is complete when present"@),
        presence,
    ] + path + dir
}

/// The checks of the task's row against the kept state.
pub open spec fn row_checks(s: StateView, t: TaskView) -> Seq<CheckView> {
    let path = match s.active_task_path {
        Some(p) => seq![
            check(t.path == p, "active task DB path matches STATE.json ("@ + p + ")"@),
        ],
        None => Seq::empty(),
    };
    let status = if s.state == TaskState::Consultation || s.state == TaskState::AwaitingHuman {
        Seq::empty()
    } else {
        let expected = tasks::status_of_state(s.state);
        seq![
            check(
                t.status == expected,
                "active task DB status matches STATE.json ("@ + expected + ")"@,
            ),
        ]
    };
    path + status + seq![
        check(t.claimed_by == s.claimed_by, "active task DB claim owner matches STATE.json"@),
    ]
}

/// The checks of the kept state against what was found.
pub open spec fn runtime_checks(
    known: Result<StateView, Seq<char>>,
    task_path_exists: bool,
    run_dir_exists: bool,
    row: Result<Option<TaskView>, Seq<char>>,
) -> Seq<CheckView> {
    match known {
        Err(reason) => seq![check(false, "STATE.json is readable ("@ + reason + ")"@)],
        Ok(s) => {
            let artifacts = artifact_checks(s, task_path_exists, run_dir_exists);
            match s.active_task_id {
                None => artifacts,
                Some(id) => match row {
                    Err(reason) => artifacts.push(
                        check(
                            false,
                            "active task row can be read from ferrus.db ("@ + reason + ")"@,
                        ),
                    ),
                    Ok(None) => artifacts.push(
                        check(false, "active task row exists in ferrus.db for "@ + id),
                    ),
                    Ok(Some(t)) => artifacts.push(
                        check(true, "active task row exists in ferrus.db for "@ + id),
                    ) + row_checks(s, t),
                },
            }
        },
    }
}

/// What was found of a task's row.
pub open spec fn row_view(row: Result<Option<TaskRecord>, String>) -> Result<
    Option<TaskView>,
    Seq<char>,
> {
    match row {
        Ok(Some(t)) => Ok(Some(t@)),
        Ok(None) => Ok(None),
        Err(reason) => Err(reason@),
    }
}

fn text_2(a: &str, b: &str) -> (out: String)
    ensures
        out@ == a@ + b@,
{
    let mut out: String = a.to_owned();
    out.append(b);
    out
}

fn add_artifact_checks(
    checks: &mut Vec<DoctorCheck>,
    kept: &StateData,
    task_path_exists: bool,
    run_dir_exists: bool,
)
    ensures
        check_views(final(checks)@) == check_views(old(checks)@) + artifact_checks(
            kept@,
            task_path_exists,
            run_dir_exists,
        ),
{
    let ghost start = check_views(checks@);
    let mut named: u64 = 0;
    if kept.active_task_id.is_some() {
        named = named + 1;
    }
    if kept.active_task_path.is_some() {
        named = named + 1;
    }
    if kept.active_run_dir.is_some() {
        named = named + 1;
    }
    add_check(checks, true, "STATE.json is readable".to_owned());
    add_check(
        checks,
        named == 0 || named == 3,
        "active task metadata is complete when present".to_owned(),
    );
    if kept.state == TaskState::Idle {
        add_check(
            checks,
            named == 0,
            "Idle STATE.json has no active task artifacts".to_owned(),
        );
    } else {
        add_check(
            checks,
            named == 3,
            text_2(kept.state.name(), " STATE.json has active task artifacts"),
        );
    }
    let ghost base = check_views(checks@);
    if let Some(path) = &kept.active_task_path {
        add_check(
            checks,
            task_path_exists,
            text_2("active task path exists at ", path.as_str()),
        );
    }
    if let Some(dir) = &kept.active_run_dir {
        add_check(
            checks,
            run_dir_exists,
            text_2("active run directory exists at ", dir.as_str()),
        );
    }
    assert(check_views(checks@) =~= start + artifact_checks(
        kept@,
        task_path_exists,
        run_dir_exists,
    ));
}

fn add_row_checks(checks: &mut Vec<DoctorCheck>, kept: &StateData, row: &TaskRecord)
    ensures
        check_views(final(checks)@) == check_views(old(checks)@) + row_checks(kept@, row@),
{
    let ghost start = check_views(checks@);
    if let Some(path) = &kept.active_task_path {
        add_check(
            checks,
            row.path == *path,
            text_3("active task DB path matches STATE.json (", path.as_str(), ")"),
        );
    }
    if kept.state != TaskState::Consultation && kept.state != TaskState::AwaitingHuman {
        let expected: &str = tasks::task_status_for_state(&kept.state);
        add_check(
            checks,
            text::same(row.status.as_str(), expected),
            text_3("active task DB status matches STATE.json (", expected, ")"),
        );
    }
    let same_owner: bool = match (&row.claimed_by, &kept.claimed_by) {
        (Some(a), Some(b)) => text::same(a.as_str(), b.as_str()),
        (None, None) => true,
        _ => false,
    };
    add_check(
        checks,
        same_owner,
        "active task DB claim owner matches STATE.json".to_owned(),
    );
    assert(check_views(checks@) =~= start + row_checks(kept@, row@));
}

/// What was read of the kept state.
pub open spec fn state_view(known: Result<StateData, String>) -> Result<StateView, Seq<char>> {
    match known {
        Ok(s) => Ok(s@),
        Err(reason) => Err(reason@),
    }
}

/// Adds the checks of the kept state against what was found.
pub fn add_runtime_doctor_checks(
    checks: &mut Vec<DoctorCheck>,
    known: &Result<StateData, String>,
    found: &ActiveTaskFindings,
)
    ensures
        check_views(final(checks)@) == check_views(old(checks)@) + runtime_checks(
            state_view(*known),
            found.task_path_exists,
            found.run_dir_exists,
            row_view(found.row),
        ),
{
    let ghost start = check_views(checks@);
    let ghost expected = runtime_checks(
        state_view(*known),
        found.task_path_exists,
        found.run_dir_exists,
        row_view(found.row),
    );
    let kept: &StateData = match known {
        Ok(kept) => kept,
        Err(reason) => {
            add_check(checks, false, text_3("STATE.json is readable (", reason.as_str(), ")"));
            assert(check_views(checks@) =~= start + expected);
            return;
        },
    };
    add_artifact_checks(checks, kept, found.task_path_exists, found.run_dir_exists);
    let task_id: &String = match &kept.active_task_id {
        Some(task_id) => task_id,
        None => {
            return;
        },
    };
    match &found.row {
        Err(reason) => {
            add_check(
                checks,
                false,
                text_3("active task row can be read from ferrus.db (", reason.as_str(), ")"),
            );
        },
        Ok(None) => {
            add_check(
                checks,
                false,
                text_2("active task row exists in ferrus.db for ", task_id.as_str()),
            );
        },
        Ok(Some(row)) => {
            add_check(
                checks,
                true,
                text_2("active task row exists in ferrus.db for ", task_id.as_str()),
            );
            add_row_checks(checks, kept, row);
        },
    }
    assert(check_views(checks@) =~= start + expected);
}

// ------------------------------------------------------------------ project

/// What was found of a project's registration. Paths are compared with links
/// resolved.
#[derive(Debug, Clone, PartialEq, Eq)]
pub struct RegistrationFindings {
    pub local_id: String,
    pub metadata_id: String,
    pub data_dir_matches: bool,
    pub expected_data_dir: String,
    pub workspace_matches: bool,
    pub workspace_dir: String,
    pub ferrus_dir_matches: bool,
    pub ferrus_dir: String,
    pub database_exists: bool,
    pub database_path: String,
    pub schema_valid: bool,
}

/// The checks on a project's registration.
pub open spec fn registration_checks(f: RegistrationFindings) -> Seq<CheckView> {
    seq![
        check(
            f.local_id@ == f.metadata_id@,
            "local project_id matches global metadata id ("@ + f.local_id@ + ")"@,
        ),
        check(f.data_dir_matches, "data_dir points at "@ + f.expected_data_dir@),
        check(f.workspace_matches, "workspace_dir points at "@ + f.workspace_dir@),
        check(f.ferrus_dir_matches, "ferrus_dir points at "@ + f.ferrus_dir@),
        check(f.database_exists, "database exists at "@ + f.database_path@),
        check(f.schema_valid, "database has tasks, runs, events, and task lease columns"@),
    ]
}

/// The checks of a whole report: on the registration, on pending repairs, and
/// of the kept state against what was found.
pub fn doctor_current_project(
    registration: &RegistrationFindings,
    preview: &Result<RuntimeRecovery, String>,
    known: &Result<StateData, String>,
    found: &ActiveTaskFindings,
) -> (out: Vec<DoctorCheck>)
    ensures
        check_views(out@) == registration_checks(*registration) + recovery_checks(
            preview_view(*preview),
        ) + runtime_checks(
            state_view(*known),
            found.task_path_exists,
            found.run_dir_exists,
            row_view(found.row),
        ),
{
    let mut checks: Vec<DoctorCheck> = Vec::new();
    add_check(
        &mut checks,
        registration.local_id == registration.metadata_id,
        text_3(
            "local project_id matches global metadata id (",
            registration.local_id.as_str(),
            ")",
        ),
    );
    add_check(
        &mut checks,
        registration.data_dir_matches,
        text_2("data_dir points at ", registration.expected_data_dir.as_str()),
    );
    add_check(
        &mut checks,
        registration.workspace_matches,
        text_2("workspace_dir points at ", registration.workspace_dir.as_str()),
    );
    add_check(
        &mut checks,
        registration.ferrus_dir_matches,
        text_2("ferrus_dir points at ", registration.ferrus_dir.as_str()),
    );
    add_check(
        &mut checks,
        registration.database_exists,
        text_2("database exists at ", registration.database_path.as_str()),
    );
    add_check(
        &mut checks,
        registration.schema_valid,
        "database has tasks, runs, events, and task lease columns".to_owned(),
    );
    assert(check_views(checks@) =~= registration_checks(*registration));
    add_recovery_doctor_checks(&mut checks, preview);
    add_runtime_doctor_checks(&mut checks, known, found);
    checks
}

/// A report is clean exactly if nothing is due for repair and every other check
/// holds: pending repairs never go unnoticed.
pub proof fn law_pending_repairs_are_reported(due: RuntimeRecovery)
    ensures
        (forall|i: int|
            0 <= i < recovery_checks(Ok(due)).len() ==> (#[trigger] recovery_checks(
                Ok(due),
            )[i]).ok) <==> due.interrupted_runs == 0 && due.expired_task_leases == 0
            && due.state_lease_mirrors_cleared == 0,
{
    let all = recovery_checks(Ok(due));
    assert(all[0].ok == (due.interrupted_runs == 0));
    assert(all[1].ok == (due.expired_task_leases == 0));
    assert(all[2].ok == (due.state_lease_mirrors_cleared == 0));
}

/// Whether every check holds.
pub open spec fn all_hold(checks: Seq<CheckView>) -> bool {
    forall|i: int| 0 <= i < checks.len() ==> (#[trigger] checks[i]).ok
}

proof fn lemma_all_hold_concat(a: Seq<CheckView>, b: Seq<CheckView>)
    ensures
        all_hold(a + b) <==> all_hold(a) && all_hold(b),
{
    if all_hold(a + b) {
        assert forall|i: int| 0 <= i < a.len() implies (#[trigger] a[i]).ok by {
            assert((a + b)[i].ok);
        }
        assert forall|i: int| 0 <= i < b.len() implies (#[trigger] b[i]).ok by {
            assert((a + b)[a.len() + i].ok);
        }
    }
}

/// A report on a state that can be read is clean exactly if the state agrees with what
/// was found. An idle state names no task; any other names its task, its file and its run
/// directory, and both are there. The row of the task can be read and is there; its path
/// and its owner are those of the state, and its status stands for the state, but for a
/// task that waits for advice or for a human. Without a state that can be read it is never
/// clean.
pub proof fn law_clean_state_agrees_with_the_tables(
    s: StateView,
    task_path_exists: bool,
    run_dir_exists: bool,
    row: Result<Option<TaskView>, Seq<char>>,
    reason: Seq<char>,
)
    ensures
        !all_hold(runtime_checks(Err(reason), task_path_exists, run_dir_exists, row)),
        all_hold(runtime_checks(Ok(s), task_path_exists, run_dir_exists, row)) <==> if s.state
            is Idle {
            s.active_task_id is None && s.active_task_path is None && s.active_run_dir is None
        } else {
            &&& s.active_task_id is Some && s.active_task_path is Some && s.active_run_dir is Some
            &&& task_path_exists && run_dir_exists
            &&& row matches Ok(Some(t)) && t.path == s.active_task_path->0 && t.claimed_by
                == s.claimed_by && (s.state is Consultation || s.state is AwaitingHuman || t.status
                == tasks::status_of_state(s.state))
        },
{
    let failed = runtime_checks(Err(reason), task_path_exists, run_dir_exists, row);
    assert(!failed[0].ok);
    let artifacts = artifact_checks(s, task_path_exists, run_dir_exists);
    lemma_artifacts(s, task_path_exists, run_dir_exists);
    if let Some(id) = s.active_task_id {
        match row {
            Ok(Some(t)) => {
                let found = check(true, "active task row exists in ferrus.db for "@ + id);
                lemma_all_hold_concat(artifacts.push(found), row_checks(s, t));
                lemma_all_hold_concat(artifacts, seq![found]);
                assert(artifacts + seq![found] =~= artifacts.push(found));
                assert(all_hold(seq![found]));
                if s.active_task_path is Some {
                    lemma_row(s, t);
                }
            },
            Ok(None) => {
                let all = runtime_checks(Ok(s), task_path_exists, run_dir_exists, row);
                assert(!all[all.len() - 1].ok);
            },
            Err(_) => {
                let all = runtime_checks(Ok(s), task_path_exists, run_dir_exists, row);
                assert(!all[all.len() - 1].ok);
            },
        }
    }
}

proof fn lemma_artifacts(s: StateView, task_path_exists: bool, run_dir_exists: bool)
    ensures
        all_hold(artifact_checks(s, task_path_exists, run_dir_exists)) <==> if s.state is Idle {
            s.active_task_id is None && s.active_task_path is None && s.active_run_dir is None
        } else {
            s.active_task_id is Some && s.active_task_path is Some && s.active_run_dir is Some
                && task_path_exists && run_dir_exists
        },
{
    let all = artifact_checks(s, task_path_exists, run_dir_exists);
    assert(all[2].ok == if s.state is Idle {
        active_fields(s) == 0
    } else {
        active_fields(s) == 3
    });
    if s.active_task_path is Some {
        assert(all[3].ok == task_path_exists);
    }
    if s.active_task_path is Some && s.active_run_dir is Some {
        assert(all[4].ok == run_dir_exists);
    }
    assert(all[1].ok == (active_fields(s) == 0 || active_fields(s) == 3));
}

proof fn lemma_row(s: StateView, t: TaskView)
    requires
        s.active_task_path is Some,
    ensures
        all_hold(row_checks(s, t)) <==> t.path == s.active_task_path->0 && t.claimed_by
            == s.claimed_by && (s.state is Consultation || s.state is AwaitingHuman || t.status
            == tasks::status_of_state(s.state)),
{
    let all = row_checks(s, t);
    assert(all[0].ok == (t.path == s.active_task_path->0));
    assert(all[all.len() - 1].ok == (t.claimed_by == s.claimed_by));
    if !(s.state is Consultation || s.state is AwaitingHuman) {
        assert(all[1].ok == (t.status == tasks::status_of_state(s.state)));
    }
}

/// A registration is clean exactly if the workspace and the metadata name the same project
/// and everything stands where it is said to; and a preview that could not be had is never
/// clean.
pub proof fn law_clean_registration_agrees(f: RegistrationFindings, reason: Seq<char>)
    ensures
        all_hold(registration_checks(f)) <==> f.local_id@ == f.metadata_id@ && f.data_dir_matches
            && f.workspace_matches && f.ferrus_dir_matches && f.database_exists && f.schema_valid,
        !all_hold(recovery_checks(Err(reason))),
{
    let all = registration_checks(f);
    assert(all[0].ok == (f.local_id@ == f.metadata_id@));
    assert(all[1].ok == f.data_dir_matches && all[2].ok == f.workspace_matches);
    assert(all[3].ok == f.ferrus_dir_matches && all[4].ok == f.database_exists);
    assert(all[5].ok == f.schema_valid);
    assert(!recovery_checks(Err(reason))[0].ok);
}

} // verus!
