//! The report on a recovery.
use vstd::prelude::*;
use vstd::string::*;

use crate::project::RuntimeRecovery;
use crate::text;

verus! {

/// What is printed of a recovery.
pub open spec fn recovery_lines(recovery: RuntimeRecovery, dry_run: bool) -> Seq<Seq<char>> {
    seq![
        "Mode: "@ + if dry_run {
            "dry-run (no changes)"@
        } else {
            "apply"@
        },
        "Interrupted runs: "@ + text::decimal(recovery.interrupted_runs as nat),
        "Expired task leases: "@ + text::decimal(recovery.expired_task_leases as nat),
        "STATE lease mirrors cleared: "@ + text::decimal(
            recovery.state_lease_mirrors_cleared as nat,
        ),
    ]
}

/// A label followed by a number.
fn counted(label: &str, count: usize) -> (out: String)
    ensures
        out@ == label@ + text::decimal(count as nat),
{
    let mut out: String = label.to_owned();
    out.append(text::decimal_string(count as u64).as_str());
    out
}

/// What is printed of a recovery.
pub fn run(recovery: &RuntimeRecovery, dry_run: bool) -> (out: Vec<String>)
    ensures
        text::views(out@) == recovery_lines(*recovery, dry_run),
{
    let mut mode: String = "Mode: ".to_owned();
    mode.append(
        if dry_run {
            "dry-run (no changes)"
        } else {
            "apply"
        },
    );
    let mut out: Vec<String> = Vec::new();
    text::add_text(&mut out, mode.as_str());
    text::add_text(&mut out, counted("Interrupted runs: ", recovery.interrupted_runs).as_str());
    text::add_text(
        &mut out,
        counted("Expired task leases: ", recovery.expired_task_leases).as_str(),
    );
    text::add_text(
        &mut out,
        counted("STATE lease mirrors cleared: ", recovery.state_lease_mirrors_cleared).as_str(),
    );
    assert(text::views(out@) =~= recovery_lines(*recovery, dry_run));
    out
}

/// The report says whether anything was changed, and is the same otherwise: each
/// count stands on a line of its own.
pub proof fn law_report_says_what_was_done(recovery: RuntimeRecovery, dry_run: bool)
    ensures
        recovery_lines(recovery, dry_run).len() == 4,
        recovery_lines(recovery, true)[0] != recovery_lines(recovery, false)[0],
        "dry-run (no changes)"@.is_suffix_of(recovery_lines(recovery, true)[0]),
        forall|i: int|
            1 <= i < 4 ==> #[trigger] recovery_lines(recovery, true)[i] == recovery_lines(
                recovery,
                false,
            )[i],
        text::decimal(recovery.interrupted_runs as nat).is_suffix_of(
            recovery_lines(recovery, dry_run)[1],
        ),
        text::decimal(recovery.expired_task_leases as nat).is_suffix_of(
            recovery_lines(recovery, dry_run)[2],
        ),
        text::decimal(recovery.state_lease_mirrors_cleared as nat).is_suffix_of(
            recovery_lines(recovery, dry_run)[3],
        ),
{
    reveal_strlit("dry-run (no changes)");
    reveal_strlit("apply");
    assert(recovery_lines(recovery, true)[0].len() > recovery_lines(recovery, false)[0].len());
    let lines = recovery_lines(recovery, dry_run);
    assert("dry-run (no changes)"@ =~= recovery_lines(recovery, true)[0].skip(
        "Mode: "@.len() as int,
    ));
    assert(text::decimal(recovery.interrupted_runs as nat) =~= lines[1].skip(
        "Interrupted runs: "@.len() as int,
    ));
    assert(text::decimal(recovery.expired_task_leases as nat) =~= lines[2].skip(
        "Expired task leases: "@.len() as int,
    ));
    assert(text::decimal(recovery.state_lease_mirrors_cleared as nat) =~= lines[3].skip(
        "STATE lease mirrors cleared: "@.len() as int,
    ));
}

} // verus!
