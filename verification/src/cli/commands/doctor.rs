//! The report on a project's registration.
use vstd::prelude::*;
use vstd::string::*;

use crate::project::doctor::{DoctorCheck, DoctorReport};
use crate::text;

verus! {

/// The line of one finding.
pub open spec fn check_line(check: DoctorCheck) -> Seq<char> {
    if check.ok {
        "ok: "@ + check.message@
    } else {
        "error: "@ + check.message@
    }
}

/// The lines of the first findings.
pub open spec fn check_lines(checks: Seq<DoctorCheck>) -> Seq<Seq<char>> {
    checks.map_values(|c: DoctorCheck| check_line(c))
}

/// What is printed of a report.
pub open spec fn report_lines(report: DoctorReport) -> Seq<Seq<char>> {
    seq![
        "Project: "@ + report.registration.metadata.name@,
        "Project id: "@ + report.registration.local_ref.project_id@,
        "Data dir: "@ + report.registration.data_dir@,
        "Database: "@ + report.registration.database_path@,
    ] + check_lines(report.checks@)
}

/// A label followed by a value.
fn labelled(label: &str, value: &str) -> (out: String)
    ensures
        out@ == label@ + value@,
{
    let mut out: String = label.to_owned();
    out.append(value);
    out
}

/// What is printed of a report.
pub fn run(report: &DoctorReport) -> (out: Vec<String>)
    ensures
        text::views(out@) == report_lines(*report),
{
    let mut out: Vec<String> = Vec::new();
    text::add_text(
        &mut out,
        labelled("Project: ", report.registration.metadata.name.as_str()).as_str(),
    );
    text::add_text(
        &mut out,
        labelled("Project id: ", report.registration.local_ref.project_id.as_str()).as_str(),
    );
    text::add_text(
        &mut out,
        labelled("Data dir: ", report.registration.data_dir.as_str()).as_str(),
    );
    text::add_text(
        &mut out,
        labelled("Database: ", report.registration.database_path.as_str()).as_str(),
    );
    let ghost head = text::views(out@);
    let ghost all = check_lines(report.checks@);
    assert(head =~= report_lines(*report).take(4));
    assert(head + all.take(0) =~= head);
    let mut i: usize = 0;
    while i < report.checks.len()
        invariant
            i <= report.checks@.len(),
            all == check_lines(report.checks@),
            text::views(out@) == head + all.take(i as int),
        decreases report.checks@.len() - i,
    {
        let line: String = if report.checks[i].ok {
            labelled("ok: ", report.checks[i].message.as_str())
        } else {
            labelled("error: ", report.checks[i].message.as_str())
        };
        text::add_text(&mut out, line.as_str());
        assert(all.take(i + 1) =~= all.take(i as int).push(all[i as int]));
        assert(text::views(out@) =~= head + all.take(i + 1));
        i = i + 1;
    }
    assert(all.take(i as int) =~= all);
    assert(head + all =~= report_lines(*report));
    out
}

/// Each finding has its line, in order, which says whether it is an error and ends
/// with its message.
pub proof fn law_findings_are_reported(report: DoctorReport, i: int)
    requires
        0 <= i < report.checks@.len(),
    ensures
        report_lines(report).len() == 4 + report.checks@.len(),
        report.checks@[i].message@.is_suffix_of(report_lines(report)[4 + i]),
        report.checks@[i].ok <==> "ok: "@.is_prefix_of(report_lines(report)[4 + i]),
        !report.checks@[i].ok <==> "error: "@.is_prefix_of(report_lines(report)[4 + i]),
{
    reveal_strlit("ok: ");
    reveal_strlit("error: ");
    let line = report_lines(report)[4 + i];
    let message = report.checks@[i].message@;
    assert(line == check_line(report.checks@[i]));
    assert(line.subrange(line.len() - message.len(), line.len() as int) =~= message);
    assert("ok: "@[0] == 'o' && "error: "@[0] == 'e');
    if report.checks@[i].ok {
        assert("ok: "@.is_prefix_of(line));
        assert(line[0] == 'o');
    } else {
        assert("error: "@.is_prefix_of(line));
        assert(line[0] == 'e');
    }
}

} // verus!
