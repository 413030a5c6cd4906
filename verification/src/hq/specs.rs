//! Feature specifications: their milestones, and which of them can be worked
//! on.
use vstd::prelude::*;
use vstd::string::*;

use crate::rows;
use crate::text;

verus! {

impl rows::Ordered for String {
    open spec fn before() -> spec_fn(Seq<char>, Seq<char>) -> bool {
        by_text()
    }

    fn precedes(&self, other: &String) -> (out: bool) {
        text::text_less(self.as_str(), other.as_str())
    }
}

/// Texts in their order.
pub open spec fn by_text() -> spec_fn(Seq<char>, Seq<char>) -> bool {
    |a: Seq<char>, b: Seq<char>| text::text_lt(a, b)
}

/// Whether a file is a specification: one with a name before `.md`.
pub open spec fn is_spec_path() -> spec_fn(Seq<char>) -> bool {
    |path: Seq<char>|
        {
            let n = path.len();
            &&& n > 3 && path[n - 3] == '.' && path[n - 2] == 'm' && path[n - 1] == 'd'
            &&& path[n - 4] != '/' && path[n - 4] != '\\'
        }
}

/// The specifications among the files of a directory, in their order.
pub fn spec_paths(paths: &Vec<String>) -> (out: Vec<String>)
    ensures
        text::views(out@) == rows::in_order(
            text::views(paths@).filter(is_spec_path()),
            by_text(),
        ),
{
    let ghost all = text::views(paths@);
    let ghost wanted = is_spec_path();
    let mut kept: Vec<String> = Vec::new();
    let mut i: usize = 0;
    proof {
        reveal(Seq::filter);
        assert(text::views(kept@) =~= all.take(0).filter(wanted));
    }
    while i < paths.len()
        invariant
            i <= paths@.len(),
            all == text::views(paths@),
            wanted == is_spec_path(),
            text::views(kept@) == all.take(i as int).filter(wanted),
        decreases paths@.len() - i,
    {
        let ghost more = all.take(i + 1);
        assert(more.drop_last() =~= all.take(i as int));
        assert(more.last() == paths@[i as int]@);
        proof {
            reveal(Seq::filter);
        }
        let chars: Vec<char> = text::chars_of(paths[i].as_str());
        let n: usize = chars.len();
        if n > 3 && chars[n - 3] == '.' && chars[n - 2] == 'm' && chars[n - 1] == 'd' && chars[n
            - 4] != '/' && chars[n - 4] != '\\' {
            text::add_text(&mut kept, paths[i].as_str());
        }
        i = i + 1;
    }
    assert(all.take(i as int) =~= all);
    assert(rows::contents(kept@) =~= text::views(kept@));
    let out: Vec<String> = rows::sort(kept);
    assert(rows::contents(out@) =~= text::views(out@));
    out
}

/// A milestone of a specification.
#[derive(Debug, Clone, PartialEq, Eq)]
pub struct Milestone {
    pub id: String,
    pub marker: String,
    pub title: String,
    pub completed: bool,
    pub depends_on: String,
}

/// The contents of a milestone.
#[verifier::ext_equal]
pub struct MilestoneView {
    pub id: Seq<char>,
    pub marker: Seq<char>,
    pub title: Seq<char>,
    pub completed: bool,
    pub depends_on: Seq<char>,
}

impl View for Milestone {
    type V = MilestoneView;

    open spec fn view(&self) -> MilestoneView {
        MilestoneView {
            id: self.id@,
            marker: self.marker@,
            title: self.title@,
            completed: self.completed,
            depends_on: self.depends_on@,
        }
    }
}

/// The contents of a list of milestones.
pub open spec fn milestone_views(list: Seq<Milestone>) -> Seq<MilestoneView> {
    list.map_values(|m: Milestone| m@)
}

/// The title of a milestone with its marker.
pub open spec fn full_title(milestone: MilestoneView) -> Seq<char> {
    milestone.marker + " "@ + milestone.title
}

impl Milestone {
    /// The title with its marker.
    pub fn display_title(&self) -> (out: String)
        ensures
            out@ == full_title(self@),
    {
        let mut out: String = self.marker.clone();
        out.append(" ");
        out.append(self.title.as_str());
        out
    }

    /// A copy of the milestone.
    pub fn copy(&self) -> (out: Milestone)
        ensures
            out == *self,
    {
        Milestone {
            id: self.id.clone(),
            marker: self.marker.clone(),
            title: self.title.clone(),
            completed: self.completed,
            depends_on: self.depends_on.clone(),
        }
    }
}

// ------------------------------------------------------------------ reading

/// What the line of a milestone says behind its box, and whether the box is
/// ticked.
pub open spec fn boxed(line: Seq<char>) -> Option<(bool, Seq<char>)> {
    match text::after_prefix(line, "- [x] "@) {
        Some(rest) => Some((true, text::trim(rest))),
        None => match text::after_prefix(line, "- [X] "@) {
            Some(rest) => Some((true, text::trim(rest))),
            None => match text::after_prefix(line, "- [ ] "@) {
                Some(rest) => Some((false, text::trim(rest))),
                None => None,
            },
        },
    }
}

/// The milestone that a line starts, before its id is known: a box, a marker
/// and a title.
pub open spec fn started(line: Seq<char>) -> Option<MilestoneView> {
    match boxed(text::trim(line)) {
        Some((completed, rest)) => if "#"@.is_prefix_of(rest) {
            let end = text::first_space(rest);
            Some(
                MilestoneView {
                    id: Seq::empty(),
                    marker: rest.take(end),
                    title: text::trim(rest.skip(end)),
                    completed,
                    depends_on: Seq::empty(),
                },
            )
        } else {
            None
        },
        None => None,
    }
}

/// The milestones read so far, and the one that is being read.
#[verifier::ext_equal]
pub struct ReadView {
    pub done: Seq<MilestoneView>,
    pub current: Option<MilestoneView>,
}

/// The milestone being read put to the others, if it has an id.
pub open spec fn finished(r: ReadView) -> Seq<MilestoneView> {
    match r.current {
        Some(m) if m.id.len() > 0 => r.done.push(m),
        _ => r.done,
    }
}

/// The milestones after one more line.
pub open spec fn read_line(r: ReadView, line: Seq<char>) -> ReadView {
    match started(line) {
        Some(m) => ReadView { done: finished(r), current: Some(m) },
        None => match r.current {
            None => r,
            Some(m) => match text::after_prefix(text::trim(line), "- ID: "@) {
                Some(id) => ReadView {
                    current: Some(MilestoneView { id: text::trim(id), ..m }),
                    ..r
                },
                None => match text::after_prefix(text::trim(line), "- Depends on: "@) {
                    Some(list) => ReadView {
                        current: Some(MilestoneView { depends_on: text::trim(list), ..m }),
                        ..r
                    },
                    None => r,
                },
            },
        },
    }
}

/// The milestones after some lines.
pub open spec fn read_lines(lines: Seq<Seq<char>>) -> ReadView
    decreases lines.len(),
{
    if lines.len() == 0 {
        ReadView { done: Seq::empty(), current: None }
    } else {
        read_line(read_lines(lines.drop_last()), lines.last())
    }
}

/// The milestones of a specification: those that have an id.
pub open spec fn milestones_of(contents: Seq<char>) -> Seq<MilestoneView> {
    finished(read_lines(text::lines(contents)))
}

/// The milestone that a line starts.
fn start_milestone(line: &str) -> (out: Option<Milestone>)
    ensures
        match (out, started(line@)) {
            (Some(m), Some(expected)) => m@ == expected,
            (None, None) => true,
            _ => false,
        },
{
    let trimmed: String = text::trim_string(line);
    let (completed, rest): (bool, String) = match text::strip_prefix(trimmed.as_str(), "- [x] ") {
        Some(rest) => (true, text::trim_string(rest.as_str())),
        None => match text::strip_prefix(trimmed.as_str(), "- [X] ") {
            Some(rest) => (true, text::trim_string(rest.as_str())),
            None => match text::strip_prefix(trimmed.as_str(), "- [ ] ") {
                Some(rest) => (false, text::trim_string(rest.as_str())),
                None => {
                    return None;
                },
            },
        },
    };
    if !text::starts_with(rest.as_str(), "#") {
        return None;
    }
    let chars: Vec<char> = text::chars_of(rest.as_str());
    let end: usize = text::find_space(&chars);
    let marker: String = text::string_of(&chars, 0, end);
    let behind: String = text::string_of(&chars, end, chars.len());
    assert(marker@ =~= rest@.take(end as int));
    assert(behind@ =~= rest@.skip(end as int));
    let out = Milestone {
        id: String::new(),
        marker,
        title: text::trim_string(behind.as_str()),
        completed,
        depends_on: String::new(),
    };
    assert(out.id@ =~= Seq::empty());
    assert(out.depends_on@ =~= Seq::empty());
    Some(out)
}

/// The contents of the milestone being read.
pub open spec fn current_view(current: Option<Milestone>) -> Option<MilestoneView> {
    match current {
        Some(m) => Some(m@),
        None => None,
    }
}

/// Puts the milestone being read to the others, if it has an id.
fn finish(done: &mut Vec<Milestone>, current: Option<Milestone>)
    ensures
        milestone_views(final(done)@) == finished(
            ReadView { done: milestone_views(old(done)@), current: current_view(current) },
        ),
{
    let ghost before = milestone_views(done@);
    if let Some(m) = current {
        let chars: Vec<char> = text::chars_of(m.id.as_str());
        if chars.len() > 0 {
            let ghost shown = m@;
            done.push(m);
            assert(milestone_views(done@) =~= before.push(shown));
        }
    }
}

/// The milestones of a specification.
pub fn parse_milestones(contents: &str) -> (out: Vec<Milestone>)
    ensures
        milestone_views(out@) == milestones_of(contents@),
{
    let lines: Vec<String> = text::line_strings(contents);
    let ghost all = text::views(lines@);
    let mut done: Vec<Milestone> = Vec::new();
    let mut current: Option<Milestone> = None;
    assert(milestone_views(done@) =~= Seq::empty());
    let mut i: usize = 0;
    while i < lines.len()
        invariant
            i <= lines@.len(),
            all == text::views(lines@),
            read_lines(all.take(i as int)) == (ReadView {
                done: milestone_views(done@),
                current: current_view(current),
            }),
        decreases lines@.len() - i,
    {
        assert(all.take(i + 1).drop_last() =~= all.take(i as int));
        assert(all.take(i + 1).last() == lines@[i as int]@);
        match start_milestone(lines[i].as_str()) {
            Some(m) => {
                finish(&mut done, current);
                current = Some(m);
            },
            None => {
                if let Some(m) = current {
                    let trimmed: String = text::trim_string(lines[i].as_str());
                    current = match text::strip_prefix(trimmed.as_str(), "- ID: ") {
                        Some(id) => Some(
                            Milestone { id: text::trim_string(id.as_str()), ..m },
                        ),
                        None => match text::strip_prefix(trimmed.as_str(), "- Depends on: ") {
                            Some(list) => Some(
                                Milestone {
                                    depends_on: text::trim_string(list.as_str()),
                                    ..m
                                },
                            ),
                            None => Some(m),
                        },
                    };
                }
            },
        }
        i = i + 1;
    }
    assert(all.take(i as int) =~= all);
    finish(&mut done, current);
    done
}

// ------------------------------------------------------------------ readiness

/// Whether a milestone can be worked on.
#[derive(Debug, Clone, Copy, PartialEq, Eq, Structural)]
pub enum MilestoneReadiness {
    Done,
    Ready,
    Pending,
}

/// A milestone with whether it can be worked on, and what it waits for.
#[derive(Debug, Clone, PartialEq, Eq)]
pub struct PlanItem {
    pub milestone: Milestone,
    pub readiness: MilestoneReadiness,
    pub blocked_by: Vec<String>,
}

/// The contents of such an item.
#[verifier::ext_equal]
pub struct ItemView {
    pub milestone: MilestoneView,
    pub readiness: MilestoneReadiness,
    pub blocked_by: Seq<Seq<char>>,
}

impl View for PlanItem {
    type V = ItemView;

    open spec fn view(&self) -> ItemView {
        ItemView {
            milestone: self.milestone@,
            readiness: self.readiness,
            blocked_by: text::views(self.blocked_by@),
        }
    }
}

/// The contents of a list of such items.
pub open spec fn item_views(list: Seq<PlanItem>) -> Seq<ItemView> {
    list.map_values(|i: PlanItem| i@)
}

/// Whether a milestone with an id is completed.
pub open spec fn is_completed(all: Seq<MilestoneView>, id: Seq<char>) -> bool {
    exists|i: int| 0 <= i < all.len() && completed_at(all, id, i)
}

/// Whether the milestone at a position has an id and is completed.
pub open spec fn completed_at(all: Seq<MilestoneView>, id: Seq<char>, at: int) -> bool {
    all[at].id == id && all[at].completed
}

/// The names of a list that stand for a milestone that is not completed.
pub open spec fn open_names(all: Seq<MilestoneView>, names: Seq<Seq<char>>) -> Seq<Seq<char>>
    decreases names.len(),
{
    if names.len() == 0 {
        Seq::empty()
    } else {
        let before = open_names(all, names.drop_last());
        let name = text::trim(names.last());
        if name.len() == 0 || is_completed(all, name) {
            before
        } else {
            before.push(name)
        }
    }
}

/// What a milestone waits for: those it depends on that are not completed.
pub open spec fn waits_for(all: Seq<MilestoneView>, depends_on: Seq<char>) -> Seq<Seq<char>> {
    if depends_on == "none"@ {
        Seq::empty()
    } else {
        open_names(all, text::split(depends_on, ','))
    }
}

/// Whether a milestone can be worked on, and what it waits for.
pub open spec fn plan_item(all: Seq<MilestoneView>, milestone: MilestoneView) -> ItemView {
    let blocked_by = waits_for(all, milestone.depends_on);
    ItemView {
        milestone,
        readiness: if milestone.completed {
            MilestoneReadiness::Done
        } else if blocked_by.len() == 0 {
            MilestoneReadiness::Ready
        } else {
            MilestoneReadiness::Pending
        },
        blocked_by,
    }
}

/// The milestones with whether each can be worked on.
pub open spec fn plan_of(all: Seq<MilestoneView>) -> Seq<ItemView> {
    all.map_values(|m: MilestoneView| plan_item(all, m))
}

/// Whether a milestone with an id is completed.
fn completed(all: &Vec<Milestone>, id: &str) -> (out: bool)
    ensures
        out == is_completed(milestone_views(all@), id@),
{
    let ghost shown = milestone_views(all@);
    let mut i: usize = 0;
    while i < all.len()
        invariant
            i <= all@.len(),
            shown == milestone_views(all@),
            forall|k: int| 0 <= k < i ==> !#[trigger] completed_at(shown, id@, k),
        decreases all@.len() - i,
    {
        assert(shown[i as int] == all@[i as int]@);
        if text::same(all[i].id.as_str(), id) && all[i].completed {
            assert(completed_at(shown, id@, i as int));
            return true;
        }
        i = i + 1;
    }
    false
}

/// What a milestone waits for.
fn find_waits(all: &Vec<Milestone>, depends_on: &str) -> (out: Vec<String>)
    ensures
        text::views(out@) == waits_for(milestone_views(all@), depends_on@),
{
    let mut out: Vec<String> = Vec::new();
    assert(text::views(out@) =~= Seq::empty());
    if text::same(depends_on, "none") {
        return out;
    }
    let names: Vec<String> = text::split_string(depends_on, ',');
    let ghost listed = text::views(names@);
    let mut i: usize = 0;
    while i < names.len()
        invariant
            i <= names@.len(),
            listed == text::views(names@),
            text::views(out@) == open_names(milestone_views(all@), listed.take(i as int)),
        decreases names@.len() - i,
    {
        assert(listed.take(i + 1).drop_last() =~= listed.take(i as int));
        assert(listed.take(i + 1).last() == names@[i as int]@);
        let name: String = text::trim_string(names[i].as_str());
        let chars: Vec<char> = text::chars_of(name.as_str());
        if chars.len() > 0 && !completed(all, name.as_str()) {
            text::add_text(&mut out, name.as_str());
        }
        i = i + 1;
    }
    assert(listed.take(i as int) =~= listed);
    out
}

/// The milestones with whether each can be worked on.
pub fn milestone_plan(all: &Vec<Milestone>) -> (out: Vec<PlanItem>)
    ensures
        item_views(out@) == plan_of(milestone_views(all@)),
{
    let ghost shown = milestone_views(all@);
    let ghost goal = plan_of(shown);
    let mut out: Vec<PlanItem> = Vec::new();
    assert(item_views(out@) =~= goal.take(0));
    let mut i: usize = 0;
    while i < all.len()
        invariant
            i <= all@.len(),
            shown == milestone_views(all@),
            goal == plan_of(shown),
            item_views(out@) == goal.take(i as int),
        decreases all@.len() - i,
    {
        let ghost done = item_views(out@);
        assert(shown[i as int] == all@[i as int]@);
        let blocked_by: Vec<String> = find_waits(all, all[i].depends_on.as_str());
        assert(text::views(blocked_by@).len() == blocked_by@.len());
        let readiness: MilestoneReadiness = if all[i].completed {
            MilestoneReadiness::Done
        } else if blocked_by.len() == 0 {
            MilestoneReadiness::Ready
        } else {
            MilestoneReadiness::Pending
        };
        out.push(PlanItem { milestone: all[i].copy(), readiness, blocked_by });
        assert(item_views(out@) =~= done.push(goal[i as int]));
        assert(goal.take(i + 1) =~= goal.take(i as int).push(goal[i as int]));
        i = i + 1;
    }
    assert(goal.take(i as int) =~= goal);
    out
}

// ------------------------------------------------------------------ laws

/// The order of texts is one.
proof fn lemma_by_text()
    ensures
        rows::is_order(by_text()),
{
    let f = by_text();
    assert forall|a: Seq<char>| !#[trigger] f(a, a) by {
        crate::project::order::lemma_text_order(a, a, a);
    }
    assert forall|a: Seq<char>, b: Seq<char>, c: Seq<char>| #[trigger] f(a, b) && #[trigger] f(
        b,
        c,
    ) implies f(a, c) by {
        crate::project::order::lemma_text_order(a, b, c);
    }
    assert forall|a: Seq<char>, b: Seq<char>, c: Seq<char>| #[trigger] f(a, b) && !(#[trigger] f(
        a,
        c,
    )) implies f(c, b) by {
        crate::project::order::lemma_text_order(a, b, c);
    }
}

/// Exactly the files with a name before `.md` are offered as specifications, in their
/// order.
pub proof fn law_spec_files_are_offered(paths: Seq<Seq<char>>, path: Seq<char>)
    ensures
        ({
            let offered = rows::in_order(paths.filter(is_spec_path()), by_text());
            let n = path.len();
            &&& offered.contains(path) <==> paths.contains(path) && n > 3 && path.skip(n - 3)
                == ".md"@ && path[n - 4] != '/' && path[n - 4] != '\\'
            &&& forall|i: int, j: int|
                0 <= i < j < offered.len() ==> !text::text_lt(
                    #[trigger] offered[j],
                    #[trigger] offered[i],
                )
        }),
{
    broadcast use vstd::seq_lib::group_to_multiset_ensures;

    reveal_strlit(".md");
    lemma_by_text();
    let kept = paths.filter(is_spec_path());
    let offered = rows::in_order(kept, by_text());
    rows::lemma_in_order(kept, by_text());
    rows::lemma_kept(paths, is_spec_path(), path);
    assert(offered.contains(path) <==> offered.to_multiset().count(path) > 0);
    assert(kept.contains(path) <==> kept.to_multiset().count(path) > 0);
    let n = path.len();
    if n > 3 {
        let end = path.skip(n - 3);
        assert(end[0] == path[n - 3] && end[1] == path[n - 2] && end[2] == path[n - 1]);
        if path[n - 3] == '.' && path[n - 2] == 'm' && path[n - 1] == 'd' {
            assert(end =~= ".md"@);
        }
    }
}

proof fn lemma_first_space(a: Seq<char>, b: Seq<char>)
    requires
        !a.contains(' '),
    ensures
        text::first_space(a.push(' ') + b) == a.len(),
    decreases a.len(),
{
    let all = a.push(' ') + b;
    if a.len() > 0 {
        assert(all[0] == a[0]);
        assert(a.contains(a[0]));
        assert(!a.skip(1).contains(' ')) by {
            if a.skip(1).contains(' ') {
                let k = choose|k: int| 0 <= k < a.skip(1).len() && a.skip(1)[k] == ' ';
                assert(a[k + 1] == ' ');
            }
        }
        lemma_first_space(a.skip(1), b);
        assert(all.skip(1) =~= a.skip(1).push(' ') + b);
    } else {
        assert(all[0] == ' ');
    }
}

/// A box, a marker and a title make a milestone, which is completed exactly if the box is
/// ticked.
pub proof fn law_box_starts_a_milestone(marker: Seq<char>, title: Seq<char>, ticked: bool)
    requires
        marker.len() > 0,
        marker[0] == '#',
        forall|i: int| 0 <= i < marker.len() ==> !text::is_white(#[trigger] marker[i]),
        title.len() > 0,
        !text::is_white(title[0]),
        !text::is_white(title.last()),
    ensures
        started(
            (if ticked {
                "- [x] "@
            } else {
                "- [ ] "@
            }) + marker + " "@ + title,
        ) == Some(
            MilestoneView {
                id: Seq::empty(),
                marker,
                title,
                completed: ticked,
                depends_on: Seq::empty(),
            },
        ),
{
    reveal_strlit("- [x] ");
    reveal_strlit("- [X] ");
    reveal_strlit("- [ ] ");
    reveal_strlit(" ");
    reveal_strlit("#");
    let none = Seq::<char>::empty();
    let head = if ticked {
        "- [x] "@
    } else {
        "- [ ] "@
    };
    let rest = marker + " "@ + title;
    let line = head + marker + " "@ + title;
    assert(line =~= head + rest);
    assert(line[0] == '-');
    assert(line.last() == title.last());
    text::law_trim_leaves_the_middle(none, line, none);
    assert(none + line + none =~= line);
    assert(rest[0] == '#' && rest.last() == title.last());
    assert(!text::is_white(marker[0]));
    text::law_trim_leaves_the_middle(none, rest, none);
    assert(none + rest + none =~= rest);
    assert(line.subrange(0, 6) =~= head);
    assert(line.skip(6) =~= rest);
    assert(line[3] == head[3]);
    if !ticked {
        assert(line.subrange(0, 6)[3] == ' ');
        assert("- [x] "@[3] == 'x' && "- [X] "@[3] == 'X');
    }
    assert("#"@ =~= rest.subrange(0, 1));
    assert(!marker.contains(' ')) by {
        if marker.contains(' ') {
            let k = choose|k: int| 0 <= k < marker.len() && marker[k] == ' ';
            assert(!text::is_white(marker[k]));
        }
    }
    assert(rest =~= marker.push(' ') + title);
    lemma_first_space(marker, title);
    assert(rest.take(marker.len() as int) =~= marker);
    assert(rest.skip(marker.len() as int) =~= " "@ + title + none);
    text::law_trim_leaves_the_middle(" "@, title, none);
}

/// A milestone is read with the id and what it depends on that follow it; it comes behind
/// those that were read before. Without an id it is not read.
pub proof fn law_milestone_is_read(
    before: Seq<Seq<char>>,
    line: Seq<char>,
    id: Seq<char>,
    depends_on: Seq<char>,
)
    requires
        started(line) is Some,
        id.len() > 0,
        !text::is_white(id[0]) && !text::is_white(id.last()),
        depends_on.len() > 0,
        !text::is_white(depends_on[0]) && !text::is_white(depends_on.last()),
    ensures
        finished(
            read_lines(
                before.push(line).push("- ID: "@ + id).push("- Depends on: "@ + depends_on),
            ),
        ) == finished(read_lines(before)).push(
            MilestoneView { id, depends_on, ..started(line)->0 },
        ),
        finished(read_lines(before.push(line))) == finished(read_lines(before)),
{
    reveal_strlit("- [x] ");
    reveal_strlit("- [X] ");
    reveal_strlit("- [ ] ");
    reveal_strlit("- ID: ");
    reveal_strlit("- Depends on: ");
    let none = Seq::<char>::empty();
    let one = "- ID: "@ + id;
    let two = "- Depends on: "@ + depends_on;
    assert(one[0] == '-' && one.last() == id.last() && two[0] == '-' && two.last()
        == depends_on.last());
    text::law_trim_leaves_the_middle(none, one, none);
    text::law_trim_leaves_the_middle(none, two, none);
    text::law_trim_leaves_the_middle(none, id, none);
    text::law_trim_leaves_the_middle(none, depends_on, none);
    assert(none + one + none =~= one);
    assert(none + two + none =~= two);
    assert(none + id + none =~= id);
    assert(none + depends_on + none =~= depends_on);
    assert(one[2] == 'I' && two[2] == 'D');
    assert("- [x] "@[2] == '[' && "- [X] "@[2] == '[' && "- [ ] "@[2] == '[');
    assert forall|p: Seq<char>, s: Seq<char>|
        p.len() > 2 && s.len() > 2 && p[2] != s[2] implies !(#[trigger] p.is_prefix_of(s)) by {
        if p.is_prefix_of(s) {
            assert(s.subrange(0, p.len() as int)[2] == s[2]);
        }
    }
    assert(started(one) is None && started(two) is None);
    assert(one.subrange(0, 6) =~= "- ID: "@);
    assert(one.skip(6) =~= id);
    assert(two.subrange(0, 14) =~= "- Depends on: "@);
    assert(two.skip(14) =~= depends_on);
    assert("- ID: "@[2] == 'I');
    let a = before.push(line);
    let b = a.push(one);
    let c = b.push(two);
    assert(a.drop_last() =~= before && b.drop_last() =~= a && c.drop_last() =~= b);
    let m = started(line)->0;
    assert(read_lines(a) == (ReadView { done: finished(read_lines(before)), current: Some(m) }));
    assert(m.id.len() == 0);
    assert(read_lines(b).current == Some(MilestoneView { id, ..m }));
    assert(read_lines(c).current == Some(MilestoneView { id, depends_on, ..m }));
}

/// Whether a list of what a milestone depends on names a milestone.
pub open spec fn names(depends_on: Seq<char>, name: Seq<char>) -> bool {
    &&& name.len() > 0
    &&& depends_on != "none"@
    &&& exists|i: int|
        0 <= i < text::split(depends_on, ',').len() && text::trim(
            #[trigger] text::split(depends_on, ',')[i],
        ) == name
}

/// Whether a milestone with a name is there and completed.
pub open spec fn is_done(all: Seq<MilestoneView>, name: Seq<char>) -> bool {
    exists|i: int| 0 <= i < all.len() && (#[trigger] all[i]).id == name && all[i].completed
}

proof fn lemma_open_names(all: Seq<MilestoneView>, pieces: Seq<Seq<char>>, name: Seq<char>)
    ensures
        open_names(all, pieces).contains(name) <==> name.len() > 0 && !is_done(all, name)
            && exists|i: int|
            0 <= i < pieces.len() && text::trim(#[trigger] pieces[i]) == name,
    decreases pieces.len(),
{
    if is_completed(all, name) {
        let i = choose|i: int| 0 <= i < all.len() && completed_at(all, name, i);
        assert(all[i].id == name && all[i].completed);
    }
    if is_done(all, name) {
        let i = choose|i: int|
            0 <= i < all.len() && (#[trigger] all[i]).id == name && all[i].completed;
        assert(completed_at(all, name, i));
    }
    if pieces.len() > 0 {
        let front = pieces.drop_last();
        let before = open_names(all, front);
        let list = open_names(all, pieces);
        lemma_open_names(all, front, name);
        if before.contains(name) {
            let i = choose|i: int| 0 <= i < before.len() && before[i] == name;
            assert(list[i] == name);
            let k = choose|k: int|
                0 <= k < front.len() && text::trim(#[trigger] front[k]) == name;
            assert(pieces[k] == front[k]);
        }
        if list.contains(name) {
            let i = choose|i: int| 0 <= i < list.len() && list[i] == name;
            if i < before.len() {
                assert(before[i] == name);
            } else {
                assert(text::trim(pieces[pieces.len() - 1]) == name);
            }
        }
        if exists|i: int| 0 <= i < pieces.len() && text::trim(#[trigger] pieces[i]) == name {
            let k = choose|k: int|
                0 <= k < pieces.len() && text::trim(#[trigger] pieces[k]) == name;
            if k < front.len() {
                assert(front[k] == pieces[k]);
            } else if name.len() > 0 && !is_done(all, name) {
                assert(list[list.len() - 1] == name);
            }
        }
    }
}

/// A milestone waits for exactly those that it names and that are not done. It is done
/// where it is completed, ready where it is not and waits for none, and else pending. Every
/// milestone has its place in the plan.
pub proof fn law_milestone_waits_for_what_it_names(
    all: Seq<MilestoneView>,
    i: int,
    name: Seq<char>,
)
    requires
        0 <= i < all.len(),
    ensures
        ({
            let m = all[i];
            let item = plan_of(all)[i];
            &&& plan_of(all).len() == all.len()
            &&& item.milestone == m
            &&& item.blocked_by.contains(name) <==> names(m.depends_on, name) && !is_done(all, name)
            &&& item.readiness is Done <==> m.completed
            &&& item.readiness is Ready <==> !m.completed && item.blocked_by.len() == 0
            &&& item.readiness is Ready && names(m.depends_on, name) ==> is_done(all, name)
        }),
{
    let m = all[i];
    let item = plan_of(all)[i];
    let pieces = text::split(m.depends_on, ',');
    if m.depends_on != "none"@ {
        lemma_open_names(all, pieces, name);
    }
}

} // verus!
