//! What is shown to the user after an operation: conversations by project, and short listings.
use crate::session::{summary_views, ConversationSummary, SummaryView, SyncOperation};
use crate::text::{before, precedes, precedes_total, precedes_transitive, text_before, text_precedes};
use vstd::prelude::*;

verus! {

/// The number of conversations that are listed per project.
pub const MAX_CONVERSATIONS_TO_DISPLAY: usize = 10;

/// The number of files that are listed in a verbose listing.
pub const MAX_FILES_TO_LIST: usize = 20;

/// The number of locations that are listed for a project name in collision.
pub const MAX_LOCATIONS_TO_LIST: usize = 3;

/// One conversation in the overview of a project.
pub struct ReportLine {
    pub operation: SyncOperation,
    pub path: String,
    pub messages: usize,
    pub date: String,
}

/// The value of a line.
pub struct LineView {
    pub operation: SyncOperation,
    pub path: Seq<char>,
    pub messages: usize,
    pub date: Seq<char>,
}

/// The overview of a project: the conversations listed, and how many more there are.
pub struct ProjectReport {
    pub project: String,
    pub lines: Vec<ReportLine>,
    pub hidden: usize,
}

/// The value of a project's overview.
pub struct ProjectView {
    pub project: Seq<char>,
    pub lines: Seq<LineView>,
    pub hidden: int,
}

impl View for ReportLine {
    type V = LineView;

    open spec fn view(&self) -> LineView {
        LineView { operation: self.operation, path: self.path@, messages: self.messages, date: self.date@ }
    }
}

impl View for ProjectReport {
    type V = ProjectView;

    open spec fn view(&self) -> ProjectView {
        ProjectView {
            project: self.project@,
            lines: self.lines@.map_values(|l: ReportLine| l@),
            hidden: self.hidden as int,
        }
    }
}

/// The values of a list of overviews.
pub open spec fn project_views(r: Seq<ProjectReport>) -> Seq<ProjectView> {
    r.map_values(|p: ProjectReport| p@)
}

/// Whether a conversation is shown: unchanged ones are not.
pub open spec fn is_shown(s: SummaryView) -> bool {
    s.operation != SyncOperation::Unchanged
}

/// The project of a conversation: the top-level directory of its path.
pub open spec fn project_of(s: SummaryView) -> Seq<char> {
    before(s.project_path, '/')
}

/// The date of a timestamp: the part before its `T`.
pub open spec fn date_of(timestamp: Option<Seq<char>>) -> Seq<char> {
    match timestamp {
        Some(t) => before(t, 'T'),
        None => "unknown"@,
    }
}

/// The line of a conversation.
pub open spec fn line_of(s: SummaryView) -> LineView {
    LineView { operation: s.operation, path: s.project_path, messages: s.message_count, date: date_of(s.timestamp) }
}

/// Whether a conversation is shown under `project`.
pub open spec fn in_group(project: Seq<char>) -> spec_fn(SummaryView) -> bool {
    |s: SummaryView| is_shown(s) && project_of(s) == project
}

/// The conversations that are shown under `project`, in their order.
pub open spec fn group_of(summaries: Seq<SummaryView>, project: Seq<char>) -> Seq<SummaryView> {
    summaries.filter(in_group(project))
}

/// How many of `n` items are listed where at most `limit` may be.
pub open spec fn listed(n: int, limit: int) -> int {
    if n <= limit {
        n
    } else {
        limit
    }
}

/// The overview of `project`.
pub open spec fn overview_of(summaries: Seq<SummaryView>, project: Seq<char>) -> ProjectView {
    let group = group_of(summaries, project);
    let n = listed(group.len() as int, MAX_CONVERSATIONS_TO_DISPLAY as int);
    ProjectView {
        project,
        lines: group.take(n).map_values(|s: SummaryView| line_of(s)),
        hidden: group.len() - n,
    }
}

/// Whether some conversation is shown under `project`.
pub open spec fn has_project(summaries: Seq<SummaryView>, project: Seq<char>) -> bool {
    exists|i: int| 0 <= i < summaries.len() && is_shown(#[trigger] summaries[i]) && project_of(summaries[i]) == project
}

/// Whether `projects` are the projects of the conversations that are shown, each once, in order.
pub open spec fn lists_projects(summaries: Seq<SummaryView>, projects: Seq<Seq<char>>) -> bool {
    &&& forall|i: int, j: int| 0 <= i < j < projects.len() ==> precedes(#[trigger] projects[i], #[trigger] projects[j])
    &&& forall|p: Seq<char>| #[trigger] projects.contains(p) <==> has_project(summaries, p)
}

/// The projects of a list of overviews.
pub open spec fn projects_in(r: Seq<ProjectView>) -> Seq<Seq<char>> {
    r.map_values(|v: ProjectView| v.project)
}

/// Whether `r` is the overview of the conversations by project.
pub open spec fn is_overview(summaries: Seq<SummaryView>, r: Seq<ProjectView>) -> bool {
    &&& lists_projects(summaries, projects_in(r))
    &&& forall|i: int| 0 <= i < r.len() ==> (#[trigger] r[i]) == overview_of(summaries, r[i].project)
}

/// The short name of an operation.
pub open spec fn label_of(operation: SyncOperation) -> Seq<char> {
    match operation {
        SyncOperation::Added => "ADD"@,
        SyncOperation::Modified => "MOD"@,
        SyncOperation::Conflict => "CONFLICT"@,
        SyncOperation::Unchanged => "---"@,
    }
}

/// The short name of an operation.
pub fn operation_label(operation: SyncOperation) -> (r: &'static str)
    ensures
        r@ == label_of(operation),
{
    match operation {
        SyncOperation::Added => "ADD",
        SyncOperation::Modified => "MOD",
        SyncOperation::Conflict => "CONFLICT",
        SyncOperation::Unchanged => "---",
    }
}

/// How many of `n` items are listed where at most `limit` may be, and how many more there are.
pub fn preview(n: usize, limit: usize) -> (r: (usize, usize))
    ensures
        r.0 == listed(n as int, limit as int),
        r.1 == n - r.0,
{
    if n <= limit {
        (n, 0)
    } else {
        (limit, n - limit)
    }
}

/// The date of a timestamp.
pub fn timestamp_date(timestamp: &Option<String>) -> (r: String)
    ensures
        r@ == date_of(crate::session::text_option(*timestamp)),
{
    match timestamp {
        Some(t) => text_before(t.as_str(), 'T'),
        None => "unknown".to_string(),
    }
}

fn report_line(s: &ConversationSummary) -> (r: ReportLine)
    ensures
        r@ == line_of(s@),
{
    ReportLine {
        operation: s.operation,
        path: s.project_path.clone(),
        messages: s.message_count,
        date: timestamp_date(&s.timestamp),
    }
}

/// One step of a filter over a growing prefix.
pub proof fn filter_step<A>(s: Seq<A>, i: int, pred: spec_fn(A) -> bool)
    requires
        0 <= i < s.len(),
    ensures
        s.take(i + 1).filter(pred) == if pred(s[i]) {
            s.take(i).filter(pred).push(s[i])
        } else {
            s.take(i).filter(pred)
        },
{
    reveal(Seq::filter);
    assert(s.take(i + 1).drop_last() =~= s.take(i));
    assert(s.take(i + 1).last() == s[i]);
}

/// Whether an item's value is accepted.
pub open spec fn by_value<T: View>(pred: spec_fn(T::V) -> bool) -> spec_fn(T) -> bool {
    |x: T| pred(x@)
}

/// A filter keeps as many of the values as it keeps items by their values.
pub proof fn filter_by_value<T: View>(items: Seq<T>, values: Seq<T::V>, pred: spec_fn(T::V) -> bool)
    requires
        values.len() == items.len(),
        forall|i: int| 0 <= i < items.len() ==> (#[trigger] values[i]) == items[i]@,
    ensures
        values.filter(pred).len() == items.filter(by_value(pred)).len(),
    decreases items.len(),
{
    reveal(Seq::filter);
    if items.len() > 0 {
        filter_by_value(items.drop_last(), values.drop_last(), pred);
        assert(values.last() == values[items.len() - 1]);
    }
}

/// The number of items that `test` accepts for `key`; `pred` says which these are.
pub(crate) fn count_if<T, K: Copy, F: Fn(&T, K) -> bool>(items: &Vec<T>, key: K, test: F, pred: Ghost<spec_fn(T) -> bool>) -> (r: usize)
    requires
        forall|x: &T| call_requires(test, (x, key)),
        forall|x: &T, b: bool| #[trigger] call_ensures(test, (x, key), b) ==> b == pred@(*x),
    ensures
        r == items@.filter(pred@).len(),
{
    let mut r: usize = 0;
    let mut i: usize = 0;
    proof {
        assert(items@.take(0) =~= Seq::empty());
        reveal(Seq::filter);
    }
    while i < items.len()
        invariant
            r <= i <= items.len(),
            r == items@.take(i as int).filter(pred@).len(),
            forall|x: &T| call_requires(test, (x, key)),
            forall|x: &T, b: bool| #[trigger] call_ensures(test, (x, key), b) ==> b == pred@(*x),
        decreases items.len() - i,
    {
        proof {
            filter_step(items@, i as int, pred@);
        }
        if test(&items[i], key) {
            r = r + 1;
        }
        i = i + 1;
    }
    assert(items@.take(i as int) =~= items@);
    r
}

fn project_report(summaries: &Vec<ConversationSummary>, project: String) -> (r: ProjectReport)
    ensures
        r@ == overview_of(summary_views(summaries@), project@),
{
    let ghost all = summary_views(summaries@);
    let ghost pred = in_group(project@);
    let mut lines: Vec<ReportLine> = Vec::new();
    let mut hidden: usize = 0;
    let mut i: usize = 0;
    proof {
        assert(all.take(0) =~= Seq::empty());
        reveal(Seq::filter);
        assert(lines@.map_values(|l: ReportLine| l@) =~= all.take(0).filter(pred).take(0).map_values(|s: SummaryView| line_of(s)));
    }
    while i < summaries.len()
        invariant
            i <= summaries.len(),
            all == summary_views(summaries@),
            pred == in_group(project@),
            hidden <= i,
            lines@.len() == listed(all.take(i as int).filter(pred).len() as int, MAX_CONVERSATIONS_TO_DISPLAY as int),
            hidden == all.take(i as int).filter(pred).len() - lines@.len(),
            lines@.map_values(|l: ReportLine| l@) == all.take(i as int).filter(pred).take(lines@.len() as int).map_values(
                |s: SummaryView| line_of(s),
            ),
        decreases summaries.len() - i,
    {
        let s = &summaries[i];
        let ghost g = all.take(i as int).filter(pred);
        let ghost old_lines = lines@;
        proof {
            filter_step(all, i as int, pred);
            assert(all[i as int] == s@);
        }
        if s.operation != SyncOperation::Unchanged && text_before(s.project_path.as_str(), '/') == project {
            if lines.len() < MAX_CONVERSATIONS_TO_DISPLAY {
                lines.push(report_line(s));
                proof {
                    assert(g.take(old_lines.len() as int) =~= g);
                    assert(g.push(s@).take(lines@.len() as int) =~= g.push(s@));
                    assert(lines@.map_values(|l: ReportLine| l@) =~= old_lines.map_values(|l: ReportLine| l@).push(line_of(s@)));
                    assert(g.push(s@).map_values(|s: SummaryView| line_of(s)) =~= g.map_values(|s: SummaryView| line_of(s)).push(line_of(s@)));
                }
            } else {
                hidden = hidden + 1;
                proof {
                    assert(g.push(s@).take(lines@.len() as int) =~= g.take(lines@.len() as int));
                }
            }
        }
        i = i + 1;
    }
    assert(all.take(i as int) =~= all);
    ProjectReport { project, lines, hidden }
}

/// Where `project` stands, or would stand, among ordered projects.
fn project_position(projects: &Vec<String>, project: &String) -> (r: (usize, bool))
    requires
        forall|i: int, j: int| 0 <= i < j < projects@.len() ==> precedes(#[trigger] projects@[i]@, #[trigger] projects@[j]@),
    ensures
        r.0 <= projects@.len(),
        r.1 ==> r.0 < projects@.len() && projects@[r.0 as int]@ == project@,
        forall|i: int| 0 <= i < r.0 ==> precedes(#[trigger] projects@[i]@, project@),
        !r.1 ==> forall|i: int| r.0 <= i < projects@.len() ==> precedes(project@, #[trigger] projects@[i]@),
{
    let mut at: usize = 0;
    while at < projects.len() && text_precedes(projects[at].as_str(), project.as_str())
        invariant
            at <= projects.len(),
            forall|i: int| 0 <= i < at ==> precedes(#[trigger] projects@[i]@, project@),
        decreases projects.len() - at,
    {
        at = at + 1;
    }
    if at < projects.len() && projects[at] == *project {
        (at, true)
    } else {
        proof {
            if at < projects.len() {
                precedes_total(projects@[at as int]@, project@);
                assert forall|i: int| at <= i < projects@.len() implies precedes(project@, #[trigger] projects@[i]@) by {
                    if i > at {
                        precedes_transitive(project@, projects@[at as int]@, projects@[i]@);
                    }
                }
            }
        }
        (at, false)
    }
}

/// The projects of the conversations that are shown, each once, in order.
fn shown_projects(summaries: &Vec<ConversationSummary>) -> (r: Vec<String>)
    ensures
        lists_projects(summary_views(summaries@), r@.map_values(|p: String| p@)),
{
    let ghost all = summary_views(summaries@);
    let mut r: Vec<String> = Vec::new();
    let mut i: usize = 0;
    while i < summaries.len()
        invariant
            i <= summaries.len(),
            all == summary_views(summaries@),
            forall|a: int, b: int| 0 <= a < b < r@.len() ==> precedes(#[trigger] r@[a]@, #[trigger] r@[b]@),
            forall|a: int| 0 <= a < r@.len() ==> has_project(all, #[trigger] r@[a]@),
            forall|k: int| 0 <= k < i && is_shown(#[trigger] all[k]) ==> exists|a: int| 0 <= a < r@.len() && (#[trigger] r@[a])@ == project_of(all[k]),
        decreases summaries.len() - i,
    {
        let s = &summaries[i];
        assert(all[i as int] == s@);
        if s.operation != SyncOperation::Unchanged {
            let project = text_before(s.project_path.as_str(), '/');
            let (at, found) = project_position(&r, &project);
            let ghost old_r = r@;
            if !found {
                let ghost p = project@;
                r.insert(at, project);
                proof {
                    assert(r@ =~= old_r.insert(at as int, r@[at as int]));
                    assert forall|a: int, b: int| 0 <= a < b < r@.len() implies precedes(#[trigger] r@[a]@, #[trigger] r@[b]@) by {
                        let x = if a < at { a } else { a - 1 };
                        let y = if b < at { b } else { b - 1 };
                        if a != at {
                            assert(r@[a] == old_r[x]);
                        }
                        if b != at {
                            assert(r@[b] == old_r[y]);
                        }
                    }
                    assert forall|a: int| 0 <= a < r@.len() implies has_project(all, #[trigger] r@[a]@) by {
                        if a == at {
                            assert(is_shown(all[i as int]) && project_of(all[i as int]) == p);
                        } else {
                            let x = if a < at { a } else { a - 1 };
                            assert(r@[a] == old_r[x]);
                        }
                    }
                    assert forall|k: int| 0 <= k < i + 1 && is_shown(#[trigger] all[k]) implies exists|a: int|
                        0 <= a < r@.len() && (#[trigger] r@[a])@ == project_of(all[k]) by {
                        if k == i {
                            assert(r@[at as int]@ == project_of(all[k]));
                        } else {
                            let x = choose|x: int| 0 <= x < old_r.len() && (#[trigger] old_r[x])@ == project_of(all[k]);
                            let a = if x < at { x } else { x + 1 };
                            assert(r@[a] == old_r[x]);
                        }
                    }
                }
            } else {
                assert(r@[at as int]@ == project_of(all[i as int]));
            }
        }
        i = i + 1;
    }
    proof {
        let ps = r@.map_values(|p: String| p@);
        assert forall|a: int, b: int| 0 <= a < b < ps.len() implies precedes(#[trigger] ps[a], #[trigger] ps[b]) by {
            assert(ps[a] == r@[a]@ && ps[b] == r@[b]@);
        }
        assert forall|p: Seq<char>| #[trigger] ps.contains(p) <==> has_project(all, p) by {
            if ps.contains(p) {
                let a = choose|a: int| 0 <= a < ps.len() && ps[a] == p;
                assert(ps[a] == r@[a]@);
            }
            if has_project(all, p) {
                let k = choose|k: int| 0 <= k < all.len() && is_shown(#[trigger] all[k]) && project_of(all[k]) == p;
                let a = choose|a: int| 0 <= a < r@.len() && (#[trigger] r@[a])@ == project_of(all[k]);
                assert(ps[a] == p);
            }
        }
    }
    r
}

/// The conversations that are shown, by project: projects in order, at most
/// `MAX_CONVERSATIONS_TO_DISPLAY` conversations of each.
pub fn project_reports(summaries: &Vec<ConversationSummary>) -> (r: Vec<ProjectReport>)
    ensures
        is_overview(summary_views(summaries@), project_views(r@)),
{
    let ghost all = summary_views(summaries@);
    let projects = shown_projects(summaries);
    let mut r: Vec<ProjectReport> = Vec::new();
    let mut i: usize = 0;
    while i < projects.len()
        invariant
            i <= projects.len(),
            all == summary_views(summaries@),
            r@.len() == i,
            forall|k: int| 0 <= k < i ==> (#[trigger] r@[k])@ == overview_of(all, projects@[k]@),
        decreases projects.len() - i,
    {
        r.push(project_report(summaries, projects[i].clone()));
        i = i + 1;
    }
    proof {
        let v = project_views(r@);
        assert(projects_in(v) =~= projects@.map_values(|p: String| p@));
        assert forall|k: int| 0 <= k < v.len() implies (#[trigger] v[k]) == overview_of(all, v[k].project) by {
            assert(v[k] == r@[k]@);
        }
    }
    r
}

/// Two ordered lists of the same texts are the same list.
proof fn ordered_lists_agree(a: Seq<Seq<char>>, b: Seq<Seq<char>>)
    requires
        forall|i: int, j: int| 0 <= i < j < a.len() ==> precedes(#[trigger] a[i], #[trigger] a[j]),
        forall|i: int, j: int| 0 <= i < j < b.len() ==> precedes(#[trigger] b[i], #[trigger] b[j]),
        forall|p: Seq<char>| #[trigger] a.contains(p) <==> b.contains(p),
    ensures
        a == b,
    decreases a.len(),
{
    if a.len() == 0 {
        if b.len() > 0 {
            assert(b.contains(b[0]));
            assert(a.contains(b[0]));
        }
        assert(a =~= b);
    } else {
        assert(a.contains(a.last()));
        assert(b.contains(a.last()));
        let x = choose|x: int| 0 <= x < b.len() && b[x] == a.last();
        assert(b.contains(b.last()));
        assert(a.contains(b.last()));
        let y = choose|y: int| 0 <= y < a.len() && a[y] == b.last();
        precedes_total(a.last(), b.last());
        assert(a.last() == b.last()) by {
            if x < b.len() - 1 && y < a.len() - 1 {
                assert(precedes(b[x], b.last()));
                assert(precedes(a[y], a.last()));
            }
        }
        let c = a.drop_last();
        let d = b.drop_last();
        assert forall|p: Seq<char>| #[trigger] c.contains(p) <==> d.contains(p) by {
            if c.contains(p) {
                let i = choose|i: int| 0 <= i < c.len() && c[i] == p;
                assert(a[i] == p);
                assert(a.contains(p));
                let j = choose|j: int| 0 <= j < b.len() && b[j] == p;
                precedes_total(p, p);
                assert(precedes(a[i], a.last()));
                assert(j < b.len() - 1);
                assert(d[j] == p);
            }
            if d.contains(p) {
                let i = choose|i: int| 0 <= i < d.len() && d[i] == p;
                assert(b[i] == p);
                assert(b.contains(p));
                assert(a.contains(p));
                let j = choose|j: int| 0 <= j < a.len() && a[j] == p;
                precedes_total(p, p);
                assert(precedes(b[i], b.last()));
                assert(j < a.len() - 1);
                assert(c[j] == p);
            }
        }
        ordered_lists_agree(c, d);
        assert(a =~= c.push(a.last()));
        assert(b =~= d.push(b.last()));
    }
}

/// The overview is one: conversations determine the projects, their order and their lines.
pub proof fn overview_is_unique(summaries: Seq<SummaryView>, a: Seq<ProjectView>, b: Seq<ProjectView>)
    requires
        is_overview(summaries, a),
        is_overview(summaries, b),
    ensures
        a == b,
{
    let p = projects_in(a);
    let q = projects_in(b);
    assert forall|x: Seq<char>| #[trigger] p.contains(x) <==> q.contains(x) by {}
    ordered_lists_agree(p, q);
    assert(p.len() == a.len() && q.len() == b.len());
    assert forall|i: int| 0 <= i < a.len() implies a[i] == b[i] by {
        assert(p[i] == a[i].project && q[i] == b[i].project);
    }
    assert(a =~= b);
}

/// Every conversation that changed is accounted for under its project, and the others nowhere.
pub proof fn overview_accounts_for_changes(summaries: Seq<SummaryView>, r: Seq<ProjectView>, k: int)
    requires
        is_overview(summaries, r),
        0 <= k < summaries.len(),
    ensures
        is_shown(summaries[k]) <==> exists|i: int|
            0 <= i < r.len() && group_of(summaries, (#[trigger] r[i]).project).contains(summaries[k]),
        forall|i: int| 0 <= i < r.len() ==> (#[trigger] r[i]).lines.len() + r[i].hidden == group_of(summaries, r[i].project).len(),
        forall|i: int| 0 <= i < r.len() ==> (#[trigger] r[i]).lines.len() <= MAX_CONVERSATIONS_TO_DISPLAY,
{
    broadcast use vstd::seq_lib::group_filter_ensures;

    let s = summaries[k];
    let ps = projects_in(r);
    if is_shown(s) {
        assert(has_project(summaries, project_of(s)));
        assert(ps.contains(project_of(s)));
        let i = choose|i: int| 0 <= i < ps.len() && ps[i] == project_of(s);
        assert(r[i].project == project_of(s));
        let pred = in_group(r[i].project);
        assert(pred(s));
        filter_has(summaries, k, pred);
    }
    if exists|i: int| 0 <= i < r.len() && group_of(summaries, (#[trigger] r[i]).project).contains(s) {
        let i = choose|i: int| 0 <= i < r.len() && group_of(summaries, (#[trigger] r[i]).project).contains(s);
        let pred = in_group(r[i].project);
        let g = summaries.filter(pred);
        let j = choose|j: int| 0 <= j < g.len() && g[j] == s;
        assert(pred(g[j]));
    }
}

/// A filter keeps every item that it accepts.
proof fn filter_has<A>(s: Seq<A>, k: int, pred: spec_fn(A) -> bool)
    requires
        0 <= k < s.len(),
        pred(s[k]),
    ensures
        s.filter(pred).contains(s[k]),
    decreases s.len(),
{
    reveal(Seq::filter);
    let rest = s.drop_last();
    if k < s.len() - 1 {
        filter_has(rest, k, pred);
        assert(rest[k] == s[k]);
        let j = choose|j: int| 0 <= j < rest.filter(pred).len() && rest.filter(pred)[j] == s[k];
        assert(s.filter(pred)[j] == s[k]);
    } else {
        assert(s.filter(pred).last() == s[k]);
    }
}

/// The shown limits, and how they are kept: all items where they are few enough, else as many as
/// the limit.
pub proof fn limits_of_listings(n: int, limit: int)
    ensures
        listed(n, limit) <= n && listed(n, limit) <= limit,
        listed(n, limit) == n || listed(n, limit) == limit,
        MAX_CONVERSATIONS_TO_DISPLAY == 10 && MAX_FILES_TO_LIST == 20 && MAX_LOCATIONS_TO_LIST == 3,
{
}

/// The line of a conversation tells its operation, path and messages, and the date: the part of
/// its timestamp before the `T`.
pub proof fn line_tells_the_conversation(s: SummaryView)
    ensures
        line_of(s).operation == s.operation,
        line_of(s).path == s.project_path,
        line_of(s).messages == s.message_count,
        s.timestamp matches Some(t) ==> line_of(s).date == before(t, 'T'),
        s.timestamp is None ==> line_of(s).date == "unknown"@,
{
}

/// Each operation has its own label.
pub proof fn labels_differ(a: SyncOperation, b: SyncOperation)
    ensures
        a != b ==> label_of(a) != label_of(b),
        label_of(SyncOperation::Added) == seq!['A', 'D', 'D'],
        label_of(SyncOperation::Modified) == seq!['M', 'O', 'D'],
        label_of(SyncOperation::Unchanged) == seq!['-', '-', '-'],
        label_of(SyncOperation::Conflict) == seq!['C', 'O', 'N', 'F', 'L', 'I', 'C', 'T'],
{
    reveal_strlit("ADD");
    reveal_strlit("MOD");
    reveal_strlit("CONFLICT");
    reveal_strlit("---");
    assert("ADD"@ =~= seq!['A', 'D', 'D']);
    assert("MOD"@ =~= seq!['M', 'O', 'D']);
    assert("---"@ =~= seq!['-', '-', '-']);
    assert("CONFLICT"@ =~= seq!['C', 'O', 'N', 'F', 'L', 'I', 'C', 'T']);
    assert("ADD"@[0] != "MOD"@[0] && "ADD"@[0] != "---"@[0] && "MOD"@[0] != "---"@[0] && "CONFLICT"@.len() == 8);
}

/// Two filters that accept the same items keep the same.
proof fn same_filter<A>(s: Seq<A>, p: spec_fn(A) -> bool, q: spec_fn(A) -> bool)
    requires
        forall|x: A| #[trigger] p(x) == q(x),
    ensures
        s.filter(p) == s.filter(q),
    decreases s.len(),
{
    reveal(Seq::filter);
    if s.len() > 0 {
        same_filter(s.drop_last(), p, q);
    }
}

/// The overview lists the projects of the changed conversations in order, each once: a project is
/// listed exactly where a conversation that is not unchanged has it as the part of its path before
/// the first `/`. Under it stand the first ten of these conversations, in order, and the number of
/// the others.
pub proof fn overview_tells_the_changes(summaries: Seq<SummaryView>, r: Seq<ProjectView>, i: int, k: int)
    requires
        is_overview(summaries, r),
    ensures
        0 <= k < summaries.len() && summaries[k].operation != SyncOperation::Unchanged ==> exists|j: int|
            0 <= j < r.len() && (#[trigger] r[j]).project == before(summaries[k].project_path, '/'),
        0 <= i < k < r.len() ==> precedes(r[i].project, r[k].project),
        0 <= i < r.len() ==> {
            let group = summaries.filter(
                |s: SummaryView| s.operation != SyncOperation::Unchanged && before(s.project_path, '/') == r[i].project,
            );
            &&& group.len() > 0
            &&& r[i].lines.len() == if group.len() <= 10 { group.len() as int } else { 10int }
            &&& r[i].lines.len() + r[i].hidden == group.len()
            &&& forall|j: int| 0 <= j < r[i].lines.len() ==> (#[trigger] r[i].lines[j]) == line_of(group[j])
        },
{
    let ps = projects_in(r);
    if 0 <= k < summaries.len() && summaries[k].operation != SyncOperation::Unchanged {
        assert(is_shown(summaries[k]));
        assert(has_project(summaries, before(summaries[k].project_path, '/')));
        assert(ps.contains(before(summaries[k].project_path, '/')));
        let j = choose|j: int| 0 <= j < ps.len() && ps[j] == before(summaries[k].project_path, '/');
        assert(r[j].project == ps[j]);
    }
    if 0 <= i < k < r.len() {
        assert(ps[i] == r[i].project && ps[k] == r[k].project);
    }
    if 0 <= i < r.len() {
        let pred = |s: SummaryView| s.operation != SyncOperation::Unchanged && before(s.project_path, '/') == r[i].project;
        same_filter(summaries, pred, in_group(r[i].project));
        let group = summaries.filter(pred);
        assert(r[i] == overview_of(summaries, r[i].project));
        assert(ps[i] == r[i].project);
        assert(ps.contains(r[i].project));
        let at = choose|at: int|
            0 <= at < summaries.len() && is_shown(#[trigger] summaries[at]) && project_of(summaries[at]) == r[i].project;
        filter_has(summaries, at, in_group(r[i].project));
        assert(group.contains(summaries[at]));
    }
}

/// The value of an overview is that of its fields, and lists have the values in order.
pub proof fn overview_value(reports: Seq<ProjectReport>, i: int, j: int)
    requires
        0 <= i < reports.len(),
    ensures
        project_views(reports).len() == reports.len(),
        project_views(reports)[i].project == reports[i].project@,
        project_views(reports)[i].hidden == reports[i].hidden,
        project_views(reports)[i].lines.len() == reports[i].lines@.len(),
        0 <= j < reports[i].lines@.len() ==> {
            let v = project_views(reports)[i].lines[j];
            let l = reports[i].lines@[j];
            v.operation == l.operation && v.path == l.path@ && v.messages == l.messages && v.date == l.date@
        },
{
}

} // verus!
