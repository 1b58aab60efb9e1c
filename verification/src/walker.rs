//! The walk over a directory tree, as a machine that does no input or output
//! itself: it says what it needs next, and is told what came of it.

use vstd::prelude::*;
use vstd::std_specs::iter::IteratorSpec;
use crate::entry::{
    classify, plan_of, DirEntry, DirEntryView, Plan, PlanView, Task, TaskView, Warning,
    WarningView, FILE_NAME_PATTERN,
};
use crate::file::{file_outcome, scan_file, utf8_lossy};
use crate::line::{LineError, LineFault};
use crate::report::{ControllerFileSearchResult, FileEndpoints};
use crate::text::copy_text;

verus! {

/// What the walk needs next from the file system.
#[derive(Debug)]
pub enum Request {
    /// The entries of the directory at `path`.
    List { path: String },
    /// The content of the file at `path`.
    Read { path: String },
    /// Nothing: the walk is over.
    Done,
}

/// A `Request` as contracts speak of it.
pub enum RequestView {
    List { path: Seq<char> },
    Read { path: Seq<char> },
    Done,
}

impl View for Request {
    type V = RequestView;

    open spec fn view(&self) -> RequestView {
        match self {
            Request::List { path } => RequestView::List { path: path@ },
            Request::Read { path } => RequestView::Read { path: path@ },
            Request::Done => RequestView::Done,
        }
    }
}

/// What came of a request.
#[derive(Debug)]
pub enum Reply {
    /// The entries of the directory, in the order in which it gave them.
    Entries(Vec<DirEntry>),
    /// The directory could not be listed.
    ListFailed { reason: String },
    /// The bytes of the file.
    Content(Vec<u8>),
    /// The file could not be read.
    ReadFailed { reason: String },
}

/// A `Reply` as contracts speak of it.
pub enum ReplyView {
    Entries(Seq<DirEntryView>),
    ListFailed { reason: Seq<char> },
    Content(Seq<u8>),
    ReadFailed { reason: Seq<char> },
}

/// Each entry of `entries` as contracts speak of it.
pub open spec fn entry_views(entries: Seq<DirEntry>) -> Seq<DirEntryView> {
    Seq::new(entries.len(), |i: int| entries[i]@)
}

impl View for Reply {
    type V = ReplyView;

    open spec fn view(&self) -> ReplyView {
        match self {
            Reply::Entries(entries) => ReplyView::Entries(entry_views(entries@)),
            Reply::ListFailed { reason } => ReplyView::ListFailed { reason: reason@ },
            Reply::Content(bytes) => ReplyView::Content(bytes@),
            Reply::ReadFailed { reason } => ReplyView::ReadFailed { reason: reason@ },
        }
    }
}

/// Why a walk ended without a report.
#[derive(Debug)]
pub enum ScanError {
    /// The directory at which the walk starts could not be listed.
    RootUnreadable { path: String, reason: String },
    /// A line of the file at `file` could not be parsed.
    Line { file: String, error: LineError },
    /// The file name pattern did not compile.
    PatternRejected { pattern: String },
    /// The reply was none that answers the pending request.
    OutOfTurn,
}

/// A `ScanError` as contracts speak of it.
pub enum ScanFault {
    RootUnreadable { path: Seq<char>, reason: Seq<char> },
    Line { file: Seq<char>, fault: LineFault },
    PatternRejected { pattern: Seq<char> },
    OutOfTurn,
}

impl View for ScanError {
    type V = ScanFault;

    open spec fn view(&self) -> ScanFault {
        match self {
            ScanError::RootUnreadable { path, reason } => ScanFault::RootUnreadable {
                path: path@,
                reason: reason@,
            },
            ScanError::Line { file, error } => ScanFault::Line { file: file@, fault: error@ },
            ScanError::PatternRejected { pattern } => ScanFault::PatternRejected {
                pattern: pattern@,
            },
            ScanError::OutOfTurn => ScanFault::OutOfTurn,
        }
    }
}

/// A walk as contracts speak of it: the tasks that are left, the one served
/// next first; the reports of the files scanned so far; the warnings so far.
#[verifier::ext_equal]
pub struct WalkerView {
    pub pending: Seq<TaskView>,
    pub results: Seq<FileEndpoints>,
    pub warnings: Seq<WarningView>,
}

/// Each task of `tasks` as contracts speak of it.
spec fn task_views(tasks: Seq<Task>) -> Seq<TaskView> {
    Seq::new(tasks.len(), |i: int| tasks[i]@)
}

/// The tasks of a stack in the order in which they are served: the last one
/// first.
spec fn serving(stack: Seq<Task>) -> Seq<TaskView> {
    Seq::new(stack.len(), |i: int| stack[stack.len() - 1 - i]@)
}

/// Each warning of `warnings` as contracts speak of it.
pub open spec fn warning_views(warnings: Seq<Warning>) -> Seq<WarningView> {
    Seq::new(warnings.len(), |i: int| warnings[i]@)
}

/// Each report of `reports` as contracts speak of it.
pub open spec fn report_views(reports: Seq<ControllerFileSearchResult>) -> Seq<FileEndpoints> {
    Seq::new(reports.len(), |i: int| reports[i]@)
}

/// Picks the task of an entry that is visited.
pub open spec fn visits() -> spec_fn(DirEntryView) -> Option<TaskView> {
    |entry: DirEntryView|
        match plan_of(entry) {
            Some(PlanView::Visit(task)) => Some(task),
            _ => None,
        }
}

/// Picks the warning of an entry that gives one.
pub open spec fn warns() -> spec_fn(DirEntryView) -> Option<WarningView> {
    |entry: DirEntryView|
        match plan_of(entry) {
            Some(PlanView::Warn(warning)) => Some(warning),
            _ => None,
        }
}

/// Whether there is a plan for each entry of a listing.
pub open spec fn all_planned(entries: Seq<DirEntryView>) -> bool {
    forall|i: int| 0 <= i < entries.len() ==> plan_of(#[trigger] entries[i]) is Some
}

/// The tasks that a listing adds, in the order of its entries.
pub open spec fn planned(entries: Seq<DirEntryView>) -> Seq<TaskView> {
    entries.filter_map(visits())
}

/// The warnings that a listing adds, in the order of its entries.
pub open spec fn listing_warnings(entries: Seq<DirEntryView>) -> Seq<WarningView> {
    entries.filter_map(warns())
}

/// The request that a walk makes: that of its first pending task.
pub open spec fn request_of(walk: WalkerView) -> RequestView {
    if walk.pending.len() == 0 {
        RequestView::Done
    } else {
        match walk.pending[0] {
            TaskView::Root { path } => RequestView::List { path },
            TaskView::List { path } => RequestView::List { path },
            TaskView::Read { path, name } => RequestView::Read { path },
        }
    }
}

/// The walk after a listing: the tasks of its entries come before those that
/// were pending, and its warnings are added.
pub open spec fn entered(walk: WalkerView, entries: Seq<DirEntryView>) -> WalkerView {
    WalkerView {
        pending: planned(entries) + walk.pending.skip(1),
        results: walk.results,
        warnings: walk.warnings + listing_warnings(entries),
    }
}

/// The walk after its first pending task has been dropped with a warning.
pub open spec fn skipped(walk: WalkerView, warning: WarningView) -> WalkerView {
    WalkerView {
        pending: walk.pending.skip(1),
        results: walk.results,
        warnings: walk.warnings.push(warning),
    }
}

/// The walk after it has taken in the listing `entries`, or the fault that
/// there is no plan for one of them.
pub open spec fn listed(walk: WalkerView, entries: Seq<DirEntryView>) -> Result<
    WalkerView,
    ScanFault,
> {
    if all_planned(entries) {
        Ok(entered(walk, entries))
    } else {
        Err(ScanFault::PatternRejected { pattern: FILE_NAME_PATTERN@ })
    }
}

/// The walk after `reply` has answered its first pending task.
///
/// A listing puts the tasks of its entries in place of the task; an entry
/// without a plan ends the walk. A directory that cannot be listed ends the
/// walk where it is the root, and gives a warning otherwise. The content of a
/// file is scanned and its report added; a line that cannot be parsed ends
/// the walk. A file that cannot be read gives a warning. A reply of the wrong
/// kind, or one to a walk that is over, is out of turn.
pub open spec fn step(walk: WalkerView, reply: ReplyView) -> Result<WalkerView, ScanFault> {
    if walk.pending.len() == 0 {
        Err(ScanFault::OutOfTurn)
    } else {
        match (walk.pending[0], reply) {
            (TaskView::Root { path }, ReplyView::Entries(entries)) => listed(walk, entries),
            (TaskView::List { path }, ReplyView::Entries(entries)) => listed(walk, entries),
            (TaskView::Root { path }, ReplyView::ListFailed { reason }) => Err(
                ScanFault::RootUnreadable { path, reason },
            ),
            (TaskView::List { path }, ReplyView::ListFailed { reason }) => Ok(
                skipped(walk, WarningView::DirectoryUnreadable { path, reason }),
            ),
            (TaskView::Read { path, name }, ReplyView::Content(bytes)) => match file_outcome(
                name,
                utf8_lossy(bytes),
            ) {
                Ok(report) => Ok(
                    WalkerView {
                        pending: walk.pending.skip(1),
                        results: walk.results.push(report),
                        warnings: walk.warnings,
                    },
                ),
                Err(fault) => Err(ScanFault::Line { file: path, fault }),
            },
            (TaskView::Read { path, name }, ReplyView::ReadFailed { reason }) => Ok(
                skipped(walk, WarningView::FileUnreadable { name, reason }),
            ),
            _ => Err(ScanFault::OutOfTurn),
        }
    }
}

/// What a reply gives, as contracts speak of it.
pub open spec fn walk_view(outcome: Result<Walker, ScanError>) -> Result<WalkerView, ScanFault> {
    match outcome {
        Ok(walker) => Ok(walker@),
        Err(error) => Err(error@),
    }
}

/// A walk over a directory tree.
pub struct Walker {
    tasks: Vec<Task>,
    results: Vec<ControllerFileSearchResult>,
    warnings: Vec<Warning>,
}

impl View for Walker {
    type V = WalkerView;

    closed spec fn view(&self) -> WalkerView {
        WalkerView {
            pending: serving(self.tasks@),
            results: report_views(self.results@),
            warnings: warning_views(self.warnings@),
        }
    }
}

/// Puts `items` on `stack` so that they are served in their order, before
/// what the stack held.
fn stack_all(stack: &mut Vec<Task>, items: Vec<Task>)
    ensures
        serving(final(stack)@) == task_views(items@) + serving(old(stack)@),
{
    let mut items = items;
    let ghost all = items@;
    let ghost base = stack@;
    assert(task_views(all.skip(all.len() as int)) + serving(base) == serving(base));
    assert(all.take(all.len() as int) == all);
    while items.len() > 0
        invariant
            items@ == all.take(items@.len() as int),
            items@.len() <= all.len(),
            serving(stack@) == task_views(all.skip(items@.len() as int)) + serving(base),
        decreases items@.len(),
    {
        let ghost k = items@.len() as int;
        let ghost below = stack@;
        let item = items.pop().unwrap();
        assert(item == all[k - 1]);
        stack.push(item);
        assert(items@ == all.take(k - 1));
        assert(serving(stack@) == seq![item@] + serving(below));
        assert(task_views(all.skip(k - 1)) == seq![item@] + task_views(all.skip(k)));
    }
    assert(all.skip(0) == all);
}

impl Walker {
    /// The walk that starts at the directory `root`.
    pub fn new(root: String) -> (walker: Walker)
        ensures
            walker@ == (WalkerView {
                pending: seq![TaskView::Root { path: root@ }],
                results: Seq::empty(),
                warnings: Seq::empty(),
            }),
    {
        let mut tasks = Vec::new();
        tasks.push(Task::Root { path: root });
        let walker = Walker { tasks, results: Vec::new(), warnings: Vec::new() };
        assert(walker@.pending == seq![TaskView::Root { path: root@ }]);
        assert(walker@.results == Seq::<FileEndpoints>::empty());
        assert(walker@.warnings == Seq::<WarningView>::empty());
        walker
    }

    /// What the walk needs next.
    pub fn request(&self) -> (request: Request)
        ensures
            request@ == request_of(self@),
    {
        let n = self.tasks.len();
        if n == 0 {
            Request::Done
        } else {
            match &self.tasks[n - 1] {
                Task::Root { path } => Request::List { path: path.clone() },
                Task::List { path } => Request::List { path: path.clone() },
                Task::Read { path, .. } => Request::Read { path: path.clone() },
            }
        }
    }

    /// Takes a listing in: the entries are classified in their order.
    fn enter(self, entries: Vec<DirEntry>) -> (outcome: Result<Walker, ScanError>)
        ensures
            match outcome {
                Ok(walker) => all_planned(entry_views(entries@)) && walker@ == (WalkerView {
                    pending: planned(entry_views(entries@)) + self@.pending,
                    results: self@.results,
                    warnings: self@.warnings + listing_warnings(entry_views(entries@)),
                }),
                Err(error) => !all_planned(entry_views(entries@)) && error@
                    == (ScanFault::PatternRejected { pattern: FILE_NAME_PATTERN@ }),
            },
    {
        let mut walker = self;
        let mut visited: Vec<Task> = Vec::new();
        let ghost all = entries@;
        let ghost views = entry_views(all);
        let ghost before = walker.warnings@;
        assert(views.take(0).filter_map(visits()) == Seq::<TaskView>::empty());
        assert(views.take(0).filter_map(warns()) == Seq::<WarningView>::empty());
        assert(warning_views(before) + Seq::<WarningView>::empty() == warning_views(before));
        for entry in it: entries.into_iter()
            invariant
                it.seq() == all,
                views == entry_views(all),
                walker.tasks == self.tasks,
                walker.results == self.results,
                forall|j: int| 0 <= j < it.index() ==> plan_of(#[trigger] views[j]) is Some,
                task_views(visited@) == planned(views.take(it.index())),
                warning_views(walker.warnings@) == warning_views(before) + listing_warnings(
                    views.take(it.index()),
                ),
        {
            let ghost i = it.index();
            proof {
                assert(views[i] == entry@);
                views.lemma_filter_map_take_succ(visits(), i);
                views.lemma_filter_map_take_succ(warns(), i);
            }
            let ghost warned = walker.warnings@;
            let ghost tasked = visited@;
            match classify(entry) {
                None => {
                    return Err(
                        ScanError::PatternRejected { pattern: copy_text(FILE_NAME_PATTERN) },
                    );
                },
                Some(Plan::Visit(task)) => {
                    visited.push(task);
                    assert(task_views(visited@) == task_views(tasked).push(task@));
                },
                Some(Plan::Warn(warning)) => {
                    walker.warnings.push(warning);
                    assert(warning_views(walker.warnings@) == warning_views(warned).push(
                        warning@,
                    ));
                },
                Some(Plan::Ignore) => {},
            }
        }
        assert(views.take(all.len() as int) == views);
        stack_all(&mut walker.tasks, visited);
        Ok(walker)
    }

    /// Takes in the reply to the pending request and gives the walk that
    /// goes on from there, or the error that ends it.
    pub fn reply(self, reply: Reply) -> (outcome: Result<Walker, ScanError>)
        ensures
            walk_view(outcome) == step(self@, reply@),
    {
        let mut walker = self;
        let ghost before = self@;
        let task = match walker.tasks.pop() {
            None => {
                return Err(ScanError::OutOfTurn);
            },
            Some(task) => task,
        };
        assert(task@ == before.pending[0]);
        assert(serving(walker.tasks@) == before.pending.skip(1));
        match task {
            Task::Root { path } => match reply {
                Reply::Entries(entries) => walker.enter(entries),
                Reply::ListFailed { reason } => Err(ScanError::RootUnreadable { path, reason }),
                _ => Err(ScanError::OutOfTurn),
            },
            Task::List { path } => match reply {
                Reply::Entries(entries) => walker.enter(entries),
                Reply::ListFailed { reason } => {
                    let ghost warned = walker.warnings@;
                    let warning = Warning::DirectoryUnreadable { path, reason };
                    walker.warnings.push(warning);
                    assert(warning_views(walker.warnings@) == warning_views(warned).push(
                        warning@,
                    ));
                    Ok(walker)
                },
                _ => Err(ScanError::OutOfTurn),
            },
            Task::Read { path, name } => match reply {
                Reply::Content(bytes) => match scan_file(name, bytes.as_slice()) {
                    Ok(report) => {
                        let ghost reported = walker.results@;
                        walker.results.push(report);
                        assert(report_views(walker.results@) == report_views(reported).push(
                            report@,
                        ));
                        Ok(walker)
                    },
                    Err(error) => Err(ScanError::Line { file: path, error }),
                },
                Reply::ReadFailed { reason } => {
                    let ghost warned = walker.warnings@;
                    let warning = Warning::FileUnreadable { name, reason };
                    walker.warnings.push(warning);
                    assert(warning_views(walker.warnings@) == warning_views(warned).push(
                        warning@,
                    ));
                    Ok(walker)
                },
                _ => Err(ScanError::OutOfTurn),
            },
        }
    }

    /// The reports and the warnings of the walk so far.
    pub fn finish(self) -> (parts: (Vec<ControllerFileSearchResult>, Vec<Warning>))
        ensures
            report_views(parts.0@) == self@.results,
            warning_views(parts.1@) == self@.warnings,
    {
        (self.results, self.warnings)
    }
}

} // verus!
