//! A directory tree as a value, what a scan of it reports, and the proof that
//! a walk over the tree reports just that.

use vstd::prelude::*;
use crate::entry::{plan_of, DirEntryView, PlanView, TaskView, WarningView, FILE_NAME_PATTERN};
use crate::file::{file_outcome, utf8_lossy};
use crate::report::FileEndpoints;
use crate::walker::{
    all_planned, listing_warnings, planned, step, ReplyView, ScanFault, WalkerView,
};

verus! {

/// A node of a directory tree: its entry in the directory that holds it,
/// what listing it gives where it is a directory, and what reading it gives
/// where it is a file. A listing or a read may fail, with a reason.
pub struct Node {
    pub entry: DirEntryView,
    pub listing: Result<Seq<Node>, Seq<char>>,
    pub content: Result<Seq<u8>, Seq<char>>,
}

/// The entries of a directory that holds `children`, in their order.
pub open spec fn entries_of(children: Seq<Node>) -> Seq<DirEntryView> {
    Seq::new(children.len(), |i: int| children[i].entry)
}

/// What the file system replies where `task` is asked of `node`.
pub open spec fn answer(task: TaskView, node: Node) -> ReplyView {
    match task {
        TaskView::Read { path, name } => match node.content {
            Ok(bytes) => ReplyView::Content(bytes),
            Err(reason) => ReplyView::ReadFailed { reason },
        },
        _ => match node.listing {
            Ok(children) => ReplyView::Entries(entries_of(children)),
            Err(reason) => ReplyView::ListFailed { reason },
        },
    }
}

/// What a scan has found: the reports of the files, and the warnings.
#[verifier::ext_equal]
pub struct Findings {
    pub results: Seq<FileEndpoints>,
    pub warnings: Seq<WarningView>,
}

impl Findings {
    /// No report and no warning.
    pub open spec fn nothing() -> Findings {
        Findings { results: Seq::empty(), warnings: Seq::empty() }
    }

    /// These findings, and after them those of `later`.
    pub open spec fn with(self, later: Findings) -> Findings {
        Findings {
            results: self.results + later.results,
            warnings: self.warnings + later.warnings,
        }
    }
}

/// What two parts of a scan find together, the second after the first. A
/// fault in the first part is the fault of both.
pub open spec fn chain(first: Result<Findings, ScanFault>, second: Result<Findings, ScanFault>)
    -> Result<Findings, ScanFault> {
    match first {
        Err(fault) => Err(fault),
        Ok(found) => match second {
            Err(fault) => Err(fault),
            Ok(more) => Ok(found.with(more)),
        },
    }
}

/// What carrying out `task` at `node` finds.
///
/// A directory that can be listed gives what its listing finds. One that
/// cannot be listed is a fault where it is the root, and a warning otherwise.
/// A file that can be read gives its report, or the fault of the line that
/// cannot be parsed. One that cannot be read gives a warning.
pub open spec fn visit(task: TaskView, node: Node) -> Result<Findings, ScanFault>
    decreases node, 0nat,
{
    match task {
        TaskView::Root { path } => match node.listing {
            Err(reason) => Err(ScanFault::RootUnreadable { path, reason }),
            Ok(children) => visit_listing(children),
        },
        TaskView::List { path } => match node.listing {
            Err(reason) => Ok(
                Findings {
                    results: Seq::empty(),
                    warnings: seq![WarningView::DirectoryUnreadable { path, reason }],
                },
            ),
            Ok(children) => visit_listing(children),
        },
        TaskView::Read { path, name } => match node.content {
            Err(reason) => Ok(
                Findings {
                    results: Seq::empty(),
                    warnings: seq![WarningView::FileUnreadable { name, reason }],
                },
            ),
            Ok(bytes) => match file_outcome(name, utf8_lossy(bytes)) {
                Ok(report) => Ok(Findings { results: seq![report], warnings: Seq::empty() }),
                Err(fault) => Err(ScanFault::Line { file: path, fault }),
            },
        },
    }
}

/// What the listing of a directory that holds `children` finds: the warnings
/// of its entries, and then what the children find. It is a fault that there
/// is no plan for one of the entries.
pub open spec fn visit_listing(children: Seq<Node>) -> Result<Findings, ScanFault>
    decreases children, 1nat,
{
    if all_planned(entries_of(children)) {
        chain(
            Ok(
                Findings {
                    results: Seq::empty(),
                    warnings: listing_warnings(entries_of(children)),
                },
            ),
            visit_children(children),
        )
    } else {
        Err(ScanFault::PatternRejected { pattern: FILE_NAME_PATTERN@ })
    }
}

/// What `child` finds as one of the children of a directory: what its task
/// finds where the plan for it is a visit, and nothing otherwise.
pub open spec fn visit_child(child: Node) -> Result<Findings, ScanFault>
    decreases child, 1nat,
{
    match plan_of(child.entry) {
        Some(PlanView::Visit(task)) => visit(task, child),
        _ => Ok(Findings::nothing()),
    }
}

/// What the children of a directory find, one after the other in the order
/// of the listing, each with all that lies below it.
pub open spec fn visit_children(children: Seq<Node>) -> Result<Findings, ScanFault>
    decreases children, 0nat,
{
    if children.len() == 0 {
        Ok(Findings::nothing())
    } else {
        chain(visit_children(children.drop_last()), visit_child(children.last()))
    }
}

/// A task together with the node at which it is carried out.
pub struct Errand {
    pub task: TaskView,
    pub node: Node,
}

/// Picks the errand of a child that is visited.
pub open spec fn errands() -> spec_fn(Node) -> Option<Errand> {
    |node: Node|
        match plan_of(node.entry) {
            Some(PlanView::Visit(task)) => Some(Errand { task, node }),
            _ => None,
        }
}

/// The errands that the children of a directory give, in their order.
pub open spec fn agenda(children: Seq<Node>) -> Seq<Errand> {
    children.filter_map(errands())
}

/// The tasks of `agenda`, in their order.
pub open spec fn tasks_of(agenda: Seq<Errand>) -> Seq<TaskView> {
    Seq::new(agenda.len(), |i: int| agenda[i].task)
}

/// The errands that come in place of `errand` once it is carried out: those
/// of the children, where it lists a directory that can be listed.
pub open spec fn opened(errand: Errand) -> Seq<Errand> {
    match errand.task {
        TaskView::Read { path, name } => Seq::empty(),
        _ => match errand.node.listing {
            Ok(children) => agenda(children),
            Err(_) => Seq::empty(),
        },
    }
}

/// The number of nodes of the tree under `node`, itself included.
pub open spec fn weight(node: Node) -> nat
    decreases node,
{
    match node.listing {
        Ok(children) => 1 + weights(children),
        Err(_) => 1,
    }
}

/// The number of nodes of the trees under `children`.
pub open spec fn weights(children: Seq<Node>) -> nat
    decreases children,
{
    if children.len() == 0 {
        0
    } else {
        weights(children.drop_last()) + weight(children.last())
    }
}

/// The number of nodes of the trees that `agenda` leads to.
pub open spec fn load(agenda: Seq<Errand>) -> nat
    decreases agenda.len(),
{
    if agenda.len() == 0 {
        0
    } else {
        load(agenda.drop_last()) + weight(agenda.last().node)
    }
}

/// The walk that starts at the directory `path`.
pub open spec fn begin(path: Seq<char>) -> WalkerView {
    WalkerView {
        pending: seq![TaskView::Root { path }],
        results: Seq::empty(),
        warnings: Seq::empty(),
    }
}

/// How `walk` ends where it is told, at each request, what the node of the
/// first errand holds: the walk takes the reply in, the errands that the node
/// opens come in place of the first, and so on until none is left.
pub open spec fn run(walk: WalkerView, agenda: Seq<Errand>) -> Result<WalkerView, ScanFault>
    decreases load(agenda),
    via run_terminates
{
    if agenda.len() == 0 {
        Ok(walk)
    } else {
        match step(walk, answer(agenda[0].task, agenda[0].node)) {
            Err(fault) => Err(fault),
            Ok(next) => run(next, opened(agenda[0]) + agenda.skip(1)),
        }
    }
}

#[via_fn]
proof fn run_terminates(walk: WalkerView, agenda: Seq<Errand>) {
    if agenda.len() > 0 {
        lemma_load_after_first(agenda);
    }
}

/// The walk that `walk` ends as where what is left to do finds `outcome`.
pub open spec fn settle(walk: WalkerView, outcome: Result<Findings, ScanFault>) -> Result<
    WalkerView,
    ScanFault,
> {
    match outcome {
        Err(fault) => Err(fault),
        Ok(found) => Ok(
            WalkerView {
                pending: Seq::empty(),
                results: walk.results + found.results,
                warnings: walk.warnings + found.warnings,
            },
        ),
    }
}

/// What carrying out the errands of `agenda` finds, one after the other.
pub open spec fn visit_each(agenda: Seq<Errand>) -> Result<Findings, ScanFault>
    decreases agenda.len(),
{
    if agenda.len() == 0 {
        Ok(Findings::nothing())
    } else {
        chain(visit_each(agenda.drop_last()), visit(agenda.last().task, agenda.last().node))
    }
}

proof fn lemma_load_concat(front: Seq<Errand>, back: Seq<Errand>)
    ensures
        load(front + back) == load(front) + load(back),
    decreases back.len(),
{
    if back.len() == 0 {
        assert(front + back == front);
    } else {
        assert((front + back).drop_last() == front + back.drop_last());
        lemma_load_concat(front, back.drop_last());
    }
}

proof fn lemma_agenda_load(children: Seq<Node>)
    ensures
        load(agenda(children)) <= weights(children),
    decreases children.len(),
{
    if children.len() > 0 {
        lemma_agenda_load(children.drop_last());
        let before = agenda(children.drop_last());
        match errands()(children.last()) {
            Some(errand) => {
                assert(agenda(children) == before + seq![errand]);
                assert((before + seq![errand]).drop_last() == before);
            },
            None => {},
        }
    }
}

proof fn lemma_load_after_first(agenda: Seq<Errand>)
    requires
        agenda.len() > 0,
    ensures
        load(opened(agenda[0]) + agenda.skip(1)) < load(agenda),
{
    let first = agenda[0];
    let rest = agenda.skip(1);
    assert(agenda == seq![first] + rest);
    lemma_load_concat(seq![first], rest);
    lemma_load_concat(opened(first), rest);
    assert(seq![first].drop_last() == Seq::<Errand>::empty());
    assert(load(Seq::<Errand>::empty()) == 0);
    assert(load(seq![first]) == weight(first.node));
    match first.node.listing {
        Ok(children) => {
            lemma_agenda_load(children);
        },
        Err(_) => {},
    }
}

proof fn lemma_chain_assoc(
    a: Result<Findings, ScanFault>,
    b: Result<Findings, ScanFault>,
    c: Result<Findings, ScanFault>,
)
    ensures
        chain(chain(a, b), c) == chain(a, chain(b, c)),
{
    if let (Ok(x), Ok(y), Ok(z)) = (a, b, c) {
        assert(x.with(y).with(z) =~= x.with(y.with(z)));
    }
}

proof fn lemma_chain_nothing(a: Result<Findings, ScanFault>)
    ensures
        chain(a, Ok(Findings::nothing())) == a,
        chain(Ok(Findings::nothing()), a) == a,
{
    if let Ok(x) = a {
        assert(x.with(Findings::nothing()) =~= x);
        assert(Findings::nothing().with(x) =~= x);
    }
}

proof fn lemma_visit_each_concat(front: Seq<Errand>, back: Seq<Errand>)
    ensures
        visit_each(front + back) == chain(visit_each(front), visit_each(back)),
    decreases back.len(),
{
    if back.len() == 0 {
        assert(front + back == front);
        lemma_chain_nothing(visit_each(front));
    } else {
        assert((front + back).drop_last() == front + back.drop_last());
        lemma_visit_each_concat(front, back.drop_last());
        lemma_chain_assoc(
            visit_each(front),
            visit_each(back.drop_last()),
            visit(back.last().task, back.last().node),
        );
    }
}

proof fn lemma_visit_single(errand: Errand)
    ensures
        visit_each(seq![errand]) == visit(errand.task, errand.node),
{
    assert(seq![errand].drop_last() == Seq::<Errand>::empty());
    assert(visit_each(Seq::<Errand>::empty()) == Ok::<Findings, ScanFault>(Findings::nothing()));
    lemma_chain_nothing(visit(errand.task, errand.node));
}

proof fn lemma_children_agenda(children: Seq<Node>)
    ensures
        visit_children(children) == visit_each(agenda(children)),
    decreases children.len(),
{
    if children.len() > 0 {
        lemma_children_agenda(children.drop_last());
        let before = agenda(children.drop_last());
        match errands()(children.last()) {
            Some(errand) => {
                assert(agenda(children) == before + seq![errand]);
                assert((before + seq![errand]).drop_last() == before);
                assert((before + seq![errand]).last() == errand);
                assert(visit_child(children.last()) == visit(errand.task, errand.node));
            },
            None => {
                assert(agenda(children) == before);
                assert(visit_child(children.last()) == Ok::<Findings, ScanFault>(
                    Findings::nothing(),
                ));
                lemma_chain_nothing(visit_children(children.drop_last()));
            },
        }
    } else {
        assert(agenda(children) == Seq::<Errand>::empty());
    }
}

proof fn lemma_agenda_tasks(children: Seq<Node>)
    ensures
        tasks_of(agenda(children)) == planned(entries_of(children)),
    decreases children.len(),
{
    let entries = entries_of(children);
    if children.len() > 0 {
        lemma_agenda_tasks(children.drop_last());
        assert(entries.drop_last() == entries_of(children.drop_last()));
        assert(entries.last() == children.last().entry);
        let before = agenda(children.drop_last());
        match errands()(children.last()) {
            Some(errand) => {
                assert(agenda(children) == before + seq![errand]);
                assert(tasks_of(before + seq![errand]) == tasks_of(before).push(errand.task));
            },
            None => {},
        }
    } else {
        assert(tasks_of(agenda(children)) == Seq::<TaskView>::empty());
    }
}

proof fn lemma_settle_after(
    walk: WalkerView,
    next: WalkerView,
    found: Findings,
    rest: Result<Findings, ScanFault>,
)
    requires
        next.results == walk.results + found.results,
        next.warnings == walk.warnings + found.warnings,
    ensures
        settle(next, rest) == settle(walk, chain(Ok(found), rest)),
{
    if let Ok(more) = rest {
        assert(next.results + more.results == walk.results + found.with(more).results);
        assert(next.warnings + more.warnings == walk.warnings + found.with(more).warnings);
    }
}

/// A walk whose pending tasks are those of `agenda` ends with what it has,
/// and after it what the errands of `agenda` find; or with their fault.
pub proof fn lemma_run_finds_each(walk: WalkerView, agenda: Seq<Errand>)
    requires
        walk.pending == tasks_of(agenda),
    ensures
        run(walk, agenda) == settle(walk, visit_each(agenda)),
    decreases load(agenda),
{
    if agenda.len() == 0 {
        assert(walk.results + Findings::nothing().results == walk.results);
        assert(walk.warnings + Findings::nothing().warnings == walk.warnings);
        assert(walk.pending == Seq::<TaskView>::empty());
    } else {
        let first = agenda[0];
        let rest = agenda.skip(1);
        let found = visit(first.task, first.node);
        assert(agenda == seq![first] + rest);
        lemma_visit_each_concat(seq![first], rest);
        lemma_visit_single(first);
        lemma_load_after_first(agenda);
        assert(walk.pending[0] == first.task);
        assert(walk.pending.skip(1) == tasks_of(rest));
        let reply = answer(first.task, first.node);
        let after = opened(first) + rest;
        match step(walk, reply) {
            Err(fault) => {
                assert(found == Err::<Findings, ScanFault>(fault));
            },
            Ok(next) => {
                assert(tasks_of(opened(first) + rest) == tasks_of(opened(first)) + tasks_of(rest));
                if let ReplyView::Entries(entries) = reply {
                    let children = first.node.listing->Ok_0;
                    lemma_agenda_tasks(children);
                    lemma_children_agenda(children);
                    lemma_visit_each_concat(opened(first), rest);
                    let warned = Findings {
                        results: Seq::empty(),
                        warnings: listing_warnings(entries),
                    };
                    assert(next.results == walk.results + warned.results);
                    lemma_run_finds_each(next, after);
                    lemma_settle_after(walk, next, warned, visit_each(after));
                    lemma_chain_assoc(Ok(warned), visit_children(children), visit_each(rest));
                } else {
                    assert(opened(first) == Seq::<Errand>::empty());
                    assert(after == rest);
                    let added = found->Ok_0;
                    assert(next.results == walk.results + added.results);
                    assert(next.warnings == walk.warnings + added.warnings);
                    lemma_run_finds_each(next, rest);
                    lemma_settle_after(walk, next, added, visit_each(rest));
                }
            },
        }
    }
}

/// A walk that starts at the directory `path`, and is told at each request
/// what the tree under `root` holds, ends with the findings of the tree: the
/// reports of its controller files and its warnings, each in the order in
/// which `visit` meets them; or with the first fault that `visit` meets.
pub proof fn lemma_walk_reports_tree(path: Seq<char>, root: Node)
    ensures
        run(begin(path), seq![Errand { task: TaskView::Root { path }, node: root }]) == settle(
            begin(path),
            visit(TaskView::Root { path }, root),
        ),
{
    let errand = Errand { task: TaskView::Root { path }, node: root };
    assert(begin(path).pending == tasks_of(seq![errand]));
    lemma_run_finds_each(begin(path), seq![errand]);
    lemma_visit_single(errand);
}

/// Walking a tree again gives the same again: two walks that start at the
/// same directory and are told the same of the same tree end alike, with the
/// same reports in the same order, or with the same fault.
pub proof fn lemma_walk_again_reports_same(
    path: Seq<char>,
    root: Node,
    first: Result<WalkerView, ScanFault>,
    second: Result<WalkerView, ScanFault>,
)
    requires
        first == run(begin(path), seq![Errand { task: TaskView::Root { path }, node: root }]),
        second == run(begin(path), seq![Errand { task: TaskView::Root { path }, node: root }]),
    ensures
        first == second,
        first == settle(begin(path), visit(TaskView::Root { path }, root)),
{
    lemma_walk_reports_tree(path, root);
}

} // verus!
