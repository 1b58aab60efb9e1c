//! The entries of a directory and the rule that decides what the scan does
//! with each: descend, read, warn or pass by.

use vstd::prelude::*;
use crate::pattern::{is_match, pattern_search};
use crate::text::starts_with_char;

verus! {

/// The largest file that is read, in bytes.
pub const BUFFER_SIZE: u64 = 1024 * 1024 * 8;

/// The regular expression that the name of a controller file matches.
pub const FILE_NAME_PATTERN: &'static str = "^.?*(Controller\\.java)$";

/// What kind of thing a directory entry is. A file comes with its size in
/// bytes, or with the reason why the size could not be had.
#[derive(Debug)]
pub enum EntryKind {
    Directory,
    File { size: Result<u64, String> },
    Other,
}

/// An `EntryKind` as contracts speak of it.
pub enum EntryKindView {
    Directory,
    File { size: Result<u64, Seq<char>> },
    Other,
}

impl View for EntryKind {
    type V = EntryKindView;

    open spec fn view(&self) -> EntryKindView {
        match self {
            EntryKind::Directory => EntryKindView::Directory,
            EntryKind::File { size: Ok(bytes) } => EntryKindView::File { size: Ok(*bytes) },
            EntryKind::File { size: Err(reason) } => EntryKindView::File { size: Err(reason@) },
            EntryKind::Other => EntryKindView::Other,
        }
    }
}

/// One entry of a directory: where it is, how it is called, what it is.
#[derive(Debug)]
pub struct DirEntry {
    pub path: String,
    pub name: String,
    pub kind: EntryKind,
}

/// A `DirEntry` as contracts speak of it.
pub struct DirEntryView {
    pub path: Seq<char>,
    pub name: Seq<char>,
    pub kind: EntryKindView,
}

impl View for DirEntry {
    type V = DirEntryView;

    open spec fn view(&self) -> DirEntryView {
        DirEntryView { path: self.path@, name: self.name@, kind: self.kind@ }
    }
}

/// Something that the scan passed over and that its user should hear of.
#[derive(Debug)]
pub enum Warning {
    /// The file is larger than `BUFFER_SIZE`.
    FileTooLarge { path: String, size: u64 },
    /// The file's size or content could not be read.
    FileUnreadable { name: String, reason: String },
    /// The directory could not be listed.
    DirectoryUnreadable { path: String, reason: String },
}

/// A `Warning` as contracts speak of it.
pub enum WarningView {
    FileTooLarge { path: Seq<char>, size: u64 },
    FileUnreadable { name: Seq<char>, reason: Seq<char> },
    DirectoryUnreadable { path: Seq<char>, reason: Seq<char> },
}

impl View for Warning {
    type V = WarningView;

    open spec fn view(&self) -> WarningView {
        match self {
            Warning::FileTooLarge { path, size } => WarningView::FileTooLarge {
                path: path@,
                size: *size,
            },
            Warning::FileUnreadable { name, reason } => WarningView::FileUnreadable {
                name: name@,
                reason: reason@,
            },
            Warning::DirectoryUnreadable { path, reason } => WarningView::DirectoryUnreadable {
                path: path@,
                reason: reason@,
            },
        }
    }
}

/// A piece of work that the scan has still to do.
#[derive(Debug)]
pub enum Task {
    /// List the directory at which the scan starts.
    Root { path: String },
    /// List a directory below the root.
    List { path: String },
    /// Read and scan a controller file.
    Read { path: String, name: String },
}

/// A `Task` as contracts speak of it.
pub enum TaskView {
    Root { path: Seq<char> },
    List { path: Seq<char> },
    Read { path: Seq<char>, name: Seq<char> },
}

impl View for Task {
    type V = TaskView;

    open spec fn view(&self) -> TaskView {
        match self {
            Task::Root { path } => TaskView::Root { path: path@ },
            Task::List { path } => TaskView::List { path: path@ },
            Task::Read { path, name } => TaskView::Read { path: path@, name: name@ },
        }
    }
}

/// What the scan does with one entry.
#[derive(Debug)]
pub enum Plan {
    Visit(Task),
    Warn(Warning),
    Ignore,
}

/// A `Plan` as contracts speak of it.
pub enum PlanView {
    Visit(TaskView),
    Warn(WarningView),
    Ignore,
}

impl View for Plan {
    type V = PlanView;

    open spec fn view(&self) -> PlanView {
        match self {
            Plan::Visit(task) => PlanView::Visit(task@),
            Plan::Warn(warning) => PlanView::Warn(warning@),
            Plan::Ignore => PlanView::Ignore,
        }
    }
}

/// Whether `name` is that of a hidden entry: it starts with a dot.
pub open spec fn is_hidden(name: Seq<char>) -> bool {
    name.len() > 0 && name[0] == '.'
}

/// The plan for `entry` once the file name pattern has answered
/// `controller_file` for its name. A directory is visited unless it is
/// hidden. A file is read where its name is that of a controller file and it
/// is no larger than `BUFFER_SIZE`; a controller file that is too large, or
/// whose size is not known, gives a warning. Everything else is passed by.
pub open spec fn plan_given(entry: DirEntryView, controller_file: bool) -> PlanView {
    match entry.kind {
        EntryKindView::Directory => if is_hidden(entry.name) {
            PlanView::Ignore
        } else {
            PlanView::Visit(TaskView::List { path: entry.path })
        },
        EntryKindView::File { size } => if !controller_file {
            PlanView::Ignore
        } else {
            match size {
                Err(reason) => PlanView::Warn(
                    WarningView::FileUnreadable { name: entry.name, reason },
                ),
                Ok(bytes) => if bytes > BUFFER_SIZE {
                    PlanView::Warn(WarningView::FileTooLarge { path: entry.path, size: bytes })
                } else {
                    PlanView::Visit(TaskView::Read { path: entry.path, name: entry.name })
                },
            }
        },
        EntryKindView::Other => PlanView::Ignore,
    }
}

/// The plan for `entry`. The name of a file is put to the file name
/// pattern; there is no plan for a file where the pattern does not compile.
pub open spec fn plan_of(entry: DirEntryView) -> Option<PlanView> {
    if entry.kind is File {
        match pattern_search(FILE_NAME_PATTERN@, entry.name) {
            Some(controller_file) => Some(plan_given(entry, controller_file)),
            None => None,
        }
    } else {
        Some(plan_given(entry, false))
    }
}

/// A `Plan` that may be missing, as contracts speak of it.
pub open spec fn plan_view(plan: Option<Plan>) -> Option<PlanView> {
    match plan {
        Some(plan) => Some(plan@),
        None => None,
    }
}

/// Whether `name` starts with a dot.
pub fn starts_with_dot(name: &str) -> (hidden: bool)
    ensures
        hidden == is_hidden(name@),
{
    starts_with_char(name, '.')
}

/// Decides what the scan does with `entry`, given whether the file name
/// pattern matches its name.
pub fn plan_entry(entry: DirEntry, controller_file: bool) -> (plan: Plan)
    ensures
        plan@ == plan_given(entry@, controller_file),
{
    match entry.kind {
        EntryKind::Directory => {
            if starts_with_dot(entry.name.as_str()) {
                Plan::Ignore
            } else {
                Plan::Visit(Task::List { path: entry.path })
            }
        },
        EntryKind::File { size } => {
            if !controller_file {
                Plan::Ignore
            } else {
                match size {
                    Err(reason) => Plan::Warn(Warning::FileUnreadable { name: entry.name, reason }),
                    Ok(bytes) => if bytes > BUFFER_SIZE {
                        Plan::Warn(Warning::FileTooLarge { path: entry.path, size: bytes })
                    } else {
                        Plan::Visit(Task::Read { path: entry.path, name: entry.name })
                    },
                }
            }
        },
        EntryKind::Other => Plan::Ignore,
    }
}

/// Decides what the scan does with `entry`. The file name pattern is
/// consulted for a file only; where it does not compile, there is no plan.
pub fn classify(entry: DirEntry) -> (plan: Option<Plan>)
    ensures
        plan_view(plan) == plan_of(entry@),
{
    let controller_file = match entry.kind {
        EntryKind::File { .. } => match is_match(FILE_NAME_PATTERN, entry.name.as_str()) {
            Some(hit) => hit,
            None => {
                return None;
            },
        },
        _ => false,
    };
    Some(plan_entry(entry, controller_file))
}

} // verus!
