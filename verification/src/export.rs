//! Exporting the files of photo groups to a folder: which files are
//! selected, what is asked of the file system for each, and what is
//! reported of the batch. Probing and transferring files is the caller's
//! part; the run decides from what the caller found and never asks for a
//! transfer onto a file that exists.

use crate::group::{PhotoGroupInfo, PhotoGroupView};
use crate::order::{place_of, Place};
use crate::text::{decimal, holds, join_lines, joined, lemma_holds_part, push_decimal};
use crate::trash::report_view;
use vstd::prelude::*;
use vstd::string::*;

verus! {

/// Which files of a group are exported.
#[derive(Debug, Clone, Copy, PartialEq, Eq, Structural)]
pub enum ExportMode {
    Jpg,
    Raw,
    Both,
}

/// How a file reaches the destination.
#[derive(Debug, Clone, Copy, PartialEq, Eq, Structural)]
pub enum Operation {
    /// The file is duplicated; the source stays.
    Copy,
    /// The file is renamed; the source is gone.
    Move,
}

/// What is at the path of the destination folder.
#[derive(Debug, Clone, Copy, PartialEq, Eq, Structural)]
pub enum Destination {
    Missing,
    NotADirectory,
    Directory,
}

/// The mode that a text names.
pub open spec fn mode_of(text: Seq<char>) -> Option<ExportMode> {
    if text == "JPG"@ {
        Some(ExportMode::Jpg)
    } else if text == "RAW"@ {
        Some(ExportMode::Raw)
    } else if text == "BOTH"@ {
        Some(ExportMode::Both)
    } else {
        None
    }
}

/// The operation that a text names.
pub open spec fn operation_of(text: Seq<char>) -> Option<Operation> {
    if text == "COPY"@ {
        Some(Operation::Copy)
    } else if text == "MOVE"@ {
        Some(Operation::Move)
    } else {
        None
    }
}

/// Reads the name of a mode: `JPG`, `RAW` or `BOTH`.
pub fn parse_mode(text: &str) -> (mode: Option<ExportMode>)
    ensures
        mode == mode_of(text@),
{
    if place_of(text, "JPG") == Place::Same {
        Some(ExportMode::Jpg)
    } else if place_of(text, "RAW") == Place::Same {
        Some(ExportMode::Raw)
    } else if place_of(text, "BOTH") == Place::Same {
        Some(ExportMode::Both)
    } else {
        None
    }
}

/// Reads the name of an operation: `COPY` or `MOVE`.
pub fn parse_operation(text: &str) -> (operation: Option<Operation>)
    ensures
        operation == operation_of(text@),
{
    if place_of(text, "COPY") == Place::Same {
        Some(Operation::Copy)
    } else if place_of(text, "MOVE") == Place::Same {
        Some(Operation::Move)
    } else {
        None
    }
}

/// What the caller found of one source file: whether it is there, the name
/// of its last component where it has one, the path of the file of that name
/// in the destination folder, and whether a file is there already.
#[derive(Debug, Clone, PartialEq, Eq)]
pub struct SourceProbe {
    pub exists: bool,
    pub file_name: Option<String>,
    pub destination: String,
    pub destination_exists: bool,
}

/// What a [`SourceProbe`] holds, as mathematical values.
pub struct SourceProbeView {
    pub exists: bool,
    pub file_name: Option<Seq<char>>,
    pub destination: Seq<char>,
    pub destination_exists: bool,
}

impl View for SourceProbe {
    type V = SourceProbeView;

    open spec fn view(&self) -> SourceProbeView {
        SourceProbeView {
            exists: self.exists,
            file_name: self.file_name.deep_view(),
            destination: self.destination@,
            destination_exists: self.destination_exists,
        }
    }
}

/// A transfer that the run asks for: of the file at `source`, named
/// `file_name`, to the path `destination`, at which no file is.
#[derive(Debug, Clone, PartialEq, Eq)]
pub struct Transfer {
    pub operation: Operation,
    pub source: String,
    pub file_name: String,
    pub destination: String,
}

/// What a [`Transfer`] holds, as mathematical values.
pub struct TransferView {
    pub operation: Operation,
    pub source: Seq<char>,
    pub file_name: Seq<char>,
    pub destination: Seq<char>,
}

impl View for Transfer {
    type V = TransferView;

    open spec fn view(&self) -> TransferView {
        TransferView {
            operation: self.operation,
            source: self.source@,
            file_name: self.file_name@,
            destination: self.destination@,
        }
    }
}

impl DeepView for Transfer {
    type V = TransferView;

    open spec fn deep_view(&self) -> TransferView {
        self.view()
    }
}

/// What the run asks of the caller next.
#[derive(Debug, Clone, PartialEq, Eq)]
pub enum ExportAction {
    /// To probe the source file at this path.
    Probe(String),
    /// To carry out this transfer.
    Transfer(Transfer),
    /// Nothing: the batch is over.
    Finished,
}

/// What an [`ExportAction`] holds, as mathematical values.
pub enum ExportActionView {
    Probe(Seq<char>),
    Transfer(TransferView),
    Finished,
}

impl View for ExportAction {
    type V = ExportActionView;

    open spec fn view(&self) -> ExportActionView {
        match self {
            ExportAction::Probe(path) => ExportActionView::Probe(path@),
            ExportAction::Transfer(transfer) => ExportActionView::Transfer(transfer@),
            ExportAction::Finished => ExportActionView::Finished,
        }
    }
}

/// A batch of files on their way to a folder: the operation as it was
/// named, the paths of the selected files, how many of them have been dealt
/// with, the transfer that is under way, the messages of the files that
/// arrived, the messages of the failures, and the message of the failure
/// that ended the batch early.
#[derive(Debug, Clone, PartialEq, Eq)]
pub struct ExportRun {
    pub operation: String,
    pub targets: Vec<String>,
    pub cursor: usize,
    pub pending: Option<Transfer>,
    pub processed: Vec<String>,
    pub failed: Vec<String>,
    pub aborted: Option<String>,
}

/// What an [`ExportRun`] holds, as mathematical values.
pub struct ExportRunView {
    pub operation: Seq<char>,
    pub targets: Seq<Seq<char>>,
    pub cursor: nat,
    pub pending: Option<TransferView>,
    pub processed: Seq<Seq<char>>,
    pub failed: Seq<Seq<char>>,
    pub aborted: Option<Seq<char>>,
}

impl View for ExportRun {
    type V = ExportRunView;

    open spec fn view(&self) -> ExportRunView {
        ExportRunView {
            operation: self.operation@,
            targets: self.targets.deep_view(),
            cursor: self.cursor as nat,
            pending: self.pending.deep_view(),
            processed: self.processed.deep_view(),
            failed: self.failed.deep_view(),
            aborted: self.aborted.deep_view(),
        }
    }
}

/// The paths of the files of `group` that `mode` selects: the JPEG file, the
/// RAW file, or both, as far as the group has them.
pub open spec fn selected(group: PhotoGroupView, mode: ExportMode) -> Seq<Seq<char>> {
    match mode {
        ExportMode::Jpg => match group.jpg {
            Some(file) => seq![file.path],
            None => seq![],
        },
        ExportMode::Raw => match group.raw {
            Some(file) => seq![file.path],
            None => seq![],
        },
        ExportMode::Both => group.member_paths(),
    }
}

/// The paths of the files of all of `groups` that `mode` selects, group by
/// group.
pub open spec fn all_selected(groups: Seq<PhotoGroupView>, mode: ExportMode) -> Seq<Seq<char>>
    decreases groups.len(),
{
    if groups.len() == 0 {
        seq![]
    } else {
        all_selected(groups.drop_last(), mode) + selected(groups.last(), mode)
    }
}

/// The message of a mode that is not known.
pub open spec fn unknown_mode(mode: Seq<char>) -> Seq<char> {
    "Unknown export mode: "@ + mode
}

/// The message of a source file that is not there.
pub open spec fn source_missing(path: Seq<char>) -> Seq<char> {
    "Source file not found: "@ + path
}

/// The message of a source path without a file name.
pub open spec fn invalid_file_name(path: Seq<char>) -> Seq<char> {
    "Invalid file name: "@ + path
}

/// The message of a destination at which a file is already.
pub open spec fn destination_taken(destination: Seq<char>) -> Seq<char> {
    "Destination file already exists: "@ + destination
}

/// The message of an operation that is not known.
pub open spec fn unknown_operation(operation: Seq<char>) -> Seq<char> {
    "Unknown operation: "@ + operation
}

/// The message of a file that arrived.
pub open spec fn transferred(transfer: TransferView) -> Seq<char> {
    let verb = match transfer.operation {
        Operation::Copy => "Copied "@,
        Operation::Move => "Moved "@,
    };
    verb + transfer.file_name + " to "@ + transfer.destination
}

/// The message of a transfer that failed: the path of the source, the path
/// of the destination, and the cause.
pub open spec fn transfer_failure(transfer: TransferView, cause: Seq<char>) -> Seq<char> {
    let what = match transfer.operation {
        Operation::Copy => "Failed to copy "@,
        Operation::Move => "Failed to move "@,
    };
    what + transfer.source + " to "@ + transfer.destination + ": "@ + cause
}

/// The message of a batch with failures: the failures line by line, and how
/// many files arrived.
pub open spec fn export_errors(failed: Seq<Seq<char>>, arrived: nat) -> Seq<char> {
    "Export completed with errors:\n"@ + joined(failed) + "\n\nSuccessfully processed "@ + decimal(
        arrived,
    ) + " files"@
}

impl ExportRunView {
    /// The batch at its start, or the message of a destination that is no
    /// folder. A mode that is not known selects no file and is a failure of
    /// every group.
    pub open spec fn start(
        groups: Seq<PhotoGroupView>,
        mode: Seq<char>,
        operation: Seq<char>,
        destination: Destination,
    ) -> Result<ExportRunView, Seq<char>> {
        match destination {
            Destination::Missing => Err("Destination folder does not exist"@),
            Destination::NotADirectory => Err("Destination path is not a directory"@),
            Destination::Directory => Ok(
                ExportRunView {
                    operation: operation,
                    targets: match mode_of(mode) {
                        Some(m) => all_selected(groups, m),
                        None => seq![],
                    },
                    cursor: 0,
                    pending: None,
                    processed: seq![],
                    failed: match mode_of(mode) {
                        Some(_) => seq![],
                        None => Seq::new(groups.len(), |i: int| unknown_mode(mode)),
                    },
                    aborted: None,
                },
            ),
        }
    }

    /// What the run asks of the caller next: to carry out the transfer that
    /// is under way, else to probe the next file, else nothing.
    pub open spec fn next_action(self) -> ExportActionView {
        if self.aborted is Some || self.cursor >= self.targets.len() {
            ExportActionView::Finished
        } else {
            match self.pending {
                Some(transfer) => ExportActionView::Transfer(transfer),
                None => ExportActionView::Probe(self.targets[self.cursor as int]),
            }
        }
    }

    /// The run with one more failure noted and the file in hand dealt with.
    pub open spec fn fail(self, message: Seq<char>) -> ExportRunView {
        ExportRunView {
            cursor: self.cursor + 1,
            pending: None,
            failed: self.failed.push(message),
            ..self
        }
    }

    /// The run after the caller probed the source file it was asked to
    /// probe. A source that is not there, a destination at which a file is
    /// already, and an operation that is not known are failures of the
    /// file; a source without a file name ends the batch; else the transfer
    /// is asked for. Where no probe was asked for nothing changes.
    pub open spec fn on_probe(self, probe: SourceProbeView) -> ExportRunView {
        match self.next_action() {
            ExportActionView::Probe(path) => if !probe.exists {
                self.fail(source_missing(path))
            } else {
                match probe.file_name {
                    None => ExportRunView { aborted: Some(invalid_file_name(path)), ..self },
                    Some(name) => if probe.destination_exists {
                        self.fail(destination_taken(probe.destination))
                    } else {
                        match operation_of(self.operation) {
                            None => self.fail(unknown_operation(self.operation)),
                            Some(operation) => ExportRunView {
                                pending: Some(
                                    TransferView {
                                        operation: operation,
                                        source: path,
                                        file_name: name,
                                        destination: probe.destination,
                                    },
                                ),
                                ..self
                            },
                        }
                    },
                }
            },
            _ => self,
        }
    }

    /// The run after the caller carried out the transfer it was asked for:
    /// the file arrived, or the transfer failed with a cause. Where no
    /// transfer was asked for nothing changes.
    pub open spec fn on_transfer(self, outcome: Result<(), Seq<char>>) -> ExportRunView {
        match self.next_action() {
            ExportActionView::Transfer(transfer) => match outcome {
                Ok(_) => ExportRunView {
                    cursor: self.cursor + 1,
                    pending: None,
                    processed: self.processed.push(transferred(transfer)),
                    ..self
                },
                Err(cause) => self.fail(transfer_failure(transfer, cause)),
            },
            _ => self,
        }
    }

    /// What the batch reports: the messages of the files that arrived; or
    /// the failure that ended it early; or, where files failed, all their
    /// messages in one, with the number of files that arrived; or, where
    /// nothing failed and nothing arrived, that nothing was exported.
    pub open spec fn report(self) -> Result<Seq<Seq<char>>, Seq<char>> {
        if self.aborted is Some {
            Err(self.aborted->0)
        } else if self.failed.len() > 0 {
            Err(export_errors(self.failed, self.processed.len()))
        } else if self.processed.len() == 0 {
            Err("No files were exported"@)
        } else {
            Ok(self.processed)
        }
    }
}

/// The start of a batch as mathematical values.
pub open spec fn start_view(start: Result<ExportRun, String>) -> Result<ExportRunView, Seq<char>> {
    match start {
        Ok(run) => Ok(run@),
        Err(message) => Err(message@),
    }
}

/// The outcome of a transfer as mathematical values.
pub open spec fn outcome_view(outcome: Result<(), String>) -> Result<(), Seq<char>> {
    match outcome {
        Ok(_) => Ok(()),
        Err(cause) => Err(cause@),
    }
}

/// Appends the paths of the files of `group` that `mode` selects.
fn select(targets: &mut Vec<String>, group: &PhotoGroupInfo, mode: ExportMode)
    ensures
        final(targets).deep_view() == old(targets).deep_view() + selected(group@, mode),
{
    let wants_jpg = match mode {
        ExportMode::Raw => false,
        _ => true,
    };
    let wants_raw = match mode {
        ExportMode::Jpg => false,
        _ => true,
    };
    if wants_jpg {
        match &group.jpg {
            Some(file) => {
                targets.push(file.path.clone());
            },
            None => {},
        }
    }
    if wants_raw {
        match &group.raw {
            Some(file) => {
                targets.push(file.path.clone());
            },
            None => {},
        }
    }
}

/// Plans the export of the files of `groups` to a folder. The destination
/// must be a folder, or nothing is planned. `mode` names the files of each
/// group that go: `JPG`, `RAW` or `BOTH`; a group without such a file is
/// passed over. A mode of another name selects nothing and is a failure of
/// every group. `operation` names how a file goes: `COPY` or `MOVE`.
pub fn export_files(
    groups: &Vec<PhotoGroupInfo>,
    mode: &str,
    operation: &str,
    destination: Destination,
) -> (start: Result<ExportRun, String>)
    ensures
        start_view(start) == ExportRunView::start(
            groups.deep_view(),
            mode@,
            operation@,
            destination,
        ),
{
    match destination {
        Destination::Missing => {
            return Err(String::from_str("Destination folder does not exist"));
        },
        Destination::NotADirectory => {
            return Err(String::from_str("Destination path is not a directory"));
        },
        Destination::Directory => {},
    }
    let mut targets: Vec<String> = Vec::new();
    let mut failed: Vec<String> = Vec::new();
    let parsed = parse_mode(mode);
    let mut i: usize = 0;
    while i < groups.len()
        invariant
            i <= groups.len(),
            parsed == mode_of(mode@),
            match parsed {
                Some(m) => failed.deep_view() == Seq::<Seq<char>>::empty() && targets.deep_view()
                    == all_selected(groups.deep_view().take(i as int), m),
                None => targets.deep_view() == Seq::<Seq<char>>::empty() && failed.deep_view()
                    == Seq::new(i as nat, |k: int| unknown_mode(mode@)),
            },
        decreases groups.len() - i,
    {
        assert(groups.deep_view().take(i + 1).drop_last() =~= groups.deep_view().take(i as int));
        match parsed {
            Some(m) => {
                select(&mut targets, &groups[i], m);
            },
            None => {
                let ghost before = failed.deep_view();
                let mut message = String::from_str("Unknown export mode: ");
                message.append(mode);
                failed.push(message);
                assert(failed.deep_view() =~= before.push(unknown_mode(mode@)));
            },
        }
        i = i + 1;
    }
    assert(groups.deep_view().take(groups.len() as int) =~= groups.deep_view());
    let run = ExportRun {
        operation: operation.to_owned(),
        targets: targets,
        cursor: 0,
        pending: None,
        processed: Vec::new(),
        failed: failed,
        aborted: None,
    };
    Ok(run)
}

impl Transfer {
    /// A copy of the transfer.
    fn duplicate(&self) -> (copy: Transfer)
        ensures
            copy@ == self@,
    {
        Transfer {
            operation: self.operation,
            source: self.source.clone(),
            file_name: self.file_name.clone(),
            destination: self.destination.clone(),
        }
    }
}

impl ExportRun {
    /// What the run asks of the caller next.
    pub fn next_action(&self) -> (action: ExportAction)
        ensures
            action@ == self@.next_action(),
    {
        if self.aborted.is_some() || self.cursor >= self.targets.len() {
            return ExportAction::Finished;
        }
        match &self.pending {
            Some(transfer) => ExportAction::Transfer(transfer.duplicate()),
            None => ExportAction::Probe(self.targets[self.cursor].clone()),
        }
    }

    /// Whether the run waits for a probe.
    fn awaits_probe(&self) -> (yes: bool)
        ensures
            yes == (self@.next_action() is Probe),
            yes ==> self.cursor < self.targets.len(),
    {
        self.aborted.is_none() && self.pending.is_none() && self.cursor < self.targets.len()
    }

    /// Notes a failure of the file in hand and passes on to the next file.
    fn fail(&mut self, message: String)
        requires
            old(self).cursor < old(self).targets.len(),
        ensures
            final(self)@ == old(self)@.fail(message@),
    {
        let ghost before = self@;
        self.failed.push(message);
        assert(self.failed.deep_view() =~= before.failed.push(message@));
        self.pending = None;
        self.cursor = self.cursor + 1;
    }

    /// Tells the run what the caller found of the source file that it was
    /// asked to probe.
    pub fn on_probe(&mut self, probe: SourceProbe)
        ensures
            final(self)@ == old(self)@.on_probe(probe@),
    {
        if !self.awaits_probe() {
            return ;
        }
        let path = self.targets[self.cursor].clone();
        if !probe.exists {
            let mut message = String::from_str("Source file not found: ");
            message.append(path.as_str());
            self.fail(message);
            return ;
        }
        let name = match probe.file_name {
            Some(name) => name,
            None => {
                let mut message = String::from_str("Invalid file name: ");
                message.append(path.as_str());
                self.aborted = Some(message);
                return ;
            },
        };
        if probe.destination_exists {
            let mut message = String::from_str("Destination file already exists: ");
            message.append(probe.destination.as_str());
            self.fail(message);
            return ;
        }
        match parse_operation(self.operation.as_str()) {
            None => {
                let mut message = String::from_str("Unknown operation: ");
                message.append(self.operation.as_str());
                self.fail(message);
            },
            Some(operation) => {
                self.pending = Some(
                    Transfer {
                        operation: operation,
                        source: path,
                        file_name: name,
                        destination: probe.destination,
                    },
                );
            },
        }
    }

    /// Tells the run how the transfer that it asked for went: the file
    /// arrived, or the transfer failed with a cause.
    pub fn on_transfer(&mut self, outcome: Result<(), String>)
        ensures
            final(self)@ == old(self)@.on_transfer(outcome_view(outcome)),
    {
        if self.aborted.is_some() || self.cursor >= self.targets.len() {
            return ;
        }
        let transfer = match &self.pending {
            Some(transfer) => transfer.duplicate(),
            None => {
                return ;
            },
        };
        let ghost before = self@;
        match outcome {
            Ok(_) => {
                let mut message = match transfer.operation {
                    Operation::Copy => String::from_str("Copied "),
                    Operation::Move => String::from_str("Moved "),
                };
                message.append(transfer.file_name.as_str());
                message.append(" to ");
                message.append(transfer.destination.as_str());
                self.processed.push(message);
                assert(self.processed.deep_view() =~= before.processed.push(transferred(transfer@)));
            },
            Err(cause) => {
                let mut message = match transfer.operation {
                    Operation::Copy => String::from_str("Failed to copy "),
                    Operation::Move => String::from_str("Failed to move "),
                };
                message.append(transfer.source.as_str());
                message.append(" to ");
                message.append(transfer.destination.as_str());
                message.append(": ");
                message.append(cause.as_str());
                self.failed.push(message);
                assert(self.failed.deep_view() =~= before.failed.push(
                    transfer_failure(transfer@, cause@),
                ));
            },
        }
        self.pending = None;
        self.cursor = self.cursor + 1;
    }

    /// Reports the batch. Files that arrived stay where they are, whatever
    /// the report.
    pub fn finish(self) -> (report: Result<Vec<String>, String>)
        ensures
            report_view(report) == self@.report(),
    {
        match self.aborted {
            Some(message) => {
                return Err(message);
            },
            None => {},
        }
        if self.failed.len() > 0 {
            let mut message = String::from_str("Export completed with errors:\n");
            let lines = join_lines(&self.failed);
            message.append(lines.as_str());
            message.append("\n\nSuccessfully processed ");
            push_decimal(&mut message, self.processed.len() as u64);
            message.append(" files");
            Err(message)
        } else if self.processed.len() == 0 {
            Err(String::from_str("No files were exported"))
        } else {
            Ok(self.processed)
        }
    }
}

/// Export never overwrites: where a file is at the destination already, no
/// transfer is asked for, the file is noted as a failure, and nothing is
/// reported as arrived.
pub proof fn law_never_overwrites(run: ExportRunView, probe: SourceProbeView)
    requires
        probe.destination_exists,
    ensures
        !(run.next_action() is Probe && run.on_probe(probe).next_action() is Transfer),
        run.on_probe(probe).processed == run.processed,
        run.next_action() is Probe && probe.exists && probe.file_name is Some ==> run.on_probe(
            probe,
        ).failed == run.failed.push(destination_taken(probe.destination)),
{
}

/// A transfer is asked for only of a source that is there, to a destination
/// at which no file is, by an operation that is known.
pub proof fn law_transfer_is_safe(run: ExportRunView, probe: SourceProbeView)
    requires
        run.next_action() is Probe,
        run.on_probe(probe).next_action() is Transfer,
    ensures
        probe.exists,
        !probe.destination_exists,
        operation_of(run.operation) == Some(run.on_probe(probe).next_action()->Transfer_0.operation),
        run.on_probe(probe).next_action()->Transfer_0.source == run.next_action()->Probe_0,
        run.on_probe(probe).next_action()->Transfer_0.destination == probe.destination,
{
}

/// A batch reports success only where no failure was noted and a file
/// arrived; and what it then reports are the files that arrived.
pub proof fn law_success_is_clean(run: ExportRunView)
    ensures
        run.report() is Ok <==> run.aborted is None && run.failed.len() == 0
            && run.processed.len() > 0,
        run.report() matches Ok(lines) ==> lines == run.processed,
{
}

/// A group without a file of the kind that the mode asks for is passed
/// over: it adds no file to the batch and no failure.
pub proof fn law_absent_member_is_skipped(
    groups: Seq<PhotoGroupView>,
    group: PhotoGroupView,
    mode: Seq<char>,
    operation: Seq<char>,
)
    requires
        mode_of(mode) matches Some(m) && selected(group, m).len() == 0,
    ensures
        ExportRunView::start(groups.push(group), mode, operation, Destination::Directory)
            == ExportRunView::start(groups, mode, operation, Destination::Directory),
{
    assert(groups.push(group).drop_last() =~= groups);
    let m = mode_of(mode)->0;
}

/// What the caller found of one selected file in the course of a batch: the
/// probe of the source, and how the transfer went where one was asked for.
pub struct FileOutcomeView {
    pub probe: SourceProbeView,
    pub transfer: Result<(), Seq<char>>,
}

/// Whether what was found of a file ends the batch: the source is there and
/// has no file name.
pub open spec fn aborts(outcome: FileOutcomeView) -> bool {
    outcome.probe.exists && outcome.probe.file_name is None
}

/// The transfer that is asked for of the file at `path`, where one is: the
/// source is there and has a name, no file is at the destination, and the
/// operation is known.
pub open spec fn transfer_of(
    path: Seq<char>,
    operation: Seq<char>,
    outcome: FileOutcomeView,
) -> Option<TransferView> {
    if outcome.probe.exists && outcome.probe.file_name is Some
        && !outcome.probe.destination_exists && operation_of(operation) is Some {
        Some(
            TransferView {
                operation: operation_of(operation)->0,
                source: path,
                file_name: outcome.probe.file_name->0,
                destination: outcome.probe.destination,
            },
        )
    } else {
        None
    }
}

/// Whether the file at `path` arrives: a transfer is asked for and succeeds.
pub open spec fn arrives(path: Seq<char>, operation: Seq<char>, outcome: FileOutcomeView) -> bool {
    transfer_of(path, operation, outcome) is Some && outcome.transfer is Ok
}

/// The message of the failure of the file at `path`, where it fails without
/// ending the batch.
pub open spec fn failure_of(
    path: Seq<char>,
    operation: Seq<char>,
    outcome: FileOutcomeView,
) -> Option<Seq<char>> {
    if !outcome.probe.exists {
        Some(source_missing(path))
    } else if outcome.probe.file_name is None {
        None
    } else if outcome.probe.destination_exists {
        Some(destination_taken(outcome.probe.destination))
    } else if operation_of(operation) is None {
        Some(unknown_operation(operation))
    } else {
        match outcome.transfer {
            Ok(_) => None,
            Err(cause) => Some(
                transfer_failure(transfer_of(path, operation, outcome)->0, cause),
            ),
        }
    }
}

/// The messages of the files that arrive among the first of `targets`, in
/// their order.
pub open spec fn arrived_among(
    targets: Seq<Seq<char>>,
    operation: Seq<char>,
    outcomes: Seq<FileOutcomeView>,
) -> Seq<Seq<char>>
    recommends
        outcomes.len() <= targets.len(),
    decreases outcomes.len(),
{
    if outcomes.len() == 0 {
        seq![]
    } else {
        let earlier = arrived_among(targets, operation, outcomes.drop_last());
        let path = targets[outcomes.len() - 1];
        if arrives(path, operation, outcomes.last()) {
            earlier.push(transferred(transfer_of(path, operation, outcomes.last())->0))
        } else {
            earlier
        }
    }
}

/// The messages of the files that fail among the first of `targets`, in their
/// order.
pub open spec fn failed_among(
    targets: Seq<Seq<char>>,
    operation: Seq<char>,
    outcomes: Seq<FileOutcomeView>,
) -> Seq<Seq<char>>
    recommends
        outcomes.len() <= targets.len(),
    decreases outcomes.len(),
{
    if outcomes.len() == 0 {
        seq![]
    } else {
        let earlier = failed_among(targets, operation, outcomes.drop_last());
        match failure_of(targets[outcomes.len() - 1], operation, outcomes.last()) {
            Some(message) => earlier.push(message),
            None => earlier,
        }
    }
}

impl ExportRunView {
    /// The run after the caller dealt with one file: after the probe and,
    /// where a transfer was asked for, after the transfer.
    pub open spec fn step(self, outcome: FileOutcomeView) -> ExportRunView {
        self.on_probe(outcome.probe).on_transfer(outcome.transfer)
    }

    /// The run after the caller dealt with one file after the other.
    pub open spec fn replay(self, outcomes: Seq<FileOutcomeView>) -> ExportRunView
        decreases outcomes.len(),
    {
        if outcomes.len() == 0 {
            self
        } else {
            self.replay(outcomes.drop_last()).step(outcomes.last())
        }
    }

    /// A run in which no file has been dealt with yet.
    pub open spec fn fresh(self) -> bool {
        self.cursor == 0 && self.pending is None && self.aborted is None && self.processed.len()
            == 0
    }
}

/// A batch in which no file ends the batch accounts for every file it is
/// told of: each is dealt with, the files that arrive are listed in their
/// order, and the failures are noted in their order behind those of the
/// start.
pub proof fn law_export_accounts_for_every_file(
    run: ExportRunView,
    outcomes: Seq<FileOutcomeView>,
)
    requires
        run.fresh(),
        outcomes.len() <= run.targets.len(),
        forall|i: int| 0 <= i < outcomes.len() ==> !aborts(#[trigger] outcomes[i]),
    ensures
        run.replay(outcomes).cursor == outcomes.len(),
        run.replay(outcomes).targets == run.targets,
        run.replay(outcomes).operation == run.operation,
        run.replay(outcomes).pending is None,
        run.replay(outcomes).aborted is None,
        run.replay(outcomes).processed == arrived_among(run.targets, run.operation, outcomes),
        run.replay(outcomes).failed == run.failed + failed_among(
            run.targets,
            run.operation,
            outcomes,
        ),
    decreases outcomes.len(),
{
    if outcomes.len() == 0 {
        assert(run.processed =~= seq![]);
        assert(run.failed + Seq::<Seq<char>>::empty() =~= run.failed);
    } else {
        let earlier = outcomes.drop_last();
        assert forall|i: int| 0 <= i < earlier.len() implies !aborts(#[trigger] earlier[i]) by {
            assert(earlier[i] == outcomes[i]);
        }
        law_export_accounts_for_every_file(run, earlier);
        let before = run.replay(earlier);
        let last = outcomes.last();
        assert(!aborts(outcomes[outcomes.len() - 1]));
        let path = run.targets[outcomes.len() - 1];
        assert(before.next_action() == ExportActionView::Probe(path));
        let after = before.step(last);
        match failure_of(path, run.operation, last) {
            Some(message) => {
                assert(after.failed == before.failed.push(message));
                assert(after.failed =~= run.failed + failed_among(
                    run.targets,
                    run.operation,
                    outcomes,
                ));
            },
            None => {
                assert(arrives(path, run.operation, last));
            },
        }
    }
}

/// Where every file arrives, there is one line for each in its order and
/// no failure; where one does not, there is a failure.
proof fn lemma_all_arrive(
    targets: Seq<Seq<char>>,
    operation: Seq<char>,
    outcomes: Seq<FileOutcomeView>,
)
    requires
        outcomes.len() <= targets.len(),
        forall|i: int| 0 <= i < outcomes.len() ==> !aborts(#[trigger] outcomes[i]),
    ensures
        arrived_among(targets, operation, outcomes).len() + failed_among(
            targets,
            operation,
            outcomes,
        ).len() == outcomes.len(),
        failed_among(targets, operation, outcomes).len() == 0 <==> forall|i: int|
            0 <= i < outcomes.len() ==> arrives(targets[i], operation, #[trigger] outcomes[i]),
        failed_among(targets, operation, outcomes).len() == 0 ==> forall|i: int|
            0 <= i < outcomes.len() ==> #[trigger] arrived_among(targets, operation, outcomes)[i]
                == transferred(transfer_of(targets[i], operation, outcomes[i])->0),
    decreases outcomes.len(),
{
    if outcomes.len() > 0 {
        let earlier = outcomes.drop_last();
        assert forall|i: int| 0 <= i < earlier.len() implies !aborts(#[trigger] earlier[i]) by {
            assert(earlier[i] == outcomes[i]);
        }
        lemma_all_arrive(targets, operation, earlier);
        let n = outcomes.len() - 1;
        assert(!aborts(outcomes[n]));
        if failed_among(targets, operation, outcomes).len() == 0 {
            assert forall|i: int| 0 <= i < outcomes.len() implies arrives(
                targets[i],
                operation,
                #[trigger] outcomes[i],
            ) by {
                if i < n {
                    assert(arrives(targets[i], operation, earlier[i]));
                }
            }
            assert forall|i: int| 0 <= i < outcomes.len() implies #[trigger] arrived_among(
                targets,
                operation,
                outcomes,
            )[i] == transferred(transfer_of(targets[i], operation, outcomes[i])->0) by {
                if i < n {
                    assert(arrived_among(targets, operation, earlier)[i] == transferred(
                        transfer_of(targets[i], operation, earlier[i])->0,
                    ));
                }
            }
        }
        if forall|i: int|
            0 <= i < outcomes.len() ==> arrives(targets[i], operation, #[trigger] outcomes[i]) {
            assert forall|i: int| 0 <= i < earlier.len() implies arrives(
                targets[i],
                operation,
                #[trigger] earlier[i],
            ) by {
                assert(arrives(targets[i], operation, outcomes[i]));
            }
            assert(arrives(targets[n], operation, outcomes[n]));
        }
    }
}

/// A whole export. Where the mode is known and no file ends the batch, the
/// report is a success exactly when a file was selected and every selected
/// file arrived, and it then holds one line for each file in the order of
/// the files. Otherwise the report holds all failures in their order with
/// the number of files that arrived, or says that nothing was exported.
pub proof fn law_whole_export(
    groups: Seq<PhotoGroupView>,
    mode: Seq<char>,
    operation: Seq<char>,
    outcomes: Seq<FileOutcomeView>,
)
    requires
        mode_of(mode) is Some,
        outcomes.len() == all_selected(groups, mode_of(mode)->0).len(),
        forall|i: int| 0 <= i < outcomes.len() ==> !aborts(#[trigger] outcomes[i]),
    ensures
        ({
            let targets = all_selected(groups, mode_of(mode)->0);
            let start = ExportRunView::start(groups, mode, operation, Destination::Directory);
            let report = start->Ok_0.replay(outcomes).report();
            let arrived = arrived_among(targets, operation, outcomes);
            let failed = failed_among(targets, operation, outcomes);
            &&& start is Ok
            &&& start->Ok_0.targets == targets
            &&& report is Ok <==> targets.len() > 0 && forall|i: int|
                0 <= i < targets.len() ==> arrives(targets[i], operation, #[trigger] outcomes[i])
            &&& report matches Ok(lines) ==> lines.len() == targets.len() && forall|i: int|
                0 <= i < targets.len() ==> #[trigger] lines[i] == transferred(
                    transfer_of(targets[i], operation, outcomes[i])->0,
                )
            &&& report matches Err(message) ==> message == if failed.len() > 0 {
                export_errors(failed, arrived.len())
            } else {
                "No files were exported"@
            }
        }),
{
    let targets = all_selected(groups, mode_of(mode)->0);
    let run = ExportRunView::start(groups, mode, operation, Destination::Directory)->Ok_0;
    law_export_accounts_for_every_file(run, outcomes);
    lemma_all_arrive(targets, operation, outcomes);
    assert(run.failed + failed_among(targets, operation, outcomes) =~= failed_among(
        targets,
        operation,
        outcomes,
    ));
}

/// A mode that is not known fails every group, whatever the caller finds:
/// no file is selected, nothing is asked for, and the report holds one
/// failure for each group.
pub proof fn law_unknown_mode_fails_every_group(
    groups: Seq<PhotoGroupView>,
    mode: Seq<char>,
    operation: Seq<char>,
    outcomes: Seq<FileOutcomeView>,
)
    requires
        mode_of(mode) is None,
    ensures
        ({
            let start = ExportRunView::start(groups, mode, operation, Destination::Directory);
            let end = start->Ok_0.replay(outcomes);
            &&& start is Ok
            &&& end == start->Ok_0
            &&& end.next_action() is Finished
            &&& end.report() is Err
            &&& groups.len() > 0 ==> end.report() == Err::<Seq<Seq<char>>, Seq<char>>(
                export_errors(Seq::new(groups.len(), |i: int| unknown_mode(mode)), 0),
            )
        }),
    decreases outcomes.len(),
{
    if outcomes.len() > 0 {
        law_unknown_mode_fails_every_group(groups, mode, operation, outcomes.drop_last());
    }
}

/// A file without a file name ends the batch: nothing is asked for after
/// it, whatever the caller tells, and the report is the failure of that
/// file alone.
pub proof fn law_abort_ends_the_batch(
    run: ExportRunView,
    probe: SourceProbeView,
    outcomes: Seq<FileOutcomeView>,
)
    requires
        run.next_action() is Probe,
        probe.exists,
        probe.file_name is None,
    ensures
        run.on_probe(probe).replay(outcomes) == run.on_probe(probe),
        run.on_probe(probe).next_action() is Finished,
        run.on_probe(probe).report() == Err::<Seq<Seq<char>>, Seq<char>>(
            invalid_file_name(run.next_action()->Probe_0),
        ),
    decreases outcomes.len(),
{
    if outcomes.len() > 0 {
        law_abort_ends_the_batch(run, probe, outcomes.drop_last());
    }
}

/// A failure of the file system always carries the offending path and the
/// cause: the message of a transfer that failed holds the path of the source,
/// the path of the destination and the cause, and the message of a source
/// that is not there holds its path.
pub proof fn law_export_failure_names_path_and_cause(transfer: TransferView, cause: Seq<char>)
    ensures
        holds(transfer_failure(transfer, cause), transfer.source),
        holds(transfer_failure(transfer, cause), transfer.destination),
        holds(transfer_failure(transfer, cause), cause),
        holds(source_missing(transfer.source), transfer.source),
{
    let what = match transfer.operation {
        Operation::Copy => "Failed to copy "@,
        Operation::Move => "Failed to move "@,
    };
    let to = " to "@;
    let colon = ": "@;
    let text = transfer_failure(transfer, cause);
    lemma_holds_part(what, transfer.source, to + transfer.destination + colon + cause);
    assert(what + transfer.source + (to + transfer.destination + colon + cause) =~= text);
    lemma_holds_part(what + transfer.source + to, transfer.destination, colon + cause);
    assert(what + transfer.source + to + transfer.destination + (colon + cause) =~= text);
    lemma_holds_part(what + transfer.source + to + transfer.destination + colon, cause, seq![]);
    assert(what + transfer.source + to + transfer.destination + colon + cause + seq![] =~= text);
    lemma_holds_part("Source file not found: "@, transfer.source, seq![]);
    assert("Source file not found: "@ + transfer.source + seq![] =~= source_missing(
        transfer.source,
    ));
}

} // verus!
