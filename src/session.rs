use vstd::prelude::*;

use crate::discovery::{discover, grouped, TableFiles};
use crate::error::DbgenError;
use crate::materialize::{read_tables, tables_read, TableBatches, TableInput};
use crate::request::partition_invalid;
use crate::table::{str_eq, table_code, Table};

verus! {

/// The scale factor of a request that names none.
pub const DEFAULT_SCALE: usize = 1;

/// What a caller asks for: a scale factor and optional table and partition
/// selectors. An absent selector stays absent all the way to the generator.
#[derive(Debug, Clone, Copy)]
pub struct Request {
    pub scale: usize,
    pub step: Option<usize>,
    pub n_steps: Option<usize>,
    pub table: Option<Table>,
}

impl Request {
    /// A request whose scale factor is 1 where none is given.
    pub fn new(scale: Option<usize>, step: Option<usize>, n_steps: Option<usize>, table: Option<Table>) -> (r:
        Request)
        ensures
            r.scale == (match scale {
                Some(s) => s,
                None => DEFAULT_SCALE,
            }),
            r.step == step,
            r.n_steps == n_steps,
            r.table == table,
    {
        let scale = match scale {
            Some(s) => s,
            None => DEFAULT_SCALE,
        };
        Request { scale, step, n_steps, table }
    }
}

/// The outside work that a session asks its driver to do next.
#[derive(Debug)]
pub enum Action {
    /// Create a fresh scratch directory and seed it with the distribution data.
    OpenWorkspace,
    /// Run the generator with the scratch directory as working directory, then
    /// restore the previous one. `table` is the selector's integer code.
    Generate { scale: usize, step: Option<usize>, n_steps: Option<usize>, table: Option<u32> },
    /// List the names of the files in the scratch directory.
    ListFiles,
    /// Read the files of each group, in the order given, into one input per group.
    ReadGroups { groups: Vec<TableFiles> },
    /// Remove the scratch directory.
    CloseWorkspace,
    /// Stop: the outcome is ready.
    Finish,
}

/// What the driver reports back after performing an action.
pub enum Event {
    /// Whether the scratch directory was created and seeded.
    Opened(bool),
    /// The generator's exit status; `Err` where the working directory could
    /// not be entered or restored.
    Generated(Result<i32, ()>),
    /// The names of the files in the scratch directory, or `None` where it
    /// could not be listed.
    Listed(Option<Vec<String>>),
    /// The files read, one input per group, or `None` where reading failed.
    FilesRead(Option<Vec<TableInput>>),
    /// Whether the scratch directory was removed.
    Closed(bool),
}

/// Where a session stands.
#[derive(Debug, Clone, Copy, PartialEq, Eq, Structural)]
pub enum Phase {
    Opening,
    Generating,
    Listing,
    Reading,
    Closing,
    Done,
}

/// One table that a session expects to read: its name and its number of files.
pub struct Expected {
    pub table: String,
    pub files: usize,
}

/// One generation request, from validation to the removal of its scratch
/// directory. The driver performs each action it is handed and reports the
/// matching event.
pub struct Session {
    pub phase: Phase,
    pub request: Request,
    pub expected: Vec<Expected>,
    pub outcome: Option<Result<Vec<TableBatches>, DbgenError>>,
}

/// The event that answers the action of phase `p`.
pub open spec fn answers(p: Phase, e: Event) -> bool {
    match p {
        Phase::Opening => e is Opened,
        Phase::Generating => e is Generated,
        Phase::Listing => e is Listed,
        Phase::Reading => e is FilesRead,
        Phase::Closing => e is Closed,
        Phase::Done => false,
    }
}

/// The generator call that a request makes.
pub open spec fn generate_action(r: Request) -> Action {
    Action::Generate {
        scale: r.scale,
        step: r.step,
        n_steps: r.n_steps,
        table: match r.table {
            Some(t) => Some(table_code(t)),
            None => None,
        },
    }
}

/// `expected` lists, in order, the name and file count of each group.
pub open spec fn expects_groups(expected: Seq<Expected>, groups: Seq<TableFiles>) -> bool {
    expected.len() == groups.len() && forall|k: int|
        0 <= k < groups.len() ==> (#[trigger] expected[k]).table@ == groups[k].table@ && expected[k].files
            == groups[k].files@.len()
}

/// The inputs read back are the expected ones: one per group, in order, under
/// the group's name and with one shard per file.
pub open spec fn inputs_match(expected: Seq<Expected>, inputs: Seq<TableInput>) -> bool {
    expected.len() == inputs.len() && forall|k: int|
        0 <= k < inputs.len() ==> (#[trigger] expected[k]).table@ == inputs[k].table@ && expected[k].files
            == inputs[k].shards@.len()
}

fn expected_of(groups: &Vec<TableFiles>) -> (r: Vec<Expected>)
    ensures
        expects_groups(r@, groups@),
{
    let mut r: Vec<Expected> = Vec::new();
    let mut k: usize = 0;
    while k < groups.len()
        invariant
            k <= groups@.len(),
            r@.len() == k,
            forall|q: int| 0 <= q < k ==> (#[trigger] r@[q]).table@ == groups@[q].table@ && r@[q].files
                == groups@[q].files@.len(),
        decreases groups@.len() - k,
    {
        r.push(Expected { table: groups[k].table.clone(), files: groups[k].files.len() });
        k = k + 1;
    }
    r
}

fn check_inputs(expected: &Vec<Expected>, inputs: &Vec<TableInput>) -> (r: bool)
    ensures
        r == inputs_match(expected@, inputs@),
{
    if expected.len() != inputs.len() {
        return false;
    }
    let mut k: usize = 0;
    while k < inputs.len()
        invariant
            expected@.len() == inputs@.len(),
            k <= inputs@.len(),
            forall|q: int| 0 <= q < k ==> (#[trigger] expected@[q]).table@ == inputs@[q].table@
                && expected@[q].files == inputs@[q].shards@.len(),
        decreases inputs@.len() - k,
    {
        if !str_eq(expected[k].table.as_str(), inputs[k].table.as_str()) || expected[k].files
            != inputs[k].shards.len() {
            return false;
        }
        k = k + 1;
    }
    true
}

impl Session {
    /// The outcome is settled once the session closes its workspace or is done,
    /// and open before that.
    pub open spec fn wf(&self) -> bool {
        match self.phase {
            Phase::Closing | Phase::Done => self.outcome is Some,
            _ => self.outcome is None,
        }
    }

    /// Starts a session. A request whose step lies beyond its number of steps
    /// ends here, before any workspace exists or the generator runs.
    pub fn start(request: Request) -> (r: (Session, Action))
        ensures
            r.0.wf(),
            r.0.request == request,
            partition_invalid(request.step, request.n_steps) ==> r.1 is Finish && r.0.phase
                == Phase::Done && r.0.outcome == Some(
                Err::<Vec<TableBatches>, DbgenError>(
                    DbgenError::InvalidPartition {
                        step: request.step.unwrap(),
                        n_steps: request.n_steps.unwrap(),
                    },
                ),
            ),
            !partition_invalid(request.step, request.n_steps) ==> r.1 is OpenWorkspace && r.0.phase
                == Phase::Opening && r.0.outcome is None,
    {
        match crate::request::check_partition(request.step, request.n_steps) {
            Err(e) => (
                Session { phase: Phase::Done, request, expected: Vec::new(), outcome: Some(Err(e)) },
                Action::Finish,
            ),
            Ok(()) => (
                Session { phase: Phase::Opening, request, expected: Vec::new(), outcome: None },
                Action::OpenWorkspace,
            ),
        }
    }

    /// Whether `event` answers the action that this session last asked for.
    pub fn expects(&self, event: &Event) -> (r: bool)
        ensures
            r == answers(self.phase, *event),
    {
        match (self.phase, event) {
            (Phase::Opening, Event::Opened(_)) => true,
            (Phase::Generating, Event::Generated(_)) => true,
            (Phase::Listing, Event::Listed(_)) => true,
            (Phase::Reading, Event::FilesRead(_)) => true,
            (Phase::Closing, Event::Closed(_)) => true,
            _ => false,
        }
    }

    /// Takes the driver's report and names the next action. The listing is
    /// grouped by `discover`, and the files read back must be those groups,
    /// in order. Once the workspace exists it is always closed before the
    /// session finishes; a failure to close it is surfaced even where
    /// everything else succeeded, and the first error met is the one reported.
    pub fn on_event(&mut self, event: Event) -> (a: Action)
        requires
            old(self).wf(),
            answers(old(self).phase, event),
        ensures
            final(self).wf(),
            final(self).request == old(self).request,
            a is Finish <==> final(self).phase == Phase::Done,
            match (old(self).phase, event) {
                (Phase::Opening, Event::Opened(true)) => a == generate_action(old(self).request)
                    && final(self).phase == Phase::Generating,
                (Phase::Opening, Event::Opened(false)) => final(self).outcome == Some(
                    Err::<Vec<TableBatches>, DbgenError>(DbgenError::WorkspaceError),
                ) && a is Finish,
                (Phase::Generating, Event::Generated(Ok(0))) => a is ListFiles && final(self).phase
                    == Phase::Listing,
                (Phase::Generating, Event::Generated(Ok(c))) => final(self).outcome == Some(
                    Err::<Vec<TableBatches>, DbgenError>(DbgenError::GenerationFailed { code: c }),
                ) && a is CloseWorkspace && final(self).phase == Phase::Closing,
                (Phase::Generating, Event::Generated(Err(_))) => final(self).outcome == Some(
                    Err::<Vec<TableBatches>, DbgenError>(DbgenError::WorkspaceError),
                ) && a is CloseWorkspace && final(self).phase == Phase::Closing,
                (Phase::Listing, Event::Listed(Some(names))) => (a matches Action::ReadGroups { groups }
                    && grouped(names@, groups@) && expects_groups(final(self).expected@, groups@))
                    && final(self).phase == Phase::Reading,
                (Phase::Listing, Event::Listed(None)) => final(self).outcome == Some(
                    Err::<Vec<TableBatches>, DbgenError>(DbgenError::WorkspaceError),
                ) && a is CloseWorkspace && final(self).phase == Phase::Closing,
                (Phase::Reading, Event::FilesRead(Some(inputs))) => (inputs_match(
                    old(self).expected@,
                    inputs@,
                ) ==> (final(self).outcome matches Some(r) && tables_read(inputs@, r))) && (
                !inputs_match(old(self).expected@, inputs@) ==> final(self).outcome == Some(
                    Err::<Vec<TableBatches>, DbgenError>(DbgenError::WorkspaceError),
                )) && a is CloseWorkspace && final(self).phase == Phase::Closing,
                (Phase::Reading, Event::FilesRead(None)) => final(self).outcome == Some(
                    Err::<Vec<TableBatches>, DbgenError>(DbgenError::WorkspaceError),
                ) && a is CloseWorkspace && final(self).phase == Phase::Closing,
                (Phase::Closing, Event::Closed(true)) => final(self).outcome == old(self).outcome
                    && a is Finish,
                (Phase::Closing, Event::Closed(false)) => (old(self).outcome matches Some(Ok(_))
                    ==> final(self).outcome == Some(
                    Err::<Vec<TableBatches>, DbgenError>(DbgenError::WorkspaceError),
                )) && (!(old(self).outcome matches Some(Ok(_))) ==> final(self).outcome == old(
                    self,
                ).outcome) && a is Finish,
                _ => false,
            },
    {
        match event {
            Event::Opened(true) => {
                self.phase = Phase::Generating;
                let r = self.request;
                let table = match r.table {
                    Some(t) => Some(t.code()),
                    None => None,
                };
                Action::Generate { scale: r.scale, step: r.step, n_steps: r.n_steps, table }
            },
            Event::Opened(false) => {
                self.phase = Phase::Done;
                self.outcome = Some(Err(DbgenError::WorkspaceError));
                Action::Finish
            },
            Event::Generated(Ok(status)) => {
                match crate::request::generation_outcome(status) {
                    Ok(()) => {
                        self.phase = Phase::Listing;
                        Action::ListFiles
                    },
                    Err(e) => {
                        self.phase = Phase::Closing;
                        self.outcome = Some(Err(e));
                        Action::CloseWorkspace
                    },
                }
            },
            Event::Generated(Err(())) => {
                self.phase = Phase::Closing;
                self.outcome = Some(Err(DbgenError::WorkspaceError));
                Action::CloseWorkspace
            },
            Event::Listed(Some(names)) => {
                let groups = discover(&names);
                self.expected = expected_of(&groups);
                self.phase = Phase::Reading;
                Action::ReadGroups { groups }
            },
            Event::Listed(None) => {
                self.phase = Phase::Closing;
                self.outcome = Some(Err(DbgenError::WorkspaceError));
                Action::CloseWorkspace
            },
            Event::FilesRead(Some(inputs)) => {
                self.phase = Phase::Closing;
                if check_inputs(&self.expected, &inputs) {
                    self.outcome = Some(read_tables(&inputs));
                } else {
                    self.outcome = Some(Err(DbgenError::WorkspaceError));
                }
                Action::CloseWorkspace
            },
            Event::FilesRead(None) => {
                self.phase = Phase::Closing;
                self.outcome = Some(Err(DbgenError::WorkspaceError));
                Action::CloseWorkspace
            },
            Event::Closed(removed) => {
                self.phase = Phase::Done;
                if !removed {
                    if let Some(Ok(_)) = &self.outcome {
                        self.outcome = Some(Err(DbgenError::WorkspaceError));
                    }
                }
                Action::Finish
            },
        }
    }

    /// The outcome of a finished session.
    pub fn finish(self) -> (r: Result<Vec<TableBatches>, DbgenError>)
        requires
            self.wf(),
            self.phase == Phase::Done,
        ensures
            Some(r) == self.outcome,
    {
        match self.outcome {
            Some(r) => r,
            None => Err(DbgenError::WorkspaceError),
        }
    }
}

} // verus!
