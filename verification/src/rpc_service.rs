//! The decisions of the query service that stands in front of the stake
//! program: which requests it answers with one of the two archives kept in
//! the ledger directory, what it answers when an archive cannot be had,
//! what it reports of a stake account, and when its thread ends.
//!
//! Opening files and speaking HTTP are the caller's business. The caller
//! asks what to do with a request, does it, and asks what to answer. The
//! numbers of the HTTP statuses are hyper's.

use crate::delegation::{effective_stake, spec_effective_stake};
use crate::history::{Epoch, StakeHistory, StakeHistoryEntry};
use crate::state::{spec_deserialize, StakeAccountState};
use jsonrpc_http_server::hyper::StatusCode;
use std::path::PathBuf;
use vstd::prelude::*;
use vstd::string::StrSliceExecFns;

verus! {

/// `std::path::PathBuf`, taken as it is: the library carries a path through
/// and claims nothing of what it holds.
#[verifier::external_type_specification]
#[verifier::external_body]
pub struct ExPathBuf(PathBuf);

/// The status of an answer that carries an archive.
pub const STATUS_OK: u16 = 200;

/// The status of the answer to a request for an archive that is not there.
pub const STATUS_NOT_FOUND: u16 = 404;

/// The status of the answer when an archive is there and cannot be read.
pub const STATUS_INTERNAL_SERVER_ERROR: u16 = 500;

/// `hyper::StatusCode::OK` as a number, which hyper defines as 200.
#[verifier::external_body]
fn ok_status() -> (status: u16)
    ensures
        status == STATUS_OK,
{
    StatusCode::OK.as_u16()
}

/// `hyper::StatusCode::NOT_FOUND` as a number, which hyper defines as 404.
#[verifier::external_body]
fn not_found_status() -> (status: u16)
    ensures
        status == STATUS_NOT_FOUND,
{
    StatusCode::NOT_FOUND.as_u16()
}

/// `hyper::StatusCode::INTERNAL_SERVER_ERROR` as a number, which hyper
/// defines as 500.
#[verifier::external_body]
fn internal_server_error_status() -> (status: u16)
    ensures
        status == STATUS_INTERNAL_SERVER_ERROR,
{
    StatusCode::INTERNAL_SERVER_ERROR.as_u16()
}

/// How many threads the server answers requests with.
pub const SERVER_THREADS: usize = 4;

/// How long the service waits before it looks at the exit signal again, in
/// milliseconds.
pub const EXIT_POLL_MILLIS: u64 = 100;

/// What the thread of the service does next.
#[derive(Clone, Copy, Debug, PartialEq, Eq, Structural)]
pub enum ServiceAction {
    /// The server did not start: there is nothing to run.
    GiveUp,
    /// Keep serving for so long, then look again.
    Wait { millis: u64 },
    /// Close the server and end.
    Close,
}

/// What the thread of the service does next, given whether the server
/// started and whether the exit signal is up: it serves until the signal
/// comes, and then closes the server.
pub open spec fn spec_service_action(started: bool, exit: bool) -> ServiceAction {
    if !started {
        ServiceAction::GiveUp
    } else if exit {
        ServiceAction::Close
    } else {
        ServiceAction::Wait { millis: EXIT_POLL_MILLIS }
    }
}

/// What the thread of the service does next.
pub fn service_action(started: bool, exit: bool) -> (action: ServiceAction)
    ensures
        action == spec_service_action(started, exit),
{
    if !started {
        ServiceAction::GiveUp
    } else if exit {
        ServiceAction::Close
    } else {
        ServiceAction::Wait { millis: EXIT_POLL_MILLIS }
    }
}

/// The name of the thread of the service.
pub fn thread_name() -> (name: &'static str)
    ensures
        name@ == "solana-jsonrpc"@,
{
    "solana-jsonrpc"
}

/// The archives that the service hands out.
#[derive(Clone, Copy, Debug, PartialEq, Eq, Structural)]
pub enum ArchiveFile {
    Snapshot,
    Genesis,
}

/// What to do with a request.
#[derive(Clone, Copy, Debug, PartialEq, Eq, Structural)]
pub enum RequestAction {
    /// Answer it with `file` from the ledger directory.
    Respond { should_validate_hosts: bool, file: ArchiveFile },
    /// Pass it on to the handlers of the query protocol.
    Proceed { should_continue_on_invalid_cors: bool },
}

/// How the attempt to read an archive ended.
#[derive(Debug, PartialEq, Eq)]
pub enum FileOutcome {
    /// The file was read, and these are its bytes.
    Read(Vec<u8>),
    /// The file could not be opened.
    OpenFailed,
    /// The file was opened and reading it failed.
    ReadFailed,
}

/// An answer to a request for an archive.
#[derive(Debug, PartialEq, Eq)]
pub struct FileResponse {
    pub status: u16,
    pub body: Vec<u8>,
}

/// How much of an account's delegation counts in an epoch.
#[derive(Clone, Copy, Debug, PartialEq, Eq, Structural)]
pub struct StakeActivation {
    /// The lamports that are effective.
    pub effective: u64,
    /// The lamports that are delegated and not effective.
    pub inactive: u64,
}

/// The name of `file` in the ledger directory.
pub open spec fn spec_file_name(file: ArchiveFile) -> Seq<char> {
    match file {
        ArchiveFile::Snapshot => "snapshot.tgz"@,
        ArchiveFile::Genesis => "genesis.tgz"@,
    }
}

/// What to do with a request for `path`: the two archives are served under
/// their names at the root, and everything else is passed on.
pub open spec fn spec_on_request(path: Seq<char>) -> RequestAction {
    if path == "/snapshot.tgz"@ {
        RequestAction::Respond { should_validate_hosts: true, file: ArchiveFile::Snapshot }
    } else if path == "/genesis.tgz"@ {
        RequestAction::Respond { should_validate_hosts: true, file: ArchiveFile::Genesis }
    } else {
        RequestAction::Proceed { should_continue_on_invalid_cors: false }
    }
}

/// The status that answers `outcome`.
pub open spec fn spec_status(outcome: FileOutcome) -> u16 {
    match outcome {
        FileOutcome::Read(_) => STATUS_OK,
        FileOutcome::OpenFailed => STATUS_NOT_FOUND,
        FileOutcome::ReadFailed => STATUS_INTERNAL_SERVER_ERROR,
    }
}

/// The body that answers `outcome`: the bytes read, or nothing.
pub open spec fn spec_body(outcome: FileOutcome) -> Seq<u8> {
    match outcome {
        FileOutcome::Read(bytes) => bytes@,
        _ => Seq::empty(),
    }
}

/// What the account whose data is `data` has delegated in `epoch`, split
/// into the effective part and the rest; nothing where it holds no
/// delegation; `None` where the data is no stake account's.
pub open spec fn spec_stake_activation(data: Seq<u8>, epoch: Epoch, entries: Seq<StakeHistoryEntry>) -> Option<
    StakeActivation,
> {
    match spec_deserialize(data) {
        Some(state) => match state {
            StakeAccountState::Stake { delegation, .. } => {
                let effective = spec_effective_stake(delegation, epoch as int, entries);
                Some(
                    StakeActivation {
                        effective: effective as u64,
                        inactive: (delegation.stake_lamports - effective) as u64,
                    },
                )
            },
            _ => Some(StakeActivation { effective: 0, inactive: 0 }),
        },
        None => None,
    }
}

/// Whether the two strings are the same.
pub fn same_text(left: &str, right: &str) -> (same: bool)
    ensures
        same == (left@ == right@),
{
    let len = left.unicode_len();
    if len != right.unicode_len() {
        return false;
    }
    let mut i: usize = 0;
    while i < len
        invariant
            i <= len,
            len == left@.len(),
            len == right@.len(),
            forall|j: int| 0 <= j < i ==> left@[j] == right@[j],
        decreases len - i,
    {
        if left.get_char(i) != right.get_char(i) {
            return false;
        }
        i += 1;
    }
    assert(left@ =~= right@);
    true
}

impl ArchiveFile {
    /// The name of the archive in the ledger directory.
    pub fn file_name(&self) -> (name: &'static str)
        ensures
            name@ == spec_file_name(*self),
    {
        match self {
            ArchiveFile::Snapshot => "snapshot.tgz",
            ArchiveFile::Genesis => "genesis.tgz",
        }
    }
}

/// Serves the archives of a ledger directory.
#[derive(Default)]
pub struct RpcRequestMiddleware {
    ledger_path: PathBuf,
}

impl RpcRequestMiddleware {
    /// The directory that the archives are served from.
    pub closed spec fn spec_ledger_path(self) -> PathBuf {
        self.ledger_path
    }

    /// The service for the archives under `ledger_path`.
    pub fn new(ledger_path: PathBuf) -> (middleware: Self)
        ensures
            middleware.spec_ledger_path() == ledger_path,
    {
        Self { ledger_path }
    }

    /// The directory that the archives are served from.
    pub fn ledger_path(&self) -> (path: &PathBuf)
        ensures
            *path == self.spec_ledger_path(),
    {
        &self.ledger_path
    }

    /// The answer to a request for an archive that is not there.
    pub fn not_found() -> (response: FileResponse)
        ensures
            response.status == STATUS_NOT_FOUND,
            response.body@ == Seq::<u8>::empty(),
    {
        FileResponse { status: not_found_status(), body: Vec::new() }
    }

    /// The answer when an archive is there and cannot be read.
    pub fn internal_server_error() -> (response: FileResponse)
        ensures
            response.status == STATUS_INTERNAL_SERVER_ERROR,
            response.body@ == Seq::<u8>::empty(),
    {
        FileResponse { status: internal_server_error_status(), body: Vec::new() }
    }

    /// The action that answers a request with `file`. Such answers are
    /// given only to hosts that pass validation.
    pub fn get(&self, file: ArchiveFile) -> (action: RequestAction)
        ensures
            action == (RequestAction::Respond { should_validate_hosts: true, file }),
    {
        RequestAction::Respond { should_validate_hosts: true, file }
    }

    /// The answer to a request for an archive, given how reading it ended.
    pub fn response(outcome: FileOutcome) -> (response: FileResponse)
        ensures
            response.status == spec_status(outcome),
            response.body@ == spec_body(outcome),
    {
        match outcome {
            FileOutcome::Read(bytes) => FileResponse { status: ok_status(), body: bytes },
            FileOutcome::OpenFailed => Self::not_found(),
            FileOutcome::ReadFailed => Self::internal_server_error(),
        }
    }

    /// What to do with a request for `path`.
    pub fn on_request(&self, path: &str) -> (action: RequestAction)
        ensures
            action == spec_on_request(path@),
    {
        if same_text(path, "/snapshot.tgz") {
            self.get(ArchiveFile::Snapshot)
        } else if same_text(path, "/genesis.tgz") {
            self.get(ArchiveFile::Genesis)
        } else {
            RequestAction::Proceed { should_continue_on_invalid_cors: false }
        }
    }
}

/// What the stake account whose persisted data is `account_data` has
/// delegated in `epoch`: the effective part and the rest.
pub fn stake_activation(account_data: &[u8], epoch: Epoch, history: &StakeHistory) -> (activation: Option<
    StakeActivation,
>)
    ensures
        activation == spec_stake_activation(account_data@, epoch, history@),
{
    match StakeAccountState::deserialize(account_data) {
        Some(state) => match state {
            StakeAccountState::Stake { delegation, .. } => {
                let effective = effective_stake(&delegation, epoch, history);
                Some(StakeActivation { effective, inactive: delegation.stake_lamports - effective })
            },
            _ => Some(StakeActivation { effective: 0, inactive: 0 }),
        },
        None => None,
    }
}

} // verus!
