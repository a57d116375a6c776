//! Fetching a document over the network, one chunk at a time.
//!
//! The transfer itself happens elsewhere. This module keeps the state of a
//! running download and decides, for each thing the transport reports, what
//! the download becomes and what is to be told to the outside.

use vstd::prelude::*;
use vstd::string::StringExecFns;

verus! {

/// `bytes::Bytes`, an immutable buffer of bytes.
#[verifier::external_type_specification]
#[verifier::external_body]
pub struct ExBytes(bytes::Bytes);

/// `reqwest::Error`, a failure of the transport. It is carried, not read.
#[verifier::external_type_specification]
#[verifier::external_body]
pub struct ExReqwestError(reqwest::Error);

/// `std::io::Error`, a failure of reading or writing. It is carried, not
/// read.
#[verifier::external_type_specification]
#[verifier::external_body]
pub struct ExIoError(std::io::Error);

/// The bytes that a `bytes::Bytes` holds, first to last.
pub uninterp spec fn bytes_contents(buffer: bytes::Bytes) -> Seq<u8>;

/// Calls `Bytes::from(Vec<u8>)`, which takes over the allocation of the
/// vector: pointer and length stay as they are. The contract claims that the
/// buffer holds the bytes of the vector, in order.
#[verifier::external_body]
fn bytes_from_vec(bytes: Vec<u8>) -> (buffer: bytes::Bytes)
    ensures
        bytes_contents(buffer) == bytes@,
{
    bytes::Bytes::from(bytes)
}

/// A document that has arrived, with the name to show for it and the EPSG
/// code of the reference system it is declared to be in.
#[derive(Debug, PartialEq, Eq)]
pub struct FetchedFile {
    pub name: String,
    pub bytes: bytes::Bytes,
    pub crs_epsg_code: u16,
}

/// A request to fetch the document at `url`.
#[derive(Debug, Clone, PartialEq, Eq)]
pub struct NetworkFetchJob {
    pub url: String,
    pub crs_epsg_code: u16,
    pub name: String,
}

/// Why a fetch failed.
#[derive(Debug)]
pub enum FetchError {
    Io(std::io::Error),
    Reqwest(reqwest::Error),
}

impl From<std::io::Error> for FetchError {
    fn from(e: std::io::Error) -> (error: FetchError) {
        FetchError::Io(e)
    }
}

impl vstd::std_specs::convert::FromSpecImpl<std::io::Error> for FetchError {
    open spec fn obeys_from_spec() -> bool {
        true
    }

    open spec fn from_spec(e: std::io::Error) -> FetchError {
        FetchError::Io(e)
    }
}

impl From<reqwest::Error> for FetchError {
    fn from(e: reqwest::Error) -> (error: FetchError) {
        FetchError::Reqwest(e)
    }
}

impl vstd::std_specs::convert::FromSpecImpl<reqwest::Error> for FetchError {
    open spec fn obeys_from_spec() -> bool {
        true
    }

    open spec fn from_spec(e: reqwest::Error) -> FetchError {
        FetchError::Reqwest(e)
    }
}

/// The share of `total` that `received` is, in whole percent, rounded down
/// and never more than 100. An unknown total, written 0, gives 0.
pub open spec fn percent(received: nat, total: nat) -> nat {
    if total == 0 {
        0
    } else if 100 * received / total > 100 {
        100
    } else {
        100 * received / total
    }
}

/// The progress to report when `received` bytes of `total` have arrived.
pub fn progress_percent(received: usize, total: u64) -> (p: u8)
    ensures
        p == percent(received as nat, total as nat),
        p <= 100,
{
    if total == 0 {
        0
    } else {
        let scaled: u128 = 100 * (received as u128);
        let share: u128 = scaled / (total as u128);
        if share > 100 {
            100
        } else {
            share as u8
        }
    }
}

/// A download under way: the job, the size the server announced (0 if it
/// announced none), and what has arrived so far.
#[derive(Debug, Clone, PartialEq, Eq)]
pub struct Download {
    pub job: NetworkFetchJob,
    pub total_size: u64,
    pub bytes: Vec<u8>,
}

/// What the transport reports while a download runs.
#[derive(Debug)]
pub enum FetchEvent {
    /// The next chunk of the body.
    Chunk(Vec<u8>),
    /// The transfer broke off.
    Failed(FetchError),
    /// The body is complete.
    Finished,
}

/// What a download becomes after an event.
#[derive(Debug)]
pub enum FetchStep {
    /// More is to come; `progress` is to be reported.
    Continue { download: Download, progress: u8 },
    /// The fetch is over, with the file or with the error.
    Done(Result<FetchedFile, FetchError>),
}

impl NetworkFetchJob {
    /// How the job is shown while it runs: the word "Fetching" and the name
    /// in single quotes.
    pub fn name(&self) -> (shown: String)
        ensures
            shown@ == "Fetching '"@ + self.name@ + "'"@,
    {
        String::from_str("Fetching '").concat(self.name.as_str()).concat("'")
    }

    /// Begins the download once the response has come in. `content_length`
    /// is the size the server announced, if it announced one.
    pub fn start(self, content_length: Option<u64>) -> (download: Download)
        ensures
            download.job == self,
            download.total_size == match content_length {
                Some(n) => n,
                None => 0,
            },
            download.bytes@ == Seq::<u8>::empty(),
    {
        let total_size: u64 = match content_length {
            Some(n) => n,
            None => 0,
        };
        Download { job: self, total_size, bytes: Vec::new() }
    }
}

impl Download {
    /// Takes one event. A chunk is appended to what has arrived and the new
    /// progress is reported; a failure ends the fetch with that error and
    /// discards what has arrived; the end of the body ends it with the file.
    /// Nothing is ever retried.
    pub fn step(self, event: FetchEvent) -> (next: FetchStep)
        ensures
            match event {
                FetchEvent::Chunk(chunk) => {
                    &&& next matches FetchStep::Continue { download, progress }
                    &&& download.job == self.job
                    &&& download.total_size == self.total_size
                    &&& download.bytes@ == self.bytes@ + chunk@
                    &&& progress == percent(download.bytes@.len(), self.total_size as nat)
                },
                FetchEvent::Failed(error) => next == FetchStep::Done(Err(error)),
                FetchEvent::Finished => {
                    &&& next matches FetchStep::Done(Ok(file))
                    &&& file.name == self.job.name
                    &&& file.crs_epsg_code == self.job.crs_epsg_code
                    &&& bytes_contents(file.bytes) == self.bytes@
                },
            },
    {
        match event {
            FetchEvent::Chunk(chunk) => {
                let mut chunk = chunk;
                let mut download = self;
                download.bytes.append(&mut chunk);
                let progress = progress_percent(download.bytes.len(), download.total_size);
                FetchStep::Continue { download, progress }
            },
            FetchEvent::Failed(error) => FetchStep::Done(Err(error)),
            FetchEvent::Finished => FetchStep::Done(
                Ok(
                    FetchedFile {
                        name: self.job.name,
                        bytes: bytes_from_vec(self.bytes),
                        crs_epsg_code: self.job.crs_epsg_code,
                    },
                ),
            ),
        }
    }
}

} // verus!
