//! The errors of a run, whatever library they come from.
use vstd::prelude::*;
use vstd::string::*;

verus! {

/// `zmq::Error`: why an operation on a socket failed.
#[verifier::external_type_specification]
#[verifier::external_body]
pub struct ExZmqError(zmq::Error);

/// `hdrhistogram::CreationError`: why a histogram could not be made.
#[verifier::external_type_specification]
#[verifier::external_body]
pub struct ExCreationError(hdrhistogram::CreationError);

/// `hdrhistogram::RecordError`: why a value could not be recorded.
#[verifier::external_type_specification]
#[verifier::external_body]
pub struct ExRecordError(hdrhistogram::RecordError);

/// `hdrhistogram::AdditionError`: why a histogram could not be added to another.
#[verifier::external_type_specification]
#[verifier::external_body]
pub struct ExAdditionError(hdrhistogram::AdditionError);

/// `hdrhistogram::serialization::V2SerializeError`: why a histogram could not be encoded.
#[verifier::external_type_specification]
#[verifier::external_body]
pub struct ExV2SerializeError(hdrhistogram::serialization::V2SerializeError);

/// `tokio::task::JoinError`: why a task did not run to its end.
#[verifier::external_type_specification]
#[verifier::external_body]
pub struct ExJoinError(tokio::task::JoinError);

/// What can go wrong in a run.
#[derive(Debug)]
pub enum BenchError {
    /// An operation on a socket failed.
    Zmq(zmq::Error),
    /// A histogram could not be made.
    Creation(hdrhistogram::CreationError),
    /// A latency could not be recorded.
    Record(hdrhistogram::RecordError),
    /// Histograms could not be pooled.
    Addition(hdrhistogram::AdditionError),
    /// A histogram could not be encoded.
    Serialize(hdrhistogram::serialization::V2SerializeError),
    /// A task did not run to its end.
    Join(tokio::task::JoinError),
}

/// What is said of a task that did not run to its end, where `cause` says why.
pub open spec fn join_text(cause: Seq<char>) -> Seq<char> {
    "Task join error: "@ + cause
}

/// What is said of a task that did not run to its end, where `cause` says why.
pub fn join_message(cause: &str) -> (r: String)
    ensures
        r@ == join_text(cause@),
{
    let mut r: String = "Task join error: ".to_owned();
    r.append(cause);
    r
}

/// Why a task did not run to its end, in the words of its error.
pub uninterp spec fn join_words(error: tokio::task::JoinError) -> Seq<char>;

/// `to_string` of a `tokio::task::JoinError`: why the task did not run to its end, in words. They
/// are made from what the error itself holds: the number of the task, and whether it was cancelled
/// or what it panicked with.
#[verifier::external_body]
fn join_cause(error: &tokio::task::JoinError) -> (r: String)
    ensures
        r@ == join_words(*error),
{
    error.to_string()
}

/// What is said of a task that did not run to its end, with the cause as its error tells it.
pub fn join_error_message(error: &tokio::task::JoinError) -> (r: String)
    ensures
        r@ == join_text(join_words(*error)),
{
    let cause: String = join_cause(error);
    join_message(cause.as_str())
}

/// Turns the error of a socket operation into one of a run.
pub trait ZmqResultExt<T> {
    fn box_err(self) -> Result<T, BenchError>;
}

impl<T> ZmqResultExt<T> for Result<T, zmq::Error> {
    fn box_err(self) -> (r: Result<T, BenchError>)
        ensures
            r == match self {
                Ok(t) => Ok::<T, BenchError>(t),
                Err(e) => Err(BenchError::Zmq(e)),
            },
    {
        match self {
            Ok(t) => Ok(t),
            Err(e) => Err(BenchError::Zmq(e)),
        }
    }
}

/// Turns the error of a histogram operation into one of a run.
pub trait HdrResultExt<T> {
    fn box_err(self) -> Result<T, BenchError>;
}

impl<T> HdrResultExt<T> for Result<T, hdrhistogram::CreationError> {
    fn box_err(self) -> (r: Result<T, BenchError>)
        ensures
            r == match self {
                Ok(t) => Ok::<T, BenchError>(t),
                Err(e) => Err(BenchError::Creation(e)),
            },
    {
        match self {
            Ok(t) => Ok(t),
            Err(e) => Err(BenchError::Creation(e)),
        }
    }
}

impl<T> HdrResultExt<T> for Result<T, hdrhistogram::RecordError> {
    fn box_err(self) -> (r: Result<T, BenchError>)
        ensures
            r == match self {
                Ok(t) => Ok::<T, BenchError>(t),
                Err(e) => Err(BenchError::Record(e)),
            },
    {
        match self {
            Ok(t) => Ok(t),
            Err(e) => Err(BenchError::Record(e)),
        }
    }
}

impl<T> HdrResultExt<T> for Result<T, hdrhistogram::AdditionError> {
    fn box_err(self) -> (r: Result<T, BenchError>)
        ensures
            r == match self {
                Ok(t) => Ok::<T, BenchError>(t),
                Err(e) => Err(BenchError::Addition(e)),
            },
    {
        match self {
            Ok(t) => Ok(t),
            Err(e) => Err(BenchError::Addition(e)),
        }
    }
}

impl<T> HdrResultExt<T> for Result<T, hdrhistogram::serialization::V2SerializeError> {
    fn box_err(self) -> (r: Result<T, BenchError>)
        ensures
            r == match self {
                Ok(t) => Ok::<T, BenchError>(t),
                Err(e) => Err(BenchError::Serialize(e)),
            },
    {
        match self {
            Ok(t) => Ok(t),
            Err(e) => Err(BenchError::Serialize(e)),
        }
    }
}

/// Turns the result of a task that was waited for into that of the task itself.
pub trait JoinResultExt<T> {
    fn join_err(self) -> Result<T, BenchError>;
}

impl<T> JoinResultExt<T> for Result<Result<T, BenchError>, tokio::task::JoinError> {
    fn join_err(self) -> (r: Result<T, BenchError>)
        ensures
            r == match self {
                Ok(Ok(t)) => Ok::<T, BenchError>(t),
                Ok(Err(e)) => Err(e),
                Err(e) => Err(BenchError::Join(e)),
            },
    {
        match self {
            Ok(Ok(t)) => Ok(t),
            Ok(Err(e)) => Err(e),
            Err(e) => Err(BenchError::Join(e)),
        }
    }
}

/// What is said of a task that did not run to its end is said of every one in the same words, and
/// the cause follows them in full.
pub proof fn join_text_ends_with_the_cause(cause: Seq<char>)
    ensures
        join_text(cause).take("Task join error: "@.len() as int) == "Task join error: "@,
        join_text(cause).skip("Task join error: "@.len() as int) == cause,
{
    assert(join_text(cause).take("Task join error: "@.len() as int) =~= "Task join error: "@);
    assert(join_text(cause).skip("Task join error: "@.len() as int) =~= cause);
}

} // verus!
