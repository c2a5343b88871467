//! Errors raised while validating a parachain candidate.
use vstd::prelude::*;

verus! {

/// A error raised during validation of the candidate; `E` is the internal validation error.
#[derive(Debug, Clone)]
pub enum ValidationError<E> {
    /// The error was raised because the candidate is invalid.
    ///
    /// Whenever we are unsure if the error was due to the candidate or not, we must vote invalid.
    InvalidCandidate(InvalidCandidate),
    /// Some internal error occurred.
    InternalError(E),
}

impl<E> ValidationError<E> {
    /// An internal validation error.
    pub fn from_internal(error: E) -> (r: ValidationError<E>)
        ensures
            r == ValidationError::<E>::InternalError(error),
    {
        ValidationError::InternalError(error)
    }

    /// The validation error for a preparation error, classified as deterministic or not: a
    /// deterministic one makes the candidate invalid, with the error's text; any other is
    /// internal, as `non_deterministic` (the preparation error kept as a non-deterministic one).
    pub fn from_prepare_error(is_deterministic: bool, text: String, non_deterministic: E) -> (r: ValidationError<E>)
        ensures
            is_deterministic ==> r == ValidationError::<E>::InvalidCandidate(InvalidCandidate::PrepareError(text)),
            !is_deterministic ==> r == ValidationError::<E>::InternalError(non_deterministic),
    {
        if is_deterministic {
            ValidationError::InvalidCandidate(InvalidCandidate::PrepareError(text))
        } else {
            ValidationError::InternalError(non_deterministic)
        }
    }
}

/// A description of an error raised during executing a PVF and can be attributed to the combination
/// of the candidate's validation parameters and the PVF.
#[derive(Debug, Clone)]
pub enum InvalidCandidate {
    /// PVF preparation ended up with a deterministic error.
    PrepareError(String),
    /// The candidate is reported to be invalid by the execution worker. The string contains the
    /// error message.
    WorkerReportedInvalid(String),
    /// The worker process (not the job) has died during validation of a candidate.
    ///
    /// It's unlikely that this is caused by malicious code since workers spawn separate job
    /// processes, and those job processes are sandboxed. But, it is possible. We retry in this
    /// case, and if the error persists, we assume it's caused by the candidate and vote against.
    AmbiguousWorkerDeath,
    /// PVF execution (compilation is not included) took more time than was allotted.
    HardTimeout,
    /// The job process (not the worker) has died for one of the following reasons:
    ///
    /// (a) A seccomp violation occurred, most likely due to an attempt by malicious code to
    /// execute arbitrary code. Note that there is no foolproof way to detect this if the operator
    /// has seccomp auditing disabled.
    ///
    /// (b) The host machine ran out of free memory and the OOM killer started killing the
    /// processes, and in order to save the parent it will "sacrifice child" first.
    ///
    /// (c) Some other reason, perhaps transient or perhaps caused by malicious code.
    ///
    /// We cannot treat this as an internal error because malicious code may have caused this.
    AmbiguousJobDeath(String),
    /// An unexpected error occurred in the job process and we can't be sure whether the candidate
    /// is really invalid or some internal glitch occurred. Whenever we are unsure, we can never
    /// treat an error as internal as we would abstain from voting. This is bad because if the
    /// issue was due to the candidate, then all validators would abstain, stalling finality on the
    /// chain. So we will first retry the candidate, and if the issue persists we are forced to
    /// vote invalid.
    JobError(String),
}

} // verus!
