//! Linux specific helpers.

use vstd::prelude::*;

verus! {

/// The error type of the `getrandom` crate, carried through unopened.
#[verifier::external_type_specification]
#[verifier::external_body]
pub struct ExGetrandomError(getrandom::Error);

/// Why the operating system could not supply random data.
#[derive(Clone, Copy, Debug, PartialEq, Eq, Structural)]
pub struct RandomError {
    /// The error code reported by the random source; never zero.
    pub code: u32,
}

/// Calls `getrandom::getrandom` on the whole buffer.
///
/// The call writes into the bytes it is given and cannot change how many
/// there are. On an empty buffer it returns `Ok` without asking the system.
/// Nothing is claimed about the bytes written.
#[verifier::external_body]
fn os_fill(buffer: &mut [u8]) -> (res: Result<(), getrandom::Error>)
    ensures
        final(buffer)@.len() == old(buffer)@.len(),
        old(buffer)@.len() == 0 ==> res is Ok,
{
    getrandom::getrandom(buffer)
}

/// Reads the numeric code out of a `getrandom::Error` with
/// `getrandom::Error::code`, whose `NonZeroU32` result is never zero.
#[verifier::external_body]
fn os_error_code(err: getrandom::Error) -> (code: u32)
    ensures
        code != 0,
{
    err.code().get()
}

/// What a fill is reported as, given what the random source returned: its
/// success is a success, and its failure is a failure that carries the
/// non-zero code of the random source.
pub fn fill_report(outcome: Result<(), getrandom::Error>) -> (res: Result<(), RandomError>)
    ensures
        res is Ok <==> outcome is Ok,
        res matches Err(e) ==> e.code != 0,
{
    match outcome {
        Ok(()) => Ok(()),
        Err(err) => Err(RandomError { code: os_error_code(err) }),
    }
}

/// Fill `buffer` with pseudo random data from the operating system.
///
/// The buffer keeps its length whatever happens. An empty buffer always
/// succeeds; a failure carries the non-zero code of the random source.
/// Whether a buffer that is not empty is filled is for the operating system
/// to decide; [`fill_report`] says how its answer is reported.
pub fn fill_with_random_data(buffer: &mut [u8]) -> (res: Result<(), RandomError>)
    ensures
        final(buffer)@.len() == old(buffer)@.len(),
        old(buffer)@.len() == 0 ==> res is Ok,
        res matches Err(e) ==> e.code != 0,
{
    let outcome = os_fill(buffer);
    fill_report(outcome)
}

/// What is handed out after a fill was tried on `buffer`: the buffer if the
/// fill succeeded, and the failure of the fill otherwise.
pub fn filled_or_failed(buffer: Vec<u8>, outcome: Result<(), RandomError>) -> (res: Result<
    Vec<u8>,
    RandomError,
>)
    ensures
        res == (match outcome {
            Ok(_) => Ok::<Vec<u8>, RandomError>(buffer),
            Err(error) => Err::<Vec<u8>, RandomError>(error),
        }),
{
    match outcome {
        Ok(()) => Ok(buffer),
        Err(error) => Err(error),
    }
}

/// Get `size` bytes of pseudo random data from the operating system.
///
/// On success the result holds exactly `size` bytes. Asking for no bytes
/// always succeeds; a failure carries the non-zero code of the random source.
pub fn random_data(size: usize) -> (res: Result<Vec<u8>, RandomError>)
    ensures
        res matches Ok(data) ==> data@.len() == size,
        size == 0 ==> res is Ok,
        res matches Err(e) ==> e.code != 0,
{
    let mut buffer: Vec<u8> = vec![0u8; size];
    let outcome = fill_with_random_data(buffer.as_mut_slice());
    filled_or_failed(buffer, outcome)
}

} // verus!
