//! The entropy source: random bytes from the operating system.
//!
//! The bytes come from the system's secure random facility and from nowhere
//! else. Where it fails, the failure is handed on: nothing weaker takes its
//! place and nothing is tried again.

use vstd::prelude::*;

verus! {

/// `getrandom::Error`, the error of the random facility. Nothing is known
/// of a value of it but what `error_code` reads from it.
#[verifier::external_type_specification]
#[verifier::external_body]
pub struct ExRandomError(getrandom::Error);

/// The failure of the system's random facility, by its code, which is
/// never zero.
#[derive(Clone, Copy, Debug, PartialEq, Eq, Structural)]
pub struct EntropyError {
    pub code: u32,
}

/// Calls `getrandom::getrandom` on the whole of `buf`. The call overwrites
/// the bytes in place, so the buffer keeps its length whether it succeeds
/// or fails; nothing is claimed of the bytes themselves, nor of when the
/// call succeeds.
#[verifier::external_body]
fn fill_random(buf: &mut Vec<u8>) -> (r: Result<(), getrandom::Error>)
    ensures
        final(buf)@.len() == old(buf)@.len(),
{
    getrandom::getrandom(buf.as_mut_slice())
}

/// Calls `getrandom::Error::code` and takes the number out of the
/// `NonZeroU32` that it returns, which by its type is not zero.
#[verifier::external_body]
fn error_code(e: &getrandom::Error) -> (c: u32)
    ensures
        c != 0,
{
    e.code().get()
}

/// A buffer of `n` zero bytes.
pub fn zeroed(n: usize) -> (r: Vec<u8>)
    ensures
        r@.len() == n,
        forall|i: int| 0 <= i < n ==> r@[i] == 0,
{
    let mut buf: Vec<u8> = Vec::new();
    let mut i: usize = 0;
    while i < n
        invariant
            i <= n,
            buf@.len() == i,
            forall|j: int| 0 <= j < i ==> buf@[j] == 0,
        decreases n - i,
    {
        buf.push(0);
        i += 1;
    }
    buf
}

/// Draws `n` random bytes. A draw of no bytes does not reach the system
/// and cannot fail; any other draw gives exactly `n` bytes or the
/// system's error.
pub fn draw(n: usize) -> (r: Result<Vec<u8>, EntropyError>)
    ensures
        n == 0 ==> r is Ok,
        r matches Ok(bytes) ==> bytes@.len() == n,
        r matches Err(e) ==> e.code != 0,
{
    if n == 0 {
        return Ok(Vec::new());
    }
    let mut buf: Vec<u8> = zeroed(n);
    match fill_random(&mut buf) {
        Ok(()) => Ok(buf),
        Err(e) => Err(EntropyError { code: error_code(&e) }),
    }
}

} // verus!
