//! The source of the random bytes that CXNN masks.
use vstd::prelude::*;
use rand::RngCore;

verus! {

/// One byte from the operating system's random source, through the `rand`
/// crate (`rand::rngs::OsRng` and its `RngCore::try_fill_bytes`), or `None`
/// when the operating system reports that it cannot give one.  `OsRng` keeps
/// no state and `try_fill_bytes` hands every failure back as an error rather
/// than panicking.  Every byte may come back, two calls may give different
/// bytes, and whether the source fails is up to the operating system, so the
/// contract claims nothing of the result.
#[verifier::external_body]
pub(crate) fn random_byte() -> Option<u8> {
    let mut buf = [0u8; 1];
    match rand::rngs::OsRng.try_fill_bytes(&mut buf) {
        Ok(()) => Some(buf[0]),
        Err(_) => None,
    }
}

} // verus!
