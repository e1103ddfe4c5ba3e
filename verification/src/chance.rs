//! Chance: the one place where random numbers enter the library.

use vstd::prelude::*;
use rand::Rng;

verus! {

/// A random number, drawn by `rand::Rng::gen` from the generator of this
/// thread, `rand::thread_rng`. Nothing is claimed of the number: every
/// caller is proved for whatever comes back.
#[verifier::external_body]
pub(crate) fn random_usize() -> usize {
    rand::thread_rng().gen::<usize>()
}

/// A random yes or no, drawn by `rand::Rng::gen` from the generator of
/// this thread, `rand::thread_rng`. Nothing is claimed of the answer.
#[verifier::external_body]
pub(crate) fn random_bool() -> bool {
    rand::thread_rng().gen::<bool>()
}

/// A fresh name for a match: a random identifier made by
/// `uuid::Uuid::new_v4`, written by `Uuid::simple` as 32 hexadecimal
/// digits. Only the length is claimed of it.
#[verifier::external_body]
pub(crate) fn fresh_name() -> (r: String)
    ensures
        r@.len() == 32,
{
    uuid::Uuid::new_v4().simple().to_string()
}

} // verus!
