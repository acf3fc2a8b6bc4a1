use vstd::prelude::*;

verus! {

/// The number of processing units, as `num_cpus::get` reports it for this
/// process. The count depends on the machine and on the limits set on the
/// process, so nothing is claimed of it.
#[verifier::external_body]
fn available_cpus() -> (n: usize) {
    num_cpus::get()
}

/// The number of workers of an import: the number asked for, and without
/// one the number of processing units.
pub open spec fn workers(asked: Option<usize>, available: usize) -> usize {
    match asked {
        Some(n) => n,
        None => available,
    }
}

/// Settles the number of workers, given the number of processing units.
pub fn nb_threads_among(asked: Option<usize>, available: usize) -> (n: usize)
    ensures
        n == workers(asked, available),
{
    match asked {
        Some(n) => n,
        None => available,
    }
}

/// Settles the number of workers on this machine: a number asked for is
/// taken as it is, whatever the machine has.
pub fn nb_threads(asked: Option<usize>) -> (n: usize)
    ensures
        asked is Some ==> n == asked->Some_0,
{
    nb_threads_among(asked, available_cpus())
}

} // verus!
