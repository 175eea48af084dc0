use vstd::prelude::*;

verus! {

/// The name of the account that owns `uid`, if the account directory has one.
/// Relies on `nix::unistd::User::from_uid`, which looks the identifier up with `getpwuid_r`;
/// what it finds depends on the machine, so nothing is promised of it.
#[verifier::external_body]
pub fn get_username_from_uid(uid: u32) -> Option<String> {
    match nix::unistd::User::from_uid(nix::unistd::Uid::from_raw(uid)) {
        Ok(Some(user)) => Some(user.name),
        _ => None,
    }
}

/// The number of logical CPUs that this process may run on.
/// Relies on `num_cpus::get`; the count depends on the machine, so nothing is promised of it.
#[verifier::external_body]
pub(crate) fn logical_cpu_count() -> usize {
    num_cpus::get()
}

} // verus!
