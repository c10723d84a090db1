use vstd::prelude::*;
use crate::command::InstallError;

verus! {

/// Reboots the machine. Not wired to the kernel yet: the request is accepted and nothing happens.
pub fn reboot() -> (r: Result<(), InstallError>)
    ensures
        r is Ok,
{
    Ok(())
}

/// Powers the machine off. Not wired to the kernel yet: the request is accepted and nothing happens.
pub fn poweroff() -> (r: Result<(), InstallError>)
    ensures
        r is Ok,
{
    Ok(())
}

} // verus!
