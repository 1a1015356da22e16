//! Operating-system error numbers, as the `nix` crate names them.

use vstd::prelude::*;

verus! {

/// What `nix` prints for an error number: the name of the error and a description of it.
pub uninterp spec fn errno_text(raw: i32) -> Seq<char>;

/// Whether an error number says that there is no such process (`ESRCH`).
pub open spec fn means_no_such_process(raw: i32) -> bool {
    raw == 3
}

/// `nix::errno::Errno::from_raw`, printed with `Display`. The text is a function of the
/// number: both the number's variant and the variant's description come from tables that
/// are fixed when the crate is built for its target. Which text it is for which number is
/// left unsaid.
#[verifier::external_body]
pub(crate) fn errno_display(raw: i32) -> (r: String)
    ensures
        r@ == errno_text(raw),
{
    nix::errno::Errno::from_raw(raw).to_string()
}

/// `nix::errno::Errno::from_raw`, compared with `Errno::ESRCH`. On Linux that variant stands
/// for the number 3 and for no other.
#[verifier::external_body]
pub(crate) fn errno_is_no_such_process(raw: i32) -> (r: bool)
    ensures
        r == means_no_such_process(raw),
{
    nix::errno::Errno::from_raw(raw) == nix::errno::Errno::ESRCH
}

} // verus!
