//! Values that fields of the configuration take when the configuration leaves them out.

use vstd::prelude::*;

verus! {

/// The value of a flag that is left unset: `false`.
pub fn default_false() -> (r: bool)
    ensures
        r == false,
{
    false
}

/// The committish used when none is given: the repository's default branch, `HEAD`.
pub fn default_ref() -> (r: Option<String>)
    ensures
        r matches Some(s) && s@ == DEFAULT_REFERENCE@,
{
    Some(DEFAULT_REFERENCE.to_owned())
}

/// The name of a repository's default branch.
pub const DEFAULT_REFERENCE: &'static str = "HEAD";

} // verus!
