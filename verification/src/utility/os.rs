use vstd::prelude::*;

verus! {

/// The operating systems for which assembly can be generated.
#[derive(Clone, Copy, Debug, PartialEq, Eq, Structural)]
pub enum OS {
    Linux,
    MacOS,
    Windows,
}

} // verus!
