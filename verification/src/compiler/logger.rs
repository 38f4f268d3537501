use vstd::prelude::*;

verus! {

/// A collector of diagnostics for one source file.
pub trait Logger: Sized {
    fn new(file_name: String, code: String) -> Self;
}

} // verus!
