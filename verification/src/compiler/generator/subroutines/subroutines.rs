use vstd::prelude::*;
use crate::compiler::generator::subroutines::int_to_str::{get_int_to_str_subroutine, int_to_str_text};
use crate::compiler::generator::subroutines::print::{get_print_subroutine, print_subroutine_text};
use crate::utility::{Arch, OS};

verus! {

/// The helper routines that a program may call, in order.
pub struct Subroutines {
    pub subroutines: Vec<String>,
}

/// The parts with `sep` between each two.
pub open spec fn join(parts: Seq<Seq<char>>, sep: Seq<char>) -> Seq<char>
    decreases parts.len(),
{
    if parts.len() == 0 {
        Seq::empty()
    } else if parts.len() == 1 {
        parts[0]
    } else {
        join(parts.drop_last(), sep) + sep + parts.last()
    }
}

/// The printing routine and the conversion routine, a blank line between.
pub open spec fn subroutines_text(arch: Arch, os: OS) -> Seq<char> {
    print_subroutine_text(arch, os) + "\n\n"@ + int_to_str_text(arch, os)
}

impl Subroutines {
    pub fn new(arch: Arch, os: OS) -> (r: Subroutines)
        ensures
            r.subroutines@.len() == 2,
            r.subroutines@[0]@ == print_subroutine_text(arch, os),
            r.subroutines@[1]@ == int_to_str_text(arch, os),
    {
        let mut subroutines: Vec<String> = Vec::new();
        subroutines.push(get_print_subroutine(arch, os));
        subroutines.push(get_int_to_str_subroutine(arch, os));
        Subroutines { subroutines }
    }

    /// The routines, a blank line between each two.
    pub fn generate(&mut self) -> (r: String)
        ensures
            r@ == join(old(self).subroutines@.map_values(|s: String| s@), "\n\n"@),
            final(self).subroutines@ == old(self).subroutines@,
    {
        let ghost parts = self.subroutines@.map_values(|s: String| s@);
        let mut out = String::new();
        let mut i: usize = 0;
        while i < self.subroutines.len()
            invariant
                i <= self.subroutines.len(),
                parts == self.subroutines@.map_values(|s: String| s@),
                out@ == join(parts.take(i as int), "\n\n"@),
            decreases self.subroutines.len() - i,
        {
            if i > 0 {
                out.append("\n\n");
            }
            out.append(self.subroutines[i].as_str());
            i = i + 1;
            proof {
                assert(parts.take(i as int).drop_last() =~= parts.take(i - 1));
            }
        }
        proof {
            assert(parts.take(i as int) =~= parts);
        }
        out
    }
}

} // verus!
