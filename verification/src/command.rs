//! An external program to run, with its arguments, as plain values, and
//! the widget input that leads to one.

use vstd::prelude::*;
use crate::text::owned;

verus! {

/// Direction of a scroll on a module's widget.
#[derive(Clone, Copy, PartialEq, Eq, Structural)]
pub enum Scroll {
    /// Scrolled up (negative vertical delta).
    Up,
    /// Scrolled down (positive vertical delta).
    Down,
}

/// A program and the arguments to start it with.
pub struct CommandLine {
    pub program: String,
    pub args: Vec<String>,
}

impl CommandLine {
    /// The arguments as character sequences.
    pub open spec fn arg_seqs(&self) -> Seq<Seq<char>> {
        self.args@.map_values(|a: String| a@)
    }

    /// This command is `program` with exactly the arguments `args`.
    pub open spec fn is(&self, program: Seq<char>, args: Seq<Seq<char>>) -> bool {
        self.program@ == program && self.arg_seqs() == args
    }

    /// Builds a command from a program name and its arguments.
    pub fn new(program: &str, args: &[&str]) -> (c: CommandLine)
        ensures
            c.is(program@, args@.map_values(|a: &str| a@)),
    {
        let mut v: Vec<String> = Vec::new();
        let mut i: usize = 0;
        while i < args.len()
            invariant
                i <= args@.len(),
                v@.len() == i,
                forall|k: int| 0 <= k < i ==> #[trigger] v@[k]@ == args@[k]@,
            decreases args@.len() - i,
        {
            v.push(owned(args[i]));
            i = i + 1;
        }
        let c = CommandLine { program: owned(program), args: v };
        proof {
            assert(c.arg_seqs() =~= args@.map_values(|a: &str| a@));
        }
        c
    }
}

} // verus!
