use vstd::prelude::*;

verus! {

/// The kind of status line an agent wants printed.
///
/// The actual colored terminal printing is I/O and lives outside the
/// library; the library only decides which kind of line to emit.
#[derive(Clone, Copy, Debug, PartialEq, Eq, Structural)]
pub enum PrintCommand {
    AiCall,
    UnitTest,
    Issue,
}

} // verus!
