use vstd::prelude::*;

verus! {

/// Command-line options of the compiler.
pub struct Options {
    /// Print the abstract syntax tree.
    pub ast: bool,
    /// Suppress warnings.
    pub warn_suppress: bool,
    /// Output raw binary instead of assembly.
    pub binary: bool,
    /// Output detailed info in an easy-to-parse format.
    pub language_server: bool,
    /// The input file; `-` reads standard input.
    pub input: String,
    /// The output file; `-` writes standard output.
    pub output: String,
}

} // verus!
