use vstd::prelude::*;

verus! {

/// Errors of the lowering pipeline.
///
/// Every failure is fail-fast: a contract whose input has the wrong shape,
/// or whose definition pass fails, aborts that contract's compilation, and
/// one failed contract aborts the whole project compilation.
#[derive(Debug)]
pub enum Error {
    /// The front end hands over a fixed number of JSON lines per contract;
    /// any other count is rejected before parsing begins.
    LineCount { expected: usize, found: usize },
    /// A JSON line could not be parsed; `line` is its zero-based position
    /// among the contract's input lines.
    Syntax { line: usize },
    /// The root list's deploy marker lacks its immutables-size position.
    MissingImmutablesSize,
    /// The root list's deploy marker lacks its runtime-code position.
    MissingRuntimeCode,
    /// The immutables size is an integer literal too large for a machine word.
    ImmutablesSizeParse { digits: String },
    /// The immutables size position holds something other than an integer literal.
    InvalidImmutablesFormat,
    /// A function definition node lacks its name identifier.
    MalformedFunctionDefinition,
    /// The residue of the root expression is not a list, so no deploy-code
    /// region can be formed from it.
    DeployCodeShape,
    /// The definition pass failed for the named contract.
    DefinitionPass { path: String, inner: Box<Error> },
    /// Inter-contract path and library resolution is not available for this
    /// front end; any attempt to use it fails with this error.
    DependencyUnavailable,
    /// A contract failed to compile, poisoning the project compilation.
    ContractCompile { path: String, inner: Box<Error> },
}

} // verus!
