use vstd::prelude::*;

verus! {

/// Every failure a handler can surface. Each check is local and immediate:
/// the first failed check aborts the whole request with its kind, and the
/// surrounding execution context discards any partial writes.
#[derive(Clone, Copy, Debug, PartialEq, Eq, Structural)]
pub enum StudentIntroError {
    /// Unrecognized command selector, or a payload that does not parse as the
    /// selector's expected shape.
    InvalidInstruction,
    /// An encoded record would exceed its fixed size ceiling.
    InvalidDataLength,
    /// A caller-supplied address does not match the deterministically
    /// recomputed one.
    InvalidPDA,
    /// The operation requires a record that has not yet been created.
    UninitializedAccount,
    /// Creation was attempted against a record already marked initialized.
    AccountAlreadyInitialized,
    /// A record's current owning program does not match the expected one.
    IllegalOwner,
    /// The supplied counter address does not match the one derived from the
    /// introduction being created.
    InvalidArgument,
    /// The allocator refused to create an account at the target address
    /// because it is already in use.
    AccountInUse,
    /// The command needs more accounts than the caller supplied.
    NotEnoughAccountKeys,
    /// A record could not be written back into its buffer.
    BorshIoError,
}

} // verus!
