//! The errors of the tree layer and of the conformance-vector checker.
use vstd::prelude::*;

verus! {

/// Why a public tree is rejected.
#[derive(Clone, Copy, Debug, PartialEq, Eq, Structural)]
pub enum PublicTreeError {
    /// The derived public key doesn't match the one in the tree.
    PublicKeyMismatch,
    /// Found two leaves with the same public key.
    DuplicateKeyPackage,
    /// Couldn't find our own leaf in this tree.
    MissingKeyPackage,
    /// The tree is malformed.
    MalformedTree,
    /// A parent hash was invalid.
    InvalidParentHash,
}

/// Why setting a path fails.
#[derive(Clone, Copy, Debug, PartialEq, Eq, Structural)]
pub enum TreeSyncSetPathError {
    /// An internal invariant was broken.
    LibraryError,
    /// The derived public key doesn't match the one in the tree.
    PublicKeyMismatch,
}

/// Why an operation on a pending diff fails.
#[derive(Clone, Copy, Debug, PartialEq, Eq, Structural)]
pub enum TreeSyncDiffError {
    /// An internal invariant was broken.
    LibraryError,
    /// The given path does not have the length of the given leaf's direct path.
    PathLengthError,
    /// The given leaf does not carry a parent hash.
    MissingParentHash,
    /// The parent hash of the given leaf is invalid.
    ParentHashMismatch,
    /// The parent hash of a node in the given tree is invalid.
    InvalidParentHash,
    /// An unmerged-leaf entry of a parent node points to a blank leaf.
    BlankUnmergedLeaf,
    /// No fitting private key in the filtered resolution of the given leaf.
    NoPrivateKeyFound,
    /// Two leaves hold the same public key.
    DuplicateKeyPackage,
    /// The tree has no node at the given index, or a node of the wrong kind.
    MalformedTree,
}

/// Why an operation on the tree fails.
#[derive(Clone, Copy, Debug, PartialEq, Eq, Structural)]
pub enum TreeSyncError {
    /// An internal invariant was broken.
    LibraryError,
    /// The referenced leaf is not in the tree.
    KeyPackageRefNotInTree,
    /// Setting a path failed.
    SetPathError(TreeSyncSetPathError),
    /// An operation on a diff failed.
    TreeSyncDiffError(TreeSyncDiffError),
}

/// The first output of a conformance vector that the derivation did not
/// reproduce.
#[derive(Clone, Copy, Debug, PartialEq, Eq, Structural)]
pub enum KsTestVectorError {
    JoinerSecretMismatch,
    WelcomeSecretMismatch,
    GroupContextMismatch,
    InitSecretMismatch,
    SenderDataSecretMismatch,
    EncryptionSecretMismatch,
    ExporterSecretMismatch,
    AuthenticationSecretMismatch,
    ExternalSecretMismatch,
    ConfirmationKeyMismatch,
    MembershipKeyMismatch,
    ResumptionSecretMismatch,
    ExternalPubMismatch,
}

} // verus!
