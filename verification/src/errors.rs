use vstd::prelude::*;

verus! {

/// The fatal error taxonomy of the pipeline.  Every failure aborts the whole
/// invocation: there is no partial output and no recovery path.
#[derive(Clone, Copy, Debug, PartialEq, Eq, Structural)]
pub enum CipherError {
    /// A hex-prefixed seed literal is not valid hex.
    SeedDecodeError,
    /// An authenticated-decryption tag did not verify.
    AuthenticationFailure,
    /// A bundle is structurally invalid: unparsable field, missing
    /// nonce or associated data for an AEAD-tagged record, wrong step count
    /// or tag out of position.
    MalformedBundle,
    /// A step tag that the executor does not recognize.
    UnsupportedStep,
}

} // verus!
