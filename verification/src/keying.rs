//! Keying material export.
//!
//! The DTLS transport exports keying material for SRTP; this trait sits
//! between the two so neither depends on the other.  Implementations
//! belong to the runtime.

use vstd::prelude::*;

verus! {

/// KeyingMaterialExporter extracts keying material from a secured
/// transport.
pub trait KeyingMaterialExporter {
    fn export_keying_material(&self, label: &str, context: &[u8], length: usize) -> Result<Vec<
        u8>, KeyingMaterialExporterError>;
}

/// Why exporting keying material failed.
#[derive(Clone, Debug, PartialEq, Eq)]
pub enum KeyingMaterialExporterError {
    /// The handshake has not finished yet.
    HandshakeInProgress,
    /// A context value is not supported for this export.
    ContextUnsupported,
    /// The label is reserved.
    ReservedExportKeyingMaterial,
    /// No cipher suite has been negotiated.
    CipherSuiteUnset,
    /// An I/O failure, described in text.
    Io(String),
    /// A hash failure, described in text.
    Hash(String),
}

impl KeyingMaterialExporterError {
    /// A short description of the error, in place of `Display`.
    pub fn as_str(&self) -> (r: &'static str)
        ensures
            self is HandshakeInProgress ==> r@ == "tls handshake is in progress"@,
            self is ContextUnsupported ==> r@
                == "context is not supported for export_keying_material"@,
            self is ReservedExportKeyingMaterial ==> r@
                == "export_keying_material can not be used with a reserved label"@,
            self is CipherSuiteUnset ==> r@ == "no cipher suite for export_keying_material"@,
            self is Io ==> r@ == "export_keying_material io"@,
            self is Hash ==> r@ == "export_keying_material hash"@,
    {
        match self {
            KeyingMaterialExporterError::HandshakeInProgress => "tls handshake is in progress",
            KeyingMaterialExporterError::ContextUnsupported => "context is not supported for export_keying_material",
            KeyingMaterialExporterError::ReservedExportKeyingMaterial => "export_keying_material can not be used with a reserved label",
            KeyingMaterialExporterError::CipherSuiteUnset => "no cipher suite for export_keying_material",
            KeyingMaterialExporterError::Io(_) => "export_keying_material io",
            KeyingMaterialExporterError::Hash(_) => "export_keying_material hash",
        }
    }
}

} // verus!
