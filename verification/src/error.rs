use vstd::prelude::*;

verus! {

/// Coarse classification of a library error, mirroring the I/O error kinds
/// the launcher reports.
#[derive(Debug, Clone, Copy, PartialEq, Eq, Structural)]
pub enum ErrorKind {
    InvalidData,
    InvalidInput,
    NotFound,
}

/// Every way a verified operation of this library can refuse its input.
#[derive(Debug, Clone, Copy, PartialEq, Eq, Structural)]
pub enum Error {
    TruncatedFooterExt,
    TruncatedManifest,
    BadManifestMagic,
    UnsupportedManifestVersion,
    BadManifestHeader,
    ManifestLengthMismatch,
    ManifestTooLarge,
    InvalidAverageChunkSize,
    InvalidChunkBounds,
    TruncatedRemoteHeader,
    BadRemoteMagic,
    UnsupportedRemoteVersion,
    ChunkTooLong,
    MetadataRegionOverflow,
    DowngradedSignatureBlock,
    IntegrityMismatch,
    InvalidSignatureSize,
    SignatureVerificationFailed,
    InconsistentSignatureState,
    UpdateSignatureRejected,
    UpdateMerkleMismatch,
    MissingSisrExtension,
    SisrManifestTooLarge,
    ChunkTableOffsetOverflow,
    ChunkTableOutOfBounds,
}

impl Error {
    /// The kind of each error.
    pub open spec fn spec_kind(self) -> ErrorKind {
        match self {
            Error::TruncatedFooterExt => ErrorKind::InvalidData,
            Error::TruncatedManifest => ErrorKind::InvalidData,
            Error::BadManifestMagic => ErrorKind::InvalidData,
            Error::UnsupportedManifestVersion => ErrorKind::InvalidData,
            Error::BadManifestHeader => ErrorKind::InvalidData,
            Error::ManifestLengthMismatch => ErrorKind::InvalidData,
            Error::ManifestTooLarge => ErrorKind::InvalidData,
            Error::InvalidAverageChunkSize => ErrorKind::InvalidInput,
            Error::InvalidChunkBounds => ErrorKind::InvalidInput,
            Error::TruncatedRemoteHeader => ErrorKind::InvalidData,
            Error::BadRemoteMagic => ErrorKind::InvalidData,
            Error::UnsupportedRemoteVersion => ErrorKind::InvalidData,
            Error::ChunkTooLong => ErrorKind::InvalidData,
            Error::MetadataRegionOverflow => ErrorKind::InvalidData,
            Error::DowngradedSignatureBlock => ErrorKind::InvalidData,
            Error::IntegrityMismatch => ErrorKind::InvalidData,
            Error::InvalidSignatureSize => ErrorKind::InvalidData,
            Error::SignatureVerificationFailed => ErrorKind::InvalidData,
            Error::InconsistentSignatureState => ErrorKind::InvalidData,
            Error::UpdateSignatureRejected => ErrorKind::InvalidData,
            Error::UpdateMerkleMismatch => ErrorKind::InvalidData,
            Error::MissingSisrExtension => ErrorKind::InvalidData,
            Error::SisrManifestTooLarge => ErrorKind::InvalidData,
            Error::ChunkTableOffsetOverflow => ErrorKind::InvalidData,
            Error::ChunkTableOutOfBounds => ErrorKind::InvalidData,
        }
    }

    /// The error's kind.
    pub fn kind(&self) -> (k: ErrorKind)
        ensures
            k == self.spec_kind(),
    {
        match self {
            Error::TruncatedFooterExt => ErrorKind::InvalidData,
            Error::TruncatedManifest => ErrorKind::InvalidData,
            Error::BadManifestMagic => ErrorKind::InvalidData,
            Error::UnsupportedManifestVersion => ErrorKind::InvalidData,
            Error::BadManifestHeader => ErrorKind::InvalidData,
            Error::ManifestLengthMismatch => ErrorKind::InvalidData,
            Error::ManifestTooLarge => ErrorKind::InvalidData,
            Error::InvalidAverageChunkSize => ErrorKind::InvalidInput,
            Error::InvalidChunkBounds => ErrorKind::InvalidInput,
            Error::TruncatedRemoteHeader => ErrorKind::InvalidData,
            Error::BadRemoteMagic => ErrorKind::InvalidData,
            Error::UnsupportedRemoteVersion => ErrorKind::InvalidData,
            Error::ChunkTooLong => ErrorKind::InvalidData,
            Error::MetadataRegionOverflow => ErrorKind::InvalidData,
            Error::DowngradedSignatureBlock => ErrorKind::InvalidData,
            Error::IntegrityMismatch => ErrorKind::InvalidData,
            Error::InvalidSignatureSize => ErrorKind::InvalidData,
            Error::SignatureVerificationFailed => ErrorKind::InvalidData,
            Error::InconsistentSignatureState => ErrorKind::InvalidData,
            Error::UpdateSignatureRejected => ErrorKind::InvalidData,
            Error::UpdateMerkleMismatch => ErrorKind::InvalidData,
            Error::MissingSisrExtension => ErrorKind::InvalidData,
            Error::SisrManifestTooLarge => ErrorKind::InvalidData,
            Error::ChunkTableOffsetOverflow => ErrorKind::InvalidData,
            Error::ChunkTableOutOfBounds => ErrorKind::InvalidData,
        }
    }

    /// The text describing each error.
    pub open spec fn message_text(&self) -> Seq<char> {
        match self {
            Error::TruncatedFooterExt => "truncated SISR footer extension"@,
            Error::TruncatedManifest => "truncated delta manifest"@,
            Error::BadManifestMagic => "bad delta manifest magic"@,
            Error::UnsupportedManifestVersion => "unsupported delta manifest version"@,
            Error::BadManifestHeader => "malformed delta manifest header"@,
            Error::ManifestLengthMismatch => "delta manifest length does not match its chunk count"@,
            Error::ManifestTooLarge => "delta manifest exceeds the format capacity"@,
            Error::InvalidAverageChunkSize => "average chunk size must be at least 4 bytes"@,
            Error::InvalidChunkBounds => "chunk bounds must satisfy 0 < min <= avg <= max"@,
            Error::TruncatedRemoteHeader => "truncated remote manifest header"@,
            Error::BadRemoteMagic => "bad remote manifest magic"@,
            Error::UnsupportedRemoteVersion => "unsupported remote manifest version"@,
            Error::ChunkTooLong => "chunk length exceeds manifest capacity"@,
            Error::MetadataRegionOverflow => "metadata region overflows u64"@,
            Error::DowngradedSignatureBlock => "rejected: leftover signature block (downgraded signed binary)"@,
            Error::IntegrityMismatch => "payload integrity check failed (SHA-256 mismatch)"@,
            Error::InvalidSignatureSize => "invalid Ed25519 signature size"@,
            Error::SignatureVerificationFailed => "Ed25519 signature verification failed"@,
            Error::InconsistentSignatureState => "inconsistent signature state (flag/offset mismatch)"@,
            Error::UpdateSignatureRejected => "update manifest signature verification failed"@,
            Error::UpdateMerkleMismatch => "update manifest Merkle root does not match chunk table"@,
            Error::MissingSisrExtension => "SISR flag set but SISR footer extension is absent"@,
            Error::SisrManifestTooLarge => "SISR manifest exceeds maximum allowed size"@,
            Error::ChunkTableOffsetOverflow => "SISR chunk table offset overflow"@,
            Error::ChunkTableOutOfBounds => "SISR chunk table out of file bounds"@,
        }
    }

    /// Human-readable description of the error.
    pub fn message(&self) -> (r: &'static str)
        ensures
            r@ == self.message_text(),
    {
        match self {
            Error::TruncatedFooterExt => "truncated SISR footer extension",
            Error::TruncatedManifest => "truncated delta manifest",
            Error::BadManifestMagic => "bad delta manifest magic",
            Error::UnsupportedManifestVersion => "unsupported delta manifest version",
            Error::BadManifestHeader => "malformed delta manifest header",
            Error::ManifestLengthMismatch => "delta manifest length does not match its chunk count",
            Error::ManifestTooLarge => "delta manifest exceeds the format capacity",
            Error::InvalidAverageChunkSize => "average chunk size must be at least 4 bytes",
            Error::InvalidChunkBounds => "chunk bounds must satisfy 0 < min <= avg <= max",
            Error::TruncatedRemoteHeader => "truncated remote manifest header",
            Error::BadRemoteMagic => "bad remote manifest magic",
            Error::UnsupportedRemoteVersion => "unsupported remote manifest version",
            Error::ChunkTooLong => "chunk length exceeds manifest capacity",
            Error::MetadataRegionOverflow => "metadata region overflows u64",
            Error::DowngradedSignatureBlock => "rejected: leftover signature block (downgraded signed binary)",
            Error::IntegrityMismatch => "payload integrity check failed (SHA-256 mismatch)",
            Error::InvalidSignatureSize => "invalid Ed25519 signature size",
            Error::SignatureVerificationFailed => "Ed25519 signature verification failed",
            Error::InconsistentSignatureState => "inconsistent signature state (flag/offset mismatch)",
            Error::UpdateSignatureRejected => "update manifest signature verification failed",
            Error::UpdateMerkleMismatch => "update manifest Merkle root does not match chunk table",
            Error::MissingSisrExtension => "SISR flag set but SISR footer extension is absent",
            Error::SisrManifestTooLarge => "SISR manifest exceeds maximum allowed size",
            Error::ChunkTableOffsetOverflow => "SISR chunk table offset overflow",
            Error::ChunkTableOutOfBounds => "SISR chunk table out of file bounds",
        }
    }
}

} // verus!
