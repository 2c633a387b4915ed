//! Error taxonomy of the registry core.
//!
//! Missing entities map to per-entity "unknown" variants, malformed input to
//! per-entity "invalid" variants; any unexpected internal failure is reported
//! as `InternalServerError` without surfacing internal detail.

use vstd::prelude::*;

verus! {

#[derive(Debug)]
pub enum RegistryError {
    InternalServerError,
    NotFound,
    BlobUnknown,
    ManifestUnknown,
    TagUnknown,
    UploadUnknown,
    DigestInvalid,
    RangeNotSatisfiable,
    Unsupported,
    ManifestInvalid,
    NameInvalid,
    Denied,
    Unauthorized(Option<String>),
}

impl RegistryError {
    /// Machine-readable error code, as exposed to clients.
    pub open spec fn spec_code(&self) -> Seq<char> {
        match self {
            RegistryError::InternalServerError => "INTERNAL_SERVER_ERROR"@,
            RegistryError::NotFound => "NOT_FOUND"@,
            RegistryError::BlobUnknown => "BLOB_UNKNOWN"@,
            RegistryError::ManifestUnknown => "MANIFEST_UNKNOWN"@,
            RegistryError::TagUnknown => "TAG_UNKNOWN"@,
            RegistryError::UploadUnknown => "BLOB_UPLOAD_UNKNOWN"@,
            RegistryError::DigestInvalid => "DIGEST_INVALID"@,
            RegistryError::RangeNotSatisfiable => "RANGE_NOT_SATISFIABLE"@,
            RegistryError::Unsupported => "UNSUPPORTED"@,
            RegistryError::ManifestInvalid => "MANIFEST_INVALID"@,
            RegistryError::NameInvalid => "NAME_INVALID"@,
            RegistryError::Denied => "DENIED"@,
            RegistryError::Unauthorized(_) => "UNAUTHORIZED"@,
        }
    }

    pub fn code(&self) -> (r: &'static str)
        ensures
            r@ == self.spec_code(),
    {
        match self {
            RegistryError::InternalServerError => "INTERNAL_SERVER_ERROR",
            RegistryError::NotFound => "NOT_FOUND",
            RegistryError::BlobUnknown => "BLOB_UNKNOWN",
            RegistryError::ManifestUnknown => "MANIFEST_UNKNOWN",
            RegistryError::TagUnknown => "TAG_UNKNOWN",
            RegistryError::UploadUnknown => "BLOB_UPLOAD_UNKNOWN",
            RegistryError::DigestInvalid => "DIGEST_INVALID",
            RegistryError::RangeNotSatisfiable => "RANGE_NOT_SATISFIABLE",
            RegistryError::Unsupported => "UNSUPPORTED",
            RegistryError::ManifestInvalid => "MANIFEST_INVALID",
            RegistryError::NameInvalid => "NAME_INVALID",
            RegistryError::Denied => "DENIED",
            RegistryError::Unauthorized(_) => "UNAUTHORIZED",
        }
    }

    /// HTTP status the transport layer should answer with.
    pub open spec fn spec_status(&self) -> u16 {
        match self {
            RegistryError::InternalServerError => 500,
            RegistryError::NotFound => 404,
            RegistryError::BlobUnknown => 404,
            RegistryError::ManifestUnknown => 404,
            RegistryError::TagUnknown => 404,
            RegistryError::UploadUnknown => 404,
            RegistryError::DigestInvalid => 400,
            RegistryError::RangeNotSatisfiable => 416,
            RegistryError::Unsupported => 405,
            RegistryError::ManifestInvalid => 400,
            RegistryError::NameInvalid => 400,
            RegistryError::Denied => 403,
            RegistryError::Unauthorized(_) => 401,
        }
    }

    pub fn status(&self) -> (r: u16)
        ensures
            r == self.spec_status(),
    {
        match self {
            RegistryError::InternalServerError => 500,
            RegistryError::NotFound => 404,
            RegistryError::BlobUnknown => 404,
            RegistryError::ManifestUnknown => 404,
            RegistryError::TagUnknown => 404,
            RegistryError::UploadUnknown => 404,
            RegistryError::DigestInvalid => 400,
            RegistryError::RangeNotSatisfiable => 416,
            RegistryError::Unsupported => 405,
            RegistryError::ManifestInvalid => 400,
            RegistryError::NameInvalid => 400,
            RegistryError::Denied => 403,
            RegistryError::Unauthorized(_) => 401,
        }
    }

    /// Human-readable message, as exposed to clients.
    pub open spec fn spec_message(&self) -> Seq<char> {
        match self {
            RegistryError::InternalServerError => "Internal server error"@,
            RegistryError::NotFound => "Resource not found"@,
            RegistryError::BlobUnknown => "Blob unknown to registry"@,
            RegistryError::ManifestUnknown => "Manifest unknown to registry"@,
            RegistryError::TagUnknown => "Tag unknown to registry"@,
            RegistryError::UploadUnknown => "Blob upload unknown to registry"@,
            RegistryError::DigestInvalid => "Provided digest did not match uploaded content"@,
            RegistryError::RangeNotSatisfiable => "Requested range not satisfiable"@,
            RegistryError::Unsupported => "The operation is unsupported."@,
            RegistryError::ManifestInvalid => "Manifest invalid"@,
            RegistryError::NameInvalid => "Invalid repository name"@,
            RegistryError::Denied => "Requested access to the resource is denied"@,
            RegistryError::Unauthorized(_) => "Unauthorized"@,
        }
    }

    pub fn message(&self) -> (r: &'static str)
        ensures
            r@ == self.spec_message(),
    {
        match self {
            RegistryError::InternalServerError => "Internal server error",
            RegistryError::NotFound => "Resource not found",
            RegistryError::BlobUnknown => "Blob unknown to registry",
            RegistryError::ManifestUnknown => "Manifest unknown to registry",
            RegistryError::TagUnknown => "Tag unknown to registry",
            RegistryError::UploadUnknown => "Blob upload unknown to registry",
            RegistryError::DigestInvalid => "Provided digest did not match uploaded content",
            RegistryError::RangeNotSatisfiable => "Requested range not satisfiable",
            RegistryError::Unsupported => "The operation is unsupported.",
            RegistryError::ManifestInvalid => "Manifest invalid",
            RegistryError::NameInvalid => "Invalid repository name",
            RegistryError::Denied => "Requested access to the resource is denied",
            RegistryError::Unauthorized(_) => "Unauthorized",
        }
    }
}

} // verus!
