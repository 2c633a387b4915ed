//! Parameter records of the registry operations, as the transport layer
//! hands them to the core: plain names, session identifiers, digests and
//! references.

use vstd::prelude::*;

use crate::digest::Digest;
use crate::manifest::Reference;

verus! {

pub struct NewUploadParameters {
    pub name: String,
}

pub struct UploadParameters {
    pub name: String,
    pub id: u64,
}

pub struct ManifestParameters {
    pub name: String,
    pub reference: Reference,
}

pub struct ReferrerParameters {
    pub name: String,
    pub reference: Digest,
}

pub struct TagsParameters {
    pub name: String,
}

pub struct BlobParameters {
    pub name: String,
    pub digest: Digest,
}

} // verus!
