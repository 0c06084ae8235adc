use vstd::prelude::*;

use crate::keys::PublicKey;

verus! {

/// Emitted when an organization record is created.
pub struct OrganizationCreated {
    pub org_authority: PublicKey,
    pub org_name: String,
}

/// Emitted when a document record is created.
pub struct DocumentUploaded {
    pub organization: PublicKey,
    pub user: PublicKey,
    pub ipfs_hash: String,
    pub document_type: String,
}

/// Emitted when the organization authority revokes a document.
pub struct DocumentRevoked {
    pub organization: PublicKey,
    pub user: PublicKey,
    pub ipfs_hash: String,
}

/// Emitted when a user account record is created.
pub struct UserInitialized {
    pub user: PublicKey,
}

/// Emitted when the document's subject revokes their own document.
pub struct UserRevokedAccess {
    pub user: PublicKey,
    pub ipfs_hash: String,
}

/// One entry of the append-only event log. Every successful mutation appends
/// exactly one event; a failed operation appends none.
pub enum RegistryEvent {
    OrganizationCreated(OrganizationCreated),
    DocumentUploaded(DocumentUploaded),
    DocumentRevoked(DocumentRevoked),
    UserInitialized(UserInitialized),
    UserRevokedAccess(UserRevokedAccess),
}

} // verus!
