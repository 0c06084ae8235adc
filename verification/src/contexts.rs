use vstd::prelude::*;

use crate::addressing::DocumentAddress;
use crate::keys::PublicKey;

verus! {

/// Request to create an organization; the caller proves control of
/// `authority`, which becomes the organization's immutable owner and its
/// address seed.
pub struct CreateOrganization {
    pub authority: PublicKey,
}

/// Request to upload a document under an organization; the caller proves
/// control of `authority`.
pub struct UploadDocument {
    /// Address of the organization the document is uploaded under.
    pub organization: PublicKey,
    /// The caller's proven key; must match the organization's authority.
    pub authority: PublicKey,
}

/// Request to read an organization and a document on behalf of a user; the
/// caller proves control of `user`.
pub struct GetUserDocuments {
    pub organization: PublicKey,
    pub document: DocumentAddress,
    /// Address of the user account record whose stored key authorizes the
    /// read.
    pub user_account: PublicKey,
    /// The caller's proven key.
    pub user: PublicKey,
}

/// Request to revoke a document through the organization path; the caller
/// proves control of `authority`, which must match the authority of the
/// document's owning organization.
pub struct RevokeDocument {
    pub document: DocumentAddress,
    pub authority: PublicKey,
}

/// Request to create a user account; the caller proves control of `user`,
/// which becomes the account's immutable owner and its address seed.
pub struct InitializeUser {
    pub user: PublicKey,
}

/// Request to revoke a document through the subject path; the caller proves
/// control of `user`, which must match the key the document was issued to.
pub struct UserRevokeAccess {
    pub document: DocumentAddress,
    pub user: PublicKey,
}

/// Request to read an organization record; no authorization is required.
pub struct GetOrganization {
    pub organization: PublicKey,
}

} // verus!
