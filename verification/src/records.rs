use vstd::prelude::*;

use crate::keys::PublicKey;

verus! {

/// An organization name is valid when it has 1 to 100 characters.
pub open spec fn valid_org_name(s: Seq<char>) -> bool {
    1 <= s.len() <= 100
}

/// An organization description is valid when it has at most 500 characters.
pub open spec fn valid_org_description(s: Seq<char>) -> bool {
    s.len() <= 500
}

/// A content locator is valid when it has 1 to 100 characters.
pub open spec fn valid_ipfs_hash(s: Seq<char>) -> bool {
    1 <= s.len() <= 100
}

/// A document type is valid when it has 1 to 50 characters.
pub open spec fn valid_document_type(s: Seq<char>) -> bool {
    1 <= s.len() <= 50
}

/// A document name is valid when it has 1 to 100 characters.
pub open spec fn valid_document_name(s: Seq<char>) -> bool {
    1 <= s.len() <= 100
}

/// An organization record. It is addressed by its authority key, so at most
/// one organization exists per authority.
pub struct Organization {
    /// The immutable owner; only this key may upload or revoke under the
    /// organization path.
    pub org_authority: PublicKey,
    pub org_name: String,
    pub org_description: String,
    pub created_at: i64,
    /// How many documents this organization has uploaded; monotonically
    /// non-decreasing, and an increment that would overflow fails the whole
    /// upload instead of wrapping.
    pub document_count: u64,
}

impl Organization {
    /// Field validity that creation establishes and nothing ever changes.
    pub open spec fn wf(self) -> bool {
        &&& valid_org_name(self.org_name@)
        &&& valid_org_description(self.org_description@)
    }
}

/// A user account record, addressed by its user key: at most one per user.
pub struct UserAccount {
    /// The immutable owner of the account.
    pub user_address: PublicKey,
    pub created_at: i64,
    /// Reserved: present in the stored layout but not incremented by any
    /// operation.
    pub total_documents: u64,
}

/// A document record, addressed by the triple of owning organization address,
/// subject user key and content locator. The triple is permanently unique:
/// a second upload sharing all three fields collides at the addressing layer
/// whatever the revocation state.
pub struct Document {
    /// Address of the owning organization record; immutable.
    pub organization: PublicKey,
    /// Key of the user the document was issued to; immutable.
    pub user: PublicKey,
    /// Locator of the content in off-system storage; immutable.
    pub ipfs_hash: String,
    pub document_type: String,
    pub document_name: String,
    pub uploaded_at: i64,
    /// Starts `false`; set to `true` exactly once, by whichever revocation
    /// path runs first. Never reset.
    pub is_revoked: bool,
    /// Set exactly when `is_revoked` is set; never cleared.
    pub revoked_at: Option<i64>,
}

impl Document {
    /// Field validity plus the one-shot shape of revocation: the timestamp is
    /// present exactly when the document is revoked.
    pub open spec fn wf(self) -> bool {
        &&& valid_ipfs_hash(self.ipfs_hash@)
        &&& valid_document_type(self.document_type@)
        &&& valid_document_name(self.document_name@)
        &&& (self.is_revoked <==> self.revoked_at is Some)
    }
}

} // verus!
