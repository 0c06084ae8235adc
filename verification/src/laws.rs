use vstd::prelude::*;

use crate::error::DocumentError;
use crate::keys::PublicKey;
use crate::records::valid_document_name;
use crate::records::valid_document_type;
use crate::records::valid_ipfs_hash;
use crate::records::valid_org_description;
use crate::records::valid_org_name;
use crate::registry::Registry;
use crate::registry::create_organization_post;
use crate::registry::revoke_document_post;
use crate::registry::upload_document_post;
use crate::registry::user_revoke_access_post;

verus! {

/// An organization is created exactly once per authority key: with valid
/// fields and a free address the first creation succeeds, and any later
/// creation naming the same authority key fails with `AlreadyExists` and
/// leaves every record, the first organization's fields included, unchanged.
pub proof fn lemma_create_organization_once(
    s0: Registry,
    s1: Registry,
    s2: Registry,
    authority: PublicKey,
    name1: Seq<char>,
    desc1: Seq<char>,
    now1: i64,
    r1: Result<(), DocumentError>,
    name2: Seq<char>,
    desc2: Seq<char>,
    now2: i64,
    r2: Result<(), DocumentError>,
)
    requires
        valid_org_name(name1),
        valid_org_description(desc1),
        !s0.contains_org(authority),
        create_organization_post(s0, s1, authority, name1, desc1, now1, r1),
        valid_org_name(name2),
        valid_org_description(desc2),
        create_organization_post(s1, s2, authority, name2, desc2, now2, r2),
    ensures
        r1 == Ok::<(), DocumentError>(()),
        r2 == Err::<(), DocumentError>(DocumentError::AlreadyExists),
        s2 == s1,
{
    // the record the first call wrote occupies the address, so the second
    // call finds it
    assert(s1.orgs() == s0.orgs().push(s1.orgs().last()));
    assert(s1.orgs()[s0.orgs().len() as int].org_authority == authority);
    assert(s1.contains_org(authority));
}

/// A creation whose name or description is out of bounds fails with the
/// matching validation error and creates no record.
pub proof fn lemma_create_organization_rejects_invalid(
    s0: Registry,
    s1: Registry,
    authority: PublicKey,
    name: Seq<char>,
    desc: Seq<char>,
    now: i64,
    r: Result<(), DocumentError>,
)
    requires
        !valid_org_name(name) || !valid_org_description(desc),
        create_organization_post(s0, s1, authority, name, desc, now, r),
    ensures
        s1 == s0,
        !valid_org_name(name) ==> r == Err::<(), DocumentError>(DocumentError::InvalidOrgName),
        valid_org_name(name) && !valid_org_description(desc)
            ==> r == Err::<(), DocumentError>(DocumentError::InvalidDescription),
{
}

/// An upload by a key that is not the organization's authority fails with
/// `Unauthorized` and leaves every record, the document count included,
/// unchanged.
pub proof fn lemma_upload_unauthorized(
    s0: Registry,
    s1: Registry,
    organization: PublicKey,
    authority: PublicKey,
    user: PublicKey,
    hash: Seq<char>,
    dtype: Seq<char>,
    dname: Seq<char>,
    now: i64,
    r: Result<(), DocumentError>,
)
    requires
        s0.contains_org(organization),
        s0.org_at(organization).org_authority != authority,
        upload_document_post(s0, s1, organization, authority, user, hash, dtype, dname, now, r),
    ensures
        r == Err::<(), DocumentError>(DocumentError::Unauthorized),
        s1 == s0,
{
}

/// Uploading the same (organization, user, locator) triple twice: the first
/// upload succeeds, the second fails with `AlreadyExists` whatever its type
/// and name fields, and the organization's document count reflects only the
/// first upload.
pub proof fn lemma_upload_duplicate(
    s0: Registry,
    s1: Registry,
    s2: Registry,
    organization: PublicKey,
    authority: PublicKey,
    user: PublicKey,
    hash: Seq<char>,
    dtype1: Seq<char>,
    dname1: Seq<char>,
    now1: i64,
    r1: Result<(), DocumentError>,
    dtype2: Seq<char>,
    dname2: Seq<char>,
    now2: i64,
    r2: Result<(), DocumentError>,
)
    requires
        s0.wf(),
        s1.wf(),
        s0.contains_org(organization),
        s0.org_at(organization).org_authority == authority,
        valid_ipfs_hash(hash),
        valid_document_type(dtype1),
        valid_document_name(dname1),
        !s0.contains_doc(organization, user, hash),
        s0.org_at(organization).document_count < u64::MAX,
        upload_document_post(s0, s1, organization, authority, user, hash, dtype1, dname1, now1, r1),
        valid_document_type(dtype2),
        valid_document_name(dname2),
        upload_document_post(s1, s2, organization, authority, user, hash, dtype2, dname2, now2, r2),
    ensures
        r1 == Ok::<(), DocumentError>(()),
        r2 == Err::<(), DocumentError>(DocumentError::AlreadyExists),
        s2 == s1,
        s1.org_at(organization).document_count == s0.org_at(organization).document_count + 1,
{
    let i0 = s0.org_index(organization);
    assert(0 <= i0 < s0.orgs().len() && s0.orgs()[i0].org_authority == organization);
    // the document the first call wrote occupies the triple's address
    assert(s1.docs() == s0.docs().push(s1.docs().last()));
    assert(Registry::doc_keyed(s1.docs()[s0.docs().len() as int], organization, user, hash));
    assert(s1.contains_doc(organization, user, hash));
    // the updated organization still occupies its address, with the count up
    // by one and the authority unchanged
    assert(s1.orgs()[i0].org_authority == organization);
    s1.lemma_org_index_agrees(organization, i0);
    assert(s1.org_at(organization).document_count == s0.org_at(organization).document_count + 1);
}

/// When an organization's document count has reached the top of its range, a
/// further upload under it fails with `DocumentCountOverflow` and creates no
/// document record.
pub proof fn lemma_upload_overflow(
    s0: Registry,
    s1: Registry,
    organization: PublicKey,
    authority: PublicKey,
    user: PublicKey,
    hash: Seq<char>,
    dtype: Seq<char>,
    dname: Seq<char>,
    now: i64,
    r: Result<(), DocumentError>,
)
    requires
        s0.contains_org(organization),
        s0.org_at(organization).org_authority == authority,
        valid_ipfs_hash(hash),
        valid_document_type(dtype),
        valid_document_name(dname),
        !s0.contains_doc(organization, user, hash),
        s0.org_at(organization).document_count == u64::MAX,
        upload_document_post(s0, s1, organization, authority, user, hash, dtype, dname, now, r),
    ensures
        r == Err::<(), DocumentError>(DocumentError::DocumentCountOverflow),
        s1 == s0,
{
}

/// The two revocation paths are mutually exclusive terminal transitions:
/// when the organization path revokes a document first, the subject path on
/// the same document afterwards fails with `DocumentAlreadyRevoked` and
/// changes nothing.
pub proof fn lemma_org_revoke_then_user_revoke(
    s0: Registry,
    s1: Registry,
    s2: Registry,
    organization: PublicKey,
    user: PublicKey,
    hash: Seq<char>,
    authority: PublicKey,
    caller: PublicKey,
    now1: i64,
    now2: i64,
    r1: Result<(), DocumentError>,
    r2: Result<(), DocumentError>,
)
    requires
        s0.wf(),
        s1.wf(),
        s0.contains_doc(organization, user, hash),
        s0.org_at(organization).org_authority == authority,
        !s0.doc_at(organization, user, hash).is_revoked,
        s0.doc_at(organization, user, hash).user == caller,
        revoke_document_post(s0, s1, organization, user, hash, authority, now1, r1),
        user_revoke_access_post(s1, s2, organization, user, hash, caller, now2, r2),
    ensures
        r1 == Ok::<(), DocumentError>(()),
        s1.doc_at(organization, user, hash).is_revoked,
        s1.doc_at(organization, user, hash).revoked_at == Some(now1),
        r2 == Err::<(), DocumentError>(DocumentError::DocumentAlreadyRevoked),
        s2 == s1,
{
    let i0 = s0.doc_index(organization, user, hash);
    assert(0 <= i0 < s0.docs().len() && Registry::doc_keyed(s0.docs()[i0], organization, user, hash));
    assert(s1.docs() == s0.docs().update(i0, s1.docs()[i0]));
    assert(Registry::doc_keyed(s1.docs()[i0], organization, user, hash));
    s1.lemma_doc_index_agrees(organization, user, hash, i0);
}

/// The mirror direction: when the subject path revokes a document first, the
/// organization path on the same document afterwards fails with
/// `DocumentAlreadyRevoked` and changes nothing.
pub proof fn lemma_user_revoke_then_org_revoke(
    s0: Registry,
    s1: Registry,
    s2: Registry,
    organization: PublicKey,
    user: PublicKey,
    hash: Seq<char>,
    caller: PublicKey,
    authority: PublicKey,
    now1: i64,
    now2: i64,
    r1: Result<(), DocumentError>,
    r2: Result<(), DocumentError>,
)
    requires
        s0.wf(),
        s1.wf(),
        s0.contains_doc(organization, user, hash),
        !s0.doc_at(organization, user, hash).is_revoked,
        s0.doc_at(organization, user, hash).user == caller,
        s0.contains_org(organization),
        s0.org_at(organization).org_authority == authority,
        user_revoke_access_post(s0, s1, organization, user, hash, caller, now1, r1),
        revoke_document_post(s1, s2, organization, user, hash, authority, now2, r2),
    ensures
        r1 == Ok::<(), DocumentError>(()),
        s1.doc_at(organization, user, hash).is_revoked,
        s1.doc_at(organization, user, hash).revoked_at == Some(now1),
        r2 == Err::<(), DocumentError>(DocumentError::DocumentAlreadyRevoked),
        s2 == s1,
{
    let i0 = s0.doc_index(organization, user, hash);
    assert(0 <= i0 < s0.docs().len() && Registry::doc_keyed(s0.docs()[i0], organization, user, hash));
    assert(s1.docs() == s0.docs().update(i0, s1.docs()[i0]));
    assert(Registry::doc_keyed(s1.docs()[i0], organization, user, hash));
    s1.lemma_doc_index_agrees(organization, user, hash, i0);
    // the organization records are untouched by the subject's revocation, so
    // the authority check of the organization path still resolves the same
    // record
    let j0 = s0.org_index(organization);
    assert(0 <= j0 < s0.orgs().len() && s0.orgs()[j0].org_authority == organization);
    assert(s1.orgs()[j0].org_authority == organization);
    s1.lemma_org_index_agrees(organization, j0);
}

} // verus!
