use dokchain::addressing::DocumentAddress;
use dokchain::contexts::CreateOrganization;
use dokchain::contexts::GetOrganization;
use dokchain::contexts::GetUserDocuments;
use dokchain::contexts::InitializeUser;
use dokchain::contexts::RevokeDocument;
use dokchain::contexts::UploadDocument;
use dokchain::contexts::UserRevokeAccess;
use dokchain::error::DocumentError;
use dokchain::events::RegistryEvent;
use dokchain::keys::PublicKey;
use dokchain::records::Organization;
use dokchain::registry::Registry;

fn key(n: u64) -> PublicKey {
    PublicKey { w0: n, w1: 0, w2: 0, w3: 0 }
}

fn doc_addr(organization: PublicKey, user: PublicKey, hash: &str) -> DocumentAddress {
    DocumentAddress { organization, user, ipfs_hash: hash.to_string() }
}

fn registry_with_org(authority: PublicKey, count: u64) -> Registry {
    Registry {
        organizations: vec![Organization {
            org_authority: authority,
            org_name: "Acme".to_string(),
            org_description: "".to_string(),
            created_at: 1,
            document_count: count,
        }],
        user_accounts: vec![],
        documents: vec![],
        events: vec![],
    }
}

fn upload(
    reg: &mut Registry,
    organization: PublicKey,
    authority: PublicKey,
    user: PublicKey,
    hash: &str,
    now: i64,
) -> Result<(), DocumentError> {
    reg.upload_document(
        UploadDocument { organization, authority },
        user,
        hash.to_string(),
        "passport".to_string(),
        "ID Card".to_string(),
        now,
    )
}

#[test]
fn create_organization_succeeds_and_emits() {
    let mut reg = Registry::new();
    let a = key(1);
    let r = reg.create_organization(
        CreateOrganization { authority: a },
        "Acme".to_string(),
        "a records org".to_string(),
        42,
    );
    assert_eq!(r, Ok(()));
    assert_eq!(reg.organizations.len(), 1);
    let org = &reg.organizations[0];
    assert_eq!(org.org_authority, a);
    assert_eq!(org.org_name, "Acme");
    assert_eq!(org.org_description, "a records org");
    assert_eq!(org.created_at, 42);
    assert_eq!(org.document_count, 0);
    assert_eq!(reg.events.len(), 1);
    match &reg.events[0] {
        RegistryEvent::OrganizationCreated(e) => {
            assert_eq!(e.org_authority, a);
            assert_eq!(e.org_name, "Acme");
        }
        _ => panic!("wrong event"),
    }
}

#[test]
fn create_organization_twice_fails_and_keeps_first() {
    let mut reg = Registry::new();
    let a = key(1);
    let r1 = reg.create_organization(
        CreateOrganization { authority: a },
        "First".to_string(),
        "one".to_string(),
        1,
    );
    assert_eq!(r1, Ok(()));
    let r2 = reg.create_organization(
        CreateOrganization { authority: a },
        "Second".to_string(),
        "two".to_string(),
        2,
    );
    assert_eq!(r2, Err(DocumentError::AlreadyExists));
    assert_eq!(reg.organizations.len(), 1);
    assert_eq!(reg.organizations[0].org_name, "First");
    assert_eq!(reg.organizations[0].org_description, "one");
    assert_eq!(reg.organizations[0].created_at, 1);
    assert_eq!(reg.events.len(), 1);
}

#[test]
fn create_organization_rejects_empty_name() {
    let mut reg = Registry::new();
    let r = reg.create_organization(
        CreateOrganization { authority: key(1) },
        "".to_string(),
        "desc".to_string(),
        1,
    );
    assert_eq!(r, Err(DocumentError::InvalidOrgName));
    assert_eq!(reg.organizations.len(), 0);
    assert_eq!(reg.events.len(), 0);
}

#[test]
fn create_organization_rejects_long_name() {
    let mut reg = Registry::new();
    let r = reg.create_organization(
        CreateOrganization { authority: key(1) },
        "a".repeat(101),
        "desc".to_string(),
        1,
    );
    assert_eq!(r, Err(DocumentError::InvalidOrgName));
    assert_eq!(reg.organizations.len(), 0);
}

#[test]
fn create_organization_accepts_name_at_bound() {
    let mut reg = Registry::new();
    let r = reg.create_organization(
        CreateOrganization { authority: key(1) },
        "a".repeat(100),
        "d".repeat(500),
        1,
    );
    assert_eq!(r, Ok(()));
}

#[test]
fn create_organization_rejects_long_description() {
    let mut reg = Registry::new();
    let r = reg.create_organization(
        CreateOrganization { authority: key(1) },
        "Acme".to_string(),
        "d".repeat(501),
        1,
    );
    assert_eq!(r, Err(DocumentError::InvalidDescription));
    assert_eq!(reg.organizations.len(), 0);
}

#[test]
fn upload_by_wrong_authority_is_unauthorized() {
    let a = key(1);
    let mallory = key(9);
    let mut reg = registry_with_org(a, 0);
    let r = upload(&mut reg, a, mallory, key(2), "Qm123", 5);
    assert_eq!(r, Err(DocumentError::Unauthorized));
    assert_eq!(reg.organizations[0].document_count, 0);
    assert_eq!(reg.documents.len(), 0);
    assert_eq!(reg.events.len(), 0);
}

#[test]
fn upload_to_missing_organization_is_not_found() {
    let mut reg = Registry::new();
    let r = upload(&mut reg, key(1), key(1), key(2), "Qm123", 5);
    assert_eq!(r, Err(DocumentError::NotFound));
    assert_eq!(reg.documents.len(), 0);
}

#[test]
fn upload_rejects_bad_strings() {
    let a = key(1);
    let u = key(2);
    let mut reg = registry_with_org(a, 0);
    let r = upload(&mut reg, a, a, u, "", 5);
    assert_eq!(r, Err(DocumentError::InvalidIPFSHash));
    let r = upload(&mut reg, a, a, u, &"h".repeat(101), 5);
    assert_eq!(r, Err(DocumentError::InvalidIPFSHash));
    let r = reg.upload_document(
        UploadDocument { organization: a, authority: a },
        u,
        "Qm123".to_string(),
        "t".repeat(51),
        "ID Card".to_string(),
        5,
    );
    assert_eq!(r, Err(DocumentError::InvalidDocumentType));
    let r = reg.upload_document(
        UploadDocument { organization: a, authority: a },
        u,
        "Qm123".to_string(),
        "passport".to_string(),
        "n".repeat(101),
        5,
    );
    assert_eq!(r, Err(DocumentError::InvalidDocumentName));
    assert_eq!(reg.documents.len(), 0);
    assert_eq!(reg.organizations[0].document_count, 0);
    assert_eq!(reg.events.len(), 0);
}

#[test]
fn upload_same_triple_twice_counts_once() {
    let a = key(1);
    let u = key(2);
    let mut reg = registry_with_org(a, 0);
    let r1 = upload(&mut reg, a, a, u, "Qm123", 5);
    assert_eq!(r1, Ok(()));
    let r2 = upload(&mut reg, a, a, u, "Qm123", 6);
    assert_eq!(r2, Err(DocumentError::AlreadyExists));
    assert_eq!(reg.documents.len(), 1);
    assert_eq!(reg.organizations[0].document_count, 1);
    assert_eq!(reg.events.len(), 1);
}

#[test]
fn upload_emits_document_uploaded() {
    let a = key(1);
    let u = key(2);
    let mut reg = registry_with_org(a, 0);
    upload(&mut reg, a, a, u, "Qm123", 5).unwrap();
    match &reg.events[0] {
        RegistryEvent::DocumentUploaded(e) => {
            assert_eq!(e.organization, a);
            assert_eq!(e.user, u);
            assert_eq!(e.ipfs_hash, "Qm123");
            assert_eq!(e.document_type, "passport");
        }
        _ => panic!("wrong event"),
    }
}

#[test]
fn upload_at_count_limit_overflows() {
    let a = key(1);
    let mut reg = registry_with_org(a, u64::MAX);
    let r = upload(&mut reg, a, a, key(2), "Qm123", 5);
    assert_eq!(r, Err(DocumentError::DocumentCountOverflow));
    assert_eq!(reg.documents.len(), 0);
    assert_eq!(reg.organizations[0].document_count, u64::MAX);
    assert_eq!(reg.events.len(), 0);
}

#[test]
fn initialize_user_once_then_already_exists() {
    let mut reg = Registry::new();
    let u = key(2);
    let r1 = reg.initialize_user(InitializeUser { user: u }, 3);
    assert_eq!(r1, Ok(()));
    assert_eq!(reg.user_accounts.len(), 1);
    assert_eq!(reg.user_accounts[0].user_address, u);
    assert_eq!(reg.user_accounts[0].created_at, 3);
    assert_eq!(reg.user_accounts[0].total_documents, 0);
    match &reg.events[0] {
        RegistryEvent::UserInitialized(e) => assert_eq!(e.user, u),
        _ => panic!("wrong event"),
    }
    let r2 = reg.initialize_user(InitializeUser { user: u }, 4);
    assert_eq!(r2, Err(DocumentError::AlreadyExists));
    assert_eq!(reg.user_accounts.len(), 1);
}

#[test]
fn revoke_then_user_revoke_already_revoked() {
    let a = key(1);
    let u = key(2);
    let mut reg = registry_with_org(a, 0);
    upload(&mut reg, a, a, u, "Qm123", 5).unwrap();
    let r1 = reg.revoke_document(
        RevokeDocument { document: doc_addr(a, u, "Qm123"), authority: a },
        8,
    );
    assert_eq!(r1, Ok(()));
    assert!(reg.documents[0].is_revoked);
    assert_eq!(reg.documents[0].revoked_at, Some(8));
    match &reg.events[1] {
        RegistryEvent::DocumentRevoked(e) => {
            assert_eq!(e.organization, a);
            assert_eq!(e.user, u);
            assert_eq!(e.ipfs_hash, "Qm123");
        }
        _ => panic!("wrong event"),
    }
    let r2 = reg.user_revoke_access(
        UserRevokeAccess { document: doc_addr(a, u, "Qm123"), user: u },
        9,
    );
    assert_eq!(r2, Err(DocumentError::DocumentAlreadyRevoked));
    assert_eq!(reg.documents[0].revoked_at, Some(8));
    assert_eq!(reg.events.len(), 2);
}

#[test]
fn user_revoke_then_org_revoke_already_revoked() {
    let a = key(1);
    let u = key(2);
    let mut reg = registry_with_org(a, 0);
    upload(&mut reg, a, a, u, "Qm123", 5).unwrap();
    let r1 = reg.user_revoke_access(
        UserRevokeAccess { document: doc_addr(a, u, "Qm123"), user: u },
        8,
    );
    assert_eq!(r1, Ok(()));
    assert!(reg.documents[0].is_revoked);
    assert_eq!(reg.documents[0].revoked_at, Some(8));
    match &reg.events[1] {
        RegistryEvent::UserRevokedAccess(e) => {
            assert_eq!(e.user, u);
            assert_eq!(e.ipfs_hash, "Qm123");
        }
        _ => panic!("wrong event"),
    }
    let r2 = reg.revoke_document(
        RevokeDocument { document: doc_addr(a, u, "Qm123"), authority: a },
        9,
    );
    assert_eq!(r2, Err(DocumentError::DocumentAlreadyRevoked));
    assert_eq!(reg.documents[0].revoked_at, Some(8));
    assert_eq!(reg.events.len(), 2);
}

#[test]
fn revoke_by_wrong_authority_is_unauthorized() {
    let a = key(1);
    let u = key(2);
    let mut reg = registry_with_org(a, 0);
    upload(&mut reg, a, a, u, "Qm123", 5).unwrap();
    let r = reg.revoke_document(
        RevokeDocument { document: doc_addr(a, u, "Qm123"), authority: key(9) },
        8,
    );
    assert_eq!(r, Err(DocumentError::Unauthorized));
    assert!(!reg.documents[0].is_revoked);
}

#[test]
fn user_revoke_by_wrong_user_is_unauthorized() {
    let a = key(1);
    let u = key(2);
    let mut reg = registry_with_org(a, 0);
    upload(&mut reg, a, a, u, "Qm123", 5).unwrap();
    let r = reg.user_revoke_access(
        UserRevokeAccess { document: doc_addr(a, u, "Qm123"), user: key(9) },
        8,
    );
    assert_eq!(r, Err(DocumentError::Unauthorized));
    assert!(!reg.documents[0].is_revoked);
}

#[test]
fn revoke_missing_document_is_not_found() {
    let a = key(1);
    let mut reg = registry_with_org(a, 0);
    let r = reg.revoke_document(
        RevokeDocument { document: doc_addr(a, key(2), "QmNope"), authority: a },
        8,
    );
    assert_eq!(r, Err(DocumentError::NotFound));
}

#[test]
fn get_user_documents_wrong_key_is_unauthorized() {
    let a = key(1);
    let u = key(2);
    let mut reg = registry_with_org(a, 0);
    reg.initialize_user(InitializeUser { user: u }, 3).unwrap();
    upload(&mut reg, a, a, u, "Qm123", 5).unwrap();
    let r = reg.get_user_documents(&GetUserDocuments {
        organization: a,
        document: doc_addr(a, u, "Qm123"),
        user_account: u,
        user: key(9),
    });
    assert!(matches!(r, Err(DocumentError::Unauthorized)));
}

#[test]
fn get_user_documents_returns_records() {
    let a = key(1);
    let u = key(2);
    let mut reg = registry_with_org(a, 0);
    reg.initialize_user(InitializeUser { user: u }, 3).unwrap();
    upload(&mut reg, a, a, u, "Qm123", 5).unwrap();
    let (org, doc) = reg
        .get_user_documents(&GetUserDocuments {
            organization: a,
            document: doc_addr(a, u, "Qm123"),
            user_account: u,
            user: u,
        })
        .unwrap();
    assert_eq!(org.org_authority, a);
    assert_eq!(doc.ipfs_hash, "Qm123");
    assert_eq!(doc.document_type, "passport");
    assert_eq!(doc.document_name, "ID Card");
    assert_eq!(doc.uploaded_at, 5);
}

#[test]
fn get_user_documents_missing_account_is_not_found() {
    let a = key(1);
    let reg = registry_with_org(a, 0);
    let r = reg.get_user_documents(&GetUserDocuments {
        organization: a,
        document: doc_addr(a, key(2), "Qm123"),
        user_account: key(2),
        user: key(2),
    });
    assert!(matches!(r, Err(DocumentError::NotFound)));
}

#[test]
fn get_organization_reads_back() {
    let a = key(1);
    let reg = registry_with_org(a, 7);
    let org = reg.get_organization(&GetOrganization { organization: a }).unwrap();
    assert_eq!(org.org_authority, a);
    assert_eq!(org.document_count, 7);
    let r = reg.get_organization(&GetOrganization { organization: key(9) });
    assert!(matches!(r, Err(DocumentError::NotFound)));
}

#[test]
fn full_lifecycle_scenario() {
    let a = key(10);
    let u = key(20);
    let mut reg = Registry::new();
    reg.create_organization(
        CreateOrganization { authority: a },
        "Org O".to_string(),
        "issuer".to_string(),
        1,
    )
    .unwrap();
    reg.initialize_user(InitializeUser { user: u }, 2).unwrap();
    let r = upload(&mut reg, a, a, u, "Qm123", 3);
    assert_eq!(r, Ok(()));
    let org = reg.get_organization(&GetOrganization { organization: a }).unwrap();
    assert_eq!(org.document_count, 1);
    assert!(!reg.documents[0].is_revoked);
    let r = reg.user_revoke_access(
        UserRevokeAccess { document: doc_addr(a, u, "Qm123"), user: u },
        4,
    );
    assert_eq!(r, Ok(()));
    assert!(reg.documents[0].is_revoked);
    assert!(reg.documents[0].revoked_at.is_some());
    let r = reg.revoke_document(
        RevokeDocument { document: doc_addr(a, u, "Qm123"), authority: a },
        5,
    );
    assert_eq!(r, Err(DocumentError::DocumentAlreadyRevoked));
}

#[test]
fn error_messages_are_stable() {
    assert_eq!(DocumentError::Unauthorized.message(), "Unauthorized access");
    assert_eq!(DocumentError::DocumentCountOverflow.message(), "Document count overflow");
    assert_eq!(DocumentError::AlreadyExists.message(), "Record already exists");
}
