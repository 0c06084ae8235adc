use vstd::prelude::*;

use crate::contexts::CreateOrganization;
use crate::contexts::GetOrganization;
use crate::contexts::GetUserDocuments;
use crate::contexts::InitializeUser;
use crate::contexts::RevokeDocument;
use crate::contexts::UploadDocument;
use crate::contexts::UserRevokeAccess;
use crate::error::DocumentError;
use crate::events::DocumentRevoked;
use crate::events::DocumentUploaded;
use crate::events::OrganizationCreated;
use crate::events::RegistryEvent;
use crate::events::UserInitialized;
use crate::events::UserRevokedAccess;
use crate::keys::PublicKey;
use crate::records::Document;
use crate::records::Organization;
use crate::records::UserAccount;
use crate::records::valid_document_name;
use crate::records::valid_document_type;
use crate::records::valid_ipfs_hash;
use crate::records::valid_org_description;
use crate::records::valid_org_name;
use vstd::string::StrSliceExecFns;

verus! {

/// `post` extends `pre` by exactly one element.
pub open spec fn appends_one<T>(pre: Seq<T>, post: Seq<T>) -> bool {
    post == pre.push(post.last())
}

proof fn lemma_remove_insert_is_update<T>(s: Seq<T>, i: int, v: T)
    requires
        0 <= i < s.len(),
    ensures
        s.remove(i).insert(i, v) == s.update(i, v),
{
    let lhs = s.remove(i).insert(i, v);
    let rhs = s.update(i, v);
    assert forall|j: int| 0 <= j < rhs.len() implies lhs[j] == rhs[j] by {
        if j < i {
        } else if j == i {
        } else {
        }
    }
    assert(lhs =~= rhs);
}

proof fn lemma_org_uniqueness_framed(pre: Registry, post: Registry)
    requires
        forall|i: int, j: int|
            0 <= i < j < pre.orgs().len()
                ==> (#[trigger] pre.orgs()[i]).org_authority != (#[trigger] pre.orgs()[j]).org_authority,
        post.orgs() == pre.orgs(),
    ensures
        forall|i: int, j: int|
            0 <= i < j < post.orgs().len()
                ==> (#[trigger] post.orgs()[i]).org_authority != (#[trigger] post.orgs()[j]).org_authority,
{
    assert forall|i: int, j: int| 0 <= i < j < post.orgs().len()
        implies (post.orgs()[i]).org_authority != (post.orgs()[j]).org_authority by {
        assert(post.orgs()[i] == pre.orgs()[i]);
        assert(post.orgs()[j] == pre.orgs()[j]);
    }
}

proof fn lemma_user_uniqueness_framed(pre: Registry, post: Registry)
    requires
        forall|i: int, j: int|
            0 <= i < j < pre.users().len()
                ==> (#[trigger] pre.users()[i]).user_address != (#[trigger] pre.users()[j]).user_address,
        post.users() == pre.users(),
    ensures
        forall|i: int, j: int|
            0 <= i < j < post.users().len()
                ==> (#[trigger] post.users()[i]).user_address != (#[trigger] post.users()[j]).user_address,
{
    assert forall|i: int, j: int| 0 <= i < j < post.users().len()
        implies (post.users()[i]).user_address != (post.users()[j]).user_address by {
        assert(post.users()[i] == pre.users()[i]);
        assert(post.users()[j] == pre.users()[j]);
    }
}

proof fn lemma_wf_framed(pre: Registry, post: Registry)
    requires
        pre.wf(),
        post.orgs() == pre.orgs(),
        post.users() == pre.users(),
        post.docs() == pre.docs(),
    ensures
        post.wf(),
{
    lemma_org_uniqueness_framed(pre, post);
    lemma_user_uniqueness_framed(pre, post);
    assert forall|i: int, j: int| 0 <= i < j < post.docs().len()
        implies !Registry::doc_keyed(post.docs()[j], (post.docs()[i]).organization,
            post.docs()[i].user, post.docs()[i].ipfs_hash@) by {
        assert(post.docs()[i] == pre.docs()[i]);
        assert(post.docs()[j] == pre.docs()[j]);
    }
    assert forall|i: int| 0 <= i < post.orgs().len() implies (post.orgs()[i]).wf() by {
        assert(post.orgs()[i] == pre.orgs()[i]);
    }
    assert forall|i: int| 0 <= i < post.docs().len() implies (post.docs()[i]).wf() by {
        assert(post.docs()[i] == pre.docs()[i]);
    }
    assert forall|i: int| 0 <= i < post.docs().len()
        implies post.contains_org((post.docs()[i]).organization) by {
        assert(pre.contains_org(pre.docs()[i].organization));
        let w = choose|w: int|
            0 <= w < pre.orgs().len() && pre.orgs()[w].org_authority == pre.docs()[i].organization;
        assert(post.orgs()[w] == pre.orgs()[w]);
    }
}

/// The record store: every organization, user account and document record,
/// keyed by derived address, together with the append-only event log.
///
/// Addressing is by namespace and owner keys: an organization record is
/// addressed by its authority key, a user account by its user key, and a
/// document by its (organization, user, locator) triple. Each create
/// operation inserts only if its derived address is free, so `wf` keeps the
/// addresses pairwise distinct within each namespace.
pub struct Registry {
    pub organizations: Vec<Organization>,
    pub user_accounts: Vec<UserAccount>,
    pub documents: Vec<Document>,
    pub events: Vec<RegistryEvent>,
}

/// What `create_organization` promises: the result and the state after, as a
/// function of the state before and the request.
pub open spec fn create_organization_post(
    pre: Registry,
    post: Registry,
    authority: PublicKey,
    org_name: Seq<char>,
    org_description: Seq<char>,
    now: i64,
    r: Result<(), DocumentError>,
) -> bool {
    if !valid_org_name(org_name) {
        r == Err::<(), DocumentError>(DocumentError::InvalidOrgName) && post == pre
    } else if !valid_org_description(org_description) {
        r == Err::<(), DocumentError>(DocumentError::InvalidDescription) && post == pre
    } else if pre.contains_org(authority) {
        r == Err::<(), DocumentError>(DocumentError::AlreadyExists) && post == pre
    } else {
        &&& r == Ok::<(), DocumentError>(())
        &&& appends_one(pre.orgs(), post.orgs())
        &&& ({
            let o = post.orgs().last();
            &&& o.org_authority == authority
            &&& o.org_name@ == org_name
            &&& o.org_description@ == org_description
            &&& o.created_at == now
            &&& o.document_count == 0
        })
        &&& post.users() == pre.users()
        &&& post.docs() == pre.docs()
        &&& appends_one(pre.event_log(), post.event_log())
        &&& (post.event_log().last() matches RegistryEvent::OrganizationCreated(e)
            && e.org_authority == authority && e.org_name@ == org_name)
    }
}

/// What `initialize_user` promises.
pub open spec fn initialize_user_post(
    pre: Registry,
    post: Registry,
    user: PublicKey,
    now: i64,
    r: Result<(), DocumentError>,
) -> bool {
    if pre.contains_user(user) {
        r == Err::<(), DocumentError>(DocumentError::AlreadyExists) && post == pre
    } else {
        &&& r == Ok::<(), DocumentError>(())
        &&& appends_one(pre.users(), post.users())
        &&& ({
            let u = post.users().last();
            &&& u.user_address == user
            &&& u.created_at == now
            &&& u.total_documents == 0
        })
        &&& post.orgs() == pre.orgs()
        &&& post.docs() == pre.docs()
        &&& appends_one(pre.event_log(), post.event_log())
        &&& (post.event_log().last() matches RegistryEvent::UserInitialized(e) && e.user == user)
    }
}

/// What `upload_document` promises.
pub open spec fn upload_document_post(
    pre: Registry,
    post: Registry,
    organization: PublicKey,
    authority: PublicKey,
    user: PublicKey,
    ipfs_hash: Seq<char>,
    document_type: Seq<char>,
    document_name: Seq<char>,
    now: i64,
    r: Result<(), DocumentError>,
) -> bool {
    if !pre.contains_org(organization) {
        r == Err::<(), DocumentError>(DocumentError::NotFound) && post == pre
    } else if pre.org_at(organization).org_authority != authority {
        r == Err::<(), DocumentError>(DocumentError::Unauthorized) && post == pre
    } else if !valid_ipfs_hash(ipfs_hash) {
        r == Err::<(), DocumentError>(DocumentError::InvalidIPFSHash) && post == pre
    } else if !valid_document_type(document_type) {
        r == Err::<(), DocumentError>(DocumentError::InvalidDocumentType) && post == pre
    } else if !valid_document_name(document_name) {
        r == Err::<(), DocumentError>(DocumentError::InvalidDocumentName) && post == pre
    } else if pre.contains_doc(organization, user, ipfs_hash) {
        r == Err::<(), DocumentError>(DocumentError::AlreadyExists) && post == pre
    } else if pre.org_at(organization).document_count == u64::MAX {
        r == Err::<(), DocumentError>(DocumentError::DocumentCountOverflow) && post == pre
    } else {
        &&& r == Ok::<(), DocumentError>(())
        &&& appends_one(pre.docs(), post.docs())
        &&& ({
            let d = post.docs().last();
            &&& d.organization == organization
            &&& d.user == user
            &&& d.ipfs_hash@ == ipfs_hash
            &&& d.document_type@ == document_type
            &&& d.document_name@ == document_name
            &&& d.uploaded_at == now
            &&& d.is_revoked == false
            &&& d.revoked_at is None
        })
        &&& post.orgs() == pre.orgs().update(pre.org_index(organization), post.orgs()[pre.org_index(organization)])
        &&& ({
            let o2 = post.orgs()[pre.org_index(organization)];
            let o1 = pre.org_at(organization);
            &&& o2.document_count == o1.document_count + 1
            &&& o2.org_authority == o1.org_authority
            &&& o2.org_name == o1.org_name
            &&& o2.org_description == o1.org_description
            &&& o2.created_at == o1.created_at
        })
        &&& post.users() == pre.users()
        &&& appends_one(pre.event_log(), post.event_log())
        &&& (post.event_log().last() matches RegistryEvent::DocumentUploaded(e)
            && e.organization == organization && e.user == user
            && e.ipfs_hash@ == ipfs_hash && e.document_type@ == document_type)
    }
}

/// The one revocation transition, shared by both authorization paths: the
/// document at the triple flips to revoked with `revoked_at = now`; every
/// other document field, and every other record, stays as it was.
pub open spec fn revokes_doc(
    pre: Registry,
    post: Registry,
    organization: PublicKey,
    user: PublicKey,
    ipfs_hash: Seq<char>,
    now: i64,
) -> bool {
    let i = pre.doc_index(organization, user, ipfs_hash);
    &&& post.docs() == pre.docs().update(i, post.docs()[i])
    &&& ({
        let d2 = post.docs()[i];
        let d1 = pre.docs()[i];
        &&& d2.is_revoked == true
        &&& d2.revoked_at == Some(now)
        &&& d2.organization == d1.organization
        &&& d2.user == d1.user
        &&& d2.ipfs_hash == d1.ipfs_hash
        &&& d2.document_type == d1.document_type
        &&& d2.document_name == d1.document_name
        &&& d2.uploaded_at == d1.uploaded_at
    })
}

/// What `revoke_document` (the organization path) promises.
pub open spec fn revoke_document_post(
    pre: Registry,
    post: Registry,
    organization: PublicKey,
    user: PublicKey,
    ipfs_hash: Seq<char>,
    authority: PublicKey,
    now: i64,
    r: Result<(), DocumentError>,
) -> bool {
    if !pre.contains_doc(organization, user, ipfs_hash) {
        r == Err::<(), DocumentError>(DocumentError::NotFound) && post == pre
    } else if pre.org_at(organization).org_authority != authority {
        r == Err::<(), DocumentError>(DocumentError::Unauthorized) && post == pre
    } else if pre.doc_at(organization, user, ipfs_hash).is_revoked {
        r == Err::<(), DocumentError>(DocumentError::DocumentAlreadyRevoked) && post == pre
    } else {
        &&& r == Ok::<(), DocumentError>(())
        &&& revokes_doc(pre, post, organization, user, ipfs_hash, now)
        &&& post.orgs() == pre.orgs()
        &&& post.users() == pre.users()
        &&& appends_one(pre.event_log(), post.event_log())
        &&& (post.event_log().last() matches RegistryEvent::DocumentRevoked(e)
            && e.organization == organization && e.user == user && e.ipfs_hash@ == ipfs_hash)
    }
}

/// What `user_revoke_access` (the subject path) promises.
pub open spec fn user_revoke_access_post(
    pre: Registry,
    post: Registry,
    organization: PublicKey,
    user: PublicKey,
    ipfs_hash: Seq<char>,
    caller: PublicKey,
    now: i64,
    r: Result<(), DocumentError>,
) -> bool {
    if !pre.contains_doc(organization, user, ipfs_hash) {
        r == Err::<(), DocumentError>(DocumentError::NotFound) && post == pre
    } else if pre.doc_at(organization, user, ipfs_hash).user != caller {
        r == Err::<(), DocumentError>(DocumentError::Unauthorized) && post == pre
    } else if pre.doc_at(organization, user, ipfs_hash).is_revoked {
        r == Err::<(), DocumentError>(DocumentError::DocumentAlreadyRevoked) && post == pre
    } else {
        &&& r == Ok::<(), DocumentError>(())
        &&& revokes_doc(pre, post, organization, user, ipfs_hash, now)
        &&& post.orgs() == pre.orgs()
        &&& post.users() == pre.users()
        &&& appends_one(pre.event_log(), post.event_log())
        &&& (post.event_log().last() matches RegistryEvent::UserRevokedAccess(e)
            && e.user == caller && e.ipfs_hash@ == ipfs_hash)
    }
}

impl Registry {
    pub open spec fn orgs(self) -> Seq<Organization> {
        self.organizations@
    }

    pub open spec fn users(self) -> Seq<UserAccount> {
        self.user_accounts@
    }

    pub open spec fn docs(self) -> Seq<Document> {
        self.documents@
    }

    pub open spec fn event_log(self) -> Seq<RegistryEvent> {
        self.events@
    }

    /// An organization record occupies the address derived from `addr`.
    pub open spec fn contains_org(self, addr: PublicKey) -> bool {
        exists|i: int| 0 <= i < self.orgs().len() && self.orgs()[i].org_authority == addr
    }

    pub open spec fn org_index(self, addr: PublicKey) -> int {
        choose|i: int| 0 <= i < self.orgs().len() && self.orgs()[i].org_authority == addr
    }

    /// The organization record at the address derived from `addr`.
    pub open spec fn org_at(self, addr: PublicKey) -> Organization
        recommends
            self.contains_org(addr),
    {
        self.orgs()[self.org_index(addr)]
    }

    /// A user account record occupies the address derived from `addr`.
    pub open spec fn contains_user(self, addr: PublicKey) -> bool {
        exists|i: int| 0 <= i < self.users().len() && self.users()[i].user_address == addr
    }

    pub open spec fn user_index(self, addr: PublicKey) -> int {
        choose|i: int| 0 <= i < self.users().len() && self.users()[i].user_address == addr
    }

    /// The user account record at the address derived from `addr`.
    pub open spec fn user_at(self, addr: PublicKey) -> UserAccount
        recommends
            self.contains_user(addr),
    {
        self.users()[self.user_index(addr)]
    }

    /// The document `d` occupies the address derived from the
    /// (organization, user, locator) triple.
    pub open spec fn doc_keyed(d: Document, org: PublicKey, user: PublicKey, hash: Seq<char>) -> bool {
        d.organization == org && d.user == user && d.ipfs_hash@ == hash
    }

    /// A document record occupies the address derived from the triple.
    pub open spec fn contains_doc(self, org: PublicKey, user: PublicKey, hash: Seq<char>) -> bool {
        exists|i: int| 0 <= i < self.docs().len() && Self::doc_keyed(#[trigger] self.docs()[i], org, user, hash)
    }

    pub open spec fn doc_index(self, org: PublicKey, user: PublicKey, hash: Seq<char>) -> int {
        choose|i: int| 0 <= i < self.docs().len() && Self::doc_keyed(#[trigger] self.docs()[i], org, user, hash)
    }

    /// The document record at the address derived from the triple.
    pub open spec fn doc_at(self, org: PublicKey, user: PublicKey, hash: Seq<char>) -> Document
        recommends
            self.contains_doc(org, user, hash),
    {
        self.docs()[self.doc_index(org, user, hash)]
    }

    /// Well-formedness of the whole store: addresses are pairwise distinct
    /// within each namespace, every stored record satisfies its field
    /// validity, and every document's owning organization exists.
    pub open spec fn wf(self) -> bool {
        &&& forall|i: int, j: int|
            0 <= i < j < self.orgs().len()
                ==> (#[trigger] self.orgs()[i]).org_authority != (#[trigger] self.orgs()[j]).org_authority
        &&& forall|i: int, j: int|
            0 <= i < j < self.users().len()
                ==> (#[trigger] self.users()[i]).user_address != (#[trigger] self.users()[j]).user_address
        &&& forall|i: int, j: int|
            0 <= i < j < self.docs().len()
                ==> !Self::doc_keyed(#[trigger] self.docs()[j], (#[trigger] self.docs()[i]).organization,
                    self.docs()[i].user, self.docs()[i].ipfs_hash@)
        &&& forall|i: int| 0 <= i < self.orgs().len() ==> (#[trigger] self.orgs()[i]).wf()
        &&& forall|i: int| 0 <= i < self.docs().len() ==> (#[trigger] self.docs()[i]).wf()
        &&& forall|i: int| 0 <= i < self.docs().len() ==> self.contains_org((#[trigger] self.docs()[i]).organization)
    }

    /// With addresses unique, any index whose record is keyed by `addr` is
    /// the one that `org_at` reads.
    pub proof fn lemma_org_index_agrees(self, addr: PublicKey, i: int)
        requires
            self.wf(),
            0 <= i < self.orgs().len(),
            self.orgs()[i].org_authority == addr,
        ensures
            self.contains_org(addr),
            self.org_index(addr) == i,
            self.org_at(addr) == self.orgs()[i],
    {
        assert(self.contains_org(addr));
        let j = self.org_index(addr);
        if j < i {
            assert(self.orgs()[j].org_authority != self.orgs()[i].org_authority);
        } else if i < j {
            assert(self.orgs()[i].org_authority != self.orgs()[j].org_authority);
        }
    }

    /// With addresses unique, any index whose record is keyed by `addr` is
    /// the one that `user_at` reads.
    pub proof fn lemma_user_index_agrees(self, addr: PublicKey, i: int)
        requires
            self.wf(),
            0 <= i < self.users().len(),
            self.users()[i].user_address == addr,
        ensures
            self.contains_user(addr),
            self.user_index(addr) == i,
            self.user_at(addr) == self.users()[i],
    {
        assert(self.contains_user(addr));
        let j = self.user_index(addr);
        if j < i {
            assert(self.users()[j].user_address != self.users()[i].user_address);
        } else if i < j {
            assert(self.users()[i].user_address != self.users()[j].user_address);
        }
    }

    /// With addresses unique, any index whose record is keyed by the triple
    /// is the one that `doc_at` reads.
    pub proof fn lemma_doc_index_agrees(self, org: PublicKey, user: PublicKey, hash: Seq<char>, i: int)
        requires
            self.wf(),
            0 <= i < self.docs().len(),
            Self::doc_keyed(self.docs()[i], org, user, hash),
        ensures
            self.contains_doc(org, user, hash),
            self.doc_index(org, user, hash) == i,
            self.doc_at(org, user, hash) == self.docs()[i],
    {
        assert(self.contains_doc(org, user, hash));
        let j = self.doc_index(org, user, hash);
        if j < i {
            assert(!Self::doc_keyed(self.docs()[i], self.docs()[j].organization, self.docs()[j].user,
                self.docs()[j].ipfs_hash@));
        } else if i < j {
            assert(!Self::doc_keyed(self.docs()[j], self.docs()[i].organization, self.docs()[i].user,
                self.docs()[i].ipfs_hash@));
        }
    }

    /// An empty store: no records, no events.
    pub fn new() -> (r: Registry)
        ensures
            r.wf(),
            r.orgs() == Seq::<Organization>::empty(),
            r.users() == Seq::<UserAccount>::empty(),
            r.docs() == Seq::<Document>::empty(),
            r.event_log() == Seq::<RegistryEvent>::empty(),
    {
        let r = Registry {
            organizations: Vec::new(),
            user_accounts: Vec::new(),
            documents: Vec::new(),
            events: Vec::new(),
        };
        proof {
            assert(r.orgs() =~= Seq::<Organization>::empty());
            assert(r.users() =~= Seq::<UserAccount>::empty());
            assert(r.docs() =~= Seq::<Document>::empty());
            assert(r.event_log() =~= Seq::<RegistryEvent>::empty());
        }
        r
    }

    fn find_org_index(&self, addr: &PublicKey) -> (r: Option<usize>)
        ensures
            match r {
                Some(i) => i < self.orgs().len() && self.orgs()[i as int].org_authority == *addr,
                None => !self.contains_org(*addr),
            },
    {
        let mut i: usize = 0;
        while i < self.organizations.len()
            invariant
                i <= self.orgs().len(),
                forall|k: int| 0 <= k < i ==> (#[trigger] self.orgs()[k]).org_authority != *addr,
            decreases self.orgs().len() - i,
        {
            if self.organizations[i].org_authority == *addr {
                return Some(i);
            }
            i = i + 1;
        }
        None
    }

    fn find_user_index(&self, addr: &PublicKey) -> (r: Option<usize>)
        ensures
            match r {
                Some(i) => i < self.users().len() && self.users()[i as int].user_address == *addr,
                None => !self.contains_user(*addr),
            },
    {
        let mut i: usize = 0;
        while i < self.user_accounts.len()
            invariant
                i <= self.users().len(),
                forall|k: int| 0 <= k < i ==> (#[trigger] self.users()[k]).user_address != *addr,
            decreases self.users().len() - i,
        {
            if self.user_accounts[i].user_address == *addr {
                return Some(i);
            }
            i = i + 1;
        }
        None
    }

    fn find_doc_index(&self, org: &PublicKey, user: &PublicKey, hash: &String) -> (r: Option<usize>)
        ensures
            match r {
                Some(i) => i < self.docs().len() && Self::doc_keyed(self.docs()[i as int], *org, *user, hash@),
                None => !self.contains_doc(*org, *user, hash@),
            },
    {
        let mut i: usize = 0;
        while i < self.documents.len()
            invariant
                i <= self.docs().len(),
                forall|k: int| 0 <= k < i ==> !Self::doc_keyed(#[trigger] self.docs()[k], *org, *user, hash@),
            decreases self.docs().len() - i,
        {
            let d = &self.documents[i];
            if d.organization == *org && d.user == *user && d.ipfs_hash == *hash {
                return Some(i);
            }
            i = i + 1;
        }
        None
    }

    /// Create the organization record addressed by the caller's authority
    /// key. Validates the name and description bounds, refuses an occupied
    /// address, and on success appends the record with a zero document count
    /// and emits `OrganizationCreated`.
    pub fn create_organization(
        &mut self,
        ctx: CreateOrganization,
        org_name: String,
        org_description: String,
        now: i64,
    ) -> (r: Result<(), DocumentError>)
        requires
            old(self).wf(),
        ensures
            final(self).wf(),
            create_organization_post(*old(self), *final(self), ctx.authority, org_name@, org_description@, now, r),
    {
        let name_len = org_name.as_str().unicode_len();
        if name_len < 1 || name_len > 100 {
            return Err(DocumentError::InvalidOrgName);
        }
        let desc_len = org_description.as_str().unicode_len();
        if desc_len > 500 {
            return Err(DocumentError::InvalidDescription);
        }
        match self.find_org_index(&ctx.authority) {
            Some(_) => {
                return Err(DocumentError::AlreadyExists);
            },
            None => {},
        }
        let event_name = org_name.clone();
        let org = Organization {
            org_authority: ctx.authority,
            org_name,
            org_description,
            created_at: now,
            document_count: 0,
        };
        self.organizations.push(org);
        self.events.push(RegistryEvent::OrganizationCreated(OrganizationCreated {
            org_authority: ctx.authority,
            org_name: event_name,
        }));
        proof {
            let pre = *old(self);
            lemma_user_uniqueness_framed(pre, *self);
            assert(self.orgs() == pre.orgs().push(org));
            assert(self.orgs().last() == org);
            assert forall|i: int, j: int| 0 <= i < j < self.orgs().len()
                implies (self.orgs()[i]).org_authority != (self.orgs()[j]).org_authority by {
                if j < pre.orgs().len() {
                    assert(self.orgs()[i] == pre.orgs()[i]);
                    assert(self.orgs()[j] == pre.orgs()[j]);
                } else {
                    assert(self.orgs()[j] == org);
                    assert(self.orgs()[i] == pre.orgs()[i]);
                    if pre.orgs()[i].org_authority == ctx.authority {
                        assert(pre.contains_org(ctx.authority));
                    }
                }
            }
            assert forall|k: int| 0 <= k < self.orgs().len() implies (self.orgs()[k]).wf() by {
                if k < pre.orgs().len() {
                    assert(self.orgs()[k] == pre.orgs()[k]);
                } else {
                    assert(self.orgs()[k] == org);
                }
            }
            assert forall|k: int| 0 <= k < self.docs().len()
                implies self.contains_org((self.docs()[k]).organization) by {
                assert(pre.contains_org(pre.docs()[k].organization));
                let w = choose|w: int|
                    0 <= w < pre.orgs().len() && pre.orgs()[w].org_authority == pre.docs()[k].organization;
                assert(self.orgs()[w] == pre.orgs()[w]);
            }
        }
        Ok(())
    }

    /// Create the user account record addressed by the caller's key. Refuses
    /// an occupied address; on success appends the record and emits
    /// `UserInitialized`.
    pub fn initialize_user(&mut self, ctx: InitializeUser, now: i64) -> (r: Result<(), DocumentError>)
        requires
            old(self).wf(),
        ensures
            final(self).wf(),
            initialize_user_post(*old(self), *final(self), ctx.user, now, r),
    {
        match self.find_user_index(&ctx.user) {
            Some(_) => {
                return Err(DocumentError::AlreadyExists);
            },
            None => {},
        }
        let account = UserAccount { user_address: ctx.user, created_at: now, total_documents: 0 };
        self.user_accounts.push(account);
        self.events.push(RegistryEvent::UserInitialized(UserInitialized { user: ctx.user }));
        proof {
            let pre = *old(self);
            lemma_org_uniqueness_framed(pre, *self);
            assert(self.users() == pre.users().push(account));
            assert(self.users().last() == account);
            assert forall|i: int, j: int| 0 <= i < j < self.users().len()
                implies (self.users()[i]).user_address != (self.users()[j]).user_address by {
                if j < pre.users().len() {
                    assert(self.users()[i] == pre.users()[i]);
                    assert(self.users()[j] == pre.users()[j]);
                } else {
                    assert(self.users()[j] == account);
                    assert(self.users()[i] == pre.users()[i]);
                    if pre.users()[i].user_address == ctx.user {
                        assert(pre.contains_user(ctx.user));
                    }
                }
            }
            assert forall|k: int| 0 <= k < self.docs().len()
                implies self.contains_org((self.docs()[k]).organization) by {
                assert(pre.contains_org(pre.docs()[k].organization));
                let w = choose|w: int|
                    0 <= w < pre.orgs().len() && pre.orgs()[w].org_authority == pre.docs()[k].organization;
                assert(self.orgs()[w] == pre.orgs()[w]);
            }
        }
        Ok(())
    }

    /// Upload a document for a user under an organization. Only the
    /// organization's authority may upload; the locator, type and name must
    /// be within bounds; the document address must be free; and the
    /// organization's document count must have room to grow. On success the
    /// record is appended, the count is incremented, and `DocumentUploaded`
    /// is emitted; on any failure nothing changes.
    pub fn upload_document(
        &mut self,
        ctx: UploadDocument,
        user_address: PublicKey,
        ipfs_hash: String,
        document_type: String,
        document_name: String,
        now: i64,
    ) -> (r: Result<(), DocumentError>)
        requires
            old(self).wf(),
        ensures
            final(self).wf(),
            upload_document_post(*old(self), *final(self), ctx.organization, ctx.authority, user_address,
                ipfs_hash@, document_type@, document_name@, now, r),
    {
        let org_idx: usize;
        match self.find_org_index(&ctx.organization) {
            None => {
                return Err(DocumentError::NotFound);
            },
            Some(i) => {
                org_idx = i;
            },
        }
        proof {
            self.lemma_org_index_agrees(ctx.organization, org_idx as int);
        }
        if !(self.organizations[org_idx].org_authority == ctx.authority) {
            return Err(DocumentError::Unauthorized);
        }
        let hash_len = ipfs_hash.as_str().unicode_len();
        if hash_len < 1 || hash_len > 100 {
            return Err(DocumentError::InvalidIPFSHash);
        }
        let type_len = document_type.as_str().unicode_len();
        if type_len < 1 || type_len > 50 {
            return Err(DocumentError::InvalidDocumentType);
        }
        let name_len = document_name.as_str().unicode_len();
        if name_len < 1 || name_len > 100 {
            return Err(DocumentError::InvalidDocumentName);
        }
        match self.find_doc_index(&ctx.organization, &user_address, &ipfs_hash) {
            Some(_) => {
                return Err(DocumentError::AlreadyExists);
            },
            None => {},
        }
        let count = self.organizations[org_idx].document_count;
        if count == u64::MAX {
            return Err(DocumentError::DocumentCountOverflow);
        }
        let event_hash = ipfs_hash.clone();
        let event_type = document_type.clone();
        let doc = Document {
            organization: ctx.organization,
            user: user_address,
            ipfs_hash,
            document_type,
            document_name,
            uploaded_at: now,
            is_revoked: false,
            revoked_at: None,
        };
        self.documents.push(doc);
        let ghost mid_orgs = self.orgs();
        let mut org = self.organizations.remove(org_idx);
        org.document_count = org.document_count + 1;
        self.organizations.insert(org_idx, org);
        proof {
            lemma_remove_insert_is_update(mid_orgs, org_idx as int, org);
        }
        self.events.push(RegistryEvent::DocumentUploaded(DocumentUploaded {
            organization: ctx.organization,
            user: user_address,
            ipfs_hash: event_hash,
            document_type: event_type,
        }));
        proof {
            let pre = *old(self);
            lemma_user_uniqueness_framed(pre, *self);
            assert(self.docs() == pre.docs().push(doc));
            assert(self.docs().last() == doc);
            assert(self.orgs() == pre.orgs().update(org_idx as int, org));
            assert(pre.org_index(ctx.organization) == org_idx as int);
            // documents stay uniquely addressed: the new triple was free
            assert forall|i: int, j: int| 0 <= i < j < self.docs().len()
                implies !Self::doc_keyed(self.docs()[j], (self.docs()[i]).organization,
                    self.docs()[i].user, self.docs()[i].ipfs_hash@) by {
                if j < pre.docs().len() {
                    assert(self.docs()[i] == pre.docs()[i]);
                    assert(self.docs()[j] == pre.docs()[j]);
                } else {
                    assert(self.docs()[j] == doc);
                    assert(self.docs()[i] == pre.docs()[i]);
                    if Self::doc_keyed(doc, pre.docs()[i].organization, pre.docs()[i].user,
                        pre.docs()[i].ipfs_hash@) {
                        assert(Self::doc_keyed(pre.docs()[i], ctx.organization, user_address, event_hash@));
                        assert(pre.contains_doc(ctx.organization, user_address, event_hash@));
                    }
                }
            }
            // organization addresses unchanged, so uniqueness and the
            // documents' owning organizations carry over
            assert forall|i: int| 0 <= i < self.orgs().len()
                implies (self.orgs()[i]).org_authority == pre.orgs()[i].org_authority
                    && (self.orgs()[i]).wf() by {
                if i != org_idx as int {
                    assert(self.orgs()[i] == pre.orgs()[i]);
                } else {
                    assert(self.orgs()[i] == org);
                }
            }
            assert forall|k: int| 0 <= k < self.docs().len() implies (self.docs()[k]).wf() by {
                if k < pre.docs().len() {
                    assert(self.docs()[k] == pre.docs()[k]);
                } else {
                    assert(self.docs()[k] == doc);
                }
            }
            assert forall|k: int| 0 <= k < self.docs().len()
                implies self.contains_org((self.docs()[k]).organization) by {
                let target = self.docs()[k].organization;
                if k < pre.docs().len() {
                    assert(pre.contains_org(pre.docs()[k].organization));
                    let w = choose|w: int|
                        0 <= w < pre.orgs().len() && pre.orgs()[w].org_authority == pre.docs()[k].organization;
                    assert(self.orgs()[w].org_authority == target);
                } else {
                    assert(self.docs()[k] == doc);
                    assert(self.orgs()[org_idx as int].org_authority == ctx.organization);
                }
            }
        }
        Ok(())
    }

    /// Flip the document at `i` to revoked at time `now`. Shared by both
    /// authorization paths, so the one-way transition is enforced identically
    /// whoever the caller is.
    fn mark_revoked(&mut self, i: usize, now: i64)
        requires
            old(self).wf(),
            i < old(self).docs().len(),
            !old(self).docs()[i as int].is_revoked,
        ensures
            final(self).wf(),
            final(self).docs() == old(self).docs().update(i as int, final(self).docs()[i as int]),
            ({
                let d2 = final(self).docs()[i as int];
                let d1 = old(self).docs()[i as int];
                &&& d2.is_revoked == true
                &&& d2.revoked_at == Some(now)
                &&& d2.organization == d1.organization
                &&& d2.user == d1.user
                &&& d2.ipfs_hash == d1.ipfs_hash
                &&& d2.document_type == d1.document_type
                &&& d2.document_name == d1.document_name
                &&& d2.uploaded_at == d1.uploaded_at
            }),
            final(self).orgs() == old(self).orgs(),
            final(self).users() == old(self).users(),
            final(self).event_log() == old(self).event_log(),
    {
        let ghost pre_docs = self.docs();
        let mut d = self.documents.remove(i);
        d.is_revoked = true;
        d.revoked_at = Some(now);
        self.documents.insert(i, d);
        proof {
            let pre = *old(self);
            lemma_org_uniqueness_framed(pre, *self);
            lemma_user_uniqueness_framed(pre, *self);
            lemma_remove_insert_is_update(pre_docs, i as int, d);
            assert(self.docs() == pre.docs().update(i as int, d));
            assert forall|a: int, b: int| 0 <= a < b < self.docs().len()
                implies !Self::doc_keyed(self.docs()[b], (self.docs()[a]).organization,
                    self.docs()[a].user, self.docs()[a].ipfs_hash@) by {
                assert(self.docs()[a].organization == pre.docs()[a].organization
                    && self.docs()[a].user == pre.docs()[a].user
                    && self.docs()[a].ipfs_hash@ == pre.docs()[a].ipfs_hash@);
                assert(self.docs()[b].organization == pre.docs()[b].organization
                    && self.docs()[b].user == pre.docs()[b].user
                    && self.docs()[b].ipfs_hash@ == pre.docs()[b].ipfs_hash@);
            }
            assert forall|k: int| 0 <= k < self.docs().len() implies (self.docs()[k]).wf() by {
                if k != i as int {
                    assert(self.docs()[k] == pre.docs()[k]);
                }
            }
            assert forall|k: int| 0 <= k < self.docs().len()
                implies self.contains_org((self.docs()[k]).organization) by {
                assert(self.docs()[k].organization == pre.docs()[k].organization);
                assert(pre.contains_org(pre.docs()[k].organization));
                let w = choose|w: int|
                    0 <= w < pre.orgs().len() && pre.orgs()[w].org_authority == pre.docs()[k].organization;
                assert(self.orgs()[w] == pre.orgs()[w]);
            }
        }
    }

    /// Revoke a document through the organization path: the caller must be
    /// the authority of the document's owning organization, and the document
    /// must not be revoked yet. On success `DocumentRevoked` is emitted.
    pub fn revoke_document(&mut self, ctx: RevokeDocument, now: i64) -> (r: Result<(), DocumentError>)
        requires
            old(self).wf(),
        ensures
            final(self).wf(),
            revoke_document_post(*old(self), *final(self), ctx.document.organization, ctx.document.user,
                ctx.document.ipfs_hash@, ctx.authority, now, r),
    {
        let doc_idx: usize;
        match self.find_doc_index(&ctx.document.organization, &ctx.document.user, &ctx.document.ipfs_hash) {
            None => {
                return Err(DocumentError::NotFound);
            },
            Some(i) => {
                doc_idx = i;
            },
        }
        proof {
            self.lemma_doc_index_agrees(ctx.document.organization, ctx.document.user,
                ctx.document.ipfs_hash@, doc_idx as int);
        }
        // the owning organization exists whenever the document does
        let org_idx: usize;
        match self.find_org_index(&ctx.document.organization) {
            None => {
                return Err(DocumentError::NotFound);
            },
            Some(i) => {
                org_idx = i;
            },
        }
        proof {
            self.lemma_org_index_agrees(ctx.document.organization, org_idx as int);
        }
        if !(self.organizations[org_idx].org_authority == ctx.authority) {
            return Err(DocumentError::Unauthorized);
        }
        if self.documents[doc_idx].is_revoked {
            return Err(DocumentError::DocumentAlreadyRevoked);
        }
        let doc_user = self.documents[doc_idx].user;
        let event_hash = self.documents[doc_idx].ipfs_hash.clone();
        self.mark_revoked(doc_idx, now);
        let ghost mid = *self;
        self.events.push(RegistryEvent::DocumentRevoked(DocumentRevoked {
            organization: ctx.document.organization,
            user: doc_user,
            ipfs_hash: event_hash,
        }));
        proof {
            let pre = *old(self);
            lemma_wf_framed(mid, *self);
            assert(pre.doc_index(ctx.document.organization, ctx.document.user, ctx.document.ipfs_hash@)
                == doc_idx as int);
        }
        Ok(())
    }

    /// Revoke a document through the subject path: the caller must be the
    /// user the document was issued to, and the document must not be revoked
    /// yet. On success `UserRevokedAccess` is emitted.
    pub fn user_revoke_access(&mut self, ctx: UserRevokeAccess, now: i64) -> (r: Result<(), DocumentError>)
        requires
            old(self).wf(),
        ensures
            final(self).wf(),
            user_revoke_access_post(*old(self), *final(self), ctx.document.organization, ctx.document.user,
                ctx.document.ipfs_hash@, ctx.user, now, r),
    {
        let doc_idx: usize;
        match self.find_doc_index(&ctx.document.organization, &ctx.document.user, &ctx.document.ipfs_hash) {
            None => {
                return Err(DocumentError::NotFound);
            },
            Some(i) => {
                doc_idx = i;
            },
        }
        proof {
            self.lemma_doc_index_agrees(ctx.document.organization, ctx.document.user,
                ctx.document.ipfs_hash@, doc_idx as int);
        }
        if !(self.documents[doc_idx].user == ctx.user) {
            return Err(DocumentError::Unauthorized);
        }
        if self.documents[doc_idx].is_revoked {
            return Err(DocumentError::DocumentAlreadyRevoked);
        }
        let event_hash = self.documents[doc_idx].ipfs_hash.clone();
        self.mark_revoked(doc_idx, now);
        let ghost mid = *self;
        self.events.push(RegistryEvent::UserRevokedAccess(UserRevokedAccess {
            user: ctx.user,
            ipfs_hash: event_hash,
        }));
        proof {
            let pre = *old(self);
            lemma_wf_framed(mid, *self);
            assert(pre.doc_index(ctx.document.organization, ctx.document.user, ctx.document.ipfs_hash@)
                == doc_idx as int);
        }
        Ok(())
    }

    /// Read an organization and a document on behalf of a user. The caller's
    /// proven key must equal the key stored on the referenced user account;
    /// nothing is mutated and no event is emitted.
    pub fn get_user_documents(&self, ctx: &GetUserDocuments) -> (r: Result<(&Organization, &Document), DocumentError>)
        requires
            self.wf(),
        ensures
            ({
                if !self.contains_user(ctx.user_account) {
                    r == Err::<(&Organization, &Document), DocumentError>(DocumentError::NotFound)
                } else if self.user_at(ctx.user_account).user_address != ctx.user {
                    r == Err::<(&Organization, &Document), DocumentError>(DocumentError::Unauthorized)
                } else if !self.contains_org(ctx.organization) {
                    r == Err::<(&Organization, &Document), DocumentError>(DocumentError::NotFound)
                } else if !self.contains_doc(ctx.document.organization, ctx.document.user, ctx.document.ipfs_hash@) {
                    r == Err::<(&Organization, &Document), DocumentError>(DocumentError::NotFound)
                } else {
                    r matches Ok(p) && *p.0 == self.org_at(ctx.organization)
                        && *p.1 == self.doc_at(ctx.document.organization, ctx.document.user, ctx.document.ipfs_hash@)
                }
            }),
    {
        let user_idx: usize;
        match self.find_user_index(&ctx.user_account) {
            None => {
                return Err(DocumentError::NotFound);
            },
            Some(i) => {
                user_idx = i;
            },
        }
        proof {
            self.lemma_user_index_agrees(ctx.user_account, user_idx as int);
        }
        if !(self.user_accounts[user_idx].user_address == ctx.user) {
            return Err(DocumentError::Unauthorized);
        }
        let org_idx: usize;
        match self.find_org_index(&ctx.organization) {
            None => {
                return Err(DocumentError::NotFound);
            },
            Some(i) => {
                org_idx = i;
            },
        }
        proof {
            self.lemma_org_index_agrees(ctx.organization, org_idx as int);
        }
        let doc_idx: usize;
        match self.find_doc_index(&ctx.document.organization, &ctx.document.user, &ctx.document.ipfs_hash) {
            None => {
                return Err(DocumentError::NotFound);
            },
            Some(i) => {
                doc_idx = i;
            },
        }
        proof {
            self.lemma_doc_index_agrees(ctx.document.organization, ctx.document.user,
                ctx.document.ipfs_hash@, doc_idx as int);
        }
        Ok((&self.organizations[org_idx], &self.documents[doc_idx]))
    }

    /// Read an organization record. No authorization is required, nothing is
    /// mutated and no event is emitted.
    pub fn get_organization(&self, ctx: &GetOrganization) -> (r: Result<&Organization, DocumentError>)
        requires
            self.wf(),
        ensures
            ({
                if self.contains_org(ctx.organization) {
                    r matches Ok(o) && *o == self.org_at(ctx.organization)
                } else {
                    r == Err::<&Organization, DocumentError>(DocumentError::NotFound)
                }
            }),
    {
        match self.find_org_index(&ctx.organization) {
            None => Err(DocumentError::NotFound),
            Some(i) => {
                proof {
                    self.lemma_org_index_agrees(ctx.organization, i as int);
                }
                Ok(&self.organizations[i])
            },
        }
    }
}

} // verus!
