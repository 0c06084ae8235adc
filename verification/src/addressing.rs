use vstd::prelude::*;

use crate::keys::PublicKey;
use vstd::slice::slice_to_vec;
use vstd::string::StrSliceExecFns;
use vstd::string::StringSliceAdditionalSpecFns;

verus! {

/// The derived address of a document record in the store: the tuple that the
/// document namespace keys records by. Two uploads naming the same
/// organization, user and locator collide at this address whatever their
/// revocation state.
pub struct DocumentAddress {
    /// Address of the owning organization record.
    pub organization: PublicKey,
    /// Key of the user the document is issued to.
    pub user: PublicKey,
    /// Content locator of the document.
    pub ipfs_hash: String,
}

/// The bytes of a 64-bit word, least significant first.
pub open spec fn word_le_bytes(w: u64) -> Seq<u8> {
    seq![
        (w & 0xff) as u8,
        ((w >> 8) & 0xff) as u8,
        ((w >> 16) & 0xff) as u8,
        ((w >> 24) & 0xff) as u8,
        ((w >> 32) & 0xff) as u8,
        ((w >> 40) & 0xff) as u8,
        ((w >> 48) & 0xff) as u8,
        ((w >> 56) & 0xff) as u8,
    ]
}

/// The 32 bytes of a public key used as seed material: the four words in
/// order, each little-endian.
pub open spec fn key_bytes(k: PublicKey) -> Seq<u8> {
    word_le_bytes(k.w0) + word_le_bytes(k.w1) + word_le_bytes(k.w2) + word_le_bytes(k.w3)
}

/// The namespace tag of organization records: the bytes of "organization".
pub open spec fn organization_tag() -> Seq<u8> {
    seq![111u8, 114u8, 103u8, 97u8, 110u8, 105u8, 122u8, 97u8, 116u8, 105u8, 111u8, 110u8]
}

/// The namespace tag of user account records: the bytes of "user".
pub open spec fn user_tag() -> Seq<u8> {
    seq![117u8, 115u8, 101u8, 114u8]
}

/// The namespace tag of document records: the bytes of "document".
pub open spec fn document_tag() -> Seq<u8> {
    seq![100u8, 111u8, 99u8, 117u8, 109u8, 101u8, 110u8, 116u8]
}

/// What program-address derivation returns for a program id and a seed list:
/// an address and a bump seed, a function of the arguments alone, or nothing
/// when no bump seed yields a valid address.
pub uninterp spec fn pda_of(program_id: Seq<u8>, seeds: Seq<Seq<u8>>) -> Option<(Seq<u8>, u8)>;

/// Relies on `Pubkey::try_find_program_address` of solana_pubkey (the Pubkey
/// type that anchor_lang re-exports): the derived address and bump seed are
/// a pure function of the seeds and the program id, a derived address is 32
/// bytes, and the call returns `None` rather than panicking when no bump
/// seed yields a valid address.
#[verifier::external_body]
fn try_find_program_address(seeds: &Vec<Vec<u8>>, program_id: &Vec<u8>) -> (r: Option<(Vec<u8>, u8)>)
    requires
        program_id@.len() == 32,
    ensures
        ({
            let derived = pda_of(program_id@, seeds@.map_values(|s: Vec<u8>| s@));
            match r {
                Some(p) => derived == Some((p.0@, p.1)) && p.0@.len() == 32,
                None => derived is None,
            }
        }),
{
    let pid = solana_pubkey::Pubkey::try_from(program_id.as_slice()).unwrap();
    let seed_slices: Vec<&[u8]> = seeds.iter().map(|s| s.as_slice()).collect();
    match solana_pubkey::Pubkey::try_find_program_address(&seed_slices, &pid) {
        Some((addr, bump)) => Some((addr.to_bytes().to_vec(), bump)),
        None => None,
    }
}

fn push_word_le(v: &mut Vec<u8>, w: u64)
    ensures
        final(v)@ == old(v)@ + word_le_bytes(w),
{
    proof {
        assert((w & 0xff) < 256 && ((w >> 8) & 0xff) < 256 && ((w >> 16) & 0xff) < 256
            && ((w >> 24) & 0xff) < 256 && ((w >> 32) & 0xff) < 256 && ((w >> 40) & 0xff) < 256
            && ((w >> 48) & 0xff) < 256 && ((w >> 56) & 0xff) < 256) by (bit_vector);
    }
    v.push((w & 0xff) as u8);
    v.push(((w >> 8) & 0xff) as u8);
    v.push(((w >> 16) & 0xff) as u8);
    v.push(((w >> 24) & 0xff) as u8);
    v.push(((w >> 32) & 0xff) as u8);
    v.push(((w >> 40) & 0xff) as u8);
    v.push(((w >> 48) & 0xff) as u8);
    v.push(((w >> 56) & 0xff) as u8);
    proof {
        assert(v@ =~= old(v)@ + word_le_bytes(w));
    }
}

/// The 32 bytes of a public key, as the seed material the derivation takes.
pub fn key_to_bytes(k: &PublicKey) -> (v: Vec<u8>)
    ensures
        v@ == key_bytes(*k),
        v@.len() == 32,
{
    let mut v: Vec<u8> = Vec::new();
    push_word_le(&mut v, k.w0);
    push_word_le(&mut v, k.w1);
    push_word_le(&mut v, k.w2);
    push_word_le(&mut v, k.w3);
    proof {
        assert(v@ =~= key_bytes(*k));
    }
    v
}

fn organization_tag_bytes() -> (v: Vec<u8>)
    ensures
        v@ == organization_tag(),
{
    // "organization"
    let mut v: Vec<u8> = Vec::new();
    v.push(111);
    v.push(114);
    v.push(103);
    v.push(97);
    v.push(110);
    v.push(105);
    v.push(122);
    v.push(97);
    v.push(116);
    v.push(105);
    v.push(111);
    v.push(110);
    proof {
        assert(v@ =~= organization_tag());
    }
    v
}

fn user_tag_bytes() -> (v: Vec<u8>)
    ensures
        v@ == user_tag(),
{
    // "user"
    let mut v: Vec<u8> = Vec::new();
    v.push(117);
    v.push(115);
    v.push(101);
    v.push(114);
    proof {
        assert(v@ =~= user_tag());
    }
    v
}

fn document_tag_bytes() -> (v: Vec<u8>)
    ensures
        v@ == document_tag(),
{
    // "document"
    let mut v: Vec<u8> = Vec::new();
    v.push(100);
    v.push(111);
    v.push(99);
    v.push(117);
    v.push(109);
    v.push(101);
    v.push(110);
    v.push(116);
    proof {
        assert(v@ =~= document_tag());
    }
    v
}

/// The derived on-chain address of the organization record owned by
/// `authority`: the derivation applied to the `"organization"` tag and the
/// authority key. Identical inputs always yield the identical address;
/// `None` comes only in the statistically improbable event that no bump seed
/// yields a valid address.
pub fn organization_address(program_id: &Vec<u8>, authority: &PublicKey) -> (r: Option<(Vec<u8>, u8)>)
    requires
        program_id@.len() == 32,
    ensures
        ({
            let derived = pda_of(program_id@, seq![organization_tag(), key_bytes(*authority)]);
            match r {
                Some(p) => derived == Some((p.0@, p.1)) && p.0@.len() == 32,
                None => derived is None,
            }
        }),
{
    let mut seeds: Vec<Vec<u8>> = Vec::new();
    seeds.push(organization_tag_bytes());
    seeds.push(key_to_bytes(authority));
    proof {
        assert(seeds@.map_values(|s: Vec<u8>| s@) =~= seq![organization_tag(), key_bytes(*authority)]);
    }
    try_find_program_address(&seeds, program_id)
}

/// The derived on-chain address of the user account record owned by `user`:
/// the derivation applied to the `"user"` tag and the user key.
pub fn user_account_address(program_id: &Vec<u8>, user: &PublicKey) -> (r: Option<(Vec<u8>, u8)>)
    requires
        program_id@.len() == 32,
    ensures
        ({
            let derived = pda_of(program_id@, seq![user_tag(), key_bytes(*user)]);
            match r {
                Some(p) => derived == Some((p.0@, p.1)) && p.0@.len() == 32,
                None => derived is None,
            }
        }),
{
    let mut seeds: Vec<Vec<u8>> = Vec::new();
    seeds.push(user_tag_bytes());
    seeds.push(key_to_bytes(user));
    proof {
        assert(seeds@.map_values(|s: Vec<u8>| s@) =~= seq![user_tag(), key_bytes(*user)]);
    }
    try_find_program_address(&seeds, program_id)
}

/// The derived on-chain address of a document record: the derivation applied
/// to the `"document"` tag, the owning organization's derived address bytes,
/// the subject's key and the content locator bytes.
pub fn document_address(
    program_id: &Vec<u8>,
    organization: &Vec<u8>,
    user: &PublicKey,
    ipfs_hash: &str,
) -> (r: Option<(Vec<u8>, u8)>)
    requires
        program_id@.len() == 32,
    ensures
        ({
            let derived = pda_of(program_id@,
                seq![document_tag(), organization@, key_bytes(*user), ipfs_hash.spec_bytes()]);
            match r {
                Some(p) => derived == Some((p.0@, p.1)) && p.0@.len() == 32,
                None => derived is None,
            }
        }),
{
    let mut seeds: Vec<Vec<u8>> = Vec::new();
    seeds.push(document_tag_bytes());
    seeds.push(slice_to_vec(organization.as_slice()));
    seeds.push(key_to_bytes(user));
    seeds.push(ipfs_hash.as_bytes_vec());
    proof {
        assert(seeds@.map_values(|s: Vec<u8>| s@) =~= seq![document_tag(), organization@,
            key_bytes(*user), ipfs_hash.spec_bytes()]);
    }
    try_find_program_address(&seeds, program_id)
}

} // verus!
