use vstd::prelude::*;
use crate::config::{CreateVariant, SaltVariant};
use crate::salt::{candidate_salt, salt_of};
use crate::search::HashResult;

verus! {

/// The Keccak-256 digest of `data`.
pub uninterp spec fn keccak_of(data: Seq<u8>) -> Seq<u8>;

/// The address part of a 32-byte digest: its low 20 bytes.
pub open spec fn low20(h: Seq<u8>) -> Seq<u8> {
    h.subrange(12, 32)
}

/// `0xff ‖ factory ‖ salt ‖ code hash`: what Create2 hashes.
pub open spec fn create2_preimage(factory: Seq<u8>, salt: Seq<u8>, code_hash: Seq<u8>) -> Seq<u8> {
    seq![0xffu8] + factory + salt + code_hash
}

/// `0xd6 ‖ 0x94 ‖ deployer ‖ 0x01`: what a contract creation at nonce 1 hashes.
pub open spec fn nonce1_preimage(deployer: Seq<u8>) -> Seq<u8> {
    seq![0xd6u8, 0x94u8] + deployer + seq![0x01u8]
}

/// The Create2 address for a factory, salt and code hash.
pub open spec fn create2_address(factory: Seq<u8>, salt: Seq<u8>, code_hash: Seq<u8>) -> Seq<u8> {
    low20(keccak_of(create2_preimage(factory, salt, code_hash)))
}

/// The Create3 address: the proxy that the factory deploys by Create2 with
/// the bootstrap hash, then the contract that proxy creates at nonce 1.
pub open spec fn create3_address(factory: Seq<u8>, salt: Seq<u8>, bootstrap_hash: Seq<u8>) -> Seq<u8> {
    low20(keccak_of(nonce1_preimage(create2_address(factory, salt, bootstrap_hash))))
}

/// The address that a salt derives under a create variant.
pub open spec fn derived_address(create: CreateVariant, factory: Seq<u8>, salt: Seq<u8>, bootstrap_hash: Seq<u8>) -> Seq<u8> {
    match create {
        CreateVariant::Create2 { init_code_hash } => create2_address(factory, salt, init_code_hash@),
        CreateVariant::Create3 => create3_address(factory, salt, bootstrap_hash),
    }
}

/// Relies on alloy_primitives::keccak256: the 32-byte Keccak-256 digest of
/// the input.
#[verifier::external_body]
fn keccak(data: &[u8]) -> (r: [u8; 32])
    ensures
        r@ == keccak_of(data@),
{
    alloy_primitives::keccak256(data).0
}

/// Appends the bytes of `s`.
fn push_all(out: &mut Vec<u8>, s: &[u8])
    ensures
        final(out)@ == old(out)@ + s@,
{
    let ghost start = out@;
    let mut i: usize = 0;
    while i < s.len()
        invariant
            i <= s@.len(),
            out@ == start + s@.subrange(0, i as int),
        decreases s.len() - i,
    {
        out.push(s[i]);
        i += 1;
        assert(out@ =~= start + s@.subrange(0, i as int));
    }
    assert(s@.subrange(0, s@.len() as int) =~= s@);
}

/// The bytes that Create2 hashes.
pub fn create2_input(factory: &[u8; 20], salt: &[u8; 32], code_hash: &[u8; 32]) -> (r: Vec<u8>)
    ensures
        r@ == create2_preimage(factory@, salt@, code_hash@),
{
    let mut out: Vec<u8> = Vec::new();
    out.push(0xffu8);
    push_all(&mut out, factory);
    push_all(&mut out, salt);
    push_all(&mut out, code_hash);
    assert(out@ =~= create2_preimage(factory@, salt@, code_hash@));
    out
}

/// The bytes that a contract creation at nonce 1 by `deployer` hashes.
pub fn nonce1_input(deployer: &[u8; 20]) -> (r: Vec<u8>)
    ensures
        r@ == nonce1_preimage(deployer@),
{
    let mut out: Vec<u8> = Vec::new();
    out.push(0xd6u8);
    out.push(0x94u8);
    push_all(&mut out, deployer);
    out.push(0x01u8);
    assert(out@ =~= nonce1_preimage(deployer@));
    out
}

/// The address part of a digest: its low 20 bytes.
pub fn address_of_digest(h: &[u8; 32]) -> (r: [u8; 20])
    ensures
        r@ == low20(h@),
{
    let mut a = [0u8; 20];
    let mut i: usize = 0;
    while i < 20
        invariant
            i <= 20,
            forall|j: int| 0 <= j < i ==> #[trigger] a@[j] == h@[12 + j],
        decreases 20 - i,
    {
        a[i] = h[12 + i];
        i += 1;
    }
    assert(a@ =~= low20(h@));
    a
}

/// The address that `salt` derives under `create`; Create3 uses the
/// factory's bootstrap (proxy code) hash.
pub fn derive_address(create: &CreateVariant, factory: &[u8; 20], salt: &[u8; 32], bootstrap_hash: &[u8; 32]) -> (r: [u8; 20])
    ensures
        r@ == derived_address(*create, factory@, salt@, bootstrap_hash@),
{
    match create {
        CreateVariant::Create2 { init_code_hash } => {
            let input = create2_input(factory, salt, init_code_hash);
            address_of_digest(&keccak(input.as_slice()))
        },
        CreateVariant::Create3 => {
            let proxy = address_of_digest(&keccak(create2_input(factory, salt, bootstrap_hash).as_slice()));
            address_of_digest(&keccak(nonce1_input(&proxy).as_slice()))
        },
    }
}

/// The hash oracle's work done on the processor: for each counter of
/// `start .. start + size`, in order, the counter and the address that its
/// candidate salt derives.
pub fn reference_batch(
    create: &CreateVariant,
    variant: &SaltVariant,
    factory: &[u8; 20],
    bootstrap_hash: &[u8; 32],
    start: u64,
    size: u64,
) -> (r: Vec<HashResult>)
    requires
        start + size <= u64::MAX,
    ensures
        r@.len() == size,
        forall|i: int|
            0 <= i < size ==> (#[trigger] r@[i]).counter == start + i && r@[i].address@ == derived_address(
                *create,
                factory@,
                salt_of(*variant, (start + i) as u64),
                bootstrap_hash@,
            ),
{
    let mut out: Vec<HashResult> = Vec::new();
    let mut k: u64 = 0;
    while k < size
        invariant
            start + size <= u64::MAX,
            k <= size,
            out@.len() == k,
            forall|i: int|
                0 <= i < k ==> (#[trigger] out@[i]).counter == start + i && out@[i].address@ == derived_address(
                    *create,
                    factory@,
                    salt_of(*variant, (start + i) as u64),
                    bootstrap_hash@,
                ),
        decreases size - k,
    {
        let counter = start + k;
        let salt = candidate_salt(variant, counter);
        let address = derive_address(create, factory, &salt, bootstrap_hash);
        out.push(HashResult { counter, address });
        k += 1;
    }
    out
}

} // verus!
