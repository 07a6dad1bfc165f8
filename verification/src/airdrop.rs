//! Airdrop: ANC claimed per stage against a Merkle root registered by the
//! owner; each claim proves its leaf (the claimant's address followed by the
//! amount in decimal) with a path of sibling hashes, each pair hashed in
//! byte order.
use vstd::prelude::*;
use std::cmp::Ordering;
use sha3::Digest;
use vstd::utf8::encode_utf8;
use vstd::string::StringSliceAdditionalSpecFns;

verus! {

/// The errors the airdrop answers with.
#[derive(Clone, Copy, Debug, PartialEq, Eq, Structural)]
pub enum ContractError {
    Unauthorized,
    InvalidHexMerkle,
    InvalidHexProof,
    AlreadyClaimed,
    MerkleVerification,
}

/// Keccak-256 of `data`: the name of what `sha3::Keccak256::digest` returns.
pub uninterp spec fn keccak256(data: Seq<u8>) -> Seq<u8>;

/// `sha3::Keccak256::digest` (Keccak-256). Claimed: the digest of `data`,
/// named `keccak256`, 32 bytes long (the output size of the hash).
#[verifier::external_body]
fn keccak256_digest(data: &[u8]) -> (r: Vec<u8>)
    ensures
        r@ == keccak256(data@),
        r@.len() == 32,
{
    sha3::Keccak256::digest(data).to_vec()
}

/// The value of a hexadecimal digit, where `c` is one.
pub open spec fn hex_digit(c: u8) -> Option<u8> {
    if 48 <= c <= 57 {
        Some((c - 48) as u8)
    } else if 65 <= c <= 70 {
        Some((c - 65 + 10) as u8)
    } else if 97 <= c <= 102 {
        Some((c - 97 + 10) as u8)
    } else {
        None
    }
}

/// `data` is 64 hexadecimal digits.
pub open spec fn is_hex32(data: Seq<u8>) -> bool {
    &&& data.len() == 64
    &&& forall|i: int| 0 <= i < 64 ==> (#[trigger] hex_digit(data[i])) is Some
}

/// The 32 bytes that 64 hexadecimal digits spell, two digits a byte, high
/// digit first.
pub open spec fn hex32_bytes(data: Seq<u8>) -> Seq<u8> {
    Seq::new(32, |i: int| (hex_digit(data[2 * i]).unwrap() * 16 + hex_digit(data[2 * i + 1]).unwrap()) as u8)
}

/// `hex::decode_to_slice` into a 32-byte buffer. Claimed, as the crate's
/// source shows: it succeeds exactly on 64 hexadecimal digits (either case)
/// and then yields the bytes they spell, high digit first.
#[verifier::external_body]
fn hex_decode_32(data: &[u8]) -> (r: Option<Vec<u8>>)
    ensures
        r is Some <==> is_hex32(data@),
        r matches Some(v) ==> v@ == hex32_bytes(data@),
{
    let mut buf = [0u8; 32];
    match hex::decode_to_slice(data, &mut buf) {
        Ok(()) => Some(buf.to_vec()),
        Err(_) => None,
    }
}

/// The decimal digits of `n` as ASCII bytes, without leading zeros.
pub open spec fn decimal(n: nat) -> Seq<u8>
    decreases n,
{
    if n < 10 {
        seq![(48 + n) as u8]
    } else {
        decimal(n / 10).push((48 + n % 10) as u8)
    }
}

/// The decimal representation of `n`, as `to_string` writes it, in bytes.
pub fn decimal_bytes(n: u128) -> (r: Vec<u8>)
    ensures
        r@ == decimal(n as nat),
    decreases n,
{
    if n < 10 {
        let mut v: Vec<u8> = Vec::new();
        v.push((48 + n) as u8);
        proof {
            assert(v@ =~= seq![(48 + n) as u8]);
        }
        v
    } else {
        let mut v = decimal_bytes(n / 10);
        v.push((48 + n % 10) as u8);
        v
    }
}

/// `a` comes before `b` in byte order, comparing the bytes from index `i`.
pub open spec fn lex_less_from(a: Seq<u8>, b: Seq<u8>, i: usize) -> bool
    decreases 32 - i,
{
    if i >= 32 {
        false
    } else if a[i as int] < b[i as int] {
        true
    } else if a[i as int] > b[i as int] {
        false
    } else {
        lex_less_from(a, b, (i + 1) as usize)
    }
}

/// `a` comes before `b` in byte order (over 32 bytes).
pub open spec fn lex_less(a: Seq<u8>, b: Seq<u8>) -> bool {
    lex_less_from(a, b, 0)
}

/// The 32 first bytes of `a` and `b` agree.
pub open spec fn same32(a: Seq<u8>, b: Seq<u8>) -> bool {
    forall|i: int| 0 <= i < 32 ==> a[i] == b[i]
}

/// Compares two 32-byte hashes in byte order.
pub fn bytes_cmp(a: &Vec<u8>, b: &Vec<u8>) -> (r: Ordering)
    requires
        a@.len() == 32,
        b@.len() == 32,
    ensures
        (r == Ordering::Less) == lex_less(a@, b@),
        (r == Ordering::Greater) == lex_less(b@, a@),
        (r == Ordering::Equal) == same32(a@, b@),
{
    let mut i: usize = 0;
    while i < 32
        invariant
            a@.len() == 32,
            b@.len() == 32,
            i <= 32,
            forall|j: int| 0 <= j < i ==> a@[j] == b@[j],
            lex_less(a@, b@) == lex_less_from(a@, b@, i),
            lex_less(b@, a@) == lex_less_from(b@, a@, i),
        decreases 32 - i,
    {
        if a[i] > b[i] {
            return Ordering::Greater;
        }
        if a[i] < b[i] {
            return Ordering::Less;
        }
        i = i + 1;
    }
    Ordering::Equal
}

/// A pair of 32-byte hashes is hashed in byte order: the smaller first.
pub open spec fn hash_pair(h: Seq<u8>, p: Seq<u8>) -> Seq<u8> {
    if lex_less(h, p) {
        keccak256(h + p)
    } else {
        keccak256(p + h)
    }
}

/// The root a leaf hash reaches along the sibling hashes `proof`.
pub open spec fn merkle_root_of(leaf: Seq<u8>, proof: Seq<Seq<u8>>) -> Seq<u8>
    decreases proof.len(),
{
    if proof.len() == 0 {
        leaf
    } else {
        hash_pair(merkle_root_of(leaf, proof.drop_last()), proof.last())
    }
}

/// The leaf of a claim: the claimant's address followed by the amount in
/// decimal, hashed.
pub open spec fn claim_leaf(sender: Seq<u8>, amount: u128) -> Seq<u8> {
    keccak256(sender + decimal(amount as nat))
}

/// The proof's hexadecimal strings, as bytes, each decode.
pub open spec fn proof_valid(proof: Seq<Seq<u8>>) -> bool {
    forall|i: int| 0 <= i < proof.len() ==> is_hex32(#[trigger] proof[i])
}

/// The decoded sibling hashes of a proof.
pub open spec fn decoded_proof(proof: Seq<Seq<u8>>) -> Seq<Seq<u8>> {
    Seq::new(proof.len(), |i: int| hex32_bytes(proof[i]))
}

/// Byte-order comparison is antisymmetric: two different 32-byte hashes are
/// ordered one way only, and equal hashes are ordered neither way.
pub proof fn lemma_lex_less_antisymmetric(a: Seq<u8>, b: Seq<u8>, i: usize)
    requires
        0 <= i <= 32,
    ensures
        !(lex_less_from(a, b, i) && lex_less_from(b, a, i)),
        (forall|j: int| i <= j < 32 ==> a[j] == b[j]) ==> !lex_less_from(a, b, i),
        !lex_less_from(a, b, i) && !lex_less_from(b, a, i) ==> (forall|j: int| i <= j < 32 ==> a[j] == b[j]),
    decreases 32 - i,
{
    if i < 32 {
        lemma_lex_less_antisymmetric(a, b, (i + 1) as usize);
    }
}

/// Hashing a pair in byte order does not depend on which side the proof
/// hash comes from: a leaf may sit left or right of its sibling.
pub proof fn lemma_hash_pair_symmetric(h: Seq<u8>, p: Seq<u8>)
    requires
        h.len() == 32,
        p.len() == 32,
    ensures
        hash_pair(h, p) == hash_pair(p, h),
{
    lemma_lex_less_antisymmetric(h, p, 0);
    if !lex_less(h, p) && !lex_less(p, h) {
        assert(h =~= p);
    }
}

/// Each level of a Merkle proof, at any depth, hashes the two hashes with
/// the smaller (in byte order) first: one more sibling `p` above the hash
/// `h` reached so far gives `keccak256(h ++ p)` where `h` comes first and
/// `keccak256(p ++ h)` where `p` does, whichever side the sibling sits on.
pub proof fn lemma_merkle_level_sorted(leaf: Seq<u8>, proof: Seq<Seq<u8>>, p: Seq<u8>)
    ensures
        ({
            let h = merkle_root_of(leaf, proof);
            &&& lex_less(h, p) ==> merkle_root_of(leaf, proof.push(p)) == keccak256(h + p)
            &&& lex_less(p, h) ==> merkle_root_of(leaf, proof.push(p)) == keccak256(p + h)
        }),
{
    let h = merkle_root_of(leaf, proof);
    assert(proof.push(p).drop_last() =~= proof);
    lemma_lex_less_antisymmetric(h, p, 0);
}

/// Copies bytes into a vector.
fn bytes_to_vec(s: &[u8]) -> (r: Vec<u8>)
    ensures
        r@ == s@,
{
    let mut v: Vec<u8> = Vec::new();
    let mut i: usize = 0;
    while i < s.len()
        invariant
            i <= s@.len(),
            v@ == s@.take(i as int),
        decreases s@.len() - i,
    {
        v.push(s[i]);
        proof {
            assert(s@.take(i + 1) =~= s@.take(i as int).push(s@[i as int]));
        }
        i = i + 1;
    }
    proof {
        assert(s@.take(s@.len() as int) =~= s@);
    }
    v
}

/// `a` followed by `b`.
fn concat(a: &Vec<u8>, b: &Vec<u8>) -> (r: Vec<u8>)
    ensures
        r@ == a@ + b@,
{
    let mut v = bytes_to_vec(a.as_slice());
    let mut i: usize = 0;
    while i < b.len()
        invariant
            i <= b@.len(),
            v@ == a@ + b@.take(i as int),
        decreases b@.len() - i,
    {
        v.push(b[i]);
        proof {
            assert(b@.take(i + 1) =~= b@.take(i as int).push(b@[i as int]));
            assert(a@ + b@.take(i + 1) =~= (a@ + b@.take(i as int)).push(b@[i as int]));
        }
        i = i + 1;
    }
    proof {
        assert(b@.take(b@.len() as int) =~= b@);
    }
    v
}

/// Hashes a hash with a sibling hash, the smaller first.
fn hash_step(hash: &Vec<u8>, sibling: &Vec<u8>) -> (r: Vec<u8>)
    requires
        hash@.len() == 32,
        sibling@.len() == 32,
    ensures
        r@ == hash_pair(hash@, sibling@),
        r@.len() == 32,
{
    match bytes_cmp(hash, sibling) {
        Ordering::Less => keccak256_digest(concat(hash, sibling).as_slice()),
        _ => keccak256_digest(concat(sibling, hash).as_slice()),
    }
}

/// The root the claim's leaf reaches along the proof, where every proof
/// hash decodes.
pub fn compute_merkle_root(sender: &[u8], amount: u128, proof: &Vec<Vec<u8>>) -> (r: Result<Vec<u8>, ContractError>)
    ensures
        !proof_valid(proof@.map_values(|p: Vec<u8>| p@)) ==> r == Err::<Vec<u8>, ContractError>(
            ContractError::InvalidHexProof,
        ),
        proof_valid(proof@.map_values(|p: Vec<u8>| p@)) ==> (r matches Ok(h) && h@ == merkle_root_of(
            claim_leaf(sender@, amount),
            decoded_proof(proof@.map_values(|p: Vec<u8>| p@)),
        )),
{
    let ghost ps = proof@.map_values(|p: Vec<u8>| p@);
    let input = concat(&bytes_to_vec(sender), &decimal_bytes(amount));
    let mut hash = keccak256_digest(input.as_slice());
    let mut i: usize = 0;
    while i < proof.len()
        invariant
            ps == proof@.map_values(|p: Vec<u8>| p@),
            i <= proof@.len(),
            hash@.len() == 32,
            proof_valid(ps.take(i as int)),
            hash@ == merkle_root_of(claim_leaf(sender@, amount), decoded_proof(ps.take(i as int))),
        decreases proof@.len() - i,
    {
        let proof_buf = match hex_decode_32(proof[i].as_slice()) {
            Some(b) => b,
            None => {
                proof {
                    assert(!is_hex32(ps[i as int]));
                }
                return Err(ContractError::InvalidHexProof);
            },
        };
        proof {
            assert(decoded_proof(ps.take(i + 1)).drop_last() =~= decoded_proof(ps.take(i as int)));
            assert(decoded_proof(ps.take(i + 1)).last() == proof_buf@);
            assert forall|j: int| 0 <= j < i + 1 implies is_hex32(#[trigger] ps.take(i + 1)[j]) by {
                if j < i {
                    assert(ps.take(i + 1)[j] == ps.take(i as int)[j]);
                }
            }
        }
        hash = hash_step(&hash, &proof_buf);
        i = i + 1;
    }
    proof {
        assert(ps.take(ps.len() as int) =~= ps);
    }
    Ok(hash)
}

/// Whether `merkle_root` is a root the contract accepts: 64 hexadecimal
/// digits.
pub fn is_hex_root(merkle_root: &str) -> (b: bool)
    ensures
        b == is_hex32(encode_utf8(merkle_root@)),
{
    hex_decode_32(merkle_root.as_bytes()).is_some()
}

/// Claims `amount` ANC of a stage whose registered root is `merkle_root`: a
/// claimant claims a stage once, every proof hash must be hexadecimal, and
/// the leaf must reach the root along the proof. On success the claim is
/// recorded and `amount` is sent.
pub fn claim(merkle_root: &str, claimed: bool, sender: &str, amount: u128, proof: &Vec<String>) -> (r: Result<(), ContractError>)
    requires
        is_hex32(encode_utf8(merkle_root@)),
    ensures
        claimed ==> r == Err::<(), ContractError>(ContractError::AlreadyClaimed),
        !claimed && !proof_valid(proof@.map_values(|p: String| encode_utf8(p@))) ==> r == Err::<(), ContractError>(
            ContractError::InvalidHexProof,
        ),
        !claimed && proof_valid(proof@.map_values(|p: String| encode_utf8(p@))) ==> (r is Ok <==> hex32_bytes(
            encode_utf8(merkle_root@),
        ) == merkle_root_of(
            claim_leaf(encode_utf8(sender@), amount),
            decoded_proof(proof@.map_values(|p: String| encode_utf8(p@))),
        )),
        r is Err && !claimed && proof_valid(proof@.map_values(|p: String| encode_utf8(p@))) ==> r == Err::<
            (),
            ContractError,
        >(ContractError::MerkleVerification),
{
    if claimed {
        return Err(ContractError::AlreadyClaimed);
    }
    let mut proof_bytes: Vec<Vec<u8>> = Vec::new();
    let mut i: usize = 0;
    while i < proof.len()
        invariant
            i <= proof@.len(),
            proof_bytes@.len() == i,
            forall|j: int| 0 <= j < i ==> (#[trigger] proof_bytes@[j])@ == encode_utf8(proof@[j]@),
        decreases proof@.len() - i,
    {
        proof_bytes.push(bytes_to_vec(proof[i].as_str().as_bytes()));
        i = i + 1;
    }
    proof {
        assert(proof_bytes@.map_values(|p: Vec<u8>| p@) =~= proof@.map_values(|p: String| encode_utf8(p@)));
    }
    let hash = compute_merkle_root(sender.as_bytes(), amount, &proof_bytes)?;
    let root = match hex_decode_32(merkle_root.as_bytes()) {
        Some(b) => b,
        None => {
            return Err(ContractError::MerkleVerification);
        },
    };
    if !vec_eq(&root, &hash) {
        return Err(ContractError::MerkleVerification);
    }
    Ok(())
}

fn vec_eq(a: &Vec<u8>, b: &Vec<u8>) -> (r: bool)
    ensures
        r == (a@ == b@),
{
    if a.len() != b.len() {
        return false;
    }
    let mut i: usize = 0;
    while i < a.len()
        invariant
            a@.len() == b@.len(),
            i <= a@.len(),
            forall|j: int| 0 <= j < i ==> a@[j] == b@[j],
        decreases a@.len() - i,
    {
        if a[i] != b[i] {
            return false;
        }
        i = i + 1;
    }
    proof {
        assert(a@ =~= b@);
    }
    true
}

/// Registers a new stage's Merkle root: only the owner may, and only a root
/// of 64 hexadecimal digits. Returns the new latest stage.
pub fn register_merkle_root(owner: &String, sender: &String, merkle_root: &str, latest_stage: u8) -> (r: Result<u8, ContractError>)
    requires
        latest_stage < 255,
    ensures
        owner@ != sender@ ==> r == Err::<u8, ContractError>(ContractError::Unauthorized),
        owner@ == sender@ && !is_hex32(encode_utf8(merkle_root@)) ==> r == Err::<u8, ContractError>(
            ContractError::InvalidHexMerkle,
        ),
        owner@ == sender@ && is_hex32(encode_utf8(merkle_root@)) ==> r == Ok::<u8, ContractError>(
            (latest_stage + 1) as u8,
        ),
{
    if !sender.eq(owner) {
        return Err(ContractError::Unauthorized);
    }
    match hex_decode_32(merkle_root.as_bytes()) {
        Some(_) => {},
        None => {
            return Err(ContractError::InvalidHexMerkle);
        },
    }
    Ok(latest_stage + 1)
}

/// Sets a new owner, where one is given; only the owner may.
pub fn update_config(owner: &String, sender: &String, new_owner: Option<String>) -> (r: Result<Option<String>, ContractError>)
    ensures
        owner@ != sender@ ==> r == Err::<Option<String>, ContractError>(ContractError::Unauthorized),
        owner@ == sender@ ==> r == Ok::<Option<String>, ContractError>(new_owner),
{
    if !sender.eq(owner) {
        return Err(ContractError::Unauthorized);
    }
    Ok(new_owner)
}

} // verus!
