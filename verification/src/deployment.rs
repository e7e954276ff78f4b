use crate::address::{Address, AddressKind};
use soroban_sdk::testutils::EnvTestConfig;
use soroban_sdk::xdr::{self, AccountId, PublicKey, ScAddress, Uint256};
use soroban_sdk::{BytesN, Env, TryFromVal};
use vstd::prelude::*;

verus! {

/// The greatest deployment salt. A salt is one byte, which is repeated to
/// fill the 32 bytes that the host derives an address from.
pub const MAX_SALT: u32 = 255;

/// Byte `i` of the 16 bytes of `word`, the most significant byte first.
pub open spec fn byte_at(word: u128, i: int) -> u8 {
    ((word >> (((15 - i) * 8) as u128)) & 0xff) as u8
}

/// The 32 bytes of an identifier: those of the high word, then those of the
/// low word, each with its most significant byte first.
pub open spec fn key_of(hi: u128, lo: u128) -> Seq<u8> {
    Seq::new(
        32,
        |i: int|
            if i < 16 {
                byte_at(hi, i)
            } else {
                byte_at(lo, i - 16)
            },
    )
}

/// The word whose bytes are `bytes`, the most significant byte first.
pub open spec fn word_of(bytes: Seq<u8>) -> u128
    decreases bytes.len(),
{
    if bytes.len() == 0 {
        0
    } else {
        (word_of(bytes.drop_last()) << 8) | (bytes.last() as u128)
    }
}

/// The first `n` bytes of a word make up the word without its last `16 - n`
/// bytes.
proof fn lemma_word_of_bytes(word: u128, n: int)
    requires
        1 <= n <= 16,
    ensures
        word_of(Seq::new(16, |i: int| byte_at(word, i)).take(n)) == word >> (((16 - n) * 8) as u128),
    decreases n,
{
    let bytes = Seq::new(16, |i: int| byte_at(word, i));
    let prefix = bytes.take(n);
    let shift: u128 = ((16 - n) * 8) as u128;
    let last: u128 = (word >> shift) & 0xff;
    assert(prefix.last() == byte_at(word, n - 1));
    assert(last <= 0xff) by (bit_vector)
        requires
            last == (word >> shift) & 0xff,
    ;
    assert(prefix.last() as u128 == last);
    if n == 1 {
        assert(prefix.drop_last() =~= Seq::<u8>::empty());
        assert(word_of(prefix.drop_last()) == 0);
        assert((0u128 << 8) | last == word >> shift) by (bit_vector)
            requires
                shift == 120,
                last == (word >> shift) & 0xff,
        ;
    } else {
        assert(prefix.drop_last() =~= bytes.take(n - 1));
        lemma_word_of_bytes(word, n - 1);
        let longer: u128 = ((16 - (n - 1)) * 8) as u128;
        let earlier: u128 = word >> longer;
        assert((earlier << 8) | last == word >> shift) by (bit_vector)
            requires
                shift <= 112,
                longer == shift + 8,
                earlier == word >> longer,
                last == (word >> shift) & 0xff,
        ;
    }
}

/// The identifier of an address is read back from its 32 bytes: the first 16
/// bytes make up the high word and the last 16 bytes the low word. So two
/// addresses with the same bytes have the same identifier.
pub proof fn lemma_key_round_trip(hi: u128, lo: u128)
    ensures
        word_of(key_of(hi, lo).subrange(0, 16)) == hi,
        word_of(key_of(hi, lo).subrange(16, 32)) == lo,
{
    let high = Seq::new(16, |i: int| byte_at(hi, i));
    let low = Seq::new(16, |i: int| byte_at(lo, i));
    assert(key_of(hi, lo).subrange(0, 16) =~= high);
    assert(key_of(hi, lo).subrange(16, 32) =~= low);
    assert(high.take(16) =~= high);
    assert(low.take(16) =~= low);
    lemma_word_of_bytes(hi, 16);
    lemma_word_of_bytes(lo, 16);
    assert(hi >> 0u128 == hi) by (bit_vector);
    assert(lo >> 0u128 == lo) by (bit_vector);
}

/// The 32 bytes of the identifier of `address`.
pub fn key_bytes(address: Address) -> (key: [u8; 32])
    ensures
        key@ == key_of(address.hi, address.lo),
{
    let mut key: [u8; 32] = [0; 32];
    let mut i: usize = 0;
    while i < 16
        invariant
            i <= 16,
            forall|j: int| 0 <= j < i ==> key@[j] == byte_at(address.hi, j),
            forall|j: int| 0 <= j < i ==> key@[j + 16] == byte_at(address.lo, j),
        decreases 16 - i,
    {
        let shift: u128 = ((15 - i) * 8) as u128;
        let hi: u128 = address.hi;
        let lo: u128 = address.lo;
        let high: u128 = (hi >> shift) & 0xff;
        let low: u128 = (lo >> shift) & 0xff;
        assert(high <= 0xff && low <= 0xff) by (bit_vector)
            requires
                high == (hi >> shift) & 0xff,
                low == (lo >> shift) & 0xff,
        ;
        key[i] = high as u8;
        key[i + 16] = low as u8;
        i = i + 1;
    }
    assert(key@ =~= key_of(address.hi, address.lo));
    key
}

/// The word whose bytes are the 16 bytes of `key` from position `from` on.
pub fn word_from(key: &[u8; 32], from: usize) -> (word: u128)
    requires
        from <= 16,
    ensures
        word == word_of(key@.subrange(from as int, from + 16)),
{
    let mut word: u128 = 0;
    let mut i: usize = 0;
    let ghost bytes = key@.subrange(from as int, from + 16);
    assert(bytes.take(0) =~= Seq::<u8>::empty());
    while i < 16
        invariant
            i <= 16,
            from <= 16,
            bytes == key@.subrange(from as int, from + 16),
            word == word_of(bytes.take(i as int)),
        decreases 16 - i,
    {
        assert(bytes.take(i + 1).drop_last() =~= bytes.take(i as int));
        assert(bytes.take(i + 1).last() == key@[from + i]);
        word = (word << 8) | (key[from + i] as u128);
        i = i + 1;
    }
    assert(bytes.take(16) =~= bytes);
    word
}

/// The 32 bytes of the address at which a Soroban host with the network
/// identifier zero deploys the contract that the account or contract with the
/// identifier bytes `key` deploys with the salt byte `salt`.
pub uninterp spec fn contract_key(kind: AddressKind, key: Seq<u8>, salt: u8) -> Seq<u8>;

/// The address at which the host deploys the contract that `deployer`
/// deploys with `salt`. It is the address of a contract.
pub open spec fn contract_id(deployer: Address, salt: u32) -> Address {
    let key = contract_key(deployer.kind, key_of(deployer.hi, deployer.lo), salt as u8);
    Address {
        kind: AddressKind::Contract,
        hi: word_of(key.subrange(0, 16)),
        lo: word_of(key.subrange(16, 32)),
    }
}

/// Asks a Soroban host for the address of the contract that the account or
/// contract with the identifier `key` deploys with `salt`:
/// `DeployerWithAddress::deployed_address` of `soroban_sdk`, on a host of its
/// own with the network identifier zero and with the salt byte repeated 32
/// times. The answer is the identifier of that address, which is always the
/// address of a contract.
///
/// Trusted: that the host derives the address from the network identifier,
/// the deployer and the salt alone, so that the same deployer and salt always
/// give the same address.
#[verifier::external_body]
fn deployed_key(kind: AddressKind, key: [u8; 32], salt: u8) -> (made: [u8; 32])
    ensures
        made@ == contract_key(kind, key@, salt),
{
    let env = Env::new_with_config(EnvTestConfig { capture_snapshot_at_drop: false });
    let from = match kind {
        AddressKind::Account => ScAddress::Account(AccountId(PublicKey::PublicKeyTypeEd25519(Uint256(key)))),
        AddressKind::Contract => ScAddress::Contract(xdr::Hash(key)),
    };
    let from = soroban_sdk::Address::try_from_val(&env, &from).unwrap();
    let salt = BytesN::from_array(&env, &[salt; 32]);
    match ScAddress::try_from(env.deployer().with_address(from, salt).deployed_address()).unwrap() {
        ScAddress::Account(AccountId(PublicKey::PublicKeyTypeEd25519(Uint256(id)))) => id,
        ScAddress::Contract(xdr::Hash(id)) => id,
    }
}

/// The address at which the host deploys the contract that `deployer`
/// deploys with `salt`; none for a salt that does not fit in a byte.
pub fn derive_contract_address(deployer: Address, salt: u32) -> (derived: Option<Address>)
    ensures
        derived == if salt <= MAX_SALT {
            Some(contract_id(deployer, salt))
        } else {
            None
        },
{
    if salt > MAX_SALT {
        return None;
    }
    let made = deployed_key(deployer.kind, key_bytes(deployer), salt as u8);
    Some(
        Address { kind: AddressKind::Contract, hi: word_from(&made, 0), lo: word_from(&made, 16) },
    )
}

} // verus!
