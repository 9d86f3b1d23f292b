use vstd::prelude::*;

use crate::base58::{
    base58_encoding, be_value, lemma_base58_encoding_injective, lemma_base58_first_letter, lemma_be_value_bound, lemma_be_value_prepend, pow256,
    pow58,
};
use crate::encoding::{
    base58check, base58check_payload, checksum, encode_base58_check, encode_bech32,
    lemma_base58check_injective, sha256, witness_address,
};
use crate::network::RavencoinNetwork;

verus! {

/// The payload of an address, as the bitcoin crate's `Payload` holds it.
#[derive(Debug, Clone, PartialEq, Eq)]
pub enum Payload {
    /// P2PKH address: the hash160 of a public key.
    PubkeyHash([u8; 20]),
    /// P2SH address: the hash160 of a script.
    ScriptHash([u8; 20]),
    /// Segwit address: witness version and witness program.
    WitnessProgram { version: u8, program: Vec<u8> },
}

/// The address text of a payload under the given network parameters.
pub open spec fn payload_address(payload: Payload, network: RavencoinNetwork) -> Seq<char> {
    match payload {
        Payload::PubkeyHash(h) => base58check(seq![network.pubkey_hash] + h@),
        Payload::ScriptHash(h) => base58check(seq![network.script_hash] + h@),
        Payload::WitnessProgram { version: _, program } => witness_address(
            network.bech32_hrp@,
            base58_encoding(program@),
        ),
    }
}

/// The first letter of the Base58 text of 25 bytes opening with one of the
/// Ravencoin version bytes: 60 gives 'R', 122 gives 'r', 111 gives 'm' or
/// 'n', 196 gives '2'.
proof fn lemma_versioned_first_letter(v: u8, rest: Seq<u8>)
    requires
        rest.len() == 24,
        v == 60 || v == 122 || v == 111 || v == 196,
    ensures
        v == 196 ==> base58_encoding(seq![v] + rest).len() == 35,
        v != 196 ==> base58_encoding(seq![v] + rest).len() == 34,
        v == 60 ==> base58_encoding(seq![v] + rest)[0] == 'R',
        v == 122 ==> base58_encoding(seq![v] + rest)[0] == 'r',
        v == 111 ==> base58_encoding(seq![v] + rest)[0] == 'm' || base58_encoding(
            seq![v] + rest,
        )[0] == 'n',
        v == 196 ==> base58_encoding(seq![v] + rest)[0] == '2',
{
    let data = seq![v] + rest;
    lemma_be_value_prepend(v, rest);
    lemma_be_value_bound(rest);
    reveal_with_fuel(pow256, 25);
    reveal_with_fuel(pow58, 36);
    assert(pow256(24) == 6277101735386680763835789423207666416102355444464034512896);
    assert(pow58(33) == 15599970876632771988160814054146447252125923204784443097088);
    assert(pow58(34) == 904798310844700775313327215140493940623303545877497699631104);
    assert(pow58(35) == 58 * 904798310844700775313327215140493940623303545877497699631104);
    let n = be_value(data);
    assert(data[0] == v);
    if v == 196 {
        lemma_base58_first_letter(data, 34);
        assert(n / pow58(34) == 1);
    } else {
        lemma_base58_first_letter(data, 33);
        if v == 60 {
            assert(n / pow58(33) == 24);
        } else if v == 122 {
            assert(n / pow58(33) == 49);
        } else {
            assert(n / pow58(33) == 44 || n / pow58(33) == 45);
        }
    }
}

/// Base58 of the version byte, the hash, and the first four bytes of SHA-256
/// applied twice to the version byte and the hash.
pub open spec fn hash_address_text(v: u8, hash: Seq<u8>) -> Seq<char> {
    base58_encoding(seq![v] + hash + sha256(sha256(seq![v] + hash)).take(4))
}

/// The address of a P2PKH or P2SH payload is the Base58 of the network's
/// version byte, the 20 hash bytes in their given order, and the first four
/// bytes of SHA-256 applied twice to those 21 bytes.
pub proof fn lemma_hash_address_bytes(h: [u8; 20], network: RavencoinNetwork)
    ensures
        payload_address(Payload::PubkeyHash(h), network) == base58_encoding(
            seq![network.pubkey_hash] + h@ + sha256(sha256(seq![network.pubkey_hash] + h@)).take(4),
        ),
        payload_address(Payload::ScriptHash(h), network) == base58_encoding(
            seq![network.script_hash] + h@ + sha256(sha256(seq![network.script_hash] + h@)).take(4),
        ),
{
}

/// Base58-decoding a P2PKH or P2SH address gives back exactly the version
/// byte, the hash byte for byte, and the checksum of those 21 bytes: any bytes
/// `d` whose Base58 text is the address are these.
pub proof fn lemma_hash_address_decodes(payload: Payload, network: RavencoinNetwork, d: Seq<u8>)
    requires
        !(payload is WitnessProgram),
        base58_encoding(d) == payload_address(payload, network),
    ensures
        d.len() >= 21,
        d.skip(21) == sha256(sha256(d.take(21))).take(4),
        match payload {
            Payload::PubkeyHash(h) => d[0] == network.pubkey_hash && d.subrange(1, 21) == h@,
            Payload::ScriptHash(h) => d[0] == network.script_hash && d.subrange(1, 21) == h@,
            Payload::WitnessProgram { .. } => true,
        },
{
    let (v, hs) = match payload {
        Payload::PubkeyHash(h) => (network.pubkey_hash, h@),
        Payload::ScriptHash(h) => (network.script_hash, h@),
        Payload::WitnessProgram { .. } => (0u8, Seq::<u8>::empty()),
    };
    let head = seq![v] + hs;
    lemma_base58_encoding_injective(d, head + sha256(sha256(head)).take(4));
    assert(d.take(21) =~= head);
    assert(d.skip(21) =~= sha256(sha256(head)).take(4));
    assert(d.subrange(1, 21) =~= hs);
}

/// Within one network, the address of a P2PKH (or P2SH) payload determines
/// its hash: different hashes give different address texts.
pub proof fn lemma_hash_address_determines_hash(h1: [u8; 20], h2: [u8; 20], network: RavencoinNetwork)
    ensures
        payload_address(Payload::PubkeyHash(h1), network) == payload_address(
            Payload::PubkeyHash(h2),
            network,
        ) ==> h1 == h2,
        payload_address(Payload::ScriptHash(h1), network) == payload_address(
            Payload::ScriptHash(h2),
            network,
        ) ==> h1 == h2,
{
    broadcast use vstd::array::axiom_array_ext_equal;

    if payload_address(Payload::PubkeyHash(h1), network) == payload_address(
        Payload::PubkeyHash(h2),
        network,
    ) {
        let d = base58check_payload(seq![network.pubkey_hash] + h1@);
        lemma_hash_address_decodes(Payload::PubkeyHash(h2), network, d);
        assert(d.subrange(1, 21) =~= h1@);
        assert(h1@ =~= h2@);
    }
    if payload_address(Payload::ScriptHash(h1), network) == payload_address(
        Payload::ScriptHash(h2),
        network,
    ) {
        let d = base58check_payload(seq![network.script_hash] + h1@);
        lemma_hash_address_decodes(Payload::ScriptHash(h2), network, d);
        assert(d.subrange(1, 21) =~= h1@);
        assert(h1@ =~= h2@);
    }
}

/// Whether a text starts with the character `c`.
pub open spec fn starts_with(a: Seq<char>, c: char) -> bool {
    a.len() > 0 && a[0] == c
}

/// The first letter of the Base58Check text of a version byte and a 20-byte
/// hash, for the Ravencoin version bytes.
proof fn lemma_hash_address_letter(v: u8, hash: Seq<u8>)
    requires
        hash.len() == 20,
        checksum(seq![v] + hash).len() == 4,
    ensures
        v == 196 ==> base58check(seq![v] + hash).len() == 35,
        (v == 60 || v == 122 || v == 111) ==> base58check(seq![v] + hash).len() == 34,
        v == 60 ==> starts_with(base58check(seq![v] + hash), 'R'),
        v == 122 ==> starts_with(base58check(seq![v] + hash), 'r'),
        v == 111 ==> starts_with(base58check(seq![v] + hash), 'm') || starts_with(
            base58check(seq![v] + hash),
            'n',
        ),
        v == 196 ==> starts_with(base58check(seq![v] + hash), '2'),
{
    if v == 60 || v == 122 || v == 111 || v == 196 {
        let rest = hash + checksum(seq![v] + hash);
        assert(base58check_payload(seq![v] + hash) =~= seq![v] + rest);
        lemma_versioned_first_letter(v, rest);
    }
}

/// Different version bytes or hashes give different hash addresses: the
/// address text decodes to exactly one version byte and hash. The checksum
/// lengths are what `ravencoin_address_from_payload` ensures.
pub proof fn lemma_hash_address_injective(v1: u8, h1: Seq<u8>, v2: u8, h2: Seq<u8>)
    requires
        h1.len() == h2.len(),
        checksum(seq![v1] + h1).len() == 4,
        checksum(seq![v2] + h2).len() == 4,
        base58check(seq![v1] + h1) == base58check(seq![v2] + h2),
    ensures
        v1 == v2,
        h1 == h2,
{
    lemma_base58check_injective(seq![v1] + h1, seq![v2] + h2);
    assert((seq![v1] + h1)[0] == v1);
    assert(h1 =~= (seq![v1] + h1).skip(1));
    assert(h2 =~= (seq![v2] + h2).skip(1));
}

/// The version byte followed by the hash.
fn versioned_hash(version: u8, hash: &[u8]) -> (res: Vec<u8>)
    ensures
        res@ == seq![version] + hash@,
{
    let mut bytes: Vec<u8> = Vec::new();
    bytes.push(version);
    let n: usize = hash.len();
    for i in 0..n
        invariant
            n == hash@.len(),
            bytes@ == seq![version] + hash@.take(i as int),
    {
        bytes.push(hash[i]);
        assert(hash@.take(i + 1) == hash@.take(i as int).push(hash@[i as int]));
    }
    assert(hash@.take(n as int) == hash@);
    bytes
}

/// Create a Ravencoin address from an address payload using the network's
/// parameters: Base58Check of the version byte and hash for P2PKH and P2SH,
/// the witness-program text for segwit payloads. It always gives an address.
pub fn ravencoin_address_from_payload(payload: &Payload, network: RavencoinNetwork) -> (res: Option<String>)
    ensures
        res matches Some(a) && a@ == payload_address(*payload, network),
        // The Base58Check checksum of a hash payload is four bytes, so the
        // encoded bytes are the version byte, the 20-byte hash and the checksum.
        match *payload {
            Payload::PubkeyHash(h) => checksum(seq![network.pubkey_hash] + h@).len() == 4,
            Payload::ScriptHash(h) => checksum(seq![network.script_hash] + h@).len() == 4,
            Payload::WitnessProgram { .. } => true,
        },
        // The text is the Base58 of the version byte, the hash in its given
        // order, and the first four bytes of SHA-256 applied twice to those.
        res matches Some(a) ==> match *payload {
            Payload::PubkeyHash(h) => a@ == hash_address_text(network.pubkey_hash, h@),
            Payload::ScriptHash(h) => a@ == hash_address_text(network.script_hash, h@),
            Payload::WitnessProgram { .. } => true,
        },
        // Address prefixes and lengths of the known version bytes: mainnet
        // P2PKH 'R', mainnet P2SH 'r', testnet P2PKH 'm' or 'n' (34 characters
        // each), testnet P2SH '2' (35 characters).
        res matches Some(a) ==> {
            &&& (payload is PubkeyHash && network.pubkey_hash == 60) ==> starts_with(a@, 'R')
                && a@.len() == 34
            &&& (payload is ScriptHash && network.script_hash == 122) ==> starts_with(a@, 'r')
                && a@.len() == 34
            &&& (payload is PubkeyHash && network.pubkey_hash == 111) ==> (starts_with(a@, 'm')
                || starts_with(a@, 'n')) && a@.len() == 34
            &&& (payload is ScriptHash && network.script_hash == 196) ==> starts_with(a@, '2')
                && a@.len() == 35
        },
{
    match payload {
        Payload::PubkeyHash(pkh) => {
            let bytes = versioned_hash(network.pubkey_hash, pkh.as_slice());
            let address = encode_base58_check(bytes.as_slice());
            proof {
                lemma_hash_address_letter(network.pubkey_hash, pkh@);
            }
            Some(address)
        },
        Payload::ScriptHash(sh) => {
            let bytes = versioned_hash(network.script_hash, sh.as_slice());
            let address = encode_base58_check(bytes.as_slice());
            proof {
                lemma_hash_address_letter(network.script_hash, sh@);
            }
            Some(address)
        },
        Payload::WitnessProgram { version: _, program } => {
            match encode_bech32(network.bech32_hrp, program.as_slice()) {
                Ok(s) => Some(s),
                Err(_) => None,
            }
        },
    }
}

} // verus!
