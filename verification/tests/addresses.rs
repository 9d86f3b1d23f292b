use ravencoin_parser::encoding::{ascii_lowercase_string, base58check_frame, format_witness_address};
use ravencoin_parser::{ravencoin_address_from_payload, Payload, RavencoinNetwork};

const TEST_HASH: [u8; 20] = [
    0x12, 0x34, 0x56, 0x78, 0x9a, 0xbc, 0xde, 0xf0, 0x12, 0x34, 0x56, 0x78, 0x9a, 0xbc, 0xde, 0xf0,
    0x12, 0x34, 0x56, 0x78,
];

#[test]
fn mainnet_addresses_exact() {
    let net = RavencoinNetwork::mainnet();
    assert_eq!(
        ravencoin_address_from_payload(&Payload::PubkeyHash(TEST_HASH), net).unwrap(),
        "RAwSwTiwuhp2rvyWE7c86jUaUT7rCYcQrX"
    );
    assert_eq!(
        ravencoin_address_from_payload(&Payload::ScriptHash(TEST_HASH), net).unwrap(),
        "r7tqzCCovtYMZocsk8FtAWMMVj6LG42xEn"
    );
}

#[test]
fn testnet_addresses_exact() {
    let net = RavencoinNetwork::testnet();
    assert_eq!(net.pubkey_hash, 111);
    assert_eq!(net.script_hash, 196);
    assert_eq!(net.bech32_hrp, "trvn");
    let p2pkh = ravencoin_address_from_payload(&Payload::PubkeyHash(TEST_HASH), net).unwrap();
    assert_eq!(p2pkh, "mhBD9zve7uSia35vUWbNq8MhaBFxVq5gnV");
    assert!(p2pkh.starts_with('m') || p2pkh.starts_with('n'));
    let p2sh = ravencoin_address_from_payload(&Payload::ScriptHash(TEST_HASH), net).unwrap();
    assert_eq!(p2sh, "2MtuUrEG8UEqC5swHZAuU3nVa54A8xceuSa");
}

#[test]
fn zero_hash_mainnet_address_starts_with_r() {
    let addr = ravencoin_address_from_payload(&Payload::PubkeyHash([0u8; 20]), RavencoinNetwork::mainnet())
        .unwrap();
    assert_eq!(addr, "R9HC5WtHbpoa51NCUAz86XLCmGTbkf45NT");
}

#[test]
fn witness_program_address_exact() {
    let program: Vec<u8> = (0u8..20).collect();
    let payload = Payload::WitnessProgram { version: 0, program };
    assert_eq!(
        ravencoin_address_from_payload(&payload, RavencoinNetwork::mainnet()).unwrap(),
        "rvn11bhh3pu9glxzindl6pezuep5ri"
    );
    let payload = Payload::WitnessProgram { version: 1, program: vec![0, 0, 0xff] };
    assert_eq!(
        ravencoin_address_from_payload(&payload, RavencoinNetwork::testnet()).unwrap(),
        "trvn1115q"
    );
}

#[test]
fn base58check_frame_appends_four_digest_bytes() {
    let digest = [0x5d, 0xf6, 0xe0, 0xe2, 0x76, 0x13, 0x59, 0xd3];
    assert_eq!(base58check_frame(&[], &digest), vec![0x5d, 0xf6, 0xe0, 0xe2]);
    assert_eq!(
        base58check_frame(&[1, 2, 3], &[0x19, 0xc6, 0x19, 0x7e]),
        vec![1, 2, 3, 0x19, 0xc6, 0x19, 0x7e]
    );
}

#[test]
fn witness_address_formatting() {
    assert_eq!(format_witness_address("rvn", "1Bhh3pU9gLXZ"), "rvn11bhh3pu9glxz");
    assert_eq!(format_witness_address("", ""), "1");
    assert_eq!(ascii_lowercase_string("AbCxYZ19"), "abcxyz19");
    assert_eq!(ascii_lowercase_string("ÄB"), "Äb");
}

#[test]
fn hash_address_lengths() {
    let main = RavencoinNetwork::mainnet();
    let test = RavencoinNetwork::testnet();
    for hash in [TEST_HASH, [0u8; 20], [0xffu8; 20]] {
        let a = ravencoin_address_from_payload(&Payload::PubkeyHash(hash), main).unwrap();
        assert!(a.starts_with('R') && a.chars().count() == 34);
        let a = ravencoin_address_from_payload(&Payload::ScriptHash(hash), main).unwrap();
        assert!(a.starts_with('r') && a.chars().count() == 34);
        let a = ravencoin_address_from_payload(&Payload::PubkeyHash(hash), test).unwrap();
        assert!((a.starts_with('m') || a.starts_with('n')) && a.chars().count() == 34);
        let a = ravencoin_address_from_payload(&Payload::ScriptHash(hash), test).unwrap();
        assert!(a.starts_with('2') && a.chars().count() == 35);
    }
}

#[test]
fn different_hashes_give_different_addresses() {
    let main = RavencoinNetwork::mainnet();
    let mut other = TEST_HASH;
    other[19] ^= 1;
    let a = ravencoin_address_from_payload(&Payload::PubkeyHash(TEST_HASH), main).unwrap();
    let b = ravencoin_address_from_payload(&Payload::PubkeyHash(other), main).unwrap();
    assert_ne!(a, b);
}
