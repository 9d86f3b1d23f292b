use bitcoin::hashes::hex::FromHex;
use bitcoin::hashes::hash160;
use bitcoin::{PubkeyHash, Script, ScriptHash};
use ravencoin_parser::{
    detect_ravencoin_asset_script, ravencoin_address_from_payload, Payload, RavencoinNetwork,
    RavencoinScriptType,
};

#[test]
fn test_ravencoin_asset_detection() {
    // Test asset issuance script (OP_RETURN + length + "rvnq" + asset data)
    let script_hex = "6a0472766e71"; // OP_RETURN(6a) + len(04) + "rvnq"
    let script = Script::from_hex(script_hex).unwrap();

    assert_eq!(
        detect_ravencoin_asset_script(script.as_bytes()),
        Some(RavencoinScriptType::AssetIssuance)
    );
}

#[test]
fn test_ravencoin_network_constants() {
    assert_eq!(RavencoinNetwork::mainnet().pubkey_hash, 60);
    assert_eq!(RavencoinNetwork::mainnet().script_hash, 122);
    assert_eq!(RavencoinNetwork::mainnet().bech32_hrp, "rvn");
}

#[test]
fn test_standard_bitcoin_script_not_detected_as_asset() {
    // Standard P2PKH script from existing tests (even length hex)
    let script_hex = "76a91412ab8dc588ca9d5787dde7eb29569da63c3a238c88ac";
    let script = Script::from_hex(script_hex).unwrap();

    assert_eq!(detect_ravencoin_asset_script(script.as_bytes()), None);
}

#[test]
fn test_ravencoin_address_encoding() {
    // Test with a known hash160 (20 bytes)
    let test_hash = [
        0x12, 0x34, 0x56, 0x78, 0x9a, 0xbc, 0xde, 0xf0, 0x12, 0x34, 0x56, 0x78, 0x9a, 0xbc, 0xde,
        0xf0, 0x12, 0x34, 0x56, 0x78,
    ];

    let network = RavencoinNetwork::mainnet();

    // Test P2PKH address generation
    let hash160_obj = <hash160::Hash as bitcoin::hashes::Hash>::from_slice(&test_hash).unwrap();
    let pkh = PubkeyHash::from_hash(hash160_obj);
    let p2pkh_payload = Payload::PubkeyHash(bitcoin::hashes::Hash::into_inner(pkh));
    let p2pkh_addr = ravencoin_address_from_payload(&p2pkh_payload, network).unwrap();
    assert!(p2pkh_addr.starts_with('R')); // Ravencoin mainnet P2PKH addresses start with 'R'

    // Test P2SH address generation
    let hash160_obj = <hash160::Hash as bitcoin::hashes::Hash>::from_slice(&test_hash).unwrap();
    let sh = ScriptHash::from_hash(hash160_obj);
    let p2sh_payload = Payload::ScriptHash(bitcoin::hashes::Hash::into_inner(sh));
    let p2sh_addr = ravencoin_address_from_payload(&p2sh_payload, network).unwrap();
    assert!(p2sh_addr.starts_with('r')); // Ravencoin mainnet P2SH addresses start with 'r'

    println!("P2PKH: {}", p2pkh_addr);
    println!("P2SH: {}", p2sh_addr);
}
