use ravencoin_parser::{detect_ravencoin_asset_script, RavencoinScriptType};

fn script_with_op(op: u8) -> Vec<u8> {
    vec![0x6a, 0x04, 0x72, 0x76, 0x6e, op]
}

#[test]
fn detects_every_asset_operation() {
    let cases = [
        (b'q', RavencoinScriptType::AssetIssuance),
        (b't', RavencoinScriptType::AssetTransfer),
        (b'r', RavencoinScriptType::AssetReissuance),
        (b'o', RavencoinScriptType::AssetOwnership),
        (b'Q', RavencoinScriptType::AssetQualifier),
        (b'R', RavencoinScriptType::AssetRestricted),
        (b'm', RavencoinScriptType::AssetMessage),
    ];
    for (op, expected) in cases {
        assert_eq!(detect_ravencoin_asset_script(&script_with_op(op)), Some(expected));
    }
}

#[test]
fn unknown_operation_letter_is_not_detected() {
    assert_eq!(detect_ravencoin_asset_script(&script_with_op(b'x')), None);
    assert_eq!(detect_ravencoin_asset_script(&script_with_op(b'T')), None);
}

#[test]
fn asset_data_after_marker_is_ignored() {
    let mut script = script_with_op(b't');
    script.extend_from_slice(&[0x05, 0x41, 0x53, 0x53, 0x45, 0x54, 0x00, 0xff]);
    assert_eq!(
        detect_ravencoin_asset_script(&script),
        Some(RavencoinScriptType::AssetTransfer)
    );
}

#[test]
fn non_op_return_script_is_not_detected() {
    assert_eq!(detect_ravencoin_asset_script(&[0x6b, 0x04, 0x72, 0x76, 0x6e, 0x71]), None);
    assert_eq!(detect_ravencoin_asset_script(&[0x00, 0x04, 0x72, 0x76, 0x6e, 0x71]), None);
}

#[test]
fn short_scripts_are_not_detected() {
    assert_eq!(detect_ravencoin_asset_script(&[]), None);
    assert_eq!(detect_ravencoin_asset_script(&[0x6a]), None);
    assert_eq!(detect_ravencoin_asset_script(&[0x6a, 0x04]), None);
    assert_eq!(detect_ravencoin_asset_script(&[0x6a, 0x04, 0x72]), None);
    assert_eq!(detect_ravencoin_asset_script(&[0x6a, 0x04, 0x72, 0x76, 0x6e]), None);
}

#[test]
fn wrong_marker_is_not_detected() {
    assert_eq!(detect_ravencoin_asset_script(&[0x6a, 0x04, 0x73, 0x76, 0x6e, 0x71]), None);
    assert_eq!(detect_ravencoin_asset_script(&[0x6a, 0x04, 0x72, 0x77, 0x6e, 0x71]), None);
    assert_eq!(detect_ravencoin_asset_script(&[0x6a, 0x04, 0x72, 0x76, 0x6f, 0x71]), None);
    // the marker must follow the length byte directly
    assert_eq!(detect_ravencoin_asset_script(&[0x6a, 0x72, 0x76, 0x6e, 0x71, 0x00]), None);
}
