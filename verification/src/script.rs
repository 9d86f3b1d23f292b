use vstd::prelude::*;

verus! {

/// Ravencoin-specific script types, including asset operations.
#[derive(Debug, Clone, PartialEq, Eq, Structural, Hash, PartialOrd, Ord)]
pub enum RavencoinScriptType {
    // Standard Bitcoin script types
    OpReturn,
    Pay2MultiSig,
    Pay2PublicKey,
    Pay2PublicKeyHash,
    Pay2ScriptHash,
    Pay2WitnessPublicKeyHash,
    Pay2WitnessScriptHash,
    WitnessProgram,
    Unspendable,
    // Ravencoin-specific asset operations
    AssetIssuance,
    AssetTransfer,
    AssetReissuance,
    AssetOwnership,
    AssetQualifier,
    AssetRestricted,
    AssetMessage,
    NotRecognised,
}

/// The `OP_RETURN` opcode.
pub const OP_RETURN: u8 = 0x6a;

/// First byte of the `"rvn?"` marker that opens an asset operation.
pub const ASSET_MARKER_R: u8 = 0x72;

/// Second byte of the asset marker, `'v'`.
pub const ASSET_MARKER_V: u8 = 0x76;

/// Third byte of the asset marker, `'n'`.
pub const ASSET_MARKER_N: u8 = 0x6e;

/// Whether a script type names a Ravencoin asset operation.
pub open spec fn is_asset_operation(t: RavencoinScriptType) -> bool {
    match t {
        RavencoinScriptType::AssetIssuance
        | RavencoinScriptType::AssetTransfer
        | RavencoinScriptType::AssetReissuance
        | RavencoinScriptType::AssetOwnership
        | RavencoinScriptType::AssetQualifier
        | RavencoinScriptType::AssetRestricted
        | RavencoinScriptType::AssetMessage => true,
        _ => false,
    }
}

/// The asset operation named by the letter that follows `"rvn"`:
/// `q` issuance, `t` transfer, `r` reissuance, `o` ownership,
/// `Q` qualifier, `R` restricted, `m` message.
pub open spec fn asset_operation_for(op: u8) -> Option<RavencoinScriptType> {
    if op == 0x71 {
        Some(RavencoinScriptType::AssetIssuance)
    } else if op == 0x74 {
        Some(RavencoinScriptType::AssetTransfer)
    } else if op == 0x72 {
        Some(RavencoinScriptType::AssetReissuance)
    } else if op == 0x6f {
        Some(RavencoinScriptType::AssetOwnership)
    } else if op == 0x51 {
        Some(RavencoinScriptType::AssetQualifier)
    } else if op == 0x52 {
        Some(RavencoinScriptType::AssetRestricted)
    } else if op == 0x6d {
        Some(RavencoinScriptType::AssetMessage)
    } else {
        None
    }
}

/// A script is an `OP_RETURN` script when its first byte is `OP_RETURN`.
pub open spec fn is_op_return_script(s: Seq<u8>) -> bool {
    s.len() > 0 && s[0] == OP_RETURN
}

/// The asset operation a script carries: an `OP_RETURN` script whose data,
/// after the opcode and the push-length byte, starts with `"rvn"` and an
/// operation letter.
pub open spec fn asset_script_type(s: Seq<u8>) -> Option<RavencoinScriptType> {
    if is_op_return_script(s) && s.len() >= 6 && s[2] == ASSET_MARKER_R && s[3] == ASSET_MARKER_V
        && s[4] == ASSET_MARKER_N {
        asset_operation_for(s[5])
    } else {
        None
    }
}

/// Calls `bitcoin::Script::is_op_return` on a script built from these bytes.
/// In bitcoin 0.29 it is true exactly when the first byte is `OP_RETURN`.
#[verifier::external_body]
fn script_is_op_return(script: &[u8]) -> (res: bool)
    ensures
        res == is_op_return_script(script@),
{
    bitcoin::Script::from(script.to_vec()).is_op_return()
}

/// Check whether a script (given by its bytes) contains a Ravencoin asset operation.
pub fn detect_ravencoin_asset_script(script: &[u8]) -> (res: Option<RavencoinScriptType>)
    ensures
        res == asset_script_type(script@),
        res matches Some(t) ==> is_asset_operation(t),
        res is Some ==> is_op_return_script(script@) && script@.len() >= 6,
        // Whatever the push-length byte, an OP_RETURN script whose bytes 2..5
        // are "rvn" and a letter carries that letter's operation.
        script@.len() >= 6 && script@[0] == 0x6a && script@[2] == 0x72 && script@[3] == 0x76
            && script@[4] == 0x6e ==> res == asset_operation_for(script@[5]),
        res is Some ==> script@[0] == 0x6a && script@[2] == 0x72 && script@[3] == 0x76
            && script@[4] == 0x6e,
{
    // Asset scripts are OP_RETURN scripts with specific prefixes
    if !script_is_op_return(script) || script.len() < 3 {
        return None;
    }
    // Skip OP_RETURN and the length byte
    if script[2] != ASSET_MARKER_R || script.len() < 6 {
        return None;
    }
    if script[3] != ASSET_MARKER_V || script[4] != ASSET_MARKER_N {
        return None;
    }
    let op = script[5];
    if op == 0x71 {
        Some(RavencoinScriptType::AssetIssuance)
    } else if op == 0x74 {
        Some(RavencoinScriptType::AssetTransfer)
    } else if op == 0x72 {
        Some(RavencoinScriptType::AssetReissuance)
    } else if op == 0x6f {
        Some(RavencoinScriptType::AssetOwnership)
    } else if op == 0x51 {
        Some(RavencoinScriptType::AssetQualifier)
    } else if op == 0x52 {
        Some(RavencoinScriptType::AssetRestricted)
    } else if op == 0x6d {
        Some(RavencoinScriptType::AssetMessage)
    } else {
        None
    }
}

/// Data after the operation letter (the asset payload) does not change
/// what a script is detected as.
pub proof fn lemma_asset_data_ignored(s: Seq<u8>, data: Seq<u8>)
    requires
        s.len() >= 6,
    ensures
        asset_script_type(s + data) == asset_script_type(s),
{
    let t = s + data;
    assert(t[0] == s[0] && t[2] == s[2] && t[3] == s[3] && t[4] == s[4] && t[5] == s[5]);
}

/// The push-length byte after `OP_RETURN` does not change what a script is
/// detected as: it may announce the marker alone or the marker and asset data.
pub proof fn lemma_push_length_ignored(s: Seq<u8>, b: u8)
    requires
        1 < s.len(),
    ensures
        asset_script_type(s.update(1, b)) == asset_script_type(s),
{
    let t = s.update(1, b);
    assert(t.len() == s.len());
    assert(t[0] == s[0]);
    if s.len() >= 6 {
        assert(t[2] == s[2] && t[3] == s[3] && t[4] == s[4] && t[5] == s[5]);
    }
}

/// An `OP_RETURN` script whose bytes 2..5 are `"rvn"` and an operation letter
/// carries that letter's operation: `q` issuance, `t` transfer, `r`
/// reissuance, `o` ownership, `Q` qualifier, `R` restricted, `m` message; any
/// other letter carries none.
pub proof fn lemma_asset_marker_detected(s: Seq<u8>)
    requires
        s.len() >= 6,
        s[0] == 0x6a,
        s[2] == 0x72,
        s[3] == 0x76,
        s[4] == 0x6e,
    ensures
        s[5] == 0x71 ==> asset_script_type(s) == Some(RavencoinScriptType::AssetIssuance),
        s[5] == 0x74 ==> asset_script_type(s) == Some(RavencoinScriptType::AssetTransfer),
        s[5] == 0x72 ==> asset_script_type(s) == Some(RavencoinScriptType::AssetReissuance),
        s[5] == 0x6f ==> asset_script_type(s) == Some(RavencoinScriptType::AssetOwnership),
        s[5] == 0x51 ==> asset_script_type(s) == Some(RavencoinScriptType::AssetQualifier),
        s[5] == 0x52 ==> asset_script_type(s) == Some(RavencoinScriptType::AssetRestricted),
        s[5] == 0x6d ==> asset_script_type(s) == Some(RavencoinScriptType::AssetMessage),
        s[5] != 0x71 && s[5] != 0x74 && s[5] != 0x72 && s[5] != 0x6f && s[5] != 0x51 && s[5]
            != 0x52 && s[5] != 0x6d ==> asset_script_type(s) is None,
{
}

/// Only `OP_RETURN` scripts are ever detected, and only as asset operations.
pub proof fn lemma_detected_is_asset_operation(s: Seq<u8>)
    ensures
        asset_script_type(s) matches Some(t) ==> is_asset_operation(t) && is_op_return_script(s),
{
}

} // verus!
