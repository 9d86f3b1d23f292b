use vstd::prelude::*;

verus! {

/// Ravencoin network parameters for address encoding.
#[derive(Debug, Clone, Copy, PartialEq, Eq)]
pub struct RavencoinNetwork {
    /// Version byte of pay-to-public-key-hash addresses.
    pub pubkey_hash: u8,
    /// Version byte of pay-to-script-hash addresses.
    pub script_hash: u8,
    /// Human-readable part of witness-program addresses.
    pub bech32_hrp: &'static str,
}

impl RavencoinNetwork {
    /// Main network: P2PKH addresses start with 'R', P2SH addresses with 'r'.
    pub fn mainnet() -> (n: RavencoinNetwork)
        ensures
            n.pubkey_hash == 60,
            n.script_hash == 122,
            n.bech32_hrp@ == "rvn"@,
    {
        RavencoinNetwork { pubkey_hash: 60, script_hash: 122, bech32_hrp: "rvn" }
    }

    /// Test network: P2PKH addresses start with 'm' or 'n', P2SH addresses with '2'.
    pub fn testnet() -> (n: RavencoinNetwork)
        ensures
            n.pubkey_hash == 111,
            n.script_hash == 196,
            n.bech32_hrp@ == "trvn"@,
    {
        RavencoinNetwork { pubkey_hash: 111, script_hash: 196, bech32_hrp: "trvn" }
    }
}

} // verus!
