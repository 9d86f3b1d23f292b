//! Ravencoin script and address logic: recognising asset-operation scripts
//! and encoding address payloads with Ravencoin network parameters.

pub mod address;
pub mod base58;
pub mod encoding;
pub mod network;
pub mod script;

pub use address::{ravencoin_address_from_payload, Payload};
pub use network::RavencoinNetwork;
pub use script::{detect_ravencoin_asset_script, RavencoinScriptType};
