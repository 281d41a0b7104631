//! The chain configuration: chains, their exchanges, tokens, ABIs and
//! providers, as read from the configuration file.
use vstd::prelude::*;

verus! {

/// All configured chains.
pub struct BlockChainsModel {
    pub chains: Vec<ChainDataModel>,
}

/// One chain: its id and name, exchanges, tokens, ABIs and provider URLs.
#[derive(Clone)]
pub struct ChainDataModel {
    pub id: u8,
    pub name: String,
    pub dexes: Vec<DexModel>,
    pub tokens: Vec<TokenModel>,
    pub abis: ABIModel,
    pub providers: Vec<String>,
}

/// An exchange: its name, its factory's address (hex text) and version
/// ("v2" or "v3").
#[derive(Clone)]
pub struct DexModel {
    pub dex_name: String,
    pub factory: String,
    pub version: String,
}

/// A token: name, symbol, address (hex text) and decimals.
#[derive(Clone)]
pub struct TokenModel {
    pub name: String,
    pub symbol: String,
    pub address: String,
    pub decimals: u8,
}

/// An input of an ABI entry.
#[derive(Clone)]
pub struct ABIInputModel {
    pub internal_type: String,
    pub name: String,
    pub type_field: String,
}

/// An output of an ABI entry.
#[derive(Clone)]
pub struct ABIOutputModel {
    pub internal_type: String,
    pub name: String,
    pub type_field: String,
}

/// An entry of a JSON ABI.
#[derive(Clone)]
pub struct ABIEntryModel {
    pub name: Option<String>,
    pub inputs: Option<Vec<ABIInputModel>>,
    pub outputs: Option<Vec<ABIOutputModel>>,
    pub constant: Option<bool>,
    pub payable: Option<bool>,
    pub state_mutability: Option<String>,
    pub type_field: String,
    pub anonymous: Option<bool>,
    pub indexed: Option<bool>,
}

/// The ABIs a chain needs.
#[derive(Clone)]
pub struct ABIModel {
    pub v2_factory_abi: Vec<ABIEntryModel>,
    pub v3_factory_abi: Vec<ABIEntryModel>,
    pub v2_pool_abi: Vec<ABIEntryModel>,
    pub v3_pool_abi: Vec<ABIEntryModel>,
    pub bep_20_abi: Vec<ABIEntryModel>,
}

} // verus!
