//! Records exchanged with the SNS-W service.
use vstd::prelude::*;

verus! {

#[derive(Clone, Debug, PartialEq, Eq)]
pub struct SnsWasmError {
    pub message: String,
}

#[derive(Clone, Debug, PartialEq, Eq)]
pub struct NeuronBasketConstructionParameters {
    pub dissolve_delay_interval_seconds: u64,
    pub count: u64,
}

#[derive(Clone, Debug, PartialEq, Eq)]
pub struct CfNeuron {
    pub nns_neuron_id: u64,
    pub amount_icp_e8s: u64,
}

#[derive(Clone, Debug, PartialEq, Eq)]
pub struct CfParticipant {
    pub hotkey_principal: String,
    pub cf_neurons: Vec<CfNeuron>,
}

#[derive(Clone, Debug, PartialEq, Eq)]
pub struct NeuronsFundParticipants {
    pub participants: Vec<CfParticipant>,
}

#[derive(Clone, Debug, PartialEq, Eq)]
pub struct TreasuryDistribution {
    pub total_e8s: u64,
}

#[derive(Clone, Debug, PartialEq, Eq)]
pub struct SwapDistribution {
    pub total_e8s: u64,
    pub initial_swap_amount_e8s: u64,
}

#[derive(Clone, Debug, PartialEq, Eq)]
pub struct Countries {
    pub iso_codes: Vec<String>,
}

#[derive(Clone, Debug, PartialEq, Eq)]
pub struct GetAllowedPrincipalsArg {}

#[derive(Clone, Debug, PartialEq, Eq)]
pub struct GetSnsSubnetIdsArg {}

#[derive(Clone, Debug, PartialEq, Eq)]
pub struct InsertUpgradePathEntriesResponse {
    pub error: Option<SnsWasmError>,
}

#[derive(Clone, Debug, PartialEq, Eq)]
pub struct ListDeployedSnsesArg {}

#[derive(Clone, Debug, PartialEq, Eq)]
pub struct PrettySnsVersion {
    pub archive_wasm_hash: String,
    pub root_wasm_hash: String,
    pub swap_wasm_hash: String,
    pub ledger_wasm_hash: String,
    pub governance_wasm_hash: String,
    pub index_wasm_hash: String,
}

#[derive(Clone, Debug, PartialEq, Eq)]
pub struct UpdateSnsSubnetListResponse {
    pub error: Option<SnsWasmError>,
}

} // verus!
