//! Records exchanged with the governance service.
use vstd::prelude::*;

verus! {

#[derive(Clone, Debug, PartialEq, Eq)]
pub struct EmptyRecord {}

#[derive(Clone, Debug, PartialEq, Eq)]
pub struct NeuronId {
    pub id: u64,
}

#[derive(Clone, Debug, PartialEq, Eq)]
pub struct Followees {
    pub followees: Vec<NeuronId>,
}

#[derive(Clone, Debug, PartialEq, Eq)]
pub struct KnownNeuronData {
    pub name: String,
    pub description: Option<String>,
}

#[derive(Clone, Debug, PartialEq, Eq)]
pub struct KnownNeuron {
    pub id: Option<NeuronId>,
    pub known_neuron_data: Option<KnownNeuronData>,
}

#[derive(Clone, Debug, PartialEq, Eq)]
pub struct Split {
    pub amount_e8s: u64,
}

#[derive(Clone, Debug, PartialEq, Eq)]
pub struct Follow {
    pub topic: i32,
    pub followees: Vec<NeuronId>,
}

#[derive(Clone, Debug, PartialEq, Eq)]
pub struct ChangeAutoStakeMaturity {
    pub requested_setting_for_auto_stake_maturity: bool,
}

#[derive(Clone, Debug, PartialEq, Eq)]
pub struct IncreaseDissolveDelay {
    pub additional_dissolve_delay_seconds: u32,
}

#[derive(Clone, Debug, PartialEq, Eq)]
pub struct SetVisibility {
    pub visibility: Option<i32>,
}

#[derive(Clone, Debug, PartialEq, Eq)]
pub struct SetDissolveTimestamp {
    pub dissolve_timestamp_seconds: u64,
}

#[derive(Clone, Debug, PartialEq, Eq)]
pub struct ProposalId {
    pub id: u64,
}

#[derive(Clone, Debug, PartialEq, Eq)]
pub struct RegisterVote {
    pub vote: i32,
    pub proposal: Option<ProposalId>,
}

#[derive(Clone, Debug, PartialEq, Eq)]
pub struct Merge {
    pub source_neuron_id: Option<NeuronId>,
}

#[derive(Clone, Debug, PartialEq, Eq)]
pub struct StakeMaturity {
    pub percentage_to_stake: Option<u32>,
}

#[derive(Clone, Debug, PartialEq, Eq)]
pub struct MergeMaturity {
    pub percentage_to_merge: u32,
}

#[derive(Clone, Debug, PartialEq, Eq)]
pub struct Amount {
    pub e8s: u64,
}

#[derive(Clone, Debug, PartialEq, Eq)]
pub struct Percentage {
    pub basis_points: Option<u64>,
}

#[derive(Clone, Debug, PartialEq, Eq)]
pub struct Duration {
    pub seconds: Option<u64>,
}

#[derive(Clone, Debug, PartialEq, Eq)]
pub struct Tokens {
    pub e8s: Option<u64>,
}

#[derive(Clone, Debug, PartialEq, Eq)]
pub struct VotingRewardParameters {
    pub reward_rate_transition_duration: Option<Duration>,
    pub initial_reward_rate: Option<Percentage>,
    pub final_reward_rate: Option<Percentage>,
}

#[derive(Clone, Debug, PartialEq, Eq)]
pub struct GovernanceParameters {
    pub neuron_maximum_dissolve_delay_bonus: Option<Percentage>,
    pub neuron_maximum_age_for_age_bonus: Option<Duration>,
    pub neuron_maximum_dissolve_delay: Option<Duration>,
    pub neuron_minimum_dissolve_delay_to_vote: Option<Duration>,
    pub neuron_maximum_age_bonus: Option<Percentage>,
    pub neuron_minimum_stake: Option<Tokens>,
    pub proposal_wait_for_quiet_deadline_increase: Option<Duration>,
    pub proposal_initial_voting_period: Option<Duration>,
    pub proposal_rejection_fee: Option<Tokens>,
    pub voting_reward_parameters: Option<VotingRewardParameters>,
}

#[derive(Clone, Debug, PartialEq, Eq)]
pub struct Image {
    pub base64_encoding: Option<String>,
}

#[derive(Clone, Debug, PartialEq, Eq)]
pub struct LedgerParameters {
    pub transaction_fee: Option<Tokens>,
    pub token_symbol: Option<String>,
    pub token_logo: Option<Image>,
    pub token_name: Option<String>,
}

#[derive(Clone, Debug, PartialEq, Eq)]
pub struct NeuronBasketConstructionParameters {
    pub dissolve_delay_interval: Option<Duration>,
    pub count: Option<u64>,
}

#[derive(Clone, Debug, PartialEq, Eq)]
pub struct GlobalTimeOfDay {
    pub seconds_after_utc_midnight: Option<u64>,
}

#[derive(Clone, Debug, PartialEq, Eq)]
pub struct Countries {
    pub iso_codes: Vec<String>,
}

#[derive(Clone, Debug, PartialEq, Eq)]
pub struct SwapParameters {
    pub minimum_participants: Option<u64>,
    pub neurons_fund_participation: Option<bool>,
    pub duration: Option<Duration>,
    pub neuron_basket_construction_parameters: Option<NeuronBasketConstructionParameters>,
    pub confirmation_text: Option<String>,
    pub maximum_participant_icp: Option<Tokens>,
    pub minimum_icp: Option<Tokens>,
    pub minimum_direct_participation_icp: Option<Tokens>,
    pub minimum_participant_icp: Option<Tokens>,
    pub start_time: Option<GlobalTimeOfDay>,
    pub maximum_direct_participation_icp: Option<Tokens>,
    pub maximum_icp: Option<Tokens>,
    pub neurons_fund_investment_icp: Option<Tokens>,
    pub restricted_countries: Option<Countries>,
}

#[derive(Clone, Debug, PartialEq, Eq)]
pub struct SwapDistribution {
    pub total: Option<Tokens>,
}

#[derive(Clone, Debug, PartialEq, Eq)]
pub struct RewardToNeuron {
    pub dissolve_delay_seconds: u64,
}

#[derive(Clone, Debug, PartialEq, Eq)]
pub struct NeuronBasketConstructionParameters1 {
    pub dissolve_delay_interval_seconds: u64,
    pub count: u64,
}

#[derive(Clone, Debug, PartialEq, Eq)]
pub struct Params {
    pub min_participant_icp_e8s: u64,
    pub neuron_basket_construction_parameters: Option<NeuronBasketConstructionParameters1>,
    pub max_icp_e8s: u64,
    pub swap_due_timestamp_seconds: u64,
    pub min_participants: u32,
    pub sns_token_e8s: u64,
    pub sale_delay_seconds: Option<u64>,
    pub max_participant_icp_e8s: u64,
    pub min_direct_participation_icp_e8s: Option<u64>,
    pub min_icp_e8s: u64,
    pub max_direct_participation_icp_e8s: Option<u64>,
}

#[derive(Clone, Debug, PartialEq, Eq)]
pub struct TimeWindow {
    pub start_timestamp_seconds: u64,
    pub end_timestamp_seconds: u64,
}

#[derive(Clone, Debug, PartialEq, Eq)]
pub struct SetOpenTimeWindowRequest {
    pub open_time_window: Option<TimeWindow>,
}

#[derive(Clone, Debug, PartialEq, Eq)]
pub struct SetDefaultFollowees {
    pub default_followees: Vec<(i32, Followees)>,
}

#[derive(Clone, Debug, PartialEq, Eq)]
pub struct Decimal {
    pub human_readable: Option<String>,
}

#[derive(Clone, Debug, PartialEq, Eq)]
pub struct NeuronsFundMatchedFundingCurveCoefficients {
    pub contribution_threshold_xdr: Option<Decimal>,
    pub one_third_participation_milestone_xdr: Option<Decimal>,
    pub full_participation_milestone_xdr: Option<Decimal>,
}

#[derive(Clone, Debug, PartialEq, Eq)]
pub struct NeuronsFundEconomics {
    pub maximum_icp_xdr_rate: Option<Percentage>,
    pub neurons_fund_matched_funding_curve_coefficients: Option<NeuronsFundMatchedFundingCurveCoefficients>,
    pub max_theoretical_neurons_fund_participation_amount_xdr: Option<Decimal>,
    pub minimum_icp_xdr_rate: Option<Percentage>,
}

#[derive(Clone, Debug, PartialEq, Eq)]
pub struct NetworkEconomics {
    pub neuron_minimum_stake_e8s: u64,
    pub max_proposals_to_keep_per_topic: u32,
    pub neuron_management_fee_per_proposal_e8s: u64,
    pub reject_cost_e8s: u64,
    pub transaction_fee_e8s: u64,
    pub neuron_spawn_dissolve_delay_seconds: u64,
    pub minimum_icp_xdr_rate: u64,
    pub maximum_node_provider_rewards_e8s: u64,
    pub neurons_fund_economics: Option<NeuronsFundEconomics>,
}

#[derive(Clone, Debug, PartialEq, Eq)]
pub struct Motion {
    pub motion_text: String,
}

#[derive(Clone, Debug, PartialEq, Eq)]
pub struct XdrConversionRate {
    pub xdr_permyriad_per_icp: Option<u64>,
    pub timestamp_seconds: Option<u64>,
}

#[derive(Clone, Debug, PartialEq, Eq)]
pub struct NeuronSubsetMetrics {
    pub total_maturity_e8s_equivalent: Option<u64>,
    pub maturity_e8s_equivalent_buckets: Vec<(u64, u64)>,
    pub voting_power_buckets: Vec<(u64, u64)>,
    pub total_staked_e8s: Option<u64>,
    pub count: Option<u64>,
    pub total_staked_maturity_e8s_equivalent: Option<u64>,
    pub staked_maturity_e8s_equivalent_buckets: Vec<(u64, u64)>,
    pub staked_e8s_buckets: Vec<(u64, u64)>,
    pub total_voting_power: Option<u64>,
    pub count_buckets: Vec<(u64, u64)>,
}

#[derive(Clone, Debug, PartialEq, Eq)]
pub struct RestoreAgingNeuronGroup {
    pub count: Option<u64>,
    pub previous_total_stake_e8s: Option<u64>,
    pub current_total_stake_e8s: Option<u64>,
    pub group_type: i32,
}

#[derive(Clone, Debug, PartialEq, Eq)]
pub struct RestoreAgingSummary {
    pub groups: Vec<RestoreAgingNeuronGroup>,
    pub timestamp_seconds: Option<u64>,
}

#[derive(Clone, Debug, PartialEq, Eq)]
pub struct RewardEvent {
    pub rounds_since_last_distribution: Option<u64>,
    pub day_after_genesis: u64,
    pub actual_timestamp_seconds: u64,
    pub total_available_e8s_equivalent: u64,
    pub latest_round_available_e8s_equivalent: Option<u64>,
    pub distributed_e8s_equivalent: u64,
    pub settled_proposals: Vec<ProposalId>,
}

#[derive(Clone, Debug, PartialEq, Eq)]
pub struct Followers {
    pub followers: Vec<NeuronId>,
}

#[derive(Clone, Debug, PartialEq, Eq)]
pub struct FollowersMap {
    pub followers_map: Vec<(u64, Followers)>,
}

#[derive(Clone, Debug, PartialEq, Eq)]
pub enum Progress {
    LastNeuronId(NeuronId),
}

#[derive(Clone, Debug, PartialEq, Eq)]
pub struct Migration {
    pub status: Option<i32>,
    pub failure_reason: Option<String>,
    pub progress: Option<Progress>,
}

#[derive(Clone, Debug, PartialEq, Eq)]
pub struct Migrations {
    pub neuron_indexes_migration: Option<Migration>,
    pub copy_inactive_neurons_to_stable_memory_migration: Option<Migration>,
}

#[derive(Clone, Debug, PartialEq, Eq)]
pub struct GovernanceError {
    pub error_message: String,
    pub error_type: i32,
}

#[derive(Clone, Debug, PartialEq, Eq)]
pub struct Ballot {
    pub vote: i32,
    pub voting_power: u64,
}

#[derive(Clone, Debug, PartialEq, Eq)]
pub struct SwapParticipationLimits {
    pub min_participant_icp_e8s: Option<u64>,
    pub max_participant_icp_e8s: Option<u64>,
    pub min_direct_participation_icp_e8s: Option<u64>,
    pub max_direct_participation_icp_e8s: Option<u64>,
}

#[derive(Clone, Debug, PartialEq, Eq)]
pub struct IdealMatchedParticipationFunction {
    pub serialized_representation: Option<String>,
}

#[derive(Clone, Debug, PartialEq, Eq)]
pub struct Tally {
    pub no: u64,
    pub yes: u64,
    pub total: u64,
    pub timestamp_seconds: u64,
}

#[derive(Clone, Debug, PartialEq, Eq)]
pub struct WaitForQuietState {
    pub current_deadline_timestamp_seconds: u64,
}

#[derive(Clone, Debug, PartialEq, Eq)]
pub struct BallotInfo {
    pub vote: i32,
    pub proposal_id: Option<ProposalId>,
}

#[derive(Clone, Debug, PartialEq, Eq)]
pub enum DissolveState {
    DissolveDelaySeconds(u64),
    WhenDissolvedTimestampSeconds(u64),
}

#[derive(Clone, Debug, PartialEq, Eq)]
pub enum Result1 {
    Error(GovernanceError),
    NeuronId(NeuronId),
}

#[derive(Clone, Debug, PartialEq, Eq)]
pub struct ClaimOrRefreshNeuronFromAccountResponse {
    pub result: Option<Result1>,
}

#[derive(Clone, Debug, PartialEq, Eq)]
pub struct NeuronInfo {
    pub dissolve_delay_seconds: u64,
    pub recent_ballots: Vec<BallotInfo>,
    pub voting_power_refreshed_timestamp_seconds: Option<u64>,
    pub neuron_type: Option<i32>,
    pub created_timestamp_seconds: u64,
    pub state: i32,
    pub stake_e8s: u64,
    pub joined_community_fund_timestamp_seconds: Option<u64>,
    pub retrieved_at_timestamp_seconds: u64,
    pub visibility: Option<i32>,
    pub known_neuron_data: Option<KnownNeuronData>,
    pub voting_power: u64,
    pub age_seconds: u64,
}

#[derive(Clone, Debug, PartialEq, Eq)]
pub enum Result5 {
    NeuronInfo(NeuronInfo),
    Error(GovernanceError),
}

#[derive(Clone, Debug, PartialEq, Eq)]
pub struct GetNeuronsFundAuditInfoRequest {
    pub nns_proposal_id: Option<ProposalId>,
}

#[derive(Clone, Debug, PartialEq, Eq)]
pub struct ListKnownNeuronsResponse {
    pub known_neurons: Vec<KnownNeuron>,
}

#[derive(Clone, Debug, PartialEq, Eq)]
pub struct ListNeurons {
    pub include_public_neurons_in_full_neurons: Option<bool>,
    pub neuron_ids: Vec<u64>,
    pub include_empty_neurons_readable_by_caller: Option<bool>,
    pub include_neurons_readable_by_caller: bool,
}

#[derive(Clone, Debug, PartialEq, Eq)]
pub struct DateRangeFilter {
    pub start_timestamp_seconds: Option<u64>,
    pub end_timestamp_seconds: Option<u64>,
}

#[derive(Clone, Debug, PartialEq, Eq)]
pub struct ListNodeProviderRewardsRequest {
    pub date_filter: Option<DateRangeFilter>,
}

#[derive(Clone, Debug, PartialEq, Eq)]
pub struct ListProposalInfo {
    pub include_reward_status: Vec<i32>,
    pub omit_large_fields: Option<bool>,
    pub before_proposal: Option<ProposalId>,
    pub limit: u32,
    pub exclude_topic: Vec<i32>,
    pub include_all_manage_neuron_proposals: Option<bool>,
    pub include_status: Vec<i32>,
}

#[derive(Clone, Debug, PartialEq, Eq)]
pub struct SpawnResponse {
    pub created_neuron_id: Option<NeuronId>,
}

#[derive(Clone, Debug, PartialEq, Eq)]
pub struct ClaimOrRefreshResponse {
    pub refreshed_neuron_id: Option<NeuronId>,
}

#[derive(Clone, Debug, PartialEq, Eq)]
pub struct MakeProposalResponse {
    pub message: Option<String>,
    pub proposal_id: Option<ProposalId>,
}

#[derive(Clone, Debug, PartialEq, Eq)]
pub struct StakeMaturityResponse {
    pub maturity_e8s: u64,
    pub staked_maturity_e8s: u64,
}

#[derive(Clone, Debug, PartialEq, Eq)]
pub struct MergeMaturityResponse {
    pub merged_maturity_e8s: u64,
    pub new_stake_e8s: u64,
}

#[derive(Clone, Debug, PartialEq, Eq)]
pub struct DisburseResponse {
    pub transfer_block_height: u64,
}

} // verus!
