//! The pure part of the storage layer: column-family identities, the
//! little-endian key codec, and the record-reading rules of the DAG
//! repository.  The durable key/value store itself stays behind the
//! `DbReader` trait, which embedders implement.

use vstd::prelude::*;
use vstd::arithmetic::power2::pow2;
use std::sync::Arc;

verus! {

/// The column families of the store.
#[derive(Debug, Clone, Copy, PartialEq, Eq, Hash)]
pub enum Column {
    DefaultColumn,
    Migrations,
    PeriodData,
    Genesis,
    DagBlocks,
    DagBlocksLevel,
    Transactions,
    TrxPeriod,
    Status,
    PbftMgrRoundStep,
    PbftMgrStatus,
    CertVotedBlockInRound,
    ProposedPbftBlocks,
    PbftHead,
    LatestRoundOwnVotes,
    LatestRoundTwoTPlusOneVotes,
    ExtraRewardVotes,
    PbftBlockPeriod,
    DagBlockPeriod,
    ProposalPeriodLevelsMap,
    FinalChainMeta,
    FinalChainBlkByNumber,
    FinalChainBlkHashByNumber,
    FinalChainBlkNumberByHash,
    FinalChainReceiptByTrxHash,
    FinalChainLogBloomsIndex,
    SortitionParamsChange,
    BlockRewardsStats,
    PillarBlock,
    CurrentPillarBlockData,
    CurrentPillarBlockOwnVote,
    SystemTransaction,
    PeriodSystemTransactions,
    FinalChainReceiptByPeriod,
    PeriodLambda,
    RoundsCountDynamicLambda,
}

/// The name of each column family.
pub open spec fn name_spec(c: Column) -> Seq<char> {
    match c {
        Column::DefaultColumn => "default_column"@,
        Column::Migrations => "migrations"@,
        Column::PeriodData => "period_data"@,
        Column::Genesis => "genesis"@,
        Column::DagBlocks => "dag_blocks"@,
        Column::DagBlocksLevel => "dag_blocks_level"@,
        Column::Transactions => "transactions"@,
        Column::TrxPeriod => "trx_period"@,
        Column::Status => "status"@,
        Column::PbftMgrRoundStep => "pbft_mgr_round_step"@,
        Column::PbftMgrStatus => "pbft_mgr_status"@,
        Column::CertVotedBlockInRound => "cert_voted_block_in_round"@,
        Column::ProposedPbftBlocks => "proposed_pbft_blocks"@,
        Column::PbftHead => "pbft_head"@,
        Column::LatestRoundOwnVotes => "latest_round_own_votes"@,
        Column::LatestRoundTwoTPlusOneVotes => "latest_round_two_t_plus_one_votes"@,
        Column::ExtraRewardVotes => "extra_reward_votes"@,
        Column::PbftBlockPeriod => "pbft_block_period"@,
        Column::DagBlockPeriod => "dag_block_period"@,
        Column::ProposalPeriodLevelsMap => "proposal_period_levels_map"@,
        Column::FinalChainMeta => "final_chain_meta"@,
        Column::FinalChainBlkByNumber => "final_chain_blk_by_number"@,
        Column::FinalChainBlkHashByNumber => "final_chain_blk_hash_by_number"@,
        Column::FinalChainBlkNumberByHash => "final_chain_blk_number_by_hash"@,
        Column::FinalChainReceiptByTrxHash => "final_chain_receipt_by_trx_hash"@,
        Column::FinalChainLogBloomsIndex => "final_chain_log_blooms_index"@,
        Column::SortitionParamsChange => "sortition_params_change"@,
        Column::BlockRewardsStats => "block_rewards_stats"@,
        Column::PillarBlock => "pillar_block"@,
        Column::CurrentPillarBlockData => "current_pillar_block_data"@,
        Column::CurrentPillarBlockOwnVote => "current_pillar_block_own_vote"@,
        Column::SystemTransaction => "system_transaction"@,
        Column::PeriodSystemTransactions => "period_system_transactions"@,
        Column::FinalChainReceiptByPeriod => "final_chain_receipt_by_period"@,
        Column::PeriodLambda => "period_lambda"@,
        Column::RoundsCountDynamicLambda => "rounds_count_dynamic_lambda"@,
    }
}

/// The columns, in their canonical order.
pub open spec fn all_spec() -> Seq<Column> {
    seq![
        Column::DefaultColumn,
        Column::Migrations,
        Column::PeriodData,
        Column::Genesis,
        Column::DagBlocks,
        Column::DagBlocksLevel,
        Column::Transactions,
        Column::TrxPeriod,
        Column::Status,
        Column::PbftMgrRoundStep,
        Column::PbftMgrStatus,
        Column::CertVotedBlockInRound,
        Column::ProposedPbftBlocks,
        Column::PbftHead,
        Column::LatestRoundOwnVotes,
        Column::LatestRoundTwoTPlusOneVotes,
        Column::ExtraRewardVotes,
        Column::PbftBlockPeriod,
        Column::DagBlockPeriod,
        Column::ProposalPeriodLevelsMap,
        Column::FinalChainMeta,
        Column::FinalChainBlkByNumber,
        Column::FinalChainBlkHashByNumber,
        Column::FinalChainBlkNumberByHash,
        Column::FinalChainReceiptByTrxHash,
        Column::FinalChainLogBloomsIndex,
        Column::SortitionParamsChange,
        Column::BlockRewardsStats,
        Column::PillarBlock,
        Column::CurrentPillarBlockData,
        Column::CurrentPillarBlockOwnVote,
        Column::SystemTransaction,
        Column::PeriodSystemTransactions,
        Column::FinalChainReceiptByPeriod,
        Column::PeriodLambda,
        Column::RoundsCountDynamicLambda
    ]
}

/// The columns using the 64-bit integer key comparator.
pub open spec fn uses_uint64_comparator_spec(c: Column) -> bool {
    match c {
        Column::PeriodData | Column::DagBlocksLevel | Column::ProposalPeriodLevelsMap | Column::SortitionParamsChange | Column::BlockRewardsStats | Column::PillarBlock | Column::FinalChainReceiptByPeriod | Column::PeriodLambda => true,
        _ => false,
    }
}

impl Column {
    /// Returns the column family name.
    pub fn name(&self) -> (r: &'static str)
        ensures
            r@ == name_spec(*self),
    {
        match self {
            Column::DefaultColumn => "default_column",
            Column::Migrations => "migrations",
            Column::PeriodData => "period_data",
            Column::Genesis => "genesis",
            Column::DagBlocks => "dag_blocks",
            Column::DagBlocksLevel => "dag_blocks_level",
            Column::Transactions => "transactions",
            Column::TrxPeriod => "trx_period",
            Column::Status => "status",
            Column::PbftMgrRoundStep => "pbft_mgr_round_step",
            Column::PbftMgrStatus => "pbft_mgr_status",
            Column::CertVotedBlockInRound => "cert_voted_block_in_round",
            Column::ProposedPbftBlocks => "proposed_pbft_blocks",
            Column::PbftHead => "pbft_head",
            Column::LatestRoundOwnVotes => "latest_round_own_votes",
            Column::LatestRoundTwoTPlusOneVotes => "latest_round_two_t_plus_one_votes",
            Column::ExtraRewardVotes => "extra_reward_votes",
            Column::PbftBlockPeriod => "pbft_block_period",
            Column::DagBlockPeriod => "dag_block_period",
            Column::ProposalPeriodLevelsMap => "proposal_period_levels_map",
            Column::FinalChainMeta => "final_chain_meta",
            Column::FinalChainBlkByNumber => "final_chain_blk_by_number",
            Column::FinalChainBlkHashByNumber => "final_chain_blk_hash_by_number",
            Column::FinalChainBlkNumberByHash => "final_chain_blk_number_by_hash",
            Column::FinalChainReceiptByTrxHash => "final_chain_receipt_by_trx_hash",
            Column::FinalChainLogBloomsIndex => "final_chain_log_blooms_index",
            Column::SortitionParamsChange => "sortition_params_change",
            Column::BlockRewardsStats => "block_rewards_stats",
            Column::PillarBlock => "pillar_block",
            Column::CurrentPillarBlockData => "current_pillar_block_data",
            Column::CurrentPillarBlockOwnVote => "current_pillar_block_own_vote",
            Column::SystemTransaction => "system_transaction",
            Column::PeriodSystemTransactions => "period_system_transactions",
            Column::FinalChainReceiptByPeriod => "final_chain_receipt_by_period",
            Column::PeriodLambda => "period_lambda",
            Column::RoundsCountDynamicLambda => "rounds_count_dynamic_lambda",
        }
    }

    /// Returns all columns in order.
    pub fn all() -> (r: Vec<Column>)
        ensures
            r@ == all_spec(),
    {
        let mut r: Vec<Column> = Vec::new();
        r.push(Column::DefaultColumn);
        r.push(Column::Migrations);
        r.push(Column::PeriodData);
        r.push(Column::Genesis);
        r.push(Column::DagBlocks);
        r.push(Column::DagBlocksLevel);
        r.push(Column::Transactions);
        r.push(Column::TrxPeriod);
        r.push(Column::Status);
        r.push(Column::PbftMgrRoundStep);
        r.push(Column::PbftMgrStatus);
        r.push(Column::CertVotedBlockInRound);
        r.push(Column::ProposedPbftBlocks);
        r.push(Column::PbftHead);
        r.push(Column::LatestRoundOwnVotes);
        r.push(Column::LatestRoundTwoTPlusOneVotes);
        r.push(Column::ExtraRewardVotes);
        r.push(Column::PbftBlockPeriod);
        r.push(Column::DagBlockPeriod);
        r.push(Column::ProposalPeriodLevelsMap);
        r.push(Column::FinalChainMeta);
        r.push(Column::FinalChainBlkByNumber);
        r.push(Column::FinalChainBlkHashByNumber);
        r.push(Column::FinalChainBlkNumberByHash);
        r.push(Column::FinalChainReceiptByTrxHash);
        r.push(Column::FinalChainLogBloomsIndex);
        r.push(Column::SortitionParamsChange);
        r.push(Column::BlockRewardsStats);
        r.push(Column::PillarBlock);
        r.push(Column::CurrentPillarBlockData);
        r.push(Column::CurrentPillarBlockOwnVote);
        r.push(Column::SystemTransaction);
        r.push(Column::PeriodSystemTransactions);
        r.push(Column::FinalChainReceiptByPeriod);
        r.push(Column::PeriodLambda);
        r.push(Column::RoundsCountDynamicLambda);
        proof {
            assert(r@ =~= all_spec());
        }
        r
    }

    /// Parses a column from its name string; an error when the name matches
    /// no known column.
    pub fn from_name(name: &str) -> (r: Result<Column, StorageError>)
        ensures
            match r {
                Ok(c) => name@ == name_spec(c),
                Err(_) => forall|c: Column| name@ != name_spec(c),
            },
    {
        let owned = name.to_owned();
        if owned == "default_column".to_owned() {
            return Ok(Column::DefaultColumn);
        }
        if owned == "migrations".to_owned() {
            return Ok(Column::Migrations);
        }
        if owned == "period_data".to_owned() {
            return Ok(Column::PeriodData);
        }
        if owned == "genesis".to_owned() {
            return Ok(Column::Genesis);
        }
        if owned == "dag_blocks".to_owned() {
            return Ok(Column::DagBlocks);
        }
        if owned == "dag_blocks_level".to_owned() {
            return Ok(Column::DagBlocksLevel);
        }
        if owned == "transactions".to_owned() {
            return Ok(Column::Transactions);
        }
        if owned == "trx_period".to_owned() {
            return Ok(Column::TrxPeriod);
        }
        if owned == "status".to_owned() {
            return Ok(Column::Status);
        }
        if owned == "pbft_mgr_round_step".to_owned() {
            return Ok(Column::PbftMgrRoundStep);
        }
        if owned == "pbft_mgr_status".to_owned() {
            return Ok(Column::PbftMgrStatus);
        }
        if owned == "cert_voted_block_in_round".to_owned() {
            return Ok(Column::CertVotedBlockInRound);
        }
        if owned == "proposed_pbft_blocks".to_owned() {
            return Ok(Column::ProposedPbftBlocks);
        }
        if owned == "pbft_head".to_owned() {
            return Ok(Column::PbftHead);
        }
        if owned == "latest_round_own_votes".to_owned() {
            return Ok(Column::LatestRoundOwnVotes);
        }
        if owned == "latest_round_two_t_plus_one_votes".to_owned() {
            return Ok(Column::LatestRoundTwoTPlusOneVotes);
        }
        if owned == "extra_reward_votes".to_owned() {
            return Ok(Column::ExtraRewardVotes);
        }
        if owned == "pbft_block_period".to_owned() {
            return Ok(Column::PbftBlockPeriod);
        }
        if owned == "dag_block_period".to_owned() {
            return Ok(Column::DagBlockPeriod);
        }
        if owned == "proposal_period_levels_map".to_owned() {
            return Ok(Column::ProposalPeriodLevelsMap);
        }
        if owned == "final_chain_meta".to_owned() {
            return Ok(Column::FinalChainMeta);
        }
        if owned == "final_chain_blk_by_number".to_owned() {
            return Ok(Column::FinalChainBlkByNumber);
        }
        if owned == "final_chain_blk_hash_by_number".to_owned() {
            return Ok(Column::FinalChainBlkHashByNumber);
        }
        if owned == "final_chain_blk_number_by_hash".to_owned() {
            return Ok(Column::FinalChainBlkNumberByHash);
        }
        if owned == "final_chain_receipt_by_trx_hash".to_owned() {
            return Ok(Column::FinalChainReceiptByTrxHash);
        }
        if owned == "final_chain_log_blooms_index".to_owned() {
            return Ok(Column::FinalChainLogBloomsIndex);
        }
        if owned == "sortition_params_change".to_owned() {
            return Ok(Column::SortitionParamsChange);
        }
        if owned == "block_rewards_stats".to_owned() {
            return Ok(Column::BlockRewardsStats);
        }
        if owned == "pillar_block".to_owned() {
            return Ok(Column::PillarBlock);
        }
        if owned == "current_pillar_block_data".to_owned() {
            return Ok(Column::CurrentPillarBlockData);
        }
        if owned == "current_pillar_block_own_vote".to_owned() {
            return Ok(Column::CurrentPillarBlockOwnVote);
        }
        if owned == "system_transaction".to_owned() {
            return Ok(Column::SystemTransaction);
        }
        if owned == "period_system_transactions".to_owned() {
            return Ok(Column::PeriodSystemTransactions);
        }
        if owned == "final_chain_receipt_by_period".to_owned() {
            return Ok(Column::FinalChainReceiptByPeriod);
        }
        if owned == "period_lambda".to_owned() {
            return Ok(Column::PeriodLambda);
        }
        if owned == "rounds_count_dynamic_lambda".to_owned() {
            return Ok(Column::RoundsCountDynamicLambda);
        }
        Err(StorageError::Config("Unknown column name".to_owned()))
    }

    /// Returns whether the column uses the custom 64-bit integer comparator.
    pub fn uses_uint64_comparator(&self) -> (r: bool)
        ensures
            r == uses_uint64_comparator_spec(*self),
    {
        matches!(
            self,
            Column::PeriodData
                | Column::DagBlocksLevel
                | Column::ProposalPeriodLevelsMap
                | Column::SortitionParamsChange
                | Column::BlockRewardsStats
                | Column::PillarBlock
                | Column::FinalChainReceiptByPeriod
                | Column::PeriodLambda
        )
    }
}

/// The fields of the status column.
#[derive(Debug, Clone, Copy, PartialEq, Eq, Hash)]
pub enum StatusField {
    ExecutedBlkCount,
    ExecutedTrxCount,
    TrxCount,
    DagBlkCount,
    DagEdgeCount,
    DbMajorVersion,
    DbMinorVersion,
}

/// Errors of the storage layer.
#[derive(Debug)]
pub enum StorageError {
    Config(String),
    Read(String),
    Dag(String),
    Unknown,
}

/// Value of a little-endian byte string read as an unsigned integer.
pub open spec fn le_value(s: Seq<u8>) -> int
    decreases s.len(),
{
    if s.len() == 0 {
        0
    } else {
        s[0] + 256 * le_value(s.subrange(1, s.len() as int))
    }
}

/// A little-endian byte string of `k` bytes stays below `2^(8k)`.
proof fn lemma_le_value_bound(s: Seq<u8>)
    ensures
        0 <= le_value(s) < pow2((8 * s.len()) as nat),
    decreases s.len(),
{
    if s.len() == 0 {
        assert(pow2(0) == 1) by {
            vstd::arithmetic::power2::lemma2_to64();
        };
    } else {
        let rest = s.subrange(1, s.len() as int);
        lemma_le_value_bound(rest);
        vstd::arithmetic::power2::lemma_pow2_adds(8, (8 * rest.len()) as nat);
        assert(pow2(8) == 256) by {
            vstd::arithmetic::power2::lemma2_to64();
        };
        assert(s[0] + 256 * le_value(rest) < 256 * pow2((8 * rest.len()) as nat))
            by (nonlinear_arith)
            requires
                0 <= s[0] < 256,
                0 <= le_value(rest) <= pow2((8 * rest.len()) as nat) - 1,
        ;
        assert(0 <= 256 * le_value(rest)) by (nonlinear_arith)
            requires
                0 <= le_value(rest),
        ;
    }
}

/// Reads eight little-endian bytes as a 64-bit value.
pub fn le64_decode(b: &[u8]) -> (r: u64)
    requires
        b@.len() == 8,
    ensures
        r as int == le_value(b@),
{
    let mut acc: u64 = 0;
    let mut i: usize = 8;
    proof {
        vstd::arithmetic::power2::lemma2_to64();
        assert(b@.subrange(8, 8) =~= Seq::<u8>::empty());
    }
    while i > 0
        invariant
            b@.len() == 8,
            i <= 8,
            acc as int == le_value(b@.subrange(i as int, 8)),
            acc as int >= 0,
            (acc as int) < pow2((8 * (8 - i as int)) as nat),
        decreases i,
    {
        proof {
            vstd::arithmetic::power2::lemma2_to64_rest();
            vstd::arithmetic::power2::lemma2_to64();
            vstd::arithmetic::power2::lemma_pow2_adds(8, (8 * (8 - i)) as nat);
            if 8 * (8 - i as int) < 56 {
                vstd::arithmetic::power2::lemma_pow2_strictly_increases(
                    (8 * (8 - i as int)) as nat,
                    56,
                );
            }
        }
        acc = acc * 256 + (b[i - 1] as u64);
        i = i - 1;
        proof {
            let s = b@.subrange(i as int, 8);
            assert(s[0] == b@[i as int]);
            assert(s.subrange(1, s.len() as int) =~= b@.subrange(i as int + 1, 8));
            lemma_le_value_bound(s);
        }
    }
    proof {
        assert(b@.subrange(0, 8) =~= b@);
    }
    acc
}

/// Appending a byte to a little-endian string adds it at the top.
proof fn lemma_le_value_push(s: Seq<u8>, d: u8)
    ensures
        le_value(s.push(d)) == le_value(s) + d * pow2((8 * s.len()) as nat),
    decreases s.len(),
{
    let t = s.push(d);
    if s.len() == 0 {
        assert(t.subrange(1, 1) =~= Seq::<u8>::empty());
        assert(le_value(t.subrange(1, 1)) == 0);
        assert(t[0] == d);
        assert(pow2(0) == 1) by {
            vstd::arithmetic::power2::lemma2_to64();
        };
        assert(le_value(t) == d);
    } else {
        let s1 = s.subrange(1, s.len() as int);
        assert(t.subrange(1, t.len() as int) =~= s1.push(d));
        assert(t[0] == s[0]);
        lemma_le_value_push(s1, d);
        vstd::arithmetic::power2::lemma_pow2_adds(8, (8 * (s.len() - 1)) as nat);
        assert(pow2(8) == 256) by {
            vstd::arithmetic::power2::lemma2_to64();
        };
        assert((8 * (s.len() - 1)) as nat + 8 == (8 * s.len()) as nat);
        assert(pow2((8 * s.len()) as nat) == 256 * pow2((8 * (s.len() - 1)) as nat));
        assert(le_value(t) == s[0] + 256 * (le_value(s1) + d * pow2((8 * (s.len() - 1)) as nat)));
        assert(256 * (le_value(s1) + d * pow2((8 * (s.len() - 1)) as nat)) == 256 * le_value(s1)
            + d * (256 * pow2((8 * (s.len() - 1)) as nat))) by (nonlinear_arith);
        assert(le_value(t) == le_value(s) + d * pow2((8 * s.len()) as nat));
    }
}

/// Writes a 64-bit value as eight little-endian bytes.
pub fn le64_encode(v: u64) -> (r: Vec<u8>)
    ensures
        r@.len() == 8,
        le_value(r@) == v as int,
{
    let mut r: Vec<u8> = Vec::new();
    let mut x: u64 = v;
    let mut i: usize = 0;
    proof {
        vstd::arithmetic::power2::lemma2_to64();
        assert(le_value(r@) == 0);
        assert(pow2((8 * 0) as nat) == 1);
        assert(v as int * pow2(0nat) == v as int) by (nonlinear_arith)
            requires
                pow2(0nat) == 1,
        ;
    }
    while i < 8
        invariant
            i <= 8,
            r@.len() == i,
            le_value(r@) + x as int * pow2((8 * i) as nat) == v as int,
        decreases 8 - i,
    {
        let ghost r0 = r@;
        let ghost x0 = x as int;
        let d: u8 = (x % 256) as u8;
        r.push(d);
        x = x / 256;
        i = i + 1;
        proof {
            lemma_le_value_push(r0, d);
            vstd::arithmetic::power2::lemma_pow2_adds((8 * (i - 1)) as nat, 8);
            assert(pow2(8) == 256) by {
                vstd::arithmetic::power2::lemma2_to64();
            };
            vstd::arithmetic::div_mod::lemma_fundamental_div_mod(x0, 256);
            assert((x0 % 256 + 256 * (x0 / 256)) * pow2((8 * (i - 1)) as nat) == (x0 % 256) * pow2(
                (8 * (i - 1)) as nat,
            ) + (x0 / 256) * (pow2((8 * (i - 1)) as nat) * 256)) by (nonlinear_arith);
            assert((8 * (i - 1)) as nat + 8 == (8 * i) as nat);
            assert(pow2((8 * i) as nat) == pow2((8 * (i - 1)) as nat) * 256);
        }
    }
    proof {
        lemma_le_value_bound(r@);
        vstd::arithmetic::power2::lemma2_to64_rest();
        if x >= 1 {
            assert(x as int * pow2(64) >= pow2(64)) by (nonlinear_arith)
                requires
                    x >= 1,
                    pow2(64) >= 0,
            ;
            assert(false);
        }
    }
    r
}

/// The level encoded in the last entry of the level column: the key read as
/// a little-endian 64-bit value when it has exactly eight bytes, else zero.
pub fn last_level_from_entry(entry: &Option<(Vec<u8>, Vec<u8>)>) -> (r: u64)
    ensures
        match entry {
            Some(kv) => if kv.0@.len() == 8 {
                r as int == le_value(kv.0@)
            } else {
                r == 0
            },
            None => r == 0,
        },
{
    match entry {
        Some(kv) => {
            if kv.0.len() == 8 {
                le64_decode(kv.0.as_slice())
            } else {
                0
            }
        },
        None => 0,
    }
}

/// The proposal period encoded in a looked-up value: absent stays absent, a
/// value of exactly eight bytes is read as a little-endian 64-bit period,
/// and any other length is an error.
pub fn period_from_value(value: &Option<Vec<u8>>) -> (r: Result<Option<u64>, StorageError>)
    ensures
        match value {
            Some(v) => if v@.len() == 8 {
                r matches Ok(p) && p matches Some(pv) && pv as int == le_value(v@)
            } else {
                r is Err
            },
            None => r matches Ok(p) && p is None,
        },
{
    match value {
        Some(v) => {
            if v.len() == 8 {
                Ok(Some(le64_decode(v.as_slice())))
            } else {
                Err(StorageError::Dag("Invalid period data size".to_owned()))
            }
        },
        None => Ok(None),
    }
}

/// Orders two eight-byte keys by the 64-bit values they encode in little
/// endian, the order the level columns are kept in.
pub fn compare_uint64_keys(a: &[u8], b: &[u8]) -> (r: core::cmp::Ordering)
    requires
        a@.len() == 8,
        b@.len() == 8,
    ensures
        r == core::cmp::Ordering::Less <==> le_value(a@) < le_value(b@),
        r == core::cmp::Ordering::Greater <==> le_value(a@) > le_value(b@),
        r == core::cmp::Ordering::Equal <==> le_value(a@) == le_value(b@),
{
    let av = le64_decode(a);
    let bv = le64_decode(b);
    if av < bv {
        core::cmp::Ordering::Less
    } else if av > bv {
        core::cmp::Ordering::Greater
    } else {
        core::cmp::Ordering::Equal
    }
}

/// Read access to the store.  The backend decides what each lookup returns;
/// the repository's record-reading rules are stated over those results.
pub trait DbReader {
    /// The value stored under `key` in `col`, if any.
    fn get(&self, col: Column, key: &[u8]) -> Result<Option<Vec<u8>>, StorageError>;

    /// The entry of `col` with the greatest key, if any.
    fn last_entry(&self, col: Column) -> Result<Option<(Vec<u8>, Vec<u8>)>, StorageError>;
}

/// DAG block and period lookups over a shared store.
pub struct DagRepository<D: DbReader> {
    pub db: Arc<D>,
}

impl<D: DbReader> DagRepository<D> {
    /// A repository over the given store.
    pub fn new(db: Arc<D>) -> (r: DagRepository<D>)
        ensures
            r.db == db,
    {
        DagRepository { db }
    }

    /// The highest level any block was stored at: the last key of the level
    /// column, read as a little-endian 64-bit value; zero when the column is
    /// empty or its last key is malformed.
    pub fn last_blocks_level(&self) -> Result<u64, StorageError> {
        let entry = self.db.last_entry(Column::DagBlocksLevel)?;
        Ok(last_level_from_entry(&entry))
    }

    /// The proposal period recorded for a DAG level, if one was stored.
    pub fn proposal_period_for_dag_level(&self, level: u64) -> Result<Option<u64>, StorageError> {
        let key = le64_encode(level);
        let value = self.db.get(Column::ProposalPeriodLevelsMap, key.as_slice())?;
        period_from_value(&value)
    }

    /// Whether a block hash is known, either as a nonfinalized block or in
    /// the finalized period index.
    pub fn dag_block_in_db(&self, block: &[u8]) -> Result<bool, StorageError> {
        if self.db.get(Column::DagBlocks, block)?.is_some() {
            return Ok(true);
        }
        if self.db.get(Column::DagBlockPeriod, block)?.is_some() {
            return Ok(true);
        }
        Ok(false)
    }
}

} // verus!
