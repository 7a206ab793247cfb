//! The schedule of the periodic tasks and the limits of their retries.

use vstd::prelude::*;

use crate::state::TaskType;

verus! {

/// How often the newest signature is looked for, in seconds.
pub const GET_LATEST_SOLANA_SIGNATURE: u64 = 60;

/// How often the pending ranges are walked, in seconds.
pub const SCRAPPING_SOLANA_SIGNATURE_RANGES: u64 = 180;

/// How often the pending signatures are fetched, in seconds.
pub const SCRAPPING_SOLANA_SIGNATURES: u64 = 180;

/// How often the accepted deposits are minted, in seconds.
pub const MINT_GSOL: u64 = 180;

/// A range that was retried this often is walked no more.
pub const SOLANA_SIGNATURE_RANGES_RETRY_LIMIT: u8 = 100;

/// A signature that was retried this often is fetched no more.
pub const SOLANA_SIGNATURE_RETRY_LIMIT: u8 = 100;

/// A deposit that was retried this often is minted no more.
pub const MINT_GSOL_RETRY_LIMIT: u8 = 100;

/// The derivation path of the minter's key at the oracle: the empty path.
pub fn derivation_path() -> (path: Vec<Vec<u8>>)
    ensures
        path@.len() == 0,
{
    Vec::new()
}

/// How often a task runs, in seconds.
pub open spec fn interval_of(task: TaskType) -> u64 {
    match task {
        TaskType::GetLatestSignature => 60,
        TaskType::ScrapSignatureRanges => 180,
        TaskType::ScrapSignatures => 180,
        TaskType::MintGSol => 180,
    }
}

/// How often a task runs, in seconds.
pub fn task_interval(task: TaskType) -> (seconds: u64)
    ensures
        seconds == interval_of(task),
{
    match task {
        TaskType::GetLatestSignature => GET_LATEST_SOLANA_SIGNATURE,
        TaskType::ScrapSignatureRanges => SCRAPPING_SOLANA_SIGNATURE_RANGES,
        TaskType::ScrapSignatures => SCRAPPING_SOLANA_SIGNATURES,
        TaskType::MintGSol => MINT_GSOL,
    }
}

/// The tasks in the order in which they run once at startup, which is the
/// order in which a deposit passes through them. Each of them then runs at
/// its own interval.
pub fn startup_tasks() -> (tasks: Vec<TaskType>)
    ensures
        tasks@ == seq![
            TaskType::GetLatestSignature,
            TaskType::ScrapSignatureRanges,
            TaskType::ScrapSignatures,
            TaskType::MintGSol,
        ],
{
    let mut tasks: Vec<TaskType> = Vec::new();
    tasks.push(TaskType::GetLatestSignature);
    tasks.push(TaskType::ScrapSignatureRanges);
    tasks.push(TaskType::ScrapSignatures);
    tasks.push(TaskType::MintGSol);
    assert(tasks@ =~= seq![
        TaskType::GetLatestSignature,
        TaskType::ScrapSignatureRanges,
        TaskType::ScrapSignatures,
        TaskType::MintGSol,
    ]);
    tasks
}

} // verus!
