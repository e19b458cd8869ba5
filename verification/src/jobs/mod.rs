use vstd::prelude::*;
use vstd::string::StringExecFns;

pub mod clip;
pub mod import;
pub mod shot;

verus! {

#[derive(Debug, Clone, Copy, PartialEq, Eq, Structural)]
pub enum ImportJobStatus {
    Queued,
    Running,
    Complided,
    Failed,
}

#[derive(Debug, Clone, Copy, PartialEq, Eq, Structural)]
pub enum ImportJobPhase {
    Queued,
    Analyzing,
    Tiling,
    Persisting,
    Complited,
    Failed,
}

/// The progress of an import job as reported to the client.
#[derive(Debug, Clone, PartialEq)]
pub struct ImportJobProgress {
    pub phase: ImportJobPhase,
    pub message: String,
    pub total_levels: u32,
    pub completed_levels: u32,
    pub current_level: Option<u32>,
    pub current_level_tiles: u32,
    pub current_level_processed_tiles: u32,
    pub total_tiles: u32,
    pub processed_tiles: u32,
    pub percentage: u32,
}

/// The answer to an upload of a die shot.
#[derive(Debug, Clone, PartialEq)]
pub struct ImportResponse {
    pub id: u128,
    pub kind: String,
    pub status: ImportJobStatus,
    pub original_file_name: String,
    pub die_id: Option<u128>,
    pub error: Option<String>,
    pub created_at: String,
    pub updated_at: String,
    pub started_at: String,
    pub finished_at: String,
    pub progress: ImportJobProgress,
}

impl ImportResponse {
    /// The answer for an import job `job_id` of die `die_id` that has just
    /// been queued at time `now`: kind `import-die`, status and phase
    /// queued, message `Queued`, all four timestamps `now`, and the fixed
    /// progress figures the client expects before tiling starts (3 levels,
    /// 1024 tiles, nothing done).
    pub fn queued(job_id: u128, die_id: u128, original_file_name: String, now: String) -> (r: Self)
        ensures
            r.id == job_id,
            r.kind@ == "import-die"@,
            r.status == ImportJobStatus::Queued,
            r.original_file_name == original_file_name,
            r.die_id == Some(die_id),
            r.error is None,
            r.created_at@ == now@,
            r.updated_at@ == now@,
            r.started_at@ == now@,
            r.finished_at@ == now@,
            r.progress.phase == ImportJobPhase::Queued,
            r.progress.message@ == "Queued"@,
            r.progress.total_levels == 3,
            r.progress.completed_levels == 0,
            r.progress.current_level is None,
            r.progress.current_level_tiles == 0,
            r.progress.current_level_processed_tiles == 0,
            r.progress.total_tiles == 1024,
            r.progress.processed_tiles == 0,
            r.progress.percentage == 0,
    {
        ImportResponse {
            id: job_id,
            kind: String::from_str("import-die"),
            status: ImportJobStatus::Queued,
            original_file_name,
            die_id: Some(die_id),
            error: None,
            created_at: now.clone(),
            updated_at: now.clone(),
            started_at: now.clone(),
            finished_at: now,
            progress: ImportJobProgress {
                phase: ImportJobPhase::Queued,
                message: String::from_str("Queued"),
                total_levels: 3,
                completed_levels: 0,
                current_level: None,
                current_level_tiles: 0,
                current_level_processed_tiles: 0,
                total_tiles: 1024,
                processed_tiles: 0,
                percentage: 0,
            },
        }
    }
}

/// An import job as listed to clients.
#[derive(Debug, Clone, Copy, PartialEq, Eq, Structural)]
pub struct ImportJob {}

} // verus!
