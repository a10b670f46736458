//! Model types shared with the boundary layer: the state of one managed run
//! and the application configuration.
use vstd::prelude::*;

verus! {

/// Where a managed run stands.
#[derive(Debug, Clone, PartialEq, Eq, Structural)]
pub enum RunStatus {
    Idle,
    Starting,
    Running,
    Finished,
    Failed,
}

/// One managed run: its identity, the tmux session it lives in, its paths
/// and timestamps, and the last output seen from it.
#[derive(Debug, Clone, PartialEq, Eq)]
pub struct ARCRun {
    /// Unique id of the run.
    pub id: String,
    /// Display name of the run.
    pub name: String,
    /// The tmux session the run executes in.
    pub session: String,
    /// Path of the input file.
    pub input_path: String,
    /// Working directory of the run.
    pub work_dir: String,
    /// When the run started, if it has.
    pub started_at: Option<String>,
    /// When the run finished, if it has.
    pub finished_at: Option<String>,
    /// Current status of the run.
    pub status: RunStatus,
    /// Last line seen on standard output.
    pub last_stdout: Option<String>,
    /// Last line seen on standard error.
    pub last_stderr: Option<String>,
}

/// Application configuration.
#[derive(Debug, Clone, PartialEq, Eq)]
pub struct AppConfig {
    /// Path of the python executable.
    pub python_path: String,
    /// Path of the entry script.
    pub arc_path: String,
    /// Default working directory for new runs.
    pub default_work_dir: String,
    /// Largest number of concurrent runs.
    pub concurrency_cap: u32,
}

impl Default for AppConfig {
    /// The placeholder configuration a fresh installation starts with.
    fn default() -> (c: AppConfig)
        ensures
            c.python_path@ == "python3"@,
            c.arc_path@ == "/path/to/ARC/ARC.py"@,
            c.default_work_dir@ == "/path/to/arc_work_dir"@,
            c.concurrency_cap == 2,
    {
        AppConfig {
            python_path: "python3".to_owned(),
            arc_path: "/path/to/ARC/ARC.py".to_owned(),
            default_work_dir: "/path/to/arc_work_dir".to_owned(),
            concurrency_cap: 2,
        }
    }
}

} // verus!
