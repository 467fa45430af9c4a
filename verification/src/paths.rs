//! Well-known workspace paths: the directory the managed process runs
//! under, the dotenv-style file loaded before a run, and the persisted
//! process-id record.

use vstd::prelude::*;

verus! {

/// The workspace the managed process runs under.
pub fn workspace_dir() -> (r: String)
    ensures
        r@ == "/data/adb/sing-box-workspace"@,
{
    "/data/adb/sing-box-workspace".to_owned()
}

/// The dotenv-style file loaded (best-effort) before a run.
pub fn default_env_file_path() -> (r: String)
    ensures
        r@ == "/data/adb/sing-box-workspace/.env"@,
{
    "/data/adb/sing-box-workspace/.env".to_owned()
}

/// The record's path: the override when one is set (the caller reads it
/// from the environment), else the workspace-relative default.
pub fn get_pid_file_path(override_path: Option<String>) -> (r: String)
    ensures
        (match override_path {
            Some(p) => r@ == p@,
            None => r@ == "/data/adb/sing-box-workspace/run/sing-box.pid"@,
        }),
{
    match override_path {
        Some(p) => p,
        None => "/data/adb/sing-box-workspace/run/sing-box.pid".to_owned(),
    }
}

} // verus!
