//! Locations under the agent's data root. The root itself is a platform
//! question (a system directory on one platform, a per-user one on another)
//! and is resolved outside the library; everything below it is fixed here.

use vstd::prelude::*;

verus! {

/// The spool directory under a data root.
pub fn spool_dir(data_dir: &str) -> (r: String)
    ensures
        r@ == data_dir@ + "/spool"@,
{
    data_dir.to_owned().concat("/spool")
}

/// The pending payloads directory under a data root.
pub fn spool_pending_dir(data_dir: &str) -> (r: String)
    ensures
        r@ == data_dir@ + "/spool"@ + "/pending"@,
{
    spool_dir(data_dir).concat("/pending")
}

/// The uploading payloads directory under a data root.
pub fn spool_uploading_dir(data_dir: &str) -> (r: String)
    ensures
        r@ == data_dir@ + "/spool"@ + "/uploading"@,
{
    spool_dir(data_dir).concat("/uploading")
}

/// The failed payloads directory under a data root.
pub fn spool_failed_dir(data_dir: &str) -> (r: String)
    ensures
        r@ == data_dir@ + "/spool"@ + "/failed"@,
{
    spool_dir(data_dir).concat("/failed")
}

/// The completed payloads directory under a data root.
pub fn spool_completed_dir(data_dir: &str) -> (r: String)
    ensures
        r@ == data_dir@ + "/spool"@ + "/completed"@,
{
    spool_dir(data_dir).concat("/completed")
}

/// The scratch directory the extractor writes reports into.
pub fn spool_work_dir(data_dir: &str) -> (r: String)
    ensures
        r@ == data_dir@ + "/spool"@ + "/work"@,
{
    spool_dir(data_dir).concat("/work")
}

/// The extractor template directory under a data root.
pub fn template_dir(data_dir: &str) -> (r: String)
    ensures
        r@ == data_dir@ + "/templates"@,
{
    data_dir.to_owned().concat("/templates")
}

/// The failed-file registry location under a data root.
pub fn failed_files_path(data_dir: &str) -> (r: String)
    ensures
        r@ == data_dir@ + "/failed_files.json"@,
{
    data_dir.to_owned().concat("/failed_files.json")
}

/// The configuration file location under a data root.
pub fn config_file_path(data_dir: &str) -> (r: String)
    ensures
        r@ == data_dir@ + "/config.toml"@,
{
    data_dir.to_owned().concat("/config.toml")
}

/// The log directory under a data root.
pub fn log_dir(data_dir: &str) -> (r: String)
    ensures
        r@ == data_dir@ + "/logs"@,
{
    data_dir.to_owned().concat("/logs")
}

} // verus!
