//! The on-disk layout of the application's data.
//!
//! Everything lives under one application directory in the user's home:
//! a directory of parse records (one subdirectory per record id, holding
//! the content blob, the metadata document and the tree snapshot) and a
//! single presets document. The functions here only compute paths; the
//! caller resolves the home directory and touches the disk.

use vstd::prelude::*;

verus! {

/// Joins a directory path and a child name with a single separator.
pub fn join_path(base: &str, child: &str) -> (r: String)
    ensures
        r@ == base@ + "/"@ + child@,
{
    let mut s = String::from_str(base);
    s.append("/");
    s.append(child);
    proof {
        assert(s@ =~= base@ + "/"@ + child@);
    }
    s
}

/// The application directory under the user's home directory.
pub fn app_dir_path(home: &str) -> (r: String)
    ensures
        r@ == home@ + "/"@ + "parser-ai"@,
{
    join_path(home, "parser-ai")
}

/// The directory that holds one subdirectory per parse record.
pub fn records_dir_path(app_dir: &str) -> (r: String)
    ensures
        r@ == app_dir@ + "/"@ + "parsed-files"@,
{
    join_path(app_dir, "parsed-files")
}

/// The presets document beside the records directory.
pub fn presets_file_path(app_dir: &str) -> (r: String)
    ensures
        r@ == app_dir@ + "/"@ + "presets.json"@,
{
    join_path(app_dir, "presets.json")
}

/// The directory of one record.
pub fn record_dir_path(records_dir: &str, id: &str) -> (r: String)
    ensures
        r@ == records_dir@ + "/"@ + id@,
{
    join_path(records_dir, id)
}

/// The content blob inside a record directory.
pub fn content_path(record_dir: &str) -> (r: String)
    ensures
        r@ == record_dir@ + "/"@ + "content.txt"@,
{
    join_path(record_dir, "content.txt")
}

/// The metadata document inside a record directory.
pub fn metadata_path(record_dir: &str) -> (r: String)
    ensures
        r@ == record_dir@ + "/"@ + "metadata.json"@,
{
    join_path(record_dir, "metadata.json")
}

/// The tree snapshot inside a record directory.
pub fn tree_path(record_dir: &str) -> (r: String)
    ensures
        r@ == record_dir@ + "/"@ + "tree.json"@,
{
    join_path(record_dir, "tree.json")
}

} // verus!
