//! The operations offered to the command layer.
//!
//! Each operation takes typed arguments and returns a typed result or a
//! structured error; the transport around it holds no state of its own.
//! The parse pipeline runs the concatenator and the store's create in one
//! step; the open operations resolve a record to the action an external
//! launcher performs.

use vstd::prelude::*;

use crate::clock::now_millis;
use crate::concat::artifact_of;
use crate::concat::blocks_of;
use crate::concat::concatenate;
use crate::concat::total_size_of;
use crate::concat::FileRead;
use crate::error::CommandError;
use crate::error::ErrorKind;
use crate::layout::content_path;
use crate::layout::record_dir_path;
use crate::store::contains_id;
use crate::store::find_rec;
use crate::store::fresh_id_spec;
use crate::store::MetaView;
use crate::store::ParseMetadata;
use crate::store::RecordStore;
use crate::store::RecordView;
use crate::tree::clone_trees;
use crate::tree::trees_view;
use crate::tree::ParsedPath;
use crate::tree::TreeView;

verus! {

/// One action for the external launcher: open a file with the default
/// application, or reveal a directory in the file manager.
#[derive(Debug)]
pub enum OpenAction {
    OpenFile(String),
    RevealInFolder(String),
}

/// A record's metadata together with its tree snapshot.
pub struct CompleteParseDetail {
    pub metadata: ParseMetadata,
    pub tree: Vec<ParsedPath>,
}

/// Everything a record holds, assembled for display.
pub struct ParsedFileDetail {
    pub id: String,
    pub name: String,
    pub content: String,
    pub metadata: CompleteParseDetail,
}

/// Reads every part of one record, or fails with `NotFound`.
pub fn get_file_detail(store: &RecordStore, id: &String) -> (r: Result<
    ParsedFileDetail,
    CommandError,
>)
    ensures
        match find_rec(store@, id@) {
            Option::Some(rec) => r is Ok && ({
                let d = r->Ok_0;
                &&& d.id@ == id@
                &&& d.name@ == rec.meta.name
                &&& d.content@ == rec.content
                &&& d.metadata.metadata@ == rec.meta
                &&& trees_view(d.metadata.tree@) == rec.tree
            }),
            Option::None => r is Err && r->Err_0.kind == ErrorKind::NotFound,
        },
{
    let meta = match store.get_file_metadata(id) {
        Ok(m) => m,
        Err(e) => {
            return Err(e);
        },
    };
    let content = match store.get_file_content(id) {
        Ok(c) => c,
        Err(e) => {
            return Err(e);
        },
    };
    let tree_ref = match store.get_file_tree(id) {
        Ok(t) => t,
        Err(e) => {
            return Err(e);
        },
    };
    let tree = clone_trees(tree_ref);
    let name = meta.name.clone();
    Ok(
        ParsedFileDetail {
            id: id.clone(),
            name,
            content,
            metadata: CompleteParseDetail { metadata: meta, tree },
        },
    )
}

/// What one parse run leaves behind, given the instant `t` it was stamped
/// with: a record under a fresh id holding the artifact of the read files,
/// their count and byte total, and the tree snapshot; both timestamps
/// carry `t`, and the record's initial name is its id.
pub open spec fn parse_post(
    pre: Seq<RecordView>,
    post: Seq<RecordView>,
    files: Seq<FileRead>,
    tree: Seq<TreeView>,
    m: MetaView,
    t: int,
) -> bool {
    &&& m.id == fresh_id_spec(pre, t)
    &&& !contains_id(pre, m.id)
    &&& m.name == m.id
    &&& m.files_count == blocks_of(files).len()
    &&& m.total_size == if total_size_of(files) > u64::MAX {
        u64::MAX as int
    } else {
        total_size_of(files) as int
    }
    &&& m.created_at == t
    &&& m.updated_at == t
    &&& post == pre.push(RecordView { meta: m, content: artifact_of(files), tree: tree })
}

/// Runs one parse stamped with the given instant: concatenates the read
/// files and creates the record.
pub fn parse_at(
    store: &mut RecordStore,
    files: &Vec<FileRead>,
    tree: Vec<ParsedPath>,
    now: i64,
) -> (r: ParseMetadata)
    requires
        old(store).wf(),
    ensures
        final(store).wf(),
        parse_post(old(store)@, final(store)@, files@, trees_view(tree@), r@, now as int),
{
    let outcome = concatenate(files);
    store.create(outcome.artifact, outcome.files_count, outcome.total_size, tree, now)
}

/// Runs one parse stamped with the clock's current instant. Whatever
/// instant the clock yields, the parse behaves as `parse_at` for it.
pub fn parse(store: &mut RecordStore, files: &Vec<FileRead>, tree: Vec<ParsedPath>) -> (r:
    ParseMetadata)
    requires
        old(store).wf(),
    ensures
        final(store).wf(),
        exists|t: int|
            #[trigger] parse_post(old(store)@, final(store)@, files@, trees_view(tree@), r@, t),
{
    let ghost tv = trees_view(tree@);
    let now = now_millis();
    let r = parse_at(store, files, tree, now);
    proof {
        assert(parse_post(old(store)@, store@, files@, tv, r@, now as int));
    }
    r
}

/// Resolves a record to the action that opens its content blob with the
/// default application; `NotFound` when no record carries the id.
pub fn open_in_default_editor(store: &RecordStore, records_dir: &str, id: &String) -> (r: Result<
    OpenAction,
    CommandError,
>)
    ensures
        match find_rec(store@, id@) {
            Option::Some(rec) => r is Ok && (r->Ok_0 matches OpenAction::OpenFile(p) && p@
                == records_dir@ + "/"@ + id@ + "/"@ + "content.txt"@),
            Option::None => r is Err && r->Err_0.kind == ErrorKind::NotFound,
        },
{
    match store.get_file_metadata(id) {
        Ok(_) => {
            let dir = record_dir_path(records_dir, id.as_str());
            Ok(OpenAction::OpenFile(content_path(dir.as_str())))
        },
        Err(e) => Err(e),
    }
}

/// Resolves a record to the action that reveals its directory in the file
/// manager; `NotFound` when no record carries the id.
pub fn open_in_folder(store: &RecordStore, records_dir: &str, id: &String) -> (r: Result<
    OpenAction,
    CommandError,
>)
    ensures
        match find_rec(store@, id@) {
            Option::Some(rec) => r is Ok && (r->Ok_0 matches OpenAction::RevealInFolder(p) && p@
                == records_dir@ + "/"@ + id@),
            Option::None => r is Err && r->Err_0.kind == ErrorKind::NotFound,
        },
{
    match store.get_file_metadata(id) {
        Ok(_) => Ok(OpenAction::RevealInFolder(record_dir_path(records_dir, id.as_str()))),
        Err(e) => Err(e),
    }
}

} // verus!
