//! Listing parse records: provisional ordering, truncation, and assembly.
//!
//! Listing runs in two phases. The first enumerates record directories and
//! orders them by their directory modification stamp, newest first — a
//! cheap, provisional order that avoids opening any metadata document —
//! and truncates to the caller's limit. The second loads the candidates'
//! metadata (concurrently, outside the library) and assembles the items,
//! dropping every candidate whose load failed instead of failing the
//! batch. The provisional order can diverge from the metadata's own
//! `updated_at`; a strict re-sort by `updated_at` is available as the
//! exact mode.

use vstd::prelude::*;
use vstd::multiset::Multiset;
use vstd::seq_lib::group_to_multiset_ensures;

verus! {

/// One enumerated record directory: its id and its directory modification
/// stamp.
pub struct DirStamp {
    pub id: String,
    pub mtime: i64,
}

/// One row of a record listing.
pub struct ParsedFileListItem {
    pub id: String,
    pub name: String,
    pub directory_path: String,
    pub file_size: u64,
    pub files_count: usize,
    pub total_size: u64,
    pub created_at: i64,
    pub last_modified: i64,
}

/// Stamps ordered newest first.
pub open spec fn stamps_sorted_desc(s: Seq<DirStamp>) -> bool {
    forall|a: int, b: int| 0 <= a < b < s.len() ==> s[a].mtime >= s[b].mtime
}

/// Items ordered by `last_modified`, newest first.
pub open spec fn items_sorted_desc(s: Seq<ParsedFileListItem>) -> bool {
    forall|a: int, b: int| 0 <= a < b < s.len() ==> s[a].last_modified >= s[b].last_modified
}

/// The index of an entry with the greatest stamp.
fn max_stamp_index(v: &Vec<DirStamp>) -> (m: usize)
    requires
        v@.len() > 0,
    ensures
        m < v@.len(),
        forall|k: int| 0 <= k < v@.len() ==> v@[k].mtime <= v@[m as int].mtime,
{
    let mut m: usize = 0;
    let mut i: usize = 1;
    while i < v.len()
        invariant
            0 <= m < i <= v@.len(),
            forall|k: int| 0 <= k < i ==> v@[k].mtime <= v@[m as int].mtime,
        decreases v@.len() - i,
    {
        if v[i].mtime > v[m].mtime {
            m = i;
        }
        i = i + 1;
    }
    m
}

/// The provisional ordering pass: the same stamps, newest first.
pub fn provisional_order(v: Vec<DirStamp>) -> (r: Vec<DirStamp>)
    ensures
        r@.to_multiset() == v@.to_multiset(),
        r@.len() == v@.len(),
        stamps_sorted_desc(r@),
{
    broadcast use group_to_multiset_ensures;

    let ghost orig = v@;
    let mut src = v;
    let mut out: Vec<DirStamp> = Vec::new();
    proof {
        assert(out@.to_multiset().add(src@.to_multiset()) =~= orig.to_multiset());
    }
    while src.len() > 0
        invariant
            out@.to_multiset().add(src@.to_multiset()) == orig.to_multiset(),
            stamps_sorted_desc(out@),
            forall|a: int, b: int|
                0 <= a < out@.len() && 0 <= b < src@.len() ==> out@[a].mtime >= src@[b].mtime,
        decreases src@.len(),
    {
        let m = max_stamp_index(&src);
        let ghost before_src = src@;
        let ghost before_out = out@;
        let e = src.remove(m);
        proof {
            broadcast use group_to_multiset_ensures;

            assert(e == before_src[m as int]);
            assert(before_src.contains(e));
            assert(before_src.to_multiset().count(e) > 0);
            assert(src@ == before_src.remove(m as int));
            assert(before_src.remove(m as int).to_multiset() =~= before_src.to_multiset().remove(
                e,
            ));
            assert(forall|b: int|
                0 <= b < src@.len() ==> src@[b] == (if b < m {
                    before_src[b]
                } else {
                    before_src[b + 1]
                }));
        }
        out.push(e);
        proof {
            broadcast use group_to_multiset_ensures;

            assert(out@.to_multiset() == before_out.push(e).to_multiset());
            assert(out@.to_multiset().add(src@.to_multiset()) =~= orig.to_multiset());
            assert(forall|a: int| 0 <= a < before_out.len() ==> out@[a] == before_out[a]);
            assert(out@[out@.len() - 1] == e);
        }
    }
    proof {
        assert(src@.to_multiset() =~= Multiset::<DirStamp>::empty());
        assert(out@.to_multiset() =~= orig.to_multiset());
        assert(out@.len() == out@.to_multiset().len());
        assert(orig.len() == orig.to_multiset().len());
    }
    out
}

/// Truncates the candidate set to the caller's limit, keeping the order;
/// no limit keeps everything.
pub fn apply_limit(v: &mut Vec<DirStamp>, limit: Option<usize>)
    ensures
        match limit {
            Some(l) => final(v)@ == if l <= old(v)@.len() {
                old(v)@.subrange(0, l as int)
            } else {
                old(v)@
            },
            None => final(v)@ == old(v)@,
        },
        final(v)@.len() <= old(v)@.len(),
        limit is Some ==> final(v)@.len() <= limit->0,
{
    match limit {
        Some(l) => {
            v.truncate(l);
        },
        None => {},
    }
}

/// A field-for-field copy of a listing row.
pub fn clone_item(item: &ParsedFileListItem) -> (r: ParsedFileListItem)
    ensures
        r == *item,
{
    ParsedFileListItem {
        id: item.id.clone(),
        name: item.name.clone(),
        directory_path: item.directory_path.clone(),
        file_size: item.file_size,
        files_count: item.files_count,
        total_size: item.total_size,
        created_at: item.created_at,
        last_modified: item.last_modified,
    }
}

/// A load result kept as it is: a loaded row passes through, a failed load
/// contributes nothing.
pub open spec fn loaded_fn() -> spec_fn(Option<ParsedFileListItem>) -> Option<
    ParsedFileListItem,
> {
    |o: Option<ParsedFileListItem>| o
}

/// The fetch-pass assembly: keeps every successfully loaded row, in
/// candidate order, and drops every failed load. One corrupt or vanished
/// record never fails the whole listing.
pub fn assemble_list(loaded: &Vec<Option<ParsedFileListItem>>) -> (r: Vec<ParsedFileListItem>)
    ensures
        r@ == loaded@.filter_map(loaded_fn()),
{
    let mut out: Vec<ParsedFileListItem> = Vec::new();
    let mut i: usize = 0;
    while i < loaded.len()
        invariant
            0 <= i <= loaded@.len(),
            out@ == loaded@.take(i as int).filter_map(loaded_fn()),
        decreases loaded@.len() - i,
    {
        proof {
            loaded@.lemma_filter_map_take_succ(loaded_fn(), i as int);
        }
        match &loaded[i] {
            Some(item) => {
                out.push(clone_item(item));
            },
            None => {},
        }
        i = i + 1;
    }
    proof {
        assert(loaded@.take(loaded@.len() as int) =~= loaded@);
    }
    out
}

/// A listing row built from record metadata: `last_modified` carries the
/// metadata's `updated_at`.
pub fn make_list_item(
    meta: &crate::store::ParseMetadata,
    directory_path: String,
    file_size: u64,
) -> (r: ParsedFileListItem)
    ensures
        r.id@ == meta.id@,
        r.name@ == meta.name@,
        r.directory_path@ == directory_path@,
        r.file_size == file_size,
        r.files_count == meta.files_count,
        r.total_size == meta.total_size,
        r.created_at == meta.created_at,
        r.last_modified == meta.updated_at,
{
    ParsedFileListItem {
        id: meta.id.clone(),
        name: meta.name.clone(),
        directory_path,
        file_size,
        files_count: meta.files_count,
        total_size: meta.total_size,
        created_at: meta.created_at,
        last_modified: meta.updated_at,
    }
}

/// The index of an item with the greatest `last_modified`.
fn max_item_index(v: &Vec<ParsedFileListItem>) -> (m: usize)
    requires
        v@.len() > 0,
    ensures
        m < v@.len(),
        forall|k: int| 0 <= k < v@.len() ==> v@[k].last_modified <= v@[m as int].last_modified,
{
    let mut m: usize = 0;
    let mut i: usize = 1;
    while i < v.len()
        invariant
            0 <= m < i <= v@.len(),
            forall|k: int| 0 <= k < i ==> v@[k].last_modified <= v@[m as int].last_modified,
        decreases v@.len() - i,
    {
        if v[i].last_modified > v[m].last_modified {
            m = i;
        }
        i = i + 1;
    }
    m
}

/// The exact mode: the same rows, re-sorted by the metadata's own
/// `updated_at`, newest first.
pub fn strict_order(v: Vec<ParsedFileListItem>) -> (r: Vec<ParsedFileListItem>)
    ensures
        r@.to_multiset() == v@.to_multiset(),
        r@.len() == v@.len(),
        items_sorted_desc(r@),
{
    broadcast use group_to_multiset_ensures;

    let ghost orig = v@;
    let mut src = v;
    let mut out: Vec<ParsedFileListItem> = Vec::new();
    proof {
        assert(out@.to_multiset().add(src@.to_multiset()) =~= orig.to_multiset());
    }
    while src.len() > 0
        invariant
            out@.to_multiset().add(src@.to_multiset()) == orig.to_multiset(),
            items_sorted_desc(out@),
            forall|a: int, b: int|
                0 <= a < out@.len() && 0 <= b < src@.len() ==> out@[a].last_modified
                    >= src@[b].last_modified,
        decreases src@.len(),
    {
        let m = max_item_index(&src);
        let ghost before_src = src@;
        let ghost before_out = out@;
        let e = src.remove(m);
        proof {
            broadcast use group_to_multiset_ensures;

            assert(e == before_src[m as int]);
            assert(before_src.contains(e));
            assert(before_src.to_multiset().count(e) > 0);
            assert(src@ == before_src.remove(m as int));
            assert(before_src.remove(m as int).to_multiset() =~= before_src.to_multiset().remove(
                e,
            ));
            assert(forall|b: int|
                0 <= b < src@.len() ==> src@[b] == (if b < m {
                    before_src[b]
                } else {
                    before_src[b + 1]
                }));
        }
        out.push(e);
        proof {
            broadcast use group_to_multiset_ensures;

            assert(out@.to_multiset() == before_out.push(e).to_multiset());
            assert(out@.to_multiset().add(src@.to_multiset()) =~= orig.to_multiset());
            assert(forall|a: int| 0 <= a < before_out.len() ==> out@[a] == before_out[a]);
            assert(out@[out@.len() - 1] == e);
        }
    }
    proof {
        assert(src@.to_multiset() =~= Multiset::<ParsedFileListItem>::empty());
        assert(out@.to_multiset() =~= orig.to_multiset());
        assert(out@.len() == out@.to_multiset().len());
        assert(orig.len() == orig.to_multiset().len());
    }
    out
}

/// An assembled listing never invents a row: it is no longer than the
/// candidate set it was loaded for, and every row it holds was loaded
/// successfully for some candidate. A candidate whose metadata was corrupt
/// or vanished loads as nothing and is skipped, never failing the batch.
pub proof fn lemma_assembly_bounded(loaded: Seq<Option<ParsedFileListItem>>)
    ensures
        loaded.filter_map(loaded_fn()).len() <= loaded.len(),
        forall|x: ParsedFileListItem| #[trigger]
            loaded.filter_map(loaded_fn()).contains(x) ==> loaded.contains(Option::Some(x)),
    decreases loaded.len(),
{
    if loaded.len() == 0 {
        assert(loaded.filter_map(loaded_fn()) =~= Seq::<ParsedFileListItem>::empty());
    } else {
        let rest = loaded.drop_last();
        lemma_assembly_bounded(rest);
        assert(loaded.filter_map(loaded_fn()) == rest.filter_map(loaded_fn()) + (match loaded.last() {
            Option::Some(x) => seq![x],
            Option::None => Seq::<ParsedFileListItem>::empty(),
        })) by {
            assert(loaded.drop_last() == rest);
            reveal_with_fuel(Seq::filter_map, 2);
        }
        assert forall|x: ParsedFileListItem| #[trigger]
            loaded.filter_map(loaded_fn()).contains(x) implies loaded.contains(
            Option::Some(x),
        ) by {
            if rest.filter_map(loaded_fn()).contains(x) {
                assert(rest.contains(Option::Some(x)));
                let w = choose|w: int| 0 <= w < rest.len() && rest[w] == Option::Some(x);
                assert(loaded[w] == Option::Some(x));
            } else {
                assert(loaded.last() == Option::Some(x));
                assert(loaded[loaded.len() - 1] == Option::Some(x));
            }
        }
    }
}

} // verus!
