//! The parse-record store.
//!
//! A record couples the concatenated artifact, its metadata and the tree
//! snapshot captured at parse time. The store keeps the records of one
//! state, allocates fresh ids, and offers create/read/update/rename/delete
//! with exact semantics: content and `updated_at` change together and only
//! together; a rename touches nothing but the name; a delete makes the id
//! unknown. A disk-backed adapter mirrors each operation one to one onto a
//! record directory; the semantics proved here are the semantics of the
//! store.

use vstd::prelude::*;

use crate::error::CommandError;
use crate::error::ErrorKind;
use crate::ids::id_base;
use crate::ids::id_base_spec;
use crate::tree::trees_view;
use crate::tree::ParsedPath;
use crate::tree::TreeView;

verus! {

/// Metadata of one parse record. `files_count` and `total_size` describe
/// the parse that created the record; a later content edit deliberately
/// leaves them unchanged.
#[derive(Debug)]
pub struct ParseMetadata {
    pub id: String,
    pub name: String,
    pub files_count: usize,
    pub total_size: u64,
    pub created_at: i64,
    pub updated_at: i64,
}

/// The mathematical shape of record metadata.
pub struct MetaView {
    pub id: Seq<char>,
    pub name: Seq<char>,
    pub files_count: int,
    pub total_size: int,
    pub created_at: int,
    pub updated_at: int,
}

impl View for ParseMetadata {
    type V = MetaView;

    open spec fn view(&self) -> MetaView {
        MetaView {
            id: self.id@,
            name: self.name@,
            files_count: self.files_count as int,
            total_size: self.total_size as int,
            created_at: self.created_at as int,
            updated_at: self.updated_at as int,
        }
    }
}

impl ParseMetadata {
    /// A field-for-field copy.
    pub fn clone_meta(&self) -> (r: ParseMetadata)
        ensures
            r == *self,
    {
        ParseMetadata {
            id: self.id.clone(),
            name: self.name.clone(),
            files_count: self.files_count,
            total_size: self.total_size,
            created_at: self.created_at,
            updated_at: self.updated_at,
        }
    }
}

/// One stored record: metadata, artifact content, and tree snapshot.
pub struct ParsedRecord {
    pub metadata: ParseMetadata,
    pub content: String,
    pub tree: Vec<ParsedPath>,
}

/// The mathematical shape of one record.
pub struct RecordView {
    pub meta: MetaView,
    pub content: Seq<char>,
    pub tree: Seq<TreeView>,
}

impl View for ParsedRecord {
    type V = RecordView;

    open spec fn view(&self) -> RecordView {
        RecordView { meta: self.metadata@, content: self.content@, tree: trees_view(self.tree@) }
    }
}

/// Ids are pairwise distinct.
pub open spec fn wf_ids(s: Seq<RecordView>) -> bool {
    forall|i: int, j: int| 0 <= i < j < s.len() ==> s[i].meta.id != s[j].meta.id
}

/// The index of the first record with the given id, or `-1`.
pub open spec fn find_idx(s: Seq<RecordView>, id: Seq<char>) -> int
    decreases s.len(),
{
    if s.len() == 0 {
        -1
    } else if s[0].meta.id == id {
        0
    } else {
        let rest = find_idx(s.subrange(1, s.len() as int), id);
        if rest == -1 {
            -1
        } else {
            rest + 1
        }
    }
}

/// The record with the given id, if any.
pub open spec fn find_rec(s: Seq<RecordView>, id: Seq<char>) -> Option<RecordView> {
    if find_idx(s, id) >= 0 {
        Option::Some(s[find_idx(s, id)])
    } else {
        Option::None
    }
}

/// Whether some record carries the given id.
pub open spec fn contains_id(s: Seq<RecordView>, id: Seq<char>) -> bool {
    find_idx(s, id) >= 0
}

/// What `find_idx` returns: a valid index of the first hit, or `-1` when
/// no record carries the id.
pub proof fn lemma_find_idx_props(s: Seq<RecordView>, id: Seq<char>)
    ensures
        -1 <= find_idx(s, id) < s.len(),
        find_idx(s, id) >= 0 ==> s[find_idx(s, id)].meta.id == id,
        find_idx(s, id) >= 0 ==> forall|k: int| 0 <= k < find_idx(s, id) ==> s[k].meta.id != id,
        find_idx(s, id) == -1 ==> forall|k: int| 0 <= k < s.len() ==> s[k].meta.id != id,
    decreases s.len(),
{
    if s.len() == 0 {
    } else if s[0].meta.id == id {
    } else {
        let rest = s.subrange(1, s.len() as int);
        lemma_find_idx_props(rest, id);
        assert(forall|k: int| 1 <= k < s.len() ==> s[k] == rest[k - 1]);
    }
}

/// `find_idx` returns the first hit.
pub proof fn lemma_find_idx_hit(s: Seq<RecordView>, id: Seq<char>, i: int)
    requires
        0 <= i < s.len(),
        s[i].meta.id == id,
        forall|k: int| 0 <= k < i ==> s[k].meta.id != id,
    ensures
        find_idx(s, id) == i,
    decreases s.len(),
{
    if i == 0 {
    } else {
        let rest = s.subrange(1, s.len() as int);
        assert(forall|k: int| 1 <= k < s.len() ==> s[k] == rest[k - 1]);
        lemma_find_idx_hit(rest, id, i - 1);
    }
}

/// The length of the longest id held by any record.
pub open spec fn max_id_len(s: Seq<RecordView>) -> nat
    decreases s.len(),
{
    if s.len() == 0 {
        0
    } else {
        let m = max_id_len(s.drop_last());
        let l = s.last().meta.id.len();
        if l > m {
            l
        } else {
            m
        }
    }
}

/// Every id is at most `max_id_len` long.
pub proof fn lemma_max_id_len_bound(s: Seq<RecordView>, k: int)
    requires
        0 <= k < s.len(),
    ensures
        s[k].meta.id.len() <= max_id_len(s),
    decreases s.len(),
{
    if k == s.len() - 1 {
    } else {
        lemma_max_id_len_bound(s.drop_last(), k);
    }
}

/// The id that a create at instant `now` allocates: the instant's id base,
/// extended with `x` marks past every existing id when the base is taken.
pub open spec fn fresh_id_spec(s: Seq<RecordView>, now: int) -> Seq<char> {
    let base = id_base_spec(now);
    if !contains_id(s, base) {
        base
    } else {
        base + Seq::new((max_id_len(s) + 1 - base.len()) as nat, |t: int| 'x')
    }
}

/// The in-memory record store.
pub struct RecordStore {
    records: Vec<ParsedRecord>,
}

impl View for RecordStore {
    type V = Seq<RecordView>;

    closed spec fn view(&self) -> Seq<RecordView> {
        self.records@.map_values(|r: ParsedRecord| r@)
    }
}

impl RecordStore {
    /// The store is well formed: no two records share an id.
    pub open spec fn wf(self) -> bool {
        wf_ids(self@)
    }

    /// An empty store.
    pub fn new() -> (r: RecordStore)
        ensures
            r@ == Seq::<RecordView>::empty(),
            r.wf(),
    {
        let r = RecordStore { records: Vec::new() };
        proof {
            assert(r@ =~= Seq::<RecordView>::empty());
        }
        r
    }

    /// How many records the store holds.
    pub fn count(&self) -> (n: usize)
        ensures
            n == self@.len(),
    {
        self.records.len()
    }

    /// The position of the record with the given id, if any.
    fn position_of(&self, id: &String) -> (r: Option<usize>)
        ensures
            match r {
                Some(i) => find_idx(self@, id@) == i && i < self@.len(),
                None => find_idx(self@, id@) == -1,
            },
    {
        let mut i: usize = 0;
        while i < self.records.len()
            invariant
                0 <= i <= self@.len(),
                self@.len() == self.records@.len(),
                forall|k: int| 0 <= k < i ==> self@[k].meta.id != id@,
            decreases self@.len() - i,
        {
            if self.records[i].metadata.id == *id {
                proof {
                    lemma_find_idx_hit(self@, id@, i as int);
                }
                return Some(i);
            }
            i = i + 1;
        }
        proof {
            lemma_find_idx_props(self@, id@);
            if find_idx(self@, id@) >= 0 {
                assert(self@[find_idx(self@, id@)].meta.id == id@);
            }
        }
        None
    }

    /// The length of the longest id currently held.
    fn max_len(&self) -> (m: usize)
        ensures
            m == max_id_len(self@),
    {
        let mut m: usize = 0;
        let mut i: usize = 0;
        while i < self.records.len()
            invariant
                0 <= i <= self@.len(),
                self@.len() == self.records@.len(),
                m == max_id_len(self@.take(i as int)),
            decreases self@.len() - i,
        {
            proof {
                assert(self@.take(i + 1).drop_last() =~= self@.take(i as int));
                assert(self@.take(i + 1).last() == self@[i as int]);
            }
            let l = self.records[i].metadata.id.unicode_len();
            if l > m {
                m = l;
            }
            i = i + 1;
        }
        proof {
            assert(self@.take(self@.len() as int) =~= self@);
        }
        m
    }

    /// Creates a record from a parse outcome: allocates a fresh id, stores
    /// the artifact, the structural counts and the tree snapshot, and
    /// stamps `created_at` and `updated_at` with the same instant. The
    /// record's initial display name is its id.
    pub fn create(
        &mut self,
        artifact: String,
        files_count: usize,
        total_size: u64,
        tree: Vec<ParsedPath>,
        now: i64,
    ) -> (r: ParseMetadata)
        requires
            old(self).wf(),
        ensures
            final(self).wf(),
            r@.id == fresh_id_spec(old(self)@, now as int),
            !contains_id(old(self)@, r@.id),
            r@.name == r@.id,
            r@.files_count == files_count as int,
            r@.total_size == total_size as int,
            r@.created_at == now as int,
            r@.updated_at == now as int,
            final(self)@ == old(self)@.push(
                RecordView { meta: r@, content: artifact@, tree: trees_view(tree@) },
            ),
    {
        let mut id = id_base(now);
        let taken = self.position_of(&id);
        if let Some(hit) = taken {
            proof {
                lemma_find_idx_props(self@, id@);
                lemma_max_id_len_bound(self@, find_idx(self@, id@));
            }
            let m = self.max_len();
            let base_len = id.unicode_len();
            let need = m - base_len + 1;
            let ghost base = id@;
            let mut k: usize = 0;
            while k < need
                invariant
                    0 <= k <= need,
                    id@ == base + Seq::new(k as nat, |t: int| 'x'),
                decreases need - k,
            {
                id.append("x");
                k = k + 1;
                proof {
                    reveal_strlit("x");
                    assert(id@ =~= base + Seq::new(k as nat, |t: int| 'x'));
                }
            }
            proof {
                assert(id@ =~= fresh_id_spec(self@, now as int));
                assert(id@.len() == max_id_len(self@) + 1);
                assert forall|j: int| 0 <= j < self@.len() implies self@[j].meta.id != id@ by {
                    lemma_max_id_len_bound(self@, j);
                }
                lemma_find_idx_props(self@, id@);
            }
        } else {
            proof {
                assert(id@ == fresh_id_spec(self@, now as int));
            }
        }
        proof {
            lemma_find_idx_props(self@, id@);
        }
        let name = id.clone();
        let metadata = ParseMetadata {
            id,
            name,
            files_count,
            total_size,
            created_at: now,
            updated_at: now,
        };
        let r = metadata.clone_meta();
        let ghost before = self@;
        let rec = ParsedRecord { metadata, content: artifact, tree };
        self.records.push(rec);
        proof {
            assert(self@ =~= before.push(rec@));
            assert forall|i: int, j: int|
                0 <= i < j < self@.len() implies self@[i].meta.id != self@[j].meta.id by {
                if j < self@.len() - 1 {
                } else {
                    assert(self@[i] == before[i]);
                }
            }
        }
        r
    }

    /// The metadata of the record with the given id, or `NotFound`.
    pub fn get_file_metadata(&self, id: &String) -> (r: Result<ParseMetadata, CommandError>)
        ensures
            match find_rec(self@, id@) {
                Option::Some(rec) => r is Ok && r->Ok_0@ == rec.meta,
                Option::None => r is Err && r->Err_0.kind == ErrorKind::NotFound,
            },
    {
        match self.position_of(id) {
            Some(i) => Ok(self.records[i].metadata.clone_meta()),
            None => Err(CommandError::not_found(String::from_str("record not found"))),
        }
    }

    /// The artifact content of the record with the given id, or `NotFound`.
    pub fn get_file_content(&self, id: &String) -> (r: Result<String, CommandError>)
        ensures
            match find_rec(self@, id@) {
                Option::Some(rec) => r is Ok && r->Ok_0@ == rec.content,
                Option::None => r is Err && r->Err_0.kind == ErrorKind::NotFound,
            },
    {
        match self.position_of(id) {
            Some(i) => Ok(self.records[i].content.clone()),
            None => Err(CommandError::not_found(String::from_str("record not found"))),
        }
    }

    /// The tree snapshot of the record with the given id, or `NotFound`.
    pub fn get_file_tree(&self, id: &String) -> (r: Result<&Vec<ParsedPath>, CommandError>)
        ensures
            match find_rec(self@, id@) {
                Option::Some(rec) => r is Ok && trees_view(r->Ok_0@) == rec.tree,
                Option::None => r is Err && r->Err_0.kind == ErrorKind::NotFound,
            },
    {
        match self.position_of(id) {
            Some(i) => Ok(&self.records[i].tree),
            None => Err(CommandError::not_found(String::from_str("record not found"))),
        }
    }

    /// Overwrites the record's content and stamps `updated_at` with `now`.
    /// `files_count`, `total_size`, `name` and `created_at` describe the
    /// original parse and stay untouched.
    pub fn update_file(&mut self, id: &String, content: String, now: i64) -> (r: Result<
        (),
        CommandError,
    >)
        requires
            old(self).wf(),
        ensures
            final(self).wf(),
            ({
                let i = find_idx(old(self)@, id@);
                if i == -1 {
                    r is Err && r->Err_0.kind == ErrorKind::NotFound && final(self)@ == old(
                        self,
                    )@
                } else {
                    r is Ok && final(self)@ == old(self)@.update(
                        i,
                        RecordView {
                            meta: MetaView {
                                id: old(self)@[i].meta.id,
                                name: old(self)@[i].meta.name,
                                files_count: old(self)@[i].meta.files_count,
                                total_size: old(self)@[i].meta.total_size,
                                created_at: old(self)@[i].meta.created_at,
                                updated_at: now as int,
                            },
                            content: content@,
                            tree: old(self)@[i].tree,
                        },
                    )
                }
            }),
    {
        match self.position_of(id) {
            Some(i) => {
                let ghost before = self@;
                let mut rec = self.records.remove(i);
                rec.metadata.updated_at = now;
                rec.content = content;
                self.records.insert(i, rec);
                proof {
                    assert(self@ =~= before.update(i as int, rec@));
                    assert(forall|k: int|
                        0 <= k < self@.len() ==> self@[k].meta.id == before[k].meta.id);
                }
                Ok(())
            },
            None => Err(CommandError::not_found(String::from_str("record not found"))),
        }
    }

    /// Gives the record a new display name. Nothing else changes; in
    /// particular `updated_at` keeps its value, since the content did not.
    pub fn rename_file(&mut self, id: &String, new_name: String) -> (r: Result<
        (),
        CommandError,
    >)
        requires
            old(self).wf(),
        ensures
            final(self).wf(),
            ({
                let i = find_idx(old(self)@, id@);
                if i == -1 {
                    r is Err && r->Err_0.kind == ErrorKind::NotFound && final(self)@ == old(
                        self,
                    )@
                } else {
                    r is Ok && final(self)@ == old(self)@.update(
                        i,
                        RecordView {
                            meta: MetaView {
                                id: old(self)@[i].meta.id,
                                name: new_name@,
                                files_count: old(self)@[i].meta.files_count,
                                total_size: old(self)@[i].meta.total_size,
                                created_at: old(self)@[i].meta.created_at,
                                updated_at: old(self)@[i].meta.updated_at,
                            },
                            content: old(self)@[i].content,
                            tree: old(self)@[i].tree,
                        },
                    )
                }
            }),
    {
        match self.position_of(id) {
            Some(i) => {
                let ghost before = self@;
                let mut rec = self.records.remove(i);
                rec.metadata.name = new_name;
                self.records.insert(i, rec);
                proof {
                    assert(self@ =~= before.update(i as int, rec@));
                    assert(forall|k: int|
                        0 <= k < self@.len() ==> self@[k].meta.id == before[k].meta.id);
                }
                Ok(())
            },
            None => Err(CommandError::not_found(String::from_str("record not found"))),
        }
    }

    /// Removes the record with the given id, or fails with `NotFound`.
    pub fn delete_file(&mut self, id: &String) -> (r: Result<(), CommandError>)
        requires
            old(self).wf(),
        ensures
            final(self).wf(),
            ({
                let i = find_idx(old(self)@, id@);
                if i == -1 {
                    r is Err && r->Err_0.kind == ErrorKind::NotFound && final(self)@ == old(
                        self,
                    )@
                } else {
                    r is Ok && final(self)@ == old(self)@.remove(i)
                }
            }),
    {
        match self.position_of(id) {
            Some(i) => {
                let ghost before = self@;
                let _ = self.records.remove(i);
                proof {
                    assert(self@ =~= before.remove(i as int));
                    assert forall|a: int, b: int|
                        0 <= a < b < self@.len() implies self@[a].meta.id != self@[b].meta.id by {
                        let a0 = if a < i { a } else { a + 1 };
                        let b0 = if b < i { b } else { b + 1 };
                        assert(self@[a] == before[a0]);
                        assert(self@[b] == before[b0]);
                    }
                }
                Ok(())
            },
            None => Err(CommandError::not_found(String::from_str("record not found"))),
        }
    }

    /// Puts a persisted record back into the store, exactly as saved.
    /// Fails with `InvalidState` when its id is already taken.
    pub fn restore(&mut self, metadata: ParseMetadata, content: String, tree: Vec<ParsedPath>) -> (r:
        Result<(), CommandError>)
        requires
            old(self).wf(),
        ensures
            final(self).wf(),
            if contains_id(old(self)@, metadata@.id) {
                r is Err && r->Err_0.kind == ErrorKind::InvalidState && final(self)@ == old(self)@
            } else {
                r is Ok && final(self)@ == old(self)@.push(
                    RecordView {
                        meta: metadata@,
                        content: content@,
                        tree: trees_view(tree@),
                    },
                )
            },
    {
        match self.position_of(&metadata.id) {
            Some(_) => Err(
                CommandError::invalid_state(String::from_str("record id already present")),
            ),
            None => {
                proof {
                    lemma_find_idx_props(self@, metadata.id@);
                }
                let ghost before = self@;
                let rec = ParsedRecord { metadata, content, tree };
                self.records.push(rec);
                proof {
                    assert(self@ =~= before.push(rec@));
                    assert forall|i: int, j: int|
                        0 <= i < j < self@.len() implies self@[i].meta.id != self@[j].meta.id by {
                        if j < self@.len() - 1 {
                        } else {
                            assert(self@[i] == before[i]);
                        }
                    }
                }
                Ok(())
            },
        }
    }
}

/// Round trip: a record created under a fresh id is exactly what a read of
/// that id returns afterwards — same content, same tree, same metadata.
pub proof fn lemma_create_then_read(s: Seq<RecordView>, rec: RecordView)
    requires
        wf_ids(s),
        !contains_id(s, rec.meta.id),
    ensures
        find_rec(s.push(rec), rec.meta.id) == Option::Some(rec),
{
    lemma_find_idx_props(s, rec.meta.id);
    assert(forall|k: int| 0 <= k < s.len() ==> s.push(rec)[k] == s[k]);
    assert(s.push(rec)[s.len() as int] == rec);
    lemma_find_idx_hit(s.push(rec), rec.meta.id, s.len() as int);
}

/// A read after an in-place update returns the updated record, and every
/// other record is untouched.
pub proof fn lemma_read_after_update(s: Seq<RecordView>, id: Seq<char>, r2: RecordView)
    requires
        wf_ids(s),
        contains_id(s, id),
        r2.meta.id == id,
    ensures
        find_rec(s.update(find_idx(s, id), r2), id) == Option::Some(r2),
        forall|other: Seq<char>|
            other != id ==> find_idx(s.update(find_idx(s, id), r2), other) == find_idx(s, other),
{
    let i = find_idx(s, id);
    lemma_find_idx_props(s, id);
    let s2 = s.update(i, r2);
    assert(forall|k: int| 0 <= k < s.len() && k != i ==> s2[k] == s[k]);
    lemma_find_idx_hit(s2, id, i);
    assert forall|other: Seq<char>|
        other != id implies find_idx(s2, other) == find_idx(s, other) by {
        lemma_find_idx_same(s, s2, other, i, id);
    }
}

/// Two states that differ only in one record, whose id is `id` in both,
/// agree on `find_idx` for every other id.
proof fn lemma_find_idx_same(
    s: Seq<RecordView>,
    s2: Seq<RecordView>,
    other: Seq<char>,
    i: int,
    id: Seq<char>,
)
    requires
        s.len() == s2.len(),
        0 <= i < s.len(),
        s[i].meta.id == id,
        s2[i].meta.id == id,
        other != id,
        forall|k: int| 0 <= k < s.len() && k != i ==> s2[k] == s[k],
    ensures
        find_idx(s2, other) == find_idx(s, other),
    decreases s.len(),
{
    if s.len() == 0 {
    } else {
        let rest = s.subrange(1, s.len() as int);
        let rest2 = s2.subrange(1, s2.len() as int);
        assert(forall|k: int| 0 <= k < rest.len() ==> rest[k] == s[k + 1]);
        assert(forall|k: int| 0 <= k < rest2.len() ==> rest2[k] == s2[k + 1]);
        if i == 0 {
            assert(s[0].meta.id != other);
            assert(s2[0].meta.id != other);
            assert(rest =~= rest2);
        } else {
            assert(s2[0] == s[0]);
            lemma_find_idx_same(rest, rest2, other, i - 1, id);
        }
    }
}

/// A deleted id is gone: after removing the record that carried it, a read
/// of that id finds nothing.
pub proof fn lemma_delete_then_read(s: Seq<RecordView>, id: Seq<char>)
    requires
        wf_ids(s),
        contains_id(s, id),
    ensures
        find_rec(s.remove(find_idx(s, id)), id) == Option::<RecordView>::None,
{
    let i = find_idx(s, id);
    lemma_find_idx_props(s, id);
    let s2 = s.remove(i);
    assert forall|k: int| 0 <= k < s2.len() implies s2[k].meta.id != id by {
        let k0 = if k < i { k } else { k + 1 };
        assert(s2[k] == s[k0]);
        if k0 != i {
            assert(s[k0].meta.id != s[i].meta.id);
        }
    }
    lemma_find_idx_props(s2, id);
    if find_idx(s2, id) >= 0 {
        assert(s2[find_idx(s2, id)].meta.id == id);
    }
}

} // verus!
