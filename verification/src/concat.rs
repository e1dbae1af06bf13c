//! Concatenation of file contents into a single text artifact.
//!
//! Every readable file contributes a delimiter line carrying its original
//! path, immediately followed by its full content; blocks are joined by a
//! single newline, in input order. A file whose read failed is skipped, so
//! one unreadable file never invalidates the whole run.

use vstd::prelude::*;

verus! {

/// The outcome of one read attempt: the original path, and the file's
/// content where the read succeeded, `None` where it failed.
pub struct FileRead {
    pub path: String,
    pub content: Option<String>,
}

/// The artifact text plus the structural metadata recorded with it.
pub struct ParseOutcome {
    pub artifact: String,
    pub files_count: usize,
    pub total_size: u64,
}

/// The number of bytes of the UTF-8 encoding of `s`.
pub open spec fn byte_size(s: Seq<char>) -> nat {
    vstd::utf8::encode_utf8(s).len()
}

/// The block contributed by one successfully read file: a delimiter line
/// carrying the path, then the content.
pub open spec fn block_of(path: Seq<char>, content: Seq<char>) -> Seq<char> {
    "===== "@ + path + " =====\n"@ + content
}

/// Maps a read attempt to its block, or to nothing where the read failed.
pub open spec fn block_fn() -> spec_fn(FileRead) -> Option<Seq<char>> {
    |f: FileRead|
        match f.content {
            Option::Some(c) => Option::Some(block_of(f.path@, c@)),
            Option::None => Option::None,
        }
}

/// The blocks of all successfully read files, in input order.
pub open spec fn blocks_of(files: Seq<FileRead>) -> Seq<Seq<char>> {
    files.filter_map(block_fn())
}

/// Blocks joined by a single newline.
pub open spec fn join_blocks(bs: Seq<Seq<char>>) -> Seq<char>
    decreases bs.len(),
{
    if bs.len() == 0 {
        Seq::empty()
    } else if bs.len() == 1 {
        bs[0]
    } else {
        join_blocks(bs.drop_last()) + "\n"@ + bs.last()
    }
}

/// The whole artifact: the joined blocks and a final newline.
pub open spec fn artifact_of(files: Seq<FileRead>) -> Seq<char> {
    join_blocks(blocks_of(files)) + "\n"@
}

/// The sum of the byte sizes of all successfully read contents.
pub open spec fn total_size_of(files: Seq<FileRead>) -> nat
    decreases files.len(),
{
    if files.len() == 0 {
        0
    } else {
        total_size_of(files.drop_last()) + match files.last().content {
            Option::Some(c) => byte_size(c@),
            Option::None => 0,
        }
    }
}

/// Joins the contents of every readable file into one artifact, recording
/// how many files were actually included and how many bytes they held.
///
/// The artifact lists the blocks in input order; a failed read contributes
/// nothing. The byte total saturates at `u64::MAX`.
pub fn concatenate(files: &Vec<FileRead>) -> (r: ParseOutcome)
    ensures
        r.artifact@ == artifact_of(files@),
        r.files_count == blocks_of(files@).len(),
        r.total_size == if total_size_of(files@) > u64::MAX {
            u64::MAX as nat
        } else {
            total_size_of(files@)
        },
{
    let mut artifact = String::new();
    let mut count: usize = 0;
    let mut total: u64 = 0;
    let mut i: usize = 0;
    while i < files.len()
        invariant
            0 <= i <= files@.len(),
            count <= i,
            count == blocks_of(files@.take(i as int)).len(),
            artifact@ == join_blocks(blocks_of(files@.take(i as int))),
            total == if total_size_of(files@.take(i as int)) > u64::MAX {
                u64::MAX as nat
            } else {
                total_size_of(files@.take(i as int))
            },
        decreases files@.len() - i,
    {
        let fr = &files[i];
        proof {
            files@.lemma_filter_map_take_succ(block_fn(), i as int);
            assert(files@.take(i + 1).drop_last() =~= files@.take(i as int));
            assert(files@.take(i + 1).last() == files@[i as int]);
        }
        match &fr.content {
            Option::Some(c) => {
                let ghost bs = blocks_of(files@.take(i as int));
                let ghost b = block_of(fr.path@, c@);
                proof {
                    assert(blocks_of(files@.take(i + 1)) =~= bs + seq![b]);
                    assert((bs + seq![b]).drop_last() =~= bs);
                }
                if count > 0 {
                    artifact.append("\n");
                }
                artifact.append("===== ");
                artifact.append(fr.path.as_str());
                artifact.append(" =====\n");
                artifact.append(c.as_str());
                proof {
                    if bs.len() == 0 {
                        assert(artifact@ =~= join_blocks(bs + seq![b]));
                    } else {
                        assert(artifact@ =~= join_blocks(bs) + "\n"@ + b);
                        assert(join_blocks(bs + seq![b]) == join_blocks(bs) + "\n"@ + b);
                    }
                }
                proof {
                    assert(total_size_of(files@.take(i + 1)) == total_size_of(
                        files@.take(i as int),
                    ) + byte_size(c@));
                }
                count = count + 1;
                let sz: usize = c.as_str().as_bytes().len();
                proof {
                    assert(sz == byte_size(c@));
                }
                total = total.saturating_add(sz as u64);
            },
            Option::None => {
                proof {
                    assert(blocks_of(files@.take(i + 1)) =~= blocks_of(files@.take(i as int)));
                    assert(total_size_of(files@.take(i + 1)) == total_size_of(
                        files@.take(i as int),
                    ));
                }
            },
        }
        i = i + 1;
    }
    proof {
        assert(files@.take(files@.len() as int) =~= files@);
    }
    artifact.append("\n");
    ParseOutcome { artifact, files_count: count, total_size: total }
}

} // verus!
