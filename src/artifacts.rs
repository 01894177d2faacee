//! Planning the copy of prebuilt artifacts into the generated tree.
use vstd::prelude::*;
use crate::text::{join, join_path};

verus! {

/// One entry found below a source directory, by its path relative to that
/// directory.
pub struct DirEntry {
    pub relative: String,
    pub is_dir: bool,
}

/// What an artifact's source path names on disk.
pub enum SourceKind {
    /// A regular file.
    File,
    /// A directory, with everything below it listed depth first, each
    /// directory before its contents.
    Dir(Vec<DirEntry>),
    /// Nothing, or something that is neither a file nor a directory.
    Missing,
}

/// A file-system operation of a copy.
pub enum CopyOp {
    /// Create the directory and any missing parents.
    CreateDir(String),
    /// Create the parents of `to` if absent, then copy `from` over `to`.
    CopyFile { from: String, to: String },
}

/// A copy operation over plain paths.
pub enum OpView {
    CreateDir(Seq<char>),
    CopyFile(Seq<char>, Seq<char>),
}

impl View for CopyOp {
    type V = OpView;

    open spec fn view(&self) -> OpView {
        match self {
            CopyOp::CreateDir(d) => OpView::CreateDir(d@),
            CopyOp::CopyFile { from, to } => OpView::CopyFile(from@, to@),
        }
    }
}

/// The views of a sequence of operations.
pub open spec fn ops_view(ops: Seq<CopyOp>) -> Seq<OpView> {
    ops.map_values(|o: CopyOp| o@)
}

/// The operation that mirrors `e` from `src` to `dst`.
pub open spec fn entry_op(src: Seq<char>, dst: Seq<char>, e: DirEntry) -> OpView {
    if e.is_dir {
        OpView::CreateDir(join_path(dst, e.relative@))
    } else {
        OpView::CopyFile(join_path(src, e.relative@), join_path(dst, e.relative@))
    }
}

/// The operations that copy `src` to `dst`: a file is copied over, a
/// directory is created and its listing mirrored below `dst` in order.
pub open spec fn copy_ops(src: Seq<char>, dst: Seq<char>, kind: SourceKind) -> Seq<OpView> {
    match kind {
        SourceKind::File => seq![OpView::CopyFile(src, dst)],
        SourceKind::Dir(entries) => seq![OpView::CreateDir(dst)] + entries@.map_values(
            |e: DirEntry| entry_op(src, dst, e),
        ),
        SourceKind::Missing => Seq::empty(),
    }
}

/// Appends the operations that copy `src` to `dst` to `ops`.
pub fn plan_copy(ops: &mut Vec<CopyOp>, src: &str, dst: &str, kind: &SourceKind)
    ensures
        ops_view(final(ops)@) == ops_view(old(ops)@) + copy_ops(src@, dst@, *kind),
{
    let ghost start = old(ops)@;
    match kind {
        SourceKind::File => {
            ops.push(CopyOp::CopyFile { from: crate::text::owned(src), to: crate::text::owned(dst) });
            assert(ops_view(ops@) == ops_view(start) + copy_ops(src@, dst@, *kind));
        },
        SourceKind::Dir(entries) => {
            ops.push(CopyOp::CreateDir(crate::text::owned(dst)));
            let ghost head = ops@;
            assert(ops_view(head) == ops_view(start) + seq![OpView::CreateDir(dst@)]);
            let mut i: usize = 0;
            while i < entries.len()
                invariant
                    i <= entries@.len(),
                    ops@.len() == head.len() + i,
                    ops@.take(head.len() as int) == head,
                    forall|k: int|
                        0 <= k < i ==> (#[trigger] ops@[head.len() + k])@ == entry_op(
                            src@,
                            dst@,
                            entries@[k],
                        ),
                decreases entries@.len() - i,
            {
                let e = &entries[i];
                if e.is_dir {
                    ops.push(CopyOp::CreateDir(join(dst, e.relative.as_str())));
                } else {
                    ops.push(
                        CopyOp::CopyFile {
                            from: join(src, e.relative.as_str()),
                            to: join(dst, e.relative.as_str()),
                        },
                    );
                }
                assert(ops@.take(head.len() as int) == head);
                i = i + 1;
            }
            let ghost want = ops_view(start) + copy_ops(src@, dst@, *kind);
            assert forall|j: int| 0 <= j < ops@.len() implies ops_view(ops@)[j] == want[j] by {
                if j < head.len() {
                    assert(ops@[j] == ops@.take(head.len() as int)[j]);
                    assert(ops_view(head)[j] == ops_view(ops@)[j]);
                } else {
                    let k = j - head.len();
                    assert(ops@[head.len() + k]@ == entry_op(src@, dst@, entries@[k]));
                }
            }
            assert(ops_view(ops@) =~= want);
        },
        SourceKind::Missing => {
            assert(ops_view(ops@) =~= ops_view(start) + copy_ops(src@, dst@, *kind));
        },
    }
}

/// Copying a directory mirrors its structure: after the destination itself
/// is created, each listed entry keeps its relative path below the
/// destination, a subdirectory as a directory there and a file as a copy of
/// the file at the same relative path below the source.
pub proof fn lemma_dir_mirroring(src: Seq<char>, dst: Seq<char>, entries: Vec<DirEntry>, i: int)
    requires
        0 <= i < entries@.len(),
    ensures
        copy_ops(src, dst, SourceKind::Dir(entries))[0] == OpView::CreateDir(dst),
        copy_ops(src, dst, SourceKind::Dir(entries)).len() == entries@.len() + 1,
        entries@[i].is_dir ==> copy_ops(src, dst, SourceKind::Dir(entries))[i + 1] == OpView::CreateDir(
            join_path(dst, entries@[i].relative@),
        ),
        !entries@[i].is_dir ==> copy_ops(src, dst, SourceKind::Dir(entries))[i + 1] == OpView::CopyFile(
            join_path(src, entries@[i].relative@),
            join_path(dst, entries@[i].relative@),
        ),
{
}

} // verus!
