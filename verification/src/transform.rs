//! Transform pipeline: stateless, configuration-driven steps that turn a
//! freshly downloaded file into the zero-or-one file actually cached.
//!
//! The pipeline short-circuits to "no output" at the first step that yields
//! nothing (for example, an archive entry that is not present), which the
//! loader treats as fatal for that source so that stale cached bytes are
//! never silently kept after a successful download.
use vstd::prelude::*;

use crate::cache::File;
use crate::cache::FileView;
use crate::cache::file_opt_view;
use crate::Error;

verus! {

/// What extracting `entry_name` from a zip archive yields: `Some(bytes)` when
/// the entry exists and decompresses, `None` when nothing is extractable —
/// the archive has no such entry, or the archive or the entry cannot be read.
/// A pure function of the archive bytes and the name alone.
pub uninterp spec fn zip_entry_of(archive: Seq<u8>, entry_name: Seq<char>) -> Option<Seq<u8>>;

/// Relies on zip's `ZipArchive`: `new` parses the archive out of the byte
/// buffer, `by_name` looks the entry up, and reading the entry yields its
/// decompressed bytes — a function of the archive bytes and the entry name
/// alone. `FileNotFound` comes back as `Ok(None)`; every other zip failure is
/// handed back unchanged as the error, and on those same bytes nothing is
/// extractable, so the name yields `None` there too.
#[verifier::external_body]
fn archive_entry(bytes: &Vec<u8>, entry_name: &str) -> (r: Result<
    Option<Vec<u8>>,
    zip::result::ZipError,
>)
    ensures
        (r matches Ok(Some(v)) ==> zip_entry_of(bytes@, entry_name@) == Some(v@)),
        (r matches Ok(None::<Vec<u8>>) ==> zip_entry_of(bytes@, entry_name@) is None),
        (r is Err ==> zip_entry_of(bytes@, entry_name@) is None),
{
    let cursor = std::io::Cursor::new(bytes.as_slice());
    let mut archive = match zip::ZipArchive::new(cursor) {
        Ok(a) => a,
        Err(e) => return Err(e),
    };
    let mut entry = match archive.by_name(entry_name) {
        Ok(f) => f,
        Err(zip::result::ZipError::FileNotFound) => return Ok(None),
        Err(e) => return Err(e),
    };
    let mut out = Vec::new();
    match std::io::Read::read_to_end(&mut entry, &mut out) {
        Ok(_) => Ok(Some(out)),
        Err(e) => Err(zip::result::ZipError::Io(e)),
    }
}

/// One transform step: takes a `{name, bytes}` file, yields zero-or-one.
pub enum TransformOp {
    /// Take the named file out of a zip archive.
    ExtractArchiveEntry { entry_name: String },
    /// Give the file a fixed name, keeping its bytes.
    Rename { name: String },
}

pub enum TransformOpView {
    ExtractArchiveEntry { entry_name: Seq<char> },
    Rename { name: Seq<char> },
}

impl View for TransformOp {
    type V = TransformOpView;

    open spec fn view(&self) -> TransformOpView {
        match self {
            TransformOp::ExtractArchiveEntry { entry_name } => {
                TransformOpView::ExtractArchiveEntry { entry_name: entry_name@ }
            },
            TransformOp::Rename { name } => TransformOpView::Rename { name: name@ },
        }
    }
}

/// What one step yields, whenever it does not fail outright.
pub open spec fn apply_op_spec(op: TransformOpView, f: FileView) -> Option<FileView> {
    match op {
        TransformOpView::ExtractArchiveEntry { entry_name } => {
            match zip_entry_of(f.bytes, entry_name) {
                Some(bytes) => Some(FileView { name: entry_name, bytes }),
                None => None,
            }
        },
        TransformOpView::Rename { name } => Some(FileView { name, bytes: f.bytes }),
    }
}

/// What the whole pipeline yields: every step in order, short-circuiting to
/// "no output" at the first step that yields nothing.
pub open spec fn apply_ops_spec(ops: Seq<TransformOpView>, f: FileView) -> Option<FileView>
    decreases ops.len(),
{
    if ops.len() == 0 {
        Some(f)
    } else {
        match apply_op_spec(ops[0], f) {
            Some(g) => apply_ops_spec(ops.drop_first(), g),
            None => None,
        }
    }
}

impl TransformOp {
    /// Apply one step; `Ok(None)` means the step yielded nothing. Whenever the
    /// step yields a file at all, the call succeeds with exactly that file; a
    /// failure is always zip's, and only on input that yields nothing.
    pub fn apply(&self, file: File) -> (r: Result<Option<File>, Error>)
        ensures
            r matches Ok(out) ==> file_opt_view(out) == apply_op_spec(self@, file@),
            apply_op_spec(self@, file@) matches Some(out) ==> (r matches Ok(Some(f)) && f@ == out),
            r matches Err(e) ==> e is Zip && apply_op_spec(self@, file@) is None,
    {
        match self {
            TransformOp::ExtractArchiveEntry { entry_name } => {
                match archive_entry(&file.bytes, entry_name.as_str()) {
                    Ok(Some(bytes)) => Ok(Some(File { name: entry_name.clone(), bytes })),
                    Ok(None) => Ok(None),
                    Err(e) => Err(Error::Zip(e)),
                }
            },
            TransformOp::Rename { name } => {
                Ok(Some(File { name: name.clone(), bytes: file.bytes }))
            },
        }
    }
}

/// An ordered transform pipeline, shared by every source of one source set.
pub struct Transform {
    pub ops: Vec<TransformOp>,
}

impl View for Transform {
    type V = Seq<TransformOpView>;

    open spec fn view(&self) -> Seq<TransformOpView> {
        self.ops@.map_values(|o: TransformOp| o@)
    }
}

impl Transform {
    /// A pipeline with no steps: it hands every file through unchanged.
    pub fn empty() -> (t: Transform)
        ensures
            t@ =~= Seq::<TransformOpView>::empty(),
    {
        Transform { ops: Vec::new() }
    }

    /// Run the pipeline over one downloaded file. Whenever the pipeline
    /// yields a file at all, the call succeeds with exactly that file; a
    /// failure is always zip's, and only on input the pipeline rejects.
    pub fn apply(&self, file: &File) -> (r: Result<Option<File>, Error>)
        ensures
            r matches Ok(out) ==> file_opt_view(out) == apply_ops_spec(self@, file@),
            apply_ops_spec(self@, file@) matches Some(out) ==> (r matches Ok(Some(f)) && f@
                == out),
            r matches Err(e) ==> e is Zip && apply_ops_spec(self@, file@) is None,
    {
        let ghost f0 = file@;
        let mut current = file.clone();
        let mut i: usize = 0;
        proof {
            assert(self@.skip(0) =~= self@);
        }
        while i < self.ops.len()
            invariant
                i <= self.ops@.len(),
                self@.len() == self.ops@.len(),
                f0 == file@,
                apply_ops_spec(self@.skip(i as int), current@) == apply_ops_spec(self@, f0),
            decreases self.ops@.len() - i,
        {
            let ghost cur = current@;
            proof {
                assert(self@.skip(i as int)[0] == self@[i as int]);
                assert(self@.skip(i as int).drop_first() =~= self@.skip(i as int + 1));
                assert(self@[i as int] == self.ops@[i as int]@);
            }
            match self.ops[i].apply(current) {
                Ok(Some(next)) => {
                    proof {
                        assert(apply_op_spec(self@[i as int], cur) == Some(next@));
                        assert(apply_ops_spec(self@.skip(i as int), cur) == apply_ops_spec(
                            self@.skip(i as int + 1),
                            next@,
                        ));
                    }
                    current = next;
                },
                Ok(None) => {
                    proof {
                        assert(apply_op_spec(self@[i as int], cur) is None);
                        assert(apply_ops_spec(self@.skip(i as int), cur) is None);
                    }
                    return Ok(None);
                },
                Err(e) => {
                    proof {
                        assert(apply_op_spec(self@[i as int], cur) is None);
                        assert(apply_ops_spec(self@.skip(i as int), cur) is None);
                    }
                    return Err(e);
                },
            }
            i = i + 1;
        }
        proof {
            assert(self@.skip(self.ops@.len() as int) =~= Seq::<TransformOpView>::empty());
        }
        Ok(Some(current))
    }
}

} // verus!
