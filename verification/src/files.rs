//! The names of the files that a conversion writes, and the record of those
//! written.

use vstd::prelude::*;
use vstd::string::StringExecFns;
use crate::error::OutputKind;
use crate::model::ConvertedFiles;

verus! {

/// `base`, a dot, and `extension`.
pub open spec fn file_name(base: Seq<char>, extension: Seq<char>) -> Seq<char> {
    base + "."@ + extension
}

/// The name of a file: `base`, a dot, and `extension`.
pub fn with_extension(base: &str, extension: &str) -> (r: String)
    ensures
        r@ == file_name(base@, extension@),
{
    let mut name = base.to_owned();
    name.append(".");
    name.append(extension);
    name
}

/// The name of the file of the given kind.
pub fn output_file_name(base_filename: &str, kind: OutputKind) -> (r: String)
    ensures
        r@ == file_name(base_filename@, kind.extension()),
{
    with_extension(base_filename, kind.extension_text())
}

impl ConvertedFiles {
    /// The path noted for a kind of file.
    pub open spec fn path_of(self, kind: OutputKind) -> Option<String> {
        match kind {
            OutputKind::Model => self.numdlb_path,
            OutputKind::Mesh => self.numshb_path,
            OutputKind::Material => self.numatb_path,
            OutputKind::Skeleton => self.nusktb_path,
        }
    }

    /// Notes that the file of the given kind was written to `path`.
    pub fn record(&mut self, kind: OutputKind, path: String)
        ensures
            final(self).path_of(kind) == Some(path),
            forall|other: OutputKind|
                other != kind ==> final(self).path_of(other) == old(self).path_of(other),
    {
        match kind {
            OutputKind::Model => {
                self.numdlb_path = Some(path);
            },
            OutputKind::Mesh => {
                self.numshb_path = Some(path);
            },
            OutputKind::Material => {
                self.numatb_path = Some(path);
            },
            OutputKind::Skeleton => {
                self.nusktb_path = Some(path);
            },
        }
    }
}

} // verus!
