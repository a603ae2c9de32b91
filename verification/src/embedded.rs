//! Templates embedded in the program with `include_dir`.
use vstd::prelude::*;
use include_dir::Dir;

verus! {

/// An embedded directory of `include_dir`.
#[verifier::external_type_specification]
#[verifier::external_body]
pub struct ExDir<'a>(Dir<'a>);

/// The files directly inside an embedded directory, in the directory's order: each as its
/// path and, when the contents are valid UTF-8, its text.
pub uninterp spec fn dir_files(dir: Dir<'static>) -> Seq<(Seq<char>, Option<Seq<char>>)>;

/// `Dir::files` of `include_dir`, with each `File` handed out as its path (`File::path`) and
/// its text (`File::contents_utf8`). The paths of `include_dir` are stored as `&str`, so the
/// lossy conversion of a path to text never alters it. What the files are is left to the
/// name `dir_files`.
#[verifier::external_body]
pub fn embedded_files(dir: &Dir<'static>) -> (files: Vec<(String, Option<String>)>)
    ensures
        files.deep_view() == dir_files(*dir),
{
    let mut files = Vec::new();
    for f in dir.files() {
        files.push((f.path().to_string_lossy().into_owned(), f.contents_utf8().map(str::to_string)));
    }
    files
}

/// Every file of `files` has a text.
pub open spec fn all_text(files: Seq<(Seq<char>, Option<Seq<char>>)>) -> bool {
    forall|i: int| 0 <= i < files.len() ==> (#[trigger] files[i]).1 is Some
}

} // verus!
