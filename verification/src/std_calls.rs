//! The standard-library text and path operations that the library relies
//! on. Each is called, not rebuilt: its result is given a name, and the
//! contracts above speak of that name.

use vstd::prelude::*;

verus! {

/// The final component of a path as `std::path::Path::file_name` finds it,
/// as text; the empty text where it finds none (a path that ends in `..`
/// or is a root).
pub uninterp spec fn path_file_name(path: Seq<char>) -> Seq<char>;

/// The extension of a path as `std::path::Path::extension` finds it: the
/// part of the final component after its last dot; none where there is no
/// final component, no dot in it, or only a leading dot (as in `.bashrc`).
pub uninterp spec fn path_extension(path: Seq<char>) -> Option<Seq<char>>;

/// The path that `std::path::Path::with_file_name` makes from `path` by
/// putting `name` in place of its final component, as text.
pub uninterp spec fn path_with_file_name(path: Seq<char>, name: Seq<char>) -> Seq<char>;

/// The text that `str::to_lowercase` makes (Unicode lowercase mapping).
pub uninterp spec fn lowercase(s: Seq<char>) -> Seq<char>;

/// The text that `String::from_utf8_lossy` decodes from bytes, with each
/// invalid sequence replaced by U+FFFD.
pub uninterp spec fn utf8_lossy(bytes: Seq<u8>) -> Seq<char>;

/// Calls `std::path::Path::file_name` on `path`. Trusted: the result is the
/// component that call returns, converted to a `String` (the empty string
/// where it returns `None`). Its conversion is exact: a component of a
/// path made from a `&str` is valid UTF-8.
#[verifier::external_body]
pub(crate) fn file_name_of(path: &str) -> (r: String)
    ensures
        r@ == path_file_name(path@),
{
    match std::path::Path::new(path).file_name() {
        Some(name) => name.to_string_lossy().into_owned(),
        None => String::new(),
    }
}

/// Calls `std::path::Path::extension` on `path`. Trusted: the result is the
/// extension that call returns, converted to a `String`.
#[verifier::external_body]
pub(crate) fn extension_of(path: &str) -> (r: Option<String>)
    ensures
        match r {
            Some(e) => path_extension(path@) == Some(e@),
            None => path_extension(path@) is None,
        },
{
    match std::path::Path::new(path).extension() {
        Some(ext) => Some(ext.to_string_lossy().into_owned()),
        None => None,
    }
}

/// A name that makes one plain path component on every platform: not
/// empty, not `.` or `..`, and free of `/`, `\\` and `:`.
pub open spec fn plain_component(name: Seq<char>) -> bool {
    &&& name.len() > 0
    &&& name != "."@
    &&& name != ".."@
    &&& forall|i: int| 0 <= i < name.len() ==> name[i] != '/' && name[i] != '\\' && name[i] != ':'
}

/// Calls `std::path::Path::with_file_name`. Trusted: the result is the
/// path that call returns, converted to a `String`; and, as the
/// documentation of `PathBuf::set_file_name` says ("updates
/// `self.file_name()` to `file_name`"), the file name of the result is
/// `name` when `name` is one plain component.
#[verifier::external_body]
pub(crate) fn with_file_name(path: &str, name: &str) -> (r: String)
    ensures
        r@ == path_with_file_name(path@, name@),
        plain_component(name@) ==> path_file_name(r@) == name@,
{
    std::path::Path::new(path).with_file_name(name).to_string_lossy().into_owned()
}

/// Calls `str::to_lowercase`. Trusted: the result is what that call returns.
#[verifier::external_body]
pub(crate) fn to_lowercase(s: &str) -> (r: String)
    ensures
        r@ == lowercase(s@),
{
    s.to_lowercase()
}

/// Calls `String::from_utf8_lossy`. Trusted: the result is what that call
/// decodes; for bytes that are valid UTF-8 (as vstd defines it) that is
/// exactly the text they encode, as its documentation states.
#[verifier::external_body]
pub(crate) fn decode_lossy(bytes: &[u8]) -> (r: String)
    ensures
        r@ == utf8_lossy(bytes@),
        vstd::utf8::valid_utf8(bytes@) ==> r@ == vstd::utf8::decode_utf8(bytes@),
{
    String::from_utf8_lossy(bytes).into_owned()
}

} // verus!
