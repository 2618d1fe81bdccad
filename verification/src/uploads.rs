//! Turning the paths a user picked into files offered for transcription.
use vstd::prelude::*;
use crate::models::NewUploadFile;
use crate::paths::{file_name, file_name_of};
use crate::text::{owned, push_int, push_text, int_text};

verus! {

/// The MIME type that `mime_guess` guesses for a path from its extension,
/// `application/octet-stream` when it knows none.
pub uninterp spec fn guessed_mime_type(path: Seq<char>) -> Seq<char>;

/// Calls `mime_guess::from_path(..).first_or_octet_stream().essence_str()`;
/// its result is named by `guessed_mime_type`. No disk access is made.
#[verifier::external_body]
fn guess_mime_type(path: &str) -> (r: String)
    ensures
        r@ == guessed_mime_type(path@),
{
    mime_guess::from_path(path).first_or_octet_stream().essence_str().to_string()
}

/// The last component of `path`, or `fallback` when it has none.
pub open spec fn name_or(path: Seq<char>, fallback: Seq<char>) -> Seq<char> {
    match file_name_of(path) {
        Some(n) => n,
        None => fallback,
    }
}

fn file_name_or(path: &str, fallback: &str) -> (r: String)
    ensures
        r@ == name_or(path@, fallback@),
{
    match file_name(path) {
        Some(n) => n,
        None => owned(fallback),
    }
}

/// The file at `source_path`, of `size_bytes` bytes and MIME type
/// `mime_type`, named by its last path component (`audio` when it has none).
pub fn upload_file_with_mime(source_path: String, size_bytes: i64, mime_type: String) -> (r: NewUploadFile)
    ensures
        r.filename@ == name_or(source_path@, "audio"@),
        r.mime_type == mime_type,
        r.size_bytes == size_bytes,
        r.source_path == source_path,
{
    let filename = file_name_or(source_path.as_str(), "audio");
    NewUploadFile { filename, mime_type, size_bytes, source_path }
}

/// The file at `source_path`, of `size_bytes` bytes, its MIME type guessed
/// from its extension.
pub fn new_upload_file(source_path: String, size_bytes: i64) -> (r: NewUploadFile)
    ensures
        r.filename@ == name_or(source_path@, "audio"@),
        r.mime_type@ == guessed_mime_type(source_path@),
        r.size_bytes == size_bytes,
        r.source_path == source_path,
{
    let mime_type = guess_mime_type(source_path.as_str());
    upload_file_with_mime(source_path, size_bytes, mime_type)
}

/// The files at `paths`, `sizes[i]` bytes for `paths[i]`; picking no file
/// is refused.
pub fn upload_files(paths: Vec<String>, sizes: Vec<i64>) -> (r: Result<Vec<NewUploadFile>, String>)
    requires
        paths@.len() == sizes@.len(),
    ensures
        paths@.len() == 0 ==> (r matches Err(e) && e@ == "No files selected"@),
        paths@.len() > 0 ==> (r matches Ok(files) && files@.len() == paths@.len() && forall|i: int|
            0 <= i < paths@.len() ==> {
                &&& (#[trigger] files@[i]).source_path == paths@[i]
                &&& files@[i].size_bytes == sizes@[i]
                &&& files@[i].filename@ == name_or(paths@[i]@, "audio"@)
                &&& files@[i].mime_type@ == guessed_mime_type(paths@[i]@)
            }),
{
    let n = paths.len();
    if n == 0 {
        return Err(owned("No files selected"));
    }
    let mut files: Vec<NewUploadFile> = Vec::new();
    let mut i: usize = 0;
    while i < n
        invariant
            n == paths@.len(),
            n == sizes@.len(),
            i <= n,
            files@.len() == i,
            forall|k: int|
                0 <= k < i ==> {
                    &&& (#[trigger] files@[k]).source_path == paths@[k]
                    &&& files@[k].size_bytes == sizes@[k]
                    &&& files@[k].filename@ == name_or(paths@[k]@, "audio"@)
                    &&& files@[k].mime_type@ == guessed_mime_type(paths@[k]@)
                },
        decreases n - i,
    {
        files.push(new_upload_file(paths[i].clone(), sizes[i]));
        i = i + 1;
    }
    Ok(files)
}

/// The name under which dropped bytes are saved: the time stamp, `_`, and
/// the last component of the given name (`upload.bin` when it has none).
pub fn temp_upload_name(filename: &str, stamp: i64) -> (r: String)
    ensures
        r@ == int_text(stamp as int) + "_"@ + name_or(filename@, "upload.bin"@),
{
    let safe = file_name_or(filename, "upload.bin");
    let mut r = String::new();
    push_int(&mut r, stamp);
    push_text(&mut r, "_");
    push_text(&mut r, safe.as_str());
    assert(r@ =~= int_text(stamp as int) + "_"@ + name_or(filename@, "upload.bin"@));
    r
}

} // verus!
