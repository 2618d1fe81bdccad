//! Where media and transcripts live under the storage root.
use vstd::prelude::*;
use crate::paths::{join, path_join};
use crate::text::{int_to_text, int_text};

verus! {

/// The directory under which uploads and transcripts are stored.
pub struct StorageRoot {
    root: String,
}

impl StorageRoot {
    /// The root directory, as a path text.
    pub closed spec fn root_path(&self) -> Seq<char> {
        self.root@
    }

    /// The directory of upload `upload_id`: `<root>/uploads/<upload_id>`.
    pub open spec fn spec_upload_dir(&self, upload_id: i64) -> Seq<char> {
        path_join(path_join(self.root_path(), "uploads"@), int_text(upload_id as int))
    }

    /// Where an upload's audio is copied: `<upload dir>/audio/<filename>`.
    pub open spec fn spec_audio_path(&self, upload_id: i64, filename: Seq<char>) -> Seq<char> {
        path_join(path_join(self.spec_upload_dir(upload_id), "audio"@), filename)
    }

    /// Where an upload's transcript is written: `<upload dir>/transcript/transcript.md`.
    pub open spec fn spec_markdown_path(&self, upload_id: i64) -> Seq<char> {
        path_join(path_join(self.spec_upload_dir(upload_id), "transcript"@), "transcript.md"@)
    }

    pub fn new(root: String) -> (r: Self)
        ensures
            r.root_path() == root@,
    {
        StorageRoot { root }
    }

    /// The root directory.
    pub fn root(&self) -> (r: &str)
        ensures
            r@ == self.root_path(),
    {
        self.root.as_str()
    }

    pub fn upload_dir(&self, upload_id: i64) -> (r: String)
        ensures
            r@ == self.spec_upload_dir(upload_id),
    {
        let uploads = join(self.root.as_str(), "uploads");
        let id = int_to_text(upload_id);
        join(uploads.as_str(), id.as_str())
    }

    pub fn audio_path(&self, upload_id: i64, filename: &str) -> (r: String)
        ensures
            r@ == self.spec_audio_path(upload_id, filename@),
    {
        let dir = self.upload_dir(upload_id);
        let audio = join(dir.as_str(), "audio");
        join(audio.as_str(), filename)
    }

    pub fn markdown_path(&self, upload_id: i64) -> (r: String)
        ensures
            r@ == self.spec_markdown_path(upload_id),
    {
        let dir = self.upload_dir(upload_id);
        let transcript = join(dir.as_str(), "transcript");
        join(transcript.as_str(), "transcript.md")
    }
}

} // verus!

verus! {

/// Different uploads get different directories.
pub proof fn law_upload_dirs_distinct(storage: StorageRoot, a: i64, b: i64)
    requires
        a != b,
    ensures
        storage.spec_upload_dir(a) != storage.spec_upload_dir(b),
{
    let base = path_join(storage.root_path(), "uploads"@);
    crate::text::lemma_int_text_no_separator(a as int);
    crate::text::lemma_int_text_no_separator(b as int);
    if storage.spec_upload_dir(a) == storage.spec_upload_dir(b) {
        crate::paths::lemma_join_injective(base, int_text(a as int), int_text(b as int));
        crate::text::lemma_int_text_injective(a as int, b as int);
    }
}

/// An upload's audio (under a plain file name) and its transcript lie
/// inside the upload's directory.
pub proof fn law_files_inside_upload_dir(storage: StorageRoot, upload_id: i64, filename: Seq<char>)
    requires
        filename.len() == 0 || filename[0] != '/',
    ensures
        storage.spec_audio_path(upload_id, filename).take(storage.spec_upload_dir(upload_id).len() as int)
            == storage.spec_upload_dir(upload_id),
        storage.spec_markdown_path(upload_id).take(storage.spec_upload_dir(upload_id).len() as int)
            == storage.spec_upload_dir(upload_id),
{
    let dir = storage.spec_upload_dir(upload_id);
    reveal_strlit("audio");
    reveal_strlit("transcript");
    reveal_strlit("transcript.md");
    crate::paths::lemma_join_keeps_base(dir, "audio"@);
    let audio_dir = path_join(dir, "audio"@);
    crate::paths::lemma_join_keeps_base(audio_dir, filename);
    assert(path_join(audio_dir, filename).take(dir.len() as int) =~= audio_dir.take(dir.len() as int));
    crate::paths::lemma_join_keeps_base(dir, "transcript"@);
    let tdir = path_join(dir, "transcript"@);
    crate::paths::lemma_join_keeps_base(tdir, "transcript.md"@);
    assert(path_join(tdir, "transcript.md"@).take(dir.len() as int) =~= tdir.take(dir.len() as int));
}

/// Different uploads get different transcript paths.
pub proof fn law_markdown_paths_distinct(storage: StorageRoot, a: i64, b: i64)
    requires
        a != b,
    ensures
        storage.spec_markdown_path(a) != storage.spec_markdown_path(b),
{
    law_upload_dirs_distinct(storage, a, b);
    reveal_strlit("transcript");
    reveal_strlit("transcript.md");
    let base = path_join(storage.root_path(), "uploads"@);
    let da = storage.spec_upload_dir(a);
    let db = storage.spec_upload_dir(b);
    crate::text::lemma_int_text_no_separator(a as int);
    crate::text::lemma_int_text_no_separator(b as int);
    let ta = int_text(a as int);
    let tb = int_text(b as int);
    assert(ta[ta.len() - 1] != '/');
    assert(tb[tb.len() - 1] != '/');
    assert(ta[0] != '/');
    assert(tb[0] != '/');
    if base.len() == 0 || base.last() == '/' {
        assert(da =~= base + ta);
        assert(db =~= base + tb);
    } else {
        assert(da =~= base + seq!['/'] + ta);
        assert(db =~= base + seq!['/'] + tb);
    }
    assert(da.last() == ta.last());
    assert(db.last() == tb.last());
    crate::paths::lemma_join_base_injective(da, db, "transcript"@);
    let xa = path_join(da, "transcript"@);
    let xb = path_join(db, "transcript"@);
    crate::paths::lemma_join_base_injective(xa, xb, "transcript.md"@);
}

} // verus!
