use mass_transcriptor::paths::{extension_of, file_name, join};
use mass_transcriptor::storage::StorageRoot;
use mass_transcriptor::text::{int_to_text, trim};
use mass_transcriptor::uploads::{new_upload_file, temp_upload_name, upload_file_with_mime, upload_files};

#[test]
fn storage_layout() {
    let s = StorageRoot::new("/data/storage".into());
    assert_eq!(s.root(), "/data/storage");
    assert_eq!(s.upload_dir(7), "/data/storage/uploads/7");
    assert_eq!(s.audio_path(7, "clip.wav"), "/data/storage/uploads/7/audio/clip.wav");
    assert_eq!(s.markdown_path(7), "/data/storage/uploads/7/transcript/transcript.md");
    assert_ne!(s.upload_dir(1), s.upload_dir(11));
    assert_ne!(s.markdown_path(1), s.markdown_path(11));
    assert_ne!(s.markdown_path(-1), s.markdown_path(1));
    assert_eq!(StorageRoot::new("/data".into()).markdown_path(7), "/data/uploads/7/transcript/transcript.md");
    let t = StorageRoot::new("rel/".into());
    assert_eq!(t.upload_dir(-3), "rel/uploads/-3");
    let e = StorageRoot::new(String::new());
    assert_eq!(e.upload_dir(0), "uploads/0");
}

#[test]
fn path_components() {
    assert_eq!(file_name("/tmp/a.wav").as_deref(), Some("a.wav"));
    assert_eq!(file_name("a.wav").as_deref(), Some("a.wav"));
    assert_eq!(file_name("/tmp/dir/").as_deref(), Some("dir"));
    assert_eq!(file_name("foo.txt/.//").as_deref(), Some("foo.txt"));
    assert_eq!(file_name("/"), None);
    assert_eq!(file_name(""), None);
    assert_eq!(file_name("."), None);
    assert_eq!(file_name("a/.."), None);
    assert_eq!(file_name("..a").as_deref(), Some("..a"));
    assert_eq!(extension_of("/x/a.tar.gz").as_deref(), Some("gz"));
    assert_eq!(extension_of(".bashrc"), None);
    assert_eq!(extension_of("a.").as_deref(), Some(""));
    assert_eq!(extension_of("dir.d/file"), None);
    assert_eq!(join("/a", "b"), "/a/b");
    assert_eq!(join("/a/", "b"), "/a/b");
    assert_eq!(join("/a", "/b"), "/b");
    assert_eq!(join("", "b"), "b");
    assert_eq!(join("a", ""), "a/");
}

#[test]
fn text_helpers() {
    assert_eq!(trim("  \u{a0}hi there\u{2029}\t"), "hi there");
    assert_eq!(trim(" \n "), "");
    assert_eq!(int_to_text(0), "0");
    assert_eq!(int_to_text(1234567890), "1234567890");
    assert_eq!(int_to_text(i64::MIN), "-9223372036854775808");
    assert_eq!(int_to_text(i64::MAX), "9223372036854775807");
}

#[test]
fn upload_files_from_paths() {
    let f = new_upload_file("/home/u/Music/take.wav".into(), 12);
    assert_eq!(f.filename, "take.wav");
    assert_eq!(f.mime_type, "audio/wav");
    assert_eq!(f.size_bytes, 12);
    assert_eq!(f.source_path, "/home/u/Music/take.wav");
    let g = new_upload_file("/".into(), 0);
    assert_eq!(g.filename, "audio");
    assert_eq!(g.mime_type, "application/octet-stream");
    let v = new_upload_file("/v/clip.MP4".into(), 1);
    assert_eq!(v.mime_type, "video/mp4");
    let m = upload_file_with_mime("/x/y.ogg".into(), 3, "audio/ogg".into());
    assert_eq!(m.filename, "y.ogg");
    assert_eq!(m.mime_type, "audio/ogg");

    assert_eq!(upload_files(vec![], vec![]).unwrap_err(), "No files selected");
    let files = upload_files(vec!["/a/1.mp3".into(), "/a/2.flac".into()], vec![5, 6]).unwrap();
    assert_eq!(files.len(), 2);
    assert_eq!(files[1].filename, "2.flac");
    assert_eq!(files[0].mime_type, "audio/mpeg");
    assert_eq!(files[1].size_bytes, 6);
}

#[test]
fn temp_names() {
    assert_eq!(temp_upload_name("dir/clip.wav", 1700000000123), "1700000000123_clip.wav");
    assert_eq!(temp_upload_name("..", 5), "5_upload.bin");
}
