use mass_transcriptor::markdown::render;

#[test]
fn render_includes_source_and_provider() {
    let md = render("  hello world  ", "clip.wav", "assemblyai");
    assert!(md.contains("# Transcript"));
    assert!(md.contains("Source: clip.wav"));
    assert!(md.contains("Provider: assemblyai"));
    assert!(md.contains("hello world"));
}

#[test]
fn render_exact_document() {
    let md = render("\n\t hello world \u{3000}\n", "clip.wav", "assemblyai");
    assert_eq!(
        md,
        "# Transcript\n\n- Source: clip.wav\n- Provider: assemblyai\n\nhello world\n"
    );
}

#[test]
fn render_blank_transcript() {
    assert_eq!(
        render(" \u{2003} ", "a.mp3", "whisper"),
        "# Transcript\n\n- Source: a.mp3\n- Provider: whisper\n\n\n"
    );
}
