//! Transcript markdown rendering.
use vstd::prelude::*;
use crate::text::{trim, trimmed, owned, push_text};

verus! {

/// The transcript document: a title, the source file and provider, then the
/// trimmed transcript text and a final newline.
pub open spec fn rendered(transcript_text: Seq<char>, filename: Seq<char>, provider: Seq<char>) -> Seq<char> {
    "# Transcript\n\n- Source: "@ + filename + "\n- Provider: "@ + provider + "\n\n"@ + trimmed(
        transcript_text,
    ) + "\n"@
}

/// Renders a transcript as markdown.
pub fn render(transcript_text: &str, filename: &str, provider: &str) -> (r: String)
    ensures
        r@ == rendered(transcript_text@, filename@, provider@),
{
    let body = trim(transcript_text);
    let mut md = owned("# Transcript\n\n- Source: ");
    push_text(&mut md, filename);
    push_text(&mut md, "\n- Provider: ");
    push_text(&mut md, provider);
    push_text(&mut md, "\n\n");
    push_text(&mut md, body.as_str());
    push_text(&mut md, "\n");
    md
}

} // verus!
