# mass_transcriptor

The domain logic of a local desktop transcription queue, verified with Verus.

- `src/` — the verified library:
  - `text`, `paths`: trimming, comparison, integer text, Unix path components and joins;
  - `models`: the records shown to the user interface;
  - `recency`: stable newest-first ordering and its laws;
  - `grouping`: collapsing job summaries into batch and single rows;
  - `settings`: the settings row, how it is shown, and how a change is validated;
  - `jobs`: accepted file types, the job status lifecycle, preparing and finishing a transcription;
  - `assemblyai`: the upload → request → poll protocol as a state machine;
  - `markdown`, `storage`, `uploads`: transcript documents, storage layout, picked files.
- `tests/` — tests of the library.
- `app/` — SQLite, file system, HTTP and Tauri plumbing around the library.
