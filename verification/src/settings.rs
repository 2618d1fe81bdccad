//! Workspace settings: the stored settings row, how it is shown, and how a
//! requested change is validated and applied.
use vstd::prelude::*;
use crate::models::{AppSettings, UpdateSettingsInput, clone_opt_text};
use crate::text::{trim, trimmed, is_blank, to_lowercase, lowercase, same_text, owned, push_text};

verus! {

/// The single stored settings row of the workspace.
#[derive(Debug)]
pub struct SettingsRecord {
    pub workspace_name: String,
    pub default_provider: String,
    pub assemblyai_api_key: Option<String>,
    pub language: String,
    pub updated_at: String,
}

/// The value of a settings row.
pub ghost struct SettingsView {
    pub workspace_name: Seq<char>,
    pub default_provider: Seq<char>,
    pub assemblyai_api_key: Option<Seq<char>>,
    pub language: Seq<char>,
    pub updated_at: Seq<char>,
}

impl View for SettingsRecord {
    type V = SettingsView;

    open spec fn view(&self) -> SettingsView {
        SettingsView {
            workspace_name: self.workspace_name@,
            default_provider: self.default_provider@,
            assemblyai_api_key: self.assemblyai_api_key.deep_view(),
            language: self.language@,
            updated_at: self.updated_at@,
        }
    }
}

/// The value of shown settings.
pub ghost struct AppSettingsView {
    pub workspace_name: Seq<char>,
    pub default_provider: Seq<char>,
    pub assemblyai_api_key: Option<Seq<char>>,
    pub has_api_key: bool,
    pub language: Seq<char>,
}

impl View for AppSettings {
    type V = AppSettingsView;

    open spec fn view(&self) -> AppSettingsView {
        AppSettingsView {
            workspace_name: self.workspace_name@,
            default_provider: self.default_provider@,
            assemblyai_api_key: self.assemblyai_api_key.deep_view(),
            has_api_key: self.has_api_key,
            language: self.language@,
        }
    }
}

/// The providers a workspace may choose.
pub open spec fn allowed_providers() -> Seq<Seq<char>> {
    seq!["assemblyai"@, "whisper"@]
}

/// The transcription languages a workspace may choose.
pub open spec fn allowed_languages() -> Seq<Seq<char>> {
    seq!["auto"@, "pt"@, "en"@, "es"@]
}

/// A stored key counts only when it is not blank.
pub open spec fn usable_key(key: Option<Seq<char>>) -> Option<Seq<char>> {
    match key {
        Some(k) => if is_blank(k) {
            None
        } else {
            Some(k)
        },
        None => None,
    }
}

/// How a settings row is shown: a blank stored key is shown as no key.
pub open spec fn shown_settings(row: SettingsView) -> AppSettingsView {
    AppSettingsView {
        workspace_name: row.workspace_name,
        default_provider: row.default_provider,
        assemblyai_api_key: usable_key(row.assemblyai_api_key),
        has_api_key: usable_key(row.assemblyai_api_key) is Some,
        language: row.language,
    }
}

/// The provider a change asks for, normalized.
pub open spec fn requested_provider(input: UpdateSettingsInput) -> Seq<char> {
    lowercase(trimmed(input.default_provider@))
}

/// The language a change asks for, normalized.
pub open spec fn requested_language(input: UpdateSettingsInput) -> Seq<char> {
    lowercase(trimmed(input.language@))
}

/// Why a change is refused, if it is, given the workspace name as entered
/// and the provider and language already normalized: the first of an empty
/// workspace name, a provider that is not allowed, a language that is not
/// allowed.
pub open spec fn change_refusal(workspace_name: Seq<char>, provider: Seq<char>, language: Seq<char>) -> Option<Seq<char>> {
    if trimmed(workspace_name).len() == 0 {
        Some("Workspace name is required"@)
    } else if !allowed_providers().contains(provider) {
        Some("Provider '"@ + provider + "' is not allowed"@)
    } else if !allowed_languages().contains(language) {
        Some("Language '"@ + language + "' is not allowed"@)
    } else {
        None
    }
}

/// Why a requested change is refused, if it is.
pub open spec fn update_refusal(input: UpdateSettingsInput) -> Option<Seq<char>> {
    change_refusal(input.workspace_name@, requested_provider(input), requested_language(input))
}

/// The key after a change: an omitted key keeps the shown key, a blank one
/// clears it, any other is stored trimmed.
pub open spec fn updated_key(current: SettingsView, requested: Option<Seq<char>>) -> Option<Seq<char>> {
    match requested {
        Some(k) => if is_blank(k) {
            None
        } else {
            Some(trimmed(k))
        },
        None => usable_key(current.assemblyai_api_key),
    }
}

/// The row after an accepted change made at time `now`, given the
/// workspace name as entered and the provider and language already
/// normalized.
pub open spec fn changed_settings(
    current: SettingsView,
    workspace_name: Seq<char>,
    provider: Seq<char>,
    language: Seq<char>,
    api_key: Option<Seq<char>>,
    now: Seq<char>,
) -> SettingsView {
    SettingsView {
        workspace_name: trimmed(workspace_name),
        default_provider: provider,
        assemblyai_api_key: updated_key(current, api_key),
        language,
        updated_at: now,
    }
}

/// The row after an accepted requested change made at time `now`.
pub open spec fn updated_settings(current: SettingsView, input: UpdateSettingsInput, now: Seq<char>) -> SettingsView {
    changed_settings(
        current,
        input.workspace_name@,
        requested_provider(input),
        requested_language(input),
        input.assemblyai_api_key.deep_view(),
        now,
    )
}

/// Whether a text is blank (empty once trimmed).
pub fn blank(t: &str) -> (r: bool)
    ensures
        r == is_blank(t@),
{
    let s = trim(t);
    s.unicode_len() == 0
}

/// The key of a row if it is usable.
fn usable_stored_key(key: &Option<String>) -> (r: Option<String>)
    ensures
        r.deep_view() == usable_key(key.deep_view()),
{
    match key {
        Some(k) => if blank(k.as_str()) {
            None
        } else {
            Some(k.clone())
        },
        None => None,
    }
}

impl SettingsRecord {
    /// The row a new workspace starts with: named `Local`, provider
    /// `assemblyai`, no key, language `auto`.
    pub fn seeded(now: String) -> (r: SettingsRecord)
        ensures
            r@ == (SettingsView {
                workspace_name: "Local"@,
                default_provider: "assemblyai"@,
                assemblyai_api_key: None,
                language: "auto"@,
                updated_at: now@,
            }),
    {
        SettingsRecord {
            workspace_name: owned("Local"),
            default_provider: owned("assemblyai"),
            assemblyai_api_key: None,
            language: owned("auto"),
            updated_at: now,
        }
    }
}

/// The settings as shown, read from the stored row.
pub fn get_settings(row: &SettingsRecord) -> (r: AppSettings)
    ensures
        r@ == shown_settings(row@),
{
    let key = usable_stored_key(&row.assemblyai_api_key);
    let has = key.is_some();
    AppSettings {
        workspace_name: row.workspace_name.clone(),
        default_provider: row.default_provider.clone(),
        assemblyai_api_key: key,
        has_api_key: has,
        language: row.language.clone(),
    }
}

/// Whether `p`, a provider name already normalized, may be chosen.
pub fn is_allowed_provider(p: &str) -> (r: bool)
    ensures
        r == allowed_providers().contains(p@),
{
    let r = same_text(p, "assemblyai") || same_text(p, "whisper");
    proof {
        let a = allowed_providers();
        assert(a[0] == "assemblyai"@ && a[1] == "whisper"@);
        if a.contains(p@) {
            let i = choose|i: int| 0 <= i < a.len() && a[i] == p@;
        }
    }
    r
}

/// Whether `l`, a language code already normalized, may be chosen.
pub fn is_allowed_language(l: &str) -> (r: bool)
    ensures
        r == allowed_languages().contains(l@),
{
    let r = same_text(l, "auto") || same_text(l, "pt") || same_text(l, "en") || same_text(l, "es");
    proof {
        let a = allowed_languages();
        assert(a[0] == "auto"@ && a[1] == "pt"@ && a[2] == "en"@ && a[3] == "es"@);
        if a.contains(l@) {
            let i = choose|i: int| 0 <= i < a.len() && a[i] == l@;
        }
    }
    r
}

fn quoted_refusal(label: &str, value: &str) -> (r: String)
    ensures
        r@ == label@ + value@ + "' is not allowed"@,
{
    let mut m = owned(label);
    push_text(&mut m, value);
    push_text(&mut m, "' is not allowed");
    m
}

/// Validates a change against the current row, its provider and language
/// already trimmed and lower-cased, and, when it is accepted, gives the row
/// to store (stamped `now`).
pub fn apply_settings_change(
    current: &SettingsRecord,
    workspace_name: &str,
    provider: String,
    language: String,
    api_key: &Option<String>,
    now: String,
) -> (r: Result<SettingsRecord, String>)
    ensures
        match r {
            Ok(row) => change_refusal(workspace_name@, provider@, language@) is None && row@ == changed_settings(
                current@,
                workspace_name@,
                provider@,
                language@,
                api_key.deep_view(),
                now@,
            ),
            Err(e) => change_refusal(workspace_name@, provider@, language@) == Some(e@),
        },
{
    let workspace_name = trim(workspace_name);
    if workspace_name.unicode_len() == 0 {
        return Err(owned("Workspace name is required"));
    }
    if !is_allowed_provider(provider.as_str()) {
        return Err(quoted_refusal("Provider '", provider.as_str()));
    }
    if !is_allowed_language(language.as_str()) {
        return Err(quoted_refusal("Language '", language.as_str()));
    }
    let api_key = match api_key {
        Some(k) => if blank(k.as_str()) {
            None
        } else {
            Some(trim(k.as_str()))
        },
        None => usable_stored_key(&current.assemblyai_api_key),
    };
    Ok(SettingsRecord { workspace_name, default_provider: provider, assemblyai_api_key: api_key, language, updated_at: now })
}

/// Validates a requested change against the current row and, when it is
/// accepted, gives the row to store (stamped `now`): the provider and the
/// language are trimmed and lower-cased first.
pub fn update_settings(current: &SettingsRecord, input: UpdateSettingsInput, now: String) -> (r: Result<
    SettingsRecord,
    String,
>)
    ensures
        match r {
            Ok(row) => update_refusal(input) is None && row@ == updated_settings(current@, input, now@),
            Err(e) => update_refusal(input) == Some(e@),
        },
{
    let provider_trimmed = trim(input.default_provider.as_str());
    let provider = to_lowercase(provider_trimmed.as_str());
    let language_trimmed = trim(input.language.as_str());
    let language = to_lowercase(language_trimmed.as_str());
    apply_settings_change(current, input.workspace_name.as_str(), provider, language, &input.assemblyai_api_key, now)
}

/// The AssemblyAI key of the workspace, if a usable one is stored.
pub fn assemblyai_api_key(row: &SettingsRecord) -> (r: Option<String>)
    ensures
        r.deep_view() == usable_key(row.assemblyai_api_key.deep_view()),
{
    let settings = get_settings(row);
    match settings.assemblyai_api_key {
        Some(k) => if blank(k.as_str()) {
            None
        } else {
            Some(k)
        },
        None => None,
    }
}

} // verus!

verus! {

/// Shown settings carry a key exactly when they say they have one, and a
/// shown key is never blank.
pub proof fn law_shown_key_consistent(row: SettingsView)
    ensures
        shown_settings(row).has_api_key == shown_settings(row).assemblyai_api_key is Some,
        shown_settings(row).assemblyai_api_key matches Some(k) ==> !is_blank(k),
{
}

/// Omitting the key in a change keeps the key that was shown.
pub proof fn law_omitted_key_kept(current: SettingsView, input: UpdateSettingsInput, now: Seq<char>)
    requires
        input.assemblyai_api_key is None,
    ensures
        shown_settings(updated_settings(current, input, now)).assemblyai_api_key == shown_settings(
            current,
        ).assemblyai_api_key,
{
}

/// A blank key in a change clears the key.
pub proof fn law_blank_key_clears(current: SettingsView, input: UpdateSettingsInput, now: Seq<char>)
    requires
        input.assemblyai_api_key matches Some(k) && is_blank(k@),
    ensures
        shown_settings(updated_settings(current, input, now)).assemblyai_api_key is None,
        !shown_settings(updated_settings(current, input, now)).has_api_key,
{
}

/// A key given in a change is shown, trimmed.
pub proof fn law_given_key_shown(current: SettingsView, input: UpdateSettingsInput, now: Seq<char>)
    requires
        input.assemblyai_api_key matches Some(k) && !is_blank(k@),
    ensures
        shown_settings(updated_settings(current, input, now)).assemblyai_api_key == Some(
            trimmed(input.assemblyai_api_key->0@),
        ),
        shown_settings(updated_settings(current, input, now)).has_api_key,
{
    crate::text::lemma_trimmed_idempotent(input.assemblyai_api_key->0@);
}

/// What an accepted change shows back: the trimmed workspace name, the
/// normalized provider and language, none of them refused.
pub proof fn law_accepted_change_shown(current: SettingsView, input: UpdateSettingsInput, now: Seq<char>)
    requires
        update_refusal(input) is None,
    ensures
        shown_settings(updated_settings(current, input, now)).workspace_name == trimmed(input.workspace_name@),
        trimmed(input.workspace_name@).len() > 0,
        allowed_providers().contains(shown_settings(updated_settings(current, input, now)).default_provider),
        allowed_languages().contains(shown_settings(updated_settings(current, input, now)).language),
{
}

} // verus!

verus! {

/// The providers that may be chosen are exactly `assemblyai` and `whisper`,
/// and the languages exactly `auto`, `pt`, `en` and `es`.
pub proof fn law_allowed_choices(provider: Seq<char>, language: Seq<char>)
    ensures
        allowed_providers().contains(provider) <==> (provider == "assemblyai"@ || provider == "whisper"@),
        allowed_languages().contains(language) <==> (language == "auto"@ || language == "pt"@ || language
            == "en"@ || language == "es"@),
{
    let a = allowed_providers();
    let b = allowed_languages();
    assert(a[0] == "assemblyai"@ && a[1] == "whisper"@);
    assert(b[0] == "auto"@ && b[1] == "pt"@ && b[2] == "en"@ && b[3] == "es"@);
    if a.contains(provider) {
        let i = choose|i: int| 0 <= i < a.len() && a[i] == provider;
    }
    if b.contains(language) {
        let i = choose|i: int| 0 <= i < b.len() && b[i] == language;
    }
}

/// A change is refused for the first of these that holds: a workspace name
/// that is empty once trimmed, whatever else the change says; a provider
/// other than `assemblyai` and `whisper`, named in the refusal; a language
/// other than `auto`, `pt`, `en` and `es`, named in the refusal. A change
/// with none of these is accepted.
pub proof fn law_refusal_order(workspace_name: Seq<char>, provider: Seq<char>, language: Seq<char>)
    ensures
        trimmed(workspace_name).len() == 0 ==> change_refusal(workspace_name, provider, language) == Some(
            "Workspace name is required"@,
        ),
        trimmed(workspace_name).len() > 0 && !(provider == "assemblyai"@ || provider == "whisper"@)
            ==> change_refusal(workspace_name, provider, language) == Some(
            "Provider '"@ + provider + "' is not allowed"@,
        ),
        trimmed(workspace_name).len() > 0 && (provider == "assemblyai"@ || provider == "whisper"@) && !(
        language == "auto"@ || language == "pt"@ || language == "en"@ || language == "es"@) ==> change_refusal(
            workspace_name,
            provider,
            language,
        ) == Some("Language '"@ + language + "' is not allowed"@),
        trimmed(workspace_name).len() > 0 && (provider == "assemblyai"@ || provider == "whisper"@) && (language
            == "auto"@ || language == "pt"@ || language == "en"@ || language == "es"@) ==> change_refusal(
            workspace_name,
            provider,
            language,
        ) is None,
{
    law_allowed_choices(provider, language);
}

} // verus!
