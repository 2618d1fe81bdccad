use mass_transcriptor::models::UpdateSettingsInput;
use mass_transcriptor::settings::{
    apply_settings_change, assemblyai_api_key, get_settings, is_allowed_language, is_allowed_provider,
    update_settings, SettingsRecord,
};

fn input(workspace: &str, provider: &str, key: Option<&str>, language: &str) -> UpdateSettingsInput {
    UpdateSettingsInput {
        workspace_name: workspace.into(),
        default_provider: provider.into(),
        assemblyai_api_key: key.map(|k| k.to_string()),
        language: language.into(),
    }
}

#[test]
fn rejects_empty_workspace_and_invalid_provider() {
    let row = SettingsRecord::seeded("2026-01-01T00:00:00Z".into());

    let err = update_settings(&row, input("   ", "assemblyai", None, "auto"), "t1".into()).unwrap_err();
    assert!(err.to_lowercase().contains("workspace"));

    let err = update_settings(&row, input("Ok", "bogus", None, "auto"), "t1".into()).unwrap_err();
    assert!(err.to_lowercase().contains("not allowed") || err.contains("bogus"));
}

#[test]
fn omit_api_key_keeps_existing() {
    let row = SettingsRecord::seeded("t0".into());
    let row = update_settings(
        &row,
        input("A", "assemblyai", Some("fixture-key-not-real"), "en"),
        "t1".into(),
    )
    .unwrap();

    let row = update_settings(&row, input("B", "assemblyai", None, "pt"), "t2".into()).unwrap();
    let updated = get_settings(&row);
    assert_eq!(updated.workspace_name, "B");
    assert_eq!(
        updated.assemblyai_api_key.as_deref(),
        Some("fixture-key-not-real")
    );
    assert_eq!(updated.language, "pt");
}

#[test]
fn settings_roundtrip() {
    let row = SettingsRecord::seeded("t0".into());

    let initial = get_settings(&row);
    assert_eq!(initial.workspace_name, "Local");
    assert_eq!(initial.default_provider, "assemblyai");
    assert!(!initial.has_api_key);

    let row = update_settings(
        &row,
        input("Studio", "assemblyai", Some("fixture-key-not-real"), "pt"),
        "t1".into(),
    )
    .unwrap();
    let updated = get_settings(&row);

    assert_eq!(updated.workspace_name, "Studio");
    assert_eq!(
        updated.assemblyai_api_key.as_deref(),
        Some("fixture-key-not-real")
    );
    assert!(updated.has_api_key);
    assert_eq!(updated.language, "pt");

    let reloaded = get_settings(&row);
    assert_eq!(reloaded.workspace_name, "Studio");
    assert_eq!(
        reloaded.assemblyai_api_key.as_deref(),
        Some("fixture-key-not-real")
    );
}

#[test]
fn update_normalizes_and_reports_each_refusal_exactly() {
    let row = SettingsRecord::seeded("t0".into());
    let ok = update_settings(
        &row,
        input("  My Space \n", " AssemblyAI ", Some("  secret  "), " EN "),
        "t9".into(),
    )
    .unwrap();
    assert_eq!(ok.workspace_name, "My Space");
    assert_eq!(ok.default_provider, "assemblyai");
    assert_eq!(ok.language, "en");
    assert_eq!(ok.assemblyai_api_key.as_deref(), Some("secret"));
    assert_eq!(ok.updated_at, "t9");

    assert_eq!(
        update_settings(&row, input(" ", "x", None, "y"), "t".into()).unwrap_err(),
        "Workspace name is required"
    );
    assert_eq!(
        update_settings(&row, input("W", " Bogus ", None, "auto"), "t".into()).unwrap_err(),
        "Provider 'bogus' is not allowed"
    );
    assert_eq!(
        update_settings(&row, input("W", "whisper", None, "FR"), "t".into()).unwrap_err(),
        "Language 'fr' is not allowed"
    );
}

#[test]
fn blank_key_clears_and_blank_stored_key_is_not_shown() {
    let row = SettingsRecord::seeded("t0".into());
    let row = update_settings(&row, input("W", "assemblyai", Some("k1"), "auto"), "t1".into()).unwrap();
    assert_eq!(assemblyai_api_key(&row).as_deref(), Some("k1"));
    let row = update_settings(&row, input("W", "assemblyai", Some("   "), "auto"), "t2".into()).unwrap();
    assert!(row.assemblyai_api_key.is_none());
    assert!(!get_settings(&row).has_api_key);

    let stored_blank = SettingsRecord {
        workspace_name: "W".into(),
        default_provider: "assemblyai".into(),
        assemblyai_api_key: Some(" \t ".into()),
        language: "auto".into(),
        updated_at: "t".into(),
    };
    let shown = get_settings(&stored_blank);
    assert!(shown.assemblyai_api_key.is_none());
    assert!(!shown.has_api_key);
    assert!(assemblyai_api_key(&stored_blank).is_none());
    // omitting the key keeps what is shown: nothing
    let row = update_settings(&stored_blank, input("W", "assemblyai", None, "auto"), "t3".into()).unwrap();
    assert!(row.assemblyai_api_key.is_none());
}

#[test]
fn normalized_change_is_checked() {
    let row = SettingsRecord::seeded("t0".into());
    assert!(is_allowed_provider("assemblyai") && is_allowed_provider("whisper"));
    assert!(!is_allowed_provider("bogus") && !is_allowed_provider("AssemblyAI"));
    for l in ["auto", "pt", "en", "es"] {
        assert!(is_allowed_language(l));
    }
    assert!(!is_allowed_language("fr") && !is_allowed_language("EN"));

    let err = apply_settings_change(&row, "Local", "bogus".into(), "auto".into(), &None, "t1".into()).unwrap_err();
    assert_eq!(err, "Provider 'bogus' is not allowed");
    let err = apply_settings_change(&row, "Local", "whisper".into(), "fr".into(), &None, "t1".into()).unwrap_err();
    assert_eq!(err, "Language 'fr' is not allowed");
    let err = apply_settings_change(&row, "  ", "bogus".into(), "fr".into(), &None, "t1".into()).unwrap_err();
    assert_eq!(err, "Workspace name is required");

    let key = Some("  k1  ".to_string());
    let out = apply_settings_change(&row, " Team ", "whisper".into(), "es".into(), &key, "t2".into()).unwrap();
    assert_eq!(out.workspace_name, "Team");
    assert_eq!(out.default_provider, "whisper");
    assert_eq!(out.language, "es");
    assert_eq!(out.assemblyai_api_key.as_deref(), Some("k1"));
    assert_eq!(out.updated_at, "t2");
}
