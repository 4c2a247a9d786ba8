use paperdock::config::{
    apply_lab_file, default_embedding, default_model, default_zotero_dir, export_lab_config,
    get_config, key_counts, set_api_key, set_last_collection, set_settings, zotero_dir_under, Config, LabConfig, LabFile, Loaded,
};

fn sample() -> Config {
    Config {
        last_collection: Some("users/0::PERSONAL".into()),
        zotero_data_dir: "/Users/me/Zotero".into(),
        model: "openai/gpt-oss-120b".into(),
        embedding: "openai/nomic".into(),
        api_base: Some("https://api.ai.it.ufl.edu/v1".into()),
        qdrant_url: Some("https://q.example".into()),
        qdrant_api_key: Some("QKEY".into()),
        api_key: Some("LLMKEY".into()),
        field: String::new(),
        tele_consent: None,
    }
}

fn smith_lab() -> LabConfig {
    LabConfig {
        lab_name: Some("Smith Lab".into()),
        model: Some("openai/gpt-oss-120b".into()),
        embedding: Some("openai/nomic".into()),
        api_base: Some("https://api.ai.it.ufl.edu/v1".into()),
        qdrant_url: Some("https://q.example".into()),
        qdrant_api_key: Some("QKEY".into()),
        api_key: Some("LLMKEY".into()),
        default_collection: Some("groups/1234567::__all__".into()),
    }
}

#[test]
fn to_lab_config_includes_key_when_asked() {
    let lab = sample().to_lab_config(true);
    assert_eq!(lab.api_key.as_deref(), Some("LLMKEY"));
    assert_eq!(lab.qdrant_api_key.as_deref(), Some("QKEY"));
    assert_eq!(lab.model.as_deref(), Some("openai/gpt-oss-120b"));
    // Per-machine fields never travel.
    assert!(lab.default_collection.is_none());
}

#[test]
fn to_lab_config_omits_key_when_not_asked() {
    let lab = sample().to_lab_config(false);
    assert!(lab.api_key.is_none());
    assert_eq!(lab.qdrant_api_key.as_deref(), Some("QKEY")); // shared, still travels
}

#[test]
fn apply_overwrites_shared_preserves_local() {
    let mut cfg = Config::default(); // zotero_data_dir = default, last_collection None
    let dir_before = cfg.zotero_data_dir.clone();
    let lab = smith_lab();
    cfg.apply_lab_config(&lab);
    assert_eq!(cfg.model, "openai/gpt-oss-120b");
    assert_eq!(cfg.qdrant_api_key.as_deref(), Some("QKEY"));
    assert_eq!(cfg.zotero_data_dir, dir_before); // preserved
    assert_eq!(cfg.last_collection.as_deref(), Some("groups/1234567::__all__")); // set: was None
}

#[test]
fn apply_does_not_clobber_existing_collection() {
    let mut cfg = sample(); // last_collection = users/0::PERSONAL
    let lab = LabConfig {
        default_collection: Some("groups/1234567::__all__".into()),
        ..LabConfig::default()
    };
    cfg.apply_lab_config(&lab);
    assert_eq!(cfg.last_collection.as_deref(), Some("users/0::PERSONAL")); // kept
}

#[test]
fn a_fresh_install_has_the_defaults() {
    let cfg = Config::default_under(Some("/Users/me".into()));
    assert_eq!(default_model(), "gpt-4o");
    assert_eq!(default_embedding(), "text-embedding-3-small");
    assert_eq!(cfg.model, "gpt-4o");
    assert_eq!(cfg.embedding, "text-embedding-3-small");
    assert_eq!(cfg.zotero_data_dir, "/Users/me/Zotero");
    assert_eq!(cfg.last_collection, None);
    assert_eq!(cfg.api_key, None);
    assert_eq!(cfg.tele_consent, None);
    assert_eq!(cfg.field, "");
}

#[test]
fn zotero_lives_in_the_home_directory() {
    assert_eq!(zotero_dir_under(None), "Zotero");
    assert_eq!(zotero_dir_under(Some("".into())), "Zotero");
    assert_eq!(zotero_dir_under(Some("/".into())), "/Zotero");
    assert_eq!(zotero_dir_under(Some("/home/a/".into())), "/home/a/Zotero");
    assert_eq!(zotero_dir_under(Some("/home/a".into())), "/home/a/Zotero");
}

#[test]
fn the_default_directory_follows_the_system() {
    let expected = match dirs::home_dir() {
        Some(home) => home.join("Zotero").to_string_lossy().into_owned(),
        None => "Zotero".to_string(),
    };
    assert_eq!(default_zotero_dir(), expected);
    assert_eq!(Config::default().zotero_data_dir, expected);
}

#[test]
fn a_fresh_install_gets_every_shared_setting() {
    let admin = sample();
    let mut member = Config::default_under(Some("/Users/you".into()));
    member.apply_lab_config(&admin.to_lab_config(true));
    assert_eq!(member.to_lab_config(true), admin.to_lab_config(true));
    assert_eq!(member.zotero_data_dir, "/Users/you/Zotero");
    assert_eq!(member.last_collection, None);
}

#[test]
fn a_keyless_export_leaves_the_members_key() {
    let mut member = Config::default_under(None);
    member.api_key = Some("MINE".into());
    member.apply_lab_config(&sample().to_lab_config(false));
    assert_eq!(member.api_key.as_deref(), Some("MINE"));
    assert_eq!(member.model, "openai/gpt-oss-120b");
}

#[test]
fn importing_twice_is_importing_once() {
    let mut once = Config::default_under(None);
    once.apply_lab_config(&smith_lab());
    let mut twice = once.clone();
    twice.apply_lab_config(&smith_lab());
    assert_eq!(once, twice);
}

#[test]
fn ones_own_export_changes_nothing() {
    let mut cfg = sample();
    let lab = cfg.to_lab_config(true);
    cfg.apply_lab_config(&lab);
    assert_eq!(cfg, sample());
    cfg.apply_lab_config(&LabConfig::default());
    assert_eq!(cfg, sample());
}

#[test]
fn the_export_does_not_depend_on_the_machine() {
    let mut other = sample();
    other.zotero_data_dir = "/elsewhere".into();
    other.last_collection = None;
    other.field = "botany".into();
    other.tele_consent = Some(true);
    assert_eq!(other.to_lab_config(true), sample().to_lab_config(true));
    other.api_key = Some("OTHER".into());
    assert_eq!(other.to_lab_config(false), sample().to_lab_config(false));
}

#[test]
fn a_lab_is_shown_by_its_name() {
    assert_eq!(smith_lab().summary_name(), "Smith Lab");
    assert_eq!(LabConfig::default().summary_name(), "your lab");
    let blank = LabConfig { lab_name: Some(" \t".into()), ..LabConfig::default() };
    assert_eq!(blank.summary_name(), "your lab");
    let padded = LabConfig { lab_name: Some(" X ".into()), ..LabConfig::default() };
    assert_eq!(padded.summary_name(), " X ");
}

#[test]
fn a_bad_lab_file_changes_nothing() {
    let mut cfg = sample();
    assert_eq!(
        apply_lab_file(&mut cfg, &LabFile::Unreadable),
        Err("That doesn't look like a PaperDock lab config file.".to_string())
    );
    assert_eq!(
        apply_lab_file(&mut cfg, &LabFile::NotALabConfig),
        Err("That doesn't look like a PaperDock lab config file.".to_string())
    );
    assert_eq!(cfg, sample());
}

#[test]
fn a_lab_file_is_taken_over() {
    let mut cfg = Config::default_under(None);
    assert_eq!(
        apply_lab_file(&mut cfg, &LabFile::Lab(smith_lab())),
        Ok("Smith Lab".to_string())
    );
    assert_eq!(cfg.api_key.as_deref(), Some("LLMKEY"));
}

#[test]
fn saved_settings_are_healed() {
    let mut saved = sample();
    saved.api_key = Some("  ".into());
    let team = sample();
    assert!(Config::wants_team(Some(&saved)));
    let loaded = Config::load_under(Some(saved.clone()), Some(team), None);
    assert!(loaded.save);
    assert_eq!(loaded.config.api_key.as_deref(), Some("LLMKEY"));
    let mut rest = loaded.config;
    rest.api_key = saved.api_key.clone();
    assert_eq!(rest, saved);
}

#[test]
fn saved_settings_with_a_key_stay() {
    let mut team = sample();
    team.api_key = Some("TEAM".into());
    assert!(!Config::wants_team(Some(&sample())));
    let loaded = Config::load_under(Some(sample()), Some(team), None);
    assert_eq!(loaded, Loaded { config: sample(), save: false });
}

#[test]
fn a_team_without_a_key_heals_nothing() {
    let mut saved = sample();
    saved.api_key = None;
    let mut team = sample();
    team.api_key = Some(" ".into());
    let loaded = Config::load_under(Some(saved.clone()), Some(team), None);
    assert_eq!(loaded, Loaded { config: saved, save: false });
}

#[test]
fn a_first_run_takes_the_teams_settings() {
    assert!(Config::wants_team(None));
    let loaded = Config::load(None, Some(sample()));
    assert_eq!(loaded, Loaded { config: sample(), save: true });
    let again = Config::load(Some(loaded.config), Some(sample()));
    assert_eq!(again, Loaded { config: sample(), save: false });
}

#[test]
fn a_first_run_without_a_team_takes_the_defaults() {
    let loaded = Config::load(None, None);
    assert_eq!(loaded, Loaded { config: Config::default(), save: false });
}

#[test]
fn blank_team_fields_fall_back_to_defaults() {
    let mut team = sample();
    team.model = " ".into();
    team.embedding = String::new();
    team.zotero_data_dir = String::new();
    team.qdrant_url = Some("".into());
    team.api_key = Some("\n".into());
    let filled = team.clone().fill_blanks_under(Some("/Users/me".into()));
    assert_eq!(filled.model, "gpt-4o");
    assert_eq!(filled.embedding, "text-embedding-3-small");
    assert_eq!(filled.zotero_data_dir, "/Users/me/Zotero");
    assert_eq!(filled.qdrant_url, None);
    assert_eq!(filled.api_key, None);
    assert_eq!(filled.qdrant_api_key.as_deref(), Some("QKEY"));
    assert_eq!(sample().fill_blanks(), sample());
    assert_eq!(team.fill_blanks().zotero_data_dir, default_zotero_dir());
}

#[test]
fn the_window_sees_no_key() {
    let ui = get_config(&sample(), false);
    assert!(ui.has_api_key);
    assert!(ui.has_qdrant_key);
    assert_eq!(ui.model, "openai/gpt-oss-120b");
    assert_eq!(ui.api_base, "https://api.ai.it.ufl.edu/v1");
    let mut other = sample();
    other.api_key = Some("ANOTHER".into());
    other.qdrant_api_key = Some("AS WELL".into());
    assert_eq!(get_config(&other, false), ui);
    other.api_key = Some(" ".into());
    other.qdrant_api_key = None;
    other.api_base = None;
    let ui = get_config(&other, false);
    assert!(!ui.has_api_key);
    assert!(!ui.has_qdrant_key);
    assert_eq!(ui.api_base, "");
    assert!(get_config(&other, true).has_api_key);
}

#[test]
fn a_key_is_trimmed_or_cleared() {
    let mut cfg = sample();
    set_api_key(&mut cfg, "  sk-1 ");
    assert_eq!(cfg.api_key.as_deref(), Some("sk-1"));
    set_api_key(&mut cfg, " ");
    assert_eq!(cfg.api_key, None);
}

#[test]
fn settings_are_taken_over() {
    let mut cfg = sample();
    set_settings(&mut cfg, " gpt-4o ", "", " ", "https://r.example", "");
    assert_eq!(cfg.model, "gpt-4o");
    assert_eq!(cfg.embedding, "openai/nomic");
    assert_eq!(cfg.api_base, None);
    assert_eq!(cfg.qdrant_url.as_deref(), Some("https://r.example"));
    assert_eq!(cfg.qdrant_api_key.as_deref(), Some("QKEY"));
    set_settings(&mut cfg, "", "e", "b", "u", "NEW");
    assert_eq!(cfg.embedding, "e");
    assert_eq!(cfg.qdrant_api_key.as_deref(), Some("NEW"));
    set_settings(&mut cfg, "", "", "", "  ", "KEY");
    assert_eq!(cfg.qdrant_url, None);
    assert_eq!(cfg.qdrant_api_key, None);
    assert_eq!(cfg.api_key.as_deref(), Some("LLMKEY"));
}

#[test]
fn the_last_collection_is_remembered() {
    let mut cfg = sample();
    set_last_collection(&mut cfg, "groups/1::K".into());
    assert_eq!(cfg.last_collection.as_deref(), Some("groups/1::K"));
}

#[test]
fn only_a_key_that_is_not_blank_counts() {
    assert!(key_counts(Some("sk-1")));
    assert!(!key_counts(Some(" \t")));
    assert!(!key_counts(Some("")));
    assert!(!key_counts(None));
    let fresh = Config::default_under(None);
    assert!(!get_config(&fresh, key_counts(Some(""))).has_api_key);
    assert!(get_config(&fresh, key_counts(Some("sk-1"))).has_api_key);
}

#[test]
fn nothing_is_exported_before_anything_is_set() {
    let mut cfg = Config::default_under(Some("/Users/me".into()));
    cfg.field = "botany".into();
    assert_eq!(export_lab_config(&cfg, true), Err("Nothing to export yet.".to_string()));
    set_api_key(&mut cfg, "sk-1");
    assert_eq!(export_lab_config(&cfg, false), Ok(cfg.to_lab_config(false)));
    assert_eq!(export_lab_config(&sample(), true), Ok(sample().to_lab_config(true)));
    let mut other = Config::default_under(None);
    other.model = "ollama/llama3.1".into();
    assert!(export_lab_config(&other, true).is_ok());
}

#[test]
fn a_lab_file_is_named_after_its_lab() {
    assert_eq!(smith_lab().file_name(), "Smith Lab.paperdock");
    assert_eq!(sample().to_lab_config(true).file_name(), "paperdock-lab.paperdock");
    let blank = LabConfig { lab_name: Some(" ".into()), ..LabConfig::default() };
    assert_eq!(blank.file_name(), "paperdock-lab.paperdock");
}
