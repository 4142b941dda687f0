use sefr::config::settings_from;
use sefr::engine::default_prompt;
use sefr::{
    get_default_config, logical_action, match_engine, validate_config, BindableAction, Engine,
    KeyBind, KeyEvent, SuggestionAdapterName,
};

fn engine(name: &str, text: &str) -> Engine {
    let mut prompt = default_prompt();
    prompt.text = text.to_string();
    Engine {
        prompt,
        name: name.to_string(),
        suggestion_url: String::new(),
        search_url: "https://x.example/?q=%s".to_string(),
        space_becomes: "+".to_string(),
        suggestion_adapter: SuggestionAdapterName::OpenSearch,
    }
}

#[test]
fn default_config_validates() {
    let config = get_default_config();
    assert_eq!(config.engines.len(), 8);
    assert_eq!(config.engines[0].0, "_default");
    assert_eq!(config.keybinds.len(), 11);
    let (reg, ignored) = validate_config(config.engines).ok().unwrap();
    assert!(ignored.is_empty());
    assert_eq!(reg.len(), 8);
    assert_eq!(reg.default_engine().name, "Google");
    assert_eq!(reg.default_engine().prompt.text, " Google ");
    assert_eq!(reg.lookup("ddg").unwrap().prompt.text, " DuckDuckGo ");
    assert_eq!(reg.lookup("r").unwrap().space_becomes, "");
    assert!(reg.lookup("_default").is_none());
    let (eng, prefix, term) = match_engine("w rust language", &reg);
    assert_eq!(eng.name, "Wikipedia");
    assert_eq!(prefix, "w");
    assert_eq!(term, "rust language");
}

#[test]
fn missing_default_engine_is_an_error() {
    let raw = vec![("yt".to_string(), engine("YouTube", "%%DEFAULT%%"))];
    match validate_config(raw) {
        Ok(_) => panic!("validated without a default engine"),
        Err(e) => assert_eq!(e.details(), "No '_default' search engine found!!!"),
    }
}

#[test]
fn whitespace_prefixes_are_left_out() {
    let raw = vec![
        ("my engine".to_string(), engine("Mine", "%%DEFAULT%%")),
        ("_default".to_string(), engine("Google", "G")),
        ("".to_string(), engine("Shadow", "S")),
        ("yt".to_string(), engine("YouTube", "%%DEFAULT%%")),
        ("yt".to_string(), engine("Second", "%%DEFAULT%%")),
    ];
    let (reg, ignored) = validate_config(raw).ok().unwrap();
    assert_eq!(ignored, vec![("my engine".to_string(), "Mine".to_string())]);
    assert_eq!(reg.len(), 2);
    assert_eq!(reg.default_engine().name, "Google");
    assert_eq!(reg.default_engine().prompt.text, "G");
    assert_eq!(reg.lookup("yt").unwrap().name, "YouTube");
    assert_eq!(reg.lookup("yt").unwrap().prompt.text, " YouTube ");
    assert!(reg.lookup("my engine").is_none());
}

#[test]
fn key_presses_map_to_actions() {
    let config = get_default_config();
    let t = &config.keybinds;
    assert_eq!(logical_action(t, KeyEvent::Char('\n')), Some(BindableAction::Submit));
    assert_eq!(logical_action(t, KeyEvent::Ctrl('c')), Some(BindableAction::Exit));
    assert_eq!(logical_action(t, KeyEvent::Esc), Some(BindableAction::Exit));
    assert_eq!(logical_action(t, KeyEvent::Char('\t')), Some(BindableAction::SelectNext));
    assert_eq!(logical_action(t, KeyEvent::Up), Some(BindableAction::SelectPrev));
    assert_eq!(logical_action(t, KeyEvent::Backspace), Some(BindableAction::DeleteChar));
    assert_eq!(logical_action(t, KeyEvent::Char('x')), Some(BindableAction::AddChar('x')));
    assert_eq!(logical_action(t, KeyEvent::Home), None);
    assert_eq!(sefr::config::action_for(t, KeyBind(KeyEvent::Char('x'))), None);
}

#[test]
fn loaded_config_is_used_when_valid() {
    let mut config = get_default_config();
    config.engines.retain(|(k, _)| k == "_default" || k == "yt");
    config.keybinds.truncate(2);
    let s = settings_from(Some(config));
    assert!(s.rejected.is_none());
    assert_eq!(s.engines.len(), 2);
    assert_eq!(s.keybinds.len(), 2);
}

#[test]
fn builtin_config_replaces_invalid_or_missing() {
    let mut config = get_default_config();
    config.engines.retain(|(k, _)| k != "_default");
    config.keybinds.clear();
    let s = settings_from(Some(config));
    assert_eq!(s.rejected.unwrap().details(), "No '_default' search engine found!!!");
    assert_eq!(s.engines.len(), 8);
    assert_eq!(s.keybinds.len(), 11);
    let s = settings_from(None);
    assert!(s.rejected.is_none());
    assert_eq!(s.engines.default_engine().name, "Google");
}
