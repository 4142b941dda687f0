use sefr::engine::default_prompt;
use sefr::{
    input_line_from_selection, match_engine, reconstruct, validate_config, Engine, Registry,
    SuggestionAdapterName,
};

fn engine(name: &str, suggestion_url: &str, search_url: &str) -> Engine {
    Engine {
        prompt: default_prompt(),
        name: name.to_string(),
        suggestion_url: suggestion_url.to_string(),
        search_url: search_url.to_string(),
        space_becomes: "+".to_string(),
        suggestion_adapter: SuggestionAdapterName::OpenSearch,
    }
}

fn registry(entries: &[(&str, &str)]) -> Registry {
    let raw: Vec<(String, Engine)> = entries
        .iter()
        .map(|(k, name)| (k.to_string(), engine(name, "https://s.example/?q=%s", "https://x.example/?q=%s")))
        .collect();
    validate_config(raw).ok().unwrap().0
}

fn google_youtube() -> Registry {
    registry(&[("_default", "Google"), ("yt", "YouTube")])
}

fn google_subreddit() -> Registry {
    registry(&[("_default", "Google"), ("r", "Subreddit")])
}

#[test]
fn prefix_selects_youtube() {
    let reg = google_youtube();
    let (eng, prefix, term) = match_engine("yt cats", &reg);
    assert_eq!(eng.name, "YouTube");
    assert_eq!(prefix, "yt");
    assert_eq!(term, "cats");
}

#[test]
fn accepting_suggestion_keeps_prefix() {
    let reg = google_youtube();
    assert_eq!(reconstruct("cats videos", "yt", &reg), "yt cats videos");
}

#[test]
fn suggestion_like_other_word_is_not_escaped() {
    let reg = google_subreddit();
    assert_eq!(reconstruct("r/aww", "", &reg), "r/aww");
}

#[test]
fn suggestion_equal_to_own_prefix() {
    let reg = google_subreddit();
    assert_eq!(reconstruct("r", "r", &reg), "r r");
}

#[test]
fn suggestion_selecting_other_engine_is_escaped() {
    let reg = google_subreddit();
    assert_eq!(reconstruct("r funny", "", &reg), "?r funny");
    let (eng, prefix, term) = match_engine("?r funny", &reg);
    assert_eq!(eng.name, "Google");
    assert_eq!(prefix, "");
    assert_eq!(term, "r funny");
}

#[test]
fn line_from_selection_branches() {
    assert_eq!(input_line_from_selection("w", "yt", "w foo"), "?w foo");
    assert_eq!(input_line_from_selection("yt", "yt", "yt foo"), "yt yt foo");
    assert_eq!(input_line_from_selection("", "yt", "foo"), "yt foo");
    assert_eq!(input_line_from_selection("", "", "foo"), "foo");
    assert_eq!(input_line_from_selection("w", "", "w foo"), "?w foo");
}

#[test]
fn prefix_needs_following_whitespace() {
    let reg = google_youtube();
    let (eng, prefix, term) = match_engine("yt", &reg);
    assert_eq!(eng.name, "Google");
    assert_eq!(prefix, "");
    assert_eq!(term, "yt");
    let (eng, prefix, term) = match_engine("yt ", &reg);
    assert_eq!(eng.name, "YouTube");
    assert_eq!(prefix, "yt");
    assert_eq!(term, "");
    let (eng, prefix, term) = match_engine("  yt\tcats  ", &reg);
    assert_eq!(eng.name, "YouTube");
    assert_eq!(prefix, "yt");
    assert_eq!(term, "cats");
}

#[test]
fn unknown_prefix_goes_to_default() {
    let reg = google_youtube();
    let (eng, prefix, term) = match_engine("  zz top  ", &reg);
    assert_eq!(eng.name, "Google");
    assert_eq!(prefix, "");
    assert_eq!(term, "zz top");
    let (eng, prefix, term) = match_engine("", &reg);
    assert_eq!(eng.name, "Google");
    assert_eq!(prefix, "");
    assert_eq!(term, "");
    let (_, _, term) = match_engine("   ", &reg);
    assert_eq!(term, "");
}

#[test]
fn question_mark_escapes_prefix() {
    let reg = google_youtube();
    let (eng, prefix, term) = match_engine("?yt cats ", &reg);
    assert_eq!(eng.name, "Google");
    assert_eq!(prefix, "");
    assert_eq!(term, "yt cats ");
}

#[test]
fn reconstructed_line_matches_back_to_suggestion() {
    let reg = google_subreddit();
    for (sel, cur) in [("r funny", ""), ("r funny", "r"), ("aww", "r"), ("cats", ""), ("?x", "")] {
        let line = reconstruct(sel, cur, &reg);
        let (_, _, term) = match_engine(&line, &reg);
        assert!(term == sel || format!("?{}", term) == sel, "{} {} {}", sel, cur, line);
    }
}

#[test]
fn search_url_is_percent_encoded() {
    let e = engine("E", "https://s.example/?q=%s&x=%s", "https://x.example/search?q=%s");
    assert_eq!(e.format_search_url("a b+c?"), "https://x.example/search?q=a+b%2Bc%3F");
    assert_eq!(e.format_suggestion_url("ü"), "https://s.example/?q=%C3%BC&x=%C3%BC");
    assert_eq!(e.format_search_url(""), "https://x.example/search?q=");
}

#[test]
fn template_without_placeholder_is_kept() {
    let e = engine("E", "", "https://x.example/");
    assert_eq!(e.format_search_url("cats"), "https://x.example/");
    assert_eq!(e.format_suggestion_url("cats"), "");
}

#[test]
fn short_prompt_refers_to_prompt() {
    let p = default_prompt();
    assert_eq!(p.icon, " > ");
    assert_eq!(p.text, "%%DEFAULT%%");
    let s = p.to_short();
    assert_eq!(s.0.icon, " > ");
}

#[test]
fn spaces_follow_engine_setting() {
    let mut e = engine("E", "https://s.example/?q=%s", "https://x.example/?q=%s");
    assert_eq!(e.format_search_url(" "), "https://x.example/?q=+");
    assert_eq!(e.format_suggestion_url("cat  videos"), "https://s.example/?q=cat++videos");
    e.space_becomes = String::new();
    assert_eq!(e.format_search_url("ask reddit"), "https://x.example/?q=askreddit");
    assert_eq!(e.format_suggestion_url(" a "), "https://s.example/?q=a");
    e.space_becomes = "%20".to_string();
    assert_eq!(e.format_search_url("a b%"), "https://x.example/?q=a%20b%");
    e.space_becomes = "-".to_string();
    assert_eq!(e.format_search_url("ü ?"), "https://x.example/?q=%C3%BC-%3F");
}
