use sefr::engine::default_prompt;
use sefr::session::{next, prev, should_accept};
use sefr::{
    validate_config, BindableAction, Engine, Registry, Session, Step, SuggestionAdapterName,
    Suggestions, UiMsg,
};

fn engine(name: &str, suggestion_url: &str, space_becomes: &str) -> Engine {
    Engine {
        prompt: default_prompt(),
        name: name.to_string(),
        suggestion_url: suggestion_url.to_string(),
        search_url: format!("https://{}.example/?q=%s", name),
        space_becomes: space_becomes.to_string(),
        suggestion_adapter: SuggestionAdapterName::OpenSearch,
    }
}

fn registry() -> Registry {
    let raw = vec![
        ("_default".to_string(), engine("google", "https://g.example/s?q=%s", "+")),
        ("r".to_string(), engine("reddit", "https://r.example/s?q=%s", "")),
        ("n".to_string(), engine("plain", "", "+")),
    ];
    validate_config(raw).ok().unwrap().0
}

fn suggestions(term: &str, items: &[&str]) -> Suggestions {
    Suggestions { term: term.to_string(), sugg_terms: items.iter().map(|s| s.to_string()).collect() }
}

fn type_text(s: &mut Session, reg: &Registry, text: &str) {
    for c in text.chars() {
        s.handle(reg, UiMsg::OnInput(BindableAction::AddChar(c)));
    }
}

#[test]
fn next_cycles_back() {
    for count in 1..6usize {
        let mut c = None;
        for _ in 0..count + 1 {
            c = next(c, count);
        }
        assert_eq!(c, Some(0));
        let mut c = Some(0);
        for _ in 0..count {
            c = next(c, count);
        }
        assert_eq!(c, Some(0));
    }
    assert_eq!(next(None, 1), Some(0));
    assert_eq!(next(None, 0), None);
    assert_eq!(next(Some(2), 3), Some(0));
}

#[test]
fn prev_wraps() {
    assert_eq!(prev(None, 3), Some(2));
    assert_eq!(prev(Some(0), 3), Some(2));
    assert_eq!(prev(Some(2), 3), Some(1));
    assert_eq!(prev(None, 0), Some(0));
}

#[test]
fn staleness_filter() {
    let w = Some("ab".to_string());
    assert!(should_accept("ab", &w));
    assert!(!should_accept("a", &w));
    assert!(!should_accept("ab", &None));
}

#[test]
fn stale_results_are_dropped_in_either_order() {
    let reg = registry();
    for fresh_first in [true, false] {
        let mut s = Session::new();
        type_text(&mut s, &reg, "ab");
        let req = s.sync(&reg).unwrap();
        assert_eq!(req.term, "ab");
        assert_eq!(req.url, "https://g.example/s?q=ab");
        let fresh = suggestions("ab", &["abc"]);
        let stale = suggestions("a", &["apple"]);
        if fresh_first {
            s.handle(&reg, UiMsg::SetSuggestions(fresh));
            s.handle(&reg, UiMsg::SetSuggestions(stale));
        } else {
            s.handle(&reg, UiMsg::SetSuggestions(stale));
            s.handle(&reg, UiMsg::SetSuggestions(fresh));
        }
        let shown = s.suggestions.as_ref().unwrap();
        assert_eq!(shown.term, "ab");
        assert_eq!(shown.sugg_terms, vec!["abc"]);
    }
}

#[test]
fn selecting_rewrites_line_without_fetch() {
    let reg = registry();
    let mut s = Session::new();
    type_text(&mut s, &reg, "r aw");
    let req = s.sync(&reg).unwrap();
    assert_eq!(req.term, "aw");
    s.handle(&reg, UiMsg::SetSuggestions(suggestions("aw", &["aww", "awwducational"])));
    s.handle(&reg, UiMsg::OnInput(BindableAction::SelectNext));
    assert_eq!(s.selected, Some(0));
    assert_eq!(s.input_line, "r aww");
    assert!(s.sync(&reg).is_none());
    s.handle(&reg, UiMsg::OnInput(BindableAction::SelectPrev));
    assert_eq!(s.selected, Some(1));
    assert_eq!(s.input_line, "r awwducational");
    s.handle(&reg, UiMsg::OnInput(BindableAction::SelectNext));
    assert_eq!(s.selected, Some(0));
}

#[test]
fn editing_clears_selection_and_refetches() {
    let reg = registry();
    let mut s = Session::new();
    type_text(&mut s, &reg, "cat");
    s.sync(&reg);
    s.handle(&reg, UiMsg::SetSuggestions(suggestions("cat", &["cats"])));
    s.handle(&reg, UiMsg::OnInput(BindableAction::SelectNext));
    assert_eq!(s.input_line, "cats");
    s.handle(&reg, UiMsg::OnInput(BindableAction::DeleteChar));
    assert_eq!(s.input_line, "cat");
    assert_eq!(s.selected, None);
    assert!(s.sync(&reg).is_none());
    assert_eq!(s.suggestions.as_ref().unwrap().term, "cat");
    s.handle(&reg, UiMsg::OnInput(BindableAction::AddChar('s')));
    let req = s.sync(&reg).unwrap();
    assert_eq!(req.term, "cats");
}

#[test]
fn unchanged_term_is_not_fetched_again() {
    let reg = registry();
    let mut s = Session::new();
    type_text(&mut s, &reg, "cat");
    assert_eq!(s.sync(&reg).unwrap().term, "cat");
    type_text(&mut s, &reg, " ");
    assert!(s.sync(&reg).is_none());
    assert_eq!(s.waiting_for_term.as_deref(), Some("cat"));
}

#[test]
fn changed_engine_fetches_same_term() {
    let reg = registry();
    let mut s = Session::new();
    type_text(&mut s, &reg, "cat");
    s.sync(&reg);
    s.input_line = "r cat".to_string();
    s.refresh = true;
    let req = s.sync(&reg).unwrap();
    assert_eq!(req.url, "https://r.example/s?q=cat");
}

#[test]
fn delete_word_clears_selection() {
    let reg = registry();
    let mut s = Session::new();
    type_text(&mut s, &reg, "cat");
    s.sync(&reg);
    s.handle(&reg, UiMsg::SetSuggestions(suggestions("cat", &["cat videos"])));
    s.handle(&reg, UiMsg::OnInput(BindableAction::SelectNext));
    assert_eq!(s.selected, Some(0));
    s.handle(&reg, UiMsg::OnInput(BindableAction::DeleteWord));
    assert_eq!(s.input_line, "cat ");
    assert_eq!(s.selected, None);
}

#[test]
fn empty_term_clears_everything() {
    let reg = registry();
    let mut s = Session::new();
    assert!(s.sync(&reg).is_none());
    type_text(&mut s, &reg, "x");
    s.sync(&reg);
    s.handle(&reg, UiMsg::SetSuggestions(suggestions("x", &["xkcd"])));
    assert!(s.suggestions.is_some());
    s.handle(&reg, UiMsg::OnInput(BindableAction::DeleteChar));
    assert!(s.sync(&reg).is_none());
    assert!(s.suggestions.is_none());
    assert!(s.waiting_for_term.is_none());
}

#[test]
fn engine_without_suggestions_skips_fetch() {
    let reg = registry();
    let mut s = Session::new();
    type_text(&mut s, &reg, "n hello");
    assert!(s.sync(&reg).is_none());
    assert_eq!(s.waiting_for_term.as_deref(), Some("hello"));
    assert!(s.suggestions.is_none());
}

#[test]
fn delete_word_and_spaces() {
    let reg = registry();
    let mut s = Session::new();
    type_text(&mut s, &reg, "hello big  world  ");
    s.handle(&reg, UiMsg::OnInput(BindableAction::DeleteWord));
    assert_eq!(s.input_line, "hello big  ");
    let mut s = Session::new();
    type_text(&mut s, &reg, "r a b");
    assert_eq!(s.input_line, "r ab");
}

#[test]
fn submit_opens_search_url() {
    let reg = registry();
    let mut s = Session::new();
    type_text(&mut s, &reg, "r rust");
    match s.handle(&reg, UiMsg::OnInput(BindableAction::Submit)) {
        Step::Open(url) => assert_eq!(url, "https://reddit.example/?q=rust"),
        _ => panic!("expected a URL"),
    }
    assert!(matches!(s.handle(&reg, UiMsg::OnInput(BindableAction::Exit)), Step::Exit));
}
