use sefr::{KeyBind, KeyEvent};
use std::str::FromStr;

fn parsed(s: &str) -> KeyEvent {
    KeyBind::from_str(s).ok().unwrap().0
}

fn error(s: &str) -> String {
    match KeyBind::parse(s) {
        Ok(_) => panic!("parsed {}", s),
        Err(e) => e.details().to_string(),
    }
}

#[test]
fn plain_keys() {
    assert_eq!(parsed(""), KeyEvent::Null);
    assert_eq!(parsed("a"), KeyEvent::Char('a'));
    assert_eq!(parsed("<"), KeyEvent::Char('<'));
}

#[test]
fn function_keys() {
    assert_eq!(parsed("<F12>"), KeyEvent::F(12));
    assert_eq!(parsed("<f1>"), KeyEvent::F(1));
    assert_eq!(parsed("<F+7>"), KeyEvent::F(7));
    assert_eq!(error("<F256>"), "Could not parse '<F256>' as a function key (e.g. <F12>)");
    assert_eq!(error("<Fx>"), "Could not parse '<Fx>' as a function key (e.g. <F12>)");
}

#[test]
fn combinations() {
    assert_eq!(parsed("<C-n>"), KeyEvent::Ctrl('n'));
    assert_eq!(parsed("<c-w>"), KeyEvent::Ctrl('w'));
    assert_eq!(parsed("<M-x>"), KeyEvent::Alt('x'));
    assert_eq!(parsed("<a-x>"), KeyEvent::Alt('x'));
    assert_eq!(error("<C->"), "Could not parse '<C->' as a ctrl combo (e.g. <c-x>)");
    assert_eq!(error("<m-->"), "Could not parse '<m-->' as a meta combo (e.g. <m-x> or <a-x>)");
    assert_eq!(error("<x-y>"), "Unrecognized control char in '<x-y>'");
}

#[test]
fn named_keys() {
    assert_eq!(parsed("<Tab>"), KeyEvent::Char('\t'));
    assert_eq!(parsed("<CR>"), KeyEvent::Char('\n'));
    assert_eq!(parsed("<enter>"), KeyEvent::Char('\n'));
    assert_eq!(parsed("<BS>"), KeyEvent::Backspace);
    assert_eq!(parsed("<Esc>"), KeyEvent::Esc);
    assert_eq!(parsed("<PageDown>"), KeyEvent::PageDown);
    assert_eq!(parsed("<del>"), KeyEvent::Delete);
    assert_eq!(error("<bogus>"), "Unrecognized special key: <bogus>");
}

#[test]
fn unrecognized_format() {
    assert_eq!(error("ab"), "Unrecognized keymap format: ab");
    assert_eq!(error("é"), "Unrecognized keymap format: é");
}

#[test]
fn text_form() {
    assert_eq!(KeyBind(KeyEvent::Char('\n')).to_text(), "<CR>");
    assert_eq!(KeyBind(KeyEvent::Char('\t')).to_text(), "<Tab>");
    assert_eq!(KeyBind(KeyEvent::Char('q')).to_text(), "q");
    assert_eq!(KeyBind(KeyEvent::Ctrl('c')).to_text(), "<C-c>");
    assert_eq!(KeyBind(KeyEvent::Alt('x')).to_text(), "<M-x>");
    assert_eq!(KeyBind(KeyEvent::F(12)).to_text(), "<F12>");
    assert_eq!(KeyBind(KeyEvent::F(7)).to_text(), "<F7>");
    assert_eq!(KeyBind(KeyEvent::F(200)).to_text(), "<F200>");
    assert_eq!(KeyBind(KeyEvent::BackTab).to_text(), "<BackTab>");
    assert_eq!(KeyBind(KeyEvent::Esc).to_text(), "<Esc>");
}

#[test]
fn text_form_parses_back() {
    for k in [KeyEvent::Ctrl('n'), KeyEvent::Alt('q'), KeyEvent::F(5), KeyEvent::Char('\t'), KeyEvent::Esc, KeyEvent::Backspace, KeyEvent::Char('z')] {
        assert_eq!(parsed(&KeyBind(k).to_text()), k);
    }
}
