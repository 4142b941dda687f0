//! Key events and the text form of key bindings (`a`, `<C-n>`, `<F12>`, `<Tab>`).
use vstd::prelude::*;
use vstd::string::*;

use crate::text::{chars_of, push_char, same_text, slice};

verus! {

/// A key press, as the key-event source reports it.
#[derive(Clone, Copy, PartialEq, Eq, Structural, Debug, Hash)]
pub enum KeyEvent {
    Backspace,
    Left,
    Right,
    Up,
    Down,
    Home,
    End,
    PageUp,
    PageDown,
    BackTab,
    Delete,
    Insert,
    F(u8),
    Char(char),
    Alt(char),
    Ctrl(char),
    Null,
    Esc,
    CtrlUp,
    CtrlDown,
    CtrlRight,
    CtrlLeft,
    ShiftUp,
    ShiftDown,
    ShiftRight,
    ShiftLeft,
}

/// A key that an action can be bound to.
#[derive(Clone, Copy, PartialEq, Eq, Structural, Debug, Hash)]
pub struct KeyBind(pub KeyEvent);

/// A configuration problem, with a message for the user.
#[derive(Debug)]
pub struct ConfigError {
    details: String,
}

impl ConfigError {
    pub closed spec fn message(&self) -> Seq<char> {
        self.details@
    }

    pub fn new(msg: &str) -> (r: ConfigError)
        ensures
            r.message() == msg@,
    {
        ConfigError { details: String::from_str(msg) }
    }

    /// The message for the user.
    pub fn details(&self) -> (r: &str)
        ensures
            r@ == self.message(),
    {
        self.details.as_str()
    }
}

// ---------------------------------------------------------------------------
// Decimal numbers
/// An ASCII decimal digit.
pub open spec fn is_digit(c: char) -> bool {
    '0' <= c && c <= '9'
}

/// The value of a string of decimal digits.
pub open spec fn decimal_value(s: Seq<char>) -> nat
    decreases s.len(),
{
    if s.len() == 0 {
        0
    } else {
        decimal_value(s.drop_last()) * 10 + (s.last() as nat - '0' as nat) as nat
    }
}

/// What `u8::from_str` gives: an optional `+`, then at least one decimal
/// digit and nothing else, for a value that fits in a byte.
pub open spec fn u8_of(s: Seq<char>) -> Option<u8> {
    let d = unsigned_digits(s);
    if d.len() > 0 && all_digits(d) && decimal_value(d) <= 255 {
        Some(decimal_value(d) as u8)
    } else {
        None
    }
}

/// `s` without one leading `+`.
pub open spec fn unsigned_digits(s: Seq<char>) -> Seq<char> {
    if s.len() > 0 && s[0] == '+' {
        s.drop_first()
    } else {
        s
    }
}

pub open spec fn all_digits(d: Seq<char>) -> bool {
    forall|i: int| 0 <= i < d.len() ==> is_digit(#[trigger] d[i])
}

proof fn lemma_decimal_grows(s: Seq<char>, i: int, j: int)
    requires
        0 <= i <= j <= s.len(),
        forall|k: int| 0 <= k < s.len() ==> is_digit(#[trigger] s[k]),
    ensures
        decimal_value(s.subrange(0, i)) <= decimal_value(s.subrange(0, j)),
    decreases j - i,
{
    if i < j {
        lemma_decimal_grows(s, i, j - 1);
        assert(s.subrange(0, j).drop_last() =~= s.subrange(0, j - 1));
    }
}

/// Parses a byte in decimal, as `u8::from_str` does.
pub fn parse_u8(s: &str) -> (r: Option<u8>)
    ensures
        r == u8_of(s@),
{
    let cs = chars_of(s);
    let n = cs.len();
    let start: usize = if n > 0 && cs[0] == '+' {
        1
    } else {
        0
    };
    let ghost d = unsigned_digits(s@);
    assert(d =~= s@.subrange(start as int, n as int));
    if start == n {
        return None;
    }
    let mut acc: u32 = 0;
    let mut i = start;
    while i < n
        invariant
            cs@ == s@,
            n == s@.len(),
            start <= i <= n,
            d == s@.subrange(start as int, n as int),
            d == unsigned_digits(s@),
            forall|k: int| 0 <= k < i - start ==> is_digit(#[trigger] d[k]),
            acc == decimal_value(d.subrange(0, i - start)),
            acc <= 255,
        decreases n - i,
    {
        let c = cs[i];
        if !('0' <= c && c <= '9') {
            assert(d[i - start] == cs@[i as int]);
            assert(!is_digit(d[i - start]));
            return None;
        }
        let ghost k = (i - start) as int;
        assert(d.subrange(0, k + 1).drop_last() =~= d.subrange(0, k));
        let dv = (c as u32) - ('0' as u32);
        assert(dv == c as nat - '0' as nat);
        acc = acc * 10 + dv;
        i = i + 1;
        if acc > 255 {
            proof {
                if all_digits(d) {
                    lemma_decimal_grows(d, i - start, d.len() as int);
                    assert(d.subrange(0, d.len() as int) =~= d);
                }
            }
            return None;
        }
    }
    assert(d.subrange(0, n - start) =~= d);
    Some(acc as u8)
}

/// A byte in decimal, without leading zeros.
pub open spec fn u8_text(n: u8) -> Seq<char> {
    if n >= 100 {
        seq![digit_char(n as int / 100), digit_char((n as int / 10) % 10), digit_char(n as int % 10)]
    } else if n >= 10 {
        seq![digit_char(n as int / 10), digit_char(n as int % 10)]
    } else {
        seq![digit_char(n as int)]
    }
}

pub open spec fn digit_char(d: int) -> char {
    seq!['0', '1', '2', '3', '4', '5', '6', '7', '8', '9'][d]
}

fn digit(d: u8) -> (r: char)
    requires
        d < 10,
    ensures
        r == digit_char(d as int),
{
    let digits = vec!['0', '1', '2', '3', '4', '5', '6', '7', '8', '9'];
    assert(digits@ =~= seq!['0', '1', '2', '3', '4', '5', '6', '7', '8', '9']);
    digits[d as usize]
}

fn push_u8(s: &mut String, n: u8)
    ensures
        final(s)@ == old(s)@ + u8_text(n),
{
    let ghost start = s@;
    if n >= 100 {
        push_char(s, digit(n / 100));
        push_char(s, digit((n / 10) % 10));
        push_char(s, digit(n % 10));
    } else if n >= 10 {
        push_char(s, digit(n / 10));
        push_char(s, digit(n % 10));
    } else {
        push_char(s, digit(n));
    }
    assert(s@ =~= start + u8_text(n));
}

// ---------------------------------------------------------------------------
// Parsing a binding
/// What `str::to_lowercase` gives for a string.
pub uninterp spec fn lower_of(s: Seq<char>) -> Seq<char>;

/// Relies on `str::to_lowercase`: the result depends on the characters
/// alone, and an empty string stays empty.
#[verifier::external_body]
fn lowercase(s: &str) -> (r: String)
    ensures
        r@ == lower_of(s@),
        s@.len() == 0 ==> r@.len() == 0,
{
    s.to_lowercase()
}

pub open spec fn is_angle(c: char) -> bool {
    c == '<' || c == '>'
}

pub open spec fn skip_angles(s: Seq<char>, i: int) -> int
    decreases s.len() - i,
{
    if 0 <= i < s.len() && is_angle(s[i]) {
        skip_angles(s, i + 1)
    } else {
        i
    }
}

pub open spec fn back_angles(s: Seq<char>, j: int) -> int
    decreases j,
{
    if 0 < j <= s.len() && is_angle(s[j - 1]) {
        back_angles(s, j - 1)
    } else {
        j
    }
}

/// `s` without the `<` and `>` at either end, as `trim_matches` leaves it.
pub open spec fn angle_inside(s: Seq<char>) -> Seq<char> {
    let a = skip_angles(s, 0);
    let b = back_angles(s, s.len() as int);
    if a < b {
        s.subrange(a, b)
    } else {
        Seq::empty()
    }
}

/// The first index at or after `i` that holds `c` (or the length).
pub open spec fn find_char(s: Seq<char>, c: char, i: int) -> int
    decreases s.len() - i,
{
    if 0 <= i < s.len() && s[i] != c {
        find_char(s, c, i + 1)
    } else {
        i
    }
}

/// The part of `s` before its first `-`.
pub open spec fn dash_head(s: Seq<char>) -> Seq<char> {
    s.subrange(0, find_char(s, '-', 0))
}

/// The first character of the part between the first and the second `-`.
pub open spec fn combo_char(s: Seq<char>) -> Option<char> {
    let d = find_char(s, '-', 0);
    if d + 1 < s.len() && s[d + 1] != '-' {
        Some(s[d + 1])
    } else {
        None
    }
}

/// The key that a lower-case name such as `esc` or `pagedown` stands for.
pub open spec fn special_key(l: Seq<char>) -> Option<KeyEvent> {
    if l == "bs"@ || l == "backspace"@ {
        Some(KeyEvent::Backspace)
    } else if l == "enter"@ || l == "cr"@ {
        Some(KeyEvent::Char('\n'))
    } else if l == "tab"@ {
        Some(KeyEvent::Char('\t'))
    } else if l == "backtab"@ {
        Some(KeyEvent::BackTab)
    } else if l == "esc"@ {
        Some(KeyEvent::Esc)
    } else if l == "up"@ {
        Some(KeyEvent::Up)
    } else if l == "down"@ {
        Some(KeyEvent::Down)
    } else if l == "left"@ {
        Some(KeyEvent::Left)
    } else if l == "right"@ {
        Some(KeyEvent::Right)
    } else if l == "home"@ {
        Some(KeyEvent::Home)
    } else if l == "end"@ {
        Some(KeyEvent::End)
    } else if l == "pageup"@ {
        Some(KeyEvent::PageUp)
    } else if l == "pagedown"@ {
        Some(KeyEvent::PageDown)
    } else if l == "delete"@ || l == "del"@ {
        Some(KeyEvent::Delete)
    } else if l == "insert"@ {
        Some(KeyEvent::Insert)
    } else if l == "null"@ {
        Some(KeyEvent::Null)
    } else {
        None
    }
}

pub open spec fn quoted(before: Seq<char>, s: Seq<char>, after: Seq<char>) -> Seq<char> {
    before + s + after
}

/// The binding that text `s` describes, or the message that rejects it.
/// `inside_lower` is the lower-case form of `angle_inside(s)`, and
/// `head_lower` that of `dash_head(angle_inside(s))`.
///
/// The empty string is the null key; one ASCII character is that
/// character; `<F12>` is a function key; `<C-x>` and `<M-x>` (or `<A-x>`)
/// are combinations with Ctrl and Alt; `<name>` is a named key.
pub open spec fn parse_key(s: Seq<char>, inside_lower: Seq<char>, head_lower: Seq<char>) -> Result<
    KeyEvent,
    Seq<char>,
> {
    if s.len() == 0 {
        Ok(KeyEvent::Null)
    } else if s.len() == 1 && (s[0] as u32) < 128 {
        Ok(KeyEvent::Char(s[0]))
    } else if s[0] == '<' {
        let inside = angle_inside(s);
        if inside_lower.len() > 0 && inside_lower[0] == 'f' {
            let number = if inside.len() > 0 {
                inside.drop_first()
            } else {
                inside
            };
            match u8_of(number) {
                Some(n) => Ok(KeyEvent::F(n)),
                None => Err(
                    quoted("Could not parse '"@, s, "' as a function key (e.g. <F12>)"@),
                ),
            }
        } else if find_char(inside, '-', 0) < inside.len() {
            if head_lower == "c"@ {
                match combo_char(inside) {
                    Some(c) => Ok(KeyEvent::Ctrl(c)),
                    None => Err(quoted("Could not parse '"@, s, "' as a ctrl combo (e.g. <c-x>)"@)),
                }
            } else if head_lower == "m"@ || head_lower == "a"@ {
                match combo_char(inside) {
                    Some(c) => Ok(KeyEvent::Alt(c)),
                    None => Err(
                        quoted(
                            "Could not parse '"@,
                            s,
                            "' as a meta combo (e.g. <m-x> or <a-x>)"@,
                        ),
                    ),
                }
            } else {
                Err(quoted("Unrecognized control char in '"@, s, "'"@))
            }
        } else {
            match special_key(inside_lower) {
                Some(k) => Ok(k),
                None => Err(quoted("Unrecognized special key: "@, s, ""@)),
            }
        }
    } else {
        Err(quoted("Unrecognized keymap format: "@, s, ""@))
    }
}

/// The outcome of parsing, stated against `parse_key`.
pub open spec fn parsed_as(
    r: Result<KeyBind, ConfigError>,
    expected: Result<KeyEvent, Seq<char>>,
) -> bool {
    match r {
        Ok(kb) => expected == Ok::<KeyEvent, Seq<char>>(kb.0),
        Err(e) => expected == Err::<KeyEvent, Seq<char>>(e.message()),
    }
}

fn error_quoting(before: &str, s: &str, after: &str) -> (r: ConfigError)
    ensures
        r.message() == quoted(before@, s@, after@),
{
    let mut m = String::from_str(before);
    m.append(s);
    m.append(after);
    ConfigError { details: m }
}

fn angle_inside_of(s: &str) -> (r: String)
    ensures
        r@ == angle_inside(s@),
{
    let cs = chars_of(s);
    let n = cs.len();
    let mut a: usize = 0;
    while a < n && (cs[a] == '<' || cs[a] == '>')
        invariant
            cs@ == s@,
            n == s@.len(),
            a <= n,
            skip_angles(s@, a as int) == skip_angles(s@, 0),
        decreases n - a,
    {
        a = a + 1;
    }
    let mut b: usize = n;
    while b > 0 && (cs[b - 1] == '<' || cs[b - 1] == '>')
        invariant
            cs@ == s@,
            n == s@.len(),
            b <= n,
            back_angles(s@, b as int) == back_angles(s@, n as int),
        decreases b,
    {
        b = b - 1;
    }
    if a < b {
        slice(s, a, b)
    } else {
        String::new()
    }
}

fn find_dash(cs: &Vec<char>) -> (r: usize)
    ensures
        r == find_char(cs@, '-', 0),
{
    let mut i: usize = 0;
    while i < cs.len() && cs[i] != '-'
        invariant
            i <= cs@.len(),
            find_char(cs@, '-', i as int) == find_char(cs@, '-', 0),
        decreases cs@.len() - i,
    {
        i = i + 1;
    }
    i
}

pub proof fn lemma_find_char_bounds(s: Seq<char>, c: char, i: int)
    requires
        0 <= i <= s.len(),
    ensures
        i <= find_char(s, c, i) <= s.len(),
        find_char(s, c, i) < s.len() ==> s[find_char(s, c, i)] == c,
    decreases s.len() - i,
{
    if i < s.len() && s[i] != c {
        lemma_find_char_bounds(s, c, i + 1);
    }
}

fn combo_char_of(inside: &Vec<char>) -> (r: Option<char>)
    ensures
        r == combo_char(inside@),
{
    let d = find_dash(inside);
    proof {
        lemma_find_char_bounds(inside@, '-', 0);
    }
    if d < inside.len() && d + 1 < inside.len() && inside[d + 1] != '-' {
        Some(inside[d + 1])
    } else {
        None
    }
}

fn special_key_of(l: &str) -> (r: Option<KeyEvent>)
    ensures
        r == special_key(l@),
{
    if same_text(l, "bs") || same_text(l, "backspace") {
        Some(KeyEvent::Backspace)
    } else if same_text(l, "enter") || same_text(l, "cr") {
        Some(KeyEvent::Char('\n'))
    } else if same_text(l, "tab") {
        Some(KeyEvent::Char('\t'))
    } else if same_text(l, "backtab") {
        Some(KeyEvent::BackTab)
    } else if same_text(l, "esc") {
        Some(KeyEvent::Esc)
    } else if same_text(l, "up") {
        Some(KeyEvent::Up)
    } else if same_text(l, "down") {
        Some(KeyEvent::Down)
    } else if same_text(l, "left") {
        Some(KeyEvent::Left)
    } else if same_text(l, "right") {
        Some(KeyEvent::Right)
    } else if same_text(l, "home") {
        Some(KeyEvent::Home)
    } else if same_text(l, "end") {
        Some(KeyEvent::End)
    } else if same_text(l, "pageup") {
        Some(KeyEvent::PageUp)
    } else if same_text(l, "pagedown") {
        Some(KeyEvent::PageDown)
    } else if same_text(l, "delete") || same_text(l, "del") {
        Some(KeyEvent::Delete)
    } else if same_text(l, "insert") {
        Some(KeyEvent::Insert)
    } else if same_text(l, "null") {
        Some(KeyEvent::Null)
    } else {
        None
    }
}

impl KeyBind {
    /// Parses binding text `s`, given the lower-case forms of the text
    /// between its angle brackets and of that text's part before its first
    /// `-`; see `parse_key`.
    pub fn from_lowered(s: &str, inside_lower: &str, head_lower: &str) -> (r: Result<
        KeyBind,
        ConfigError,
    >)
        ensures
            parsed_as(r, parse_key(s@, inside_lower@, head_lower@)),
    {
        let cs = chars_of(s);
        let n = cs.len();
        if n == 0 {
            return Ok(KeyBind(KeyEvent::Null));
        }
        if n == 1 && (cs[0] as u32) < 128 {
            return Ok(KeyBind(KeyEvent::Char(cs[0])));
        }
        if cs[0] != '<' {
            return Err(error_quoting("Unrecognized keymap format: ", s, ""));
        }
        let inside = angle_inside_of(s);
        let inside_chars = chars_of(inside.as_str());
        let lower_chars = chars_of(inside_lower);
        if lower_chars.len() > 0 && lower_chars[0] == 'f' {
            let number = if inside_chars.len() > 0 {
                slice(inside.as_str(), 1, inside_chars.len())
            } else {
                String::new()
            };
            proof {
                if inside@.len() > 0 {
                    assert(inside@.drop_first() =~= inside@.subrange(1, inside@.len() as int));
                } else {
                    assert(inside@ =~= Seq::<char>::empty());
                }
            }
            return match parse_u8(number.as_str()) {
                Some(k) => Ok(KeyBind(KeyEvent::F(k))),
                None => Err(
                    error_quoting("Could not parse '", s, "' as a function key (e.g. <F12>)"),
                ),
            };
        }
        if find_dash(&inside_chars) < inside_chars.len() {
            if same_text(head_lower, "c") {
                match combo_char_of(&inside_chars) {
                    Some(c) => Ok(KeyBind(KeyEvent::Ctrl(c))),
                    None => Err(
                        error_quoting("Could not parse '", s, "' as a ctrl combo (e.g. <c-x>)"),
                    ),
                }
            } else if same_text(head_lower, "m") || same_text(head_lower, "a") {
                match combo_char_of(&inside_chars) {
                    Some(c) => Ok(KeyBind(KeyEvent::Alt(c))),
                    None => Err(
                        error_quoting(
                            "Could not parse '",
                            s,
                            "' as a meta combo (e.g. <m-x> or <a-x>)",
                        ),
                    ),
                }
            } else {
                Err(error_quoting("Unrecognized control char in '", s, "'"))
            }
        } else {
            match special_key_of(inside_lower) {
                Some(k) => Ok(KeyBind(k)),
                None => Err(error_quoting("Unrecognized special key: ", s, "")),
            }
        }
    }

    /// Parses binding text such as `a`, `<C-n>`, `<F5>` or `<Tab>`; names
    /// and modifier letters are matched without regard to case.
    pub fn parse(s: &str) -> (r: Result<KeyBind, ConfigError>)
        ensures
            parsed_as(
                r,
                parse_key(s@, lower_of(angle_inside(s@)), lower_of(dash_head(angle_inside(s@)))),
            ),
    {
        let inside = angle_inside_of(s);
        let inside_chars = chars_of(inside.as_str());
        let d = find_dash(&inside_chars);
        proof {
            lemma_find_char_bounds(inside@, '-', 0);
        }
        let head = slice(inside.as_str(), 0, d);
        let inside_lower = lowercase(inside.as_str());
        let head_lower = lowercase(head.as_str());
        KeyBind::from_lowered(s, inside_lower.as_str(), head_lower.as_str())
    }
}

impl std::str::FromStr for KeyBind {
    type Err = ConfigError;

    fn from_str(s: &str) -> Result<KeyBind, ConfigError> {
        KeyBind::parse(s)
    }
}

// ---------------------------------------------------------------------------
// Writing a binding
/// The text form of a key: a character stands for itself, newline and tab
/// are `<CR>` and `<Tab>`, combinations are `<C-x>` and `<M-x>`, function
/// keys `<Fn>`, and other keys their name in angle brackets.
pub open spec fn key_text(k: KeyEvent) -> Seq<char> {
    match k {
        KeyEvent::Char(c) => if c == '\n' {
            "<CR>"@
        } else if c == '\t' {
            "<Tab>"@
        } else {
            seq![c]
        },
        KeyEvent::Ctrl(c) => "<C-"@ + seq![c] + ">"@,
        KeyEvent::Alt(c) => "<M-"@ + seq![c] + ">"@,
        KeyEvent::F(n) => "<F"@ + u8_text(n) + ">"@,
        KeyEvent::Backspace => "<Backspace>"@,
        KeyEvent::Left => "<Left>"@,
        KeyEvent::Right => "<Right>"@,
        KeyEvent::Up => "<Up>"@,
        KeyEvent::Down => "<Down>"@,
        KeyEvent::Home => "<Home>"@,
        KeyEvent::End => "<End>"@,
        KeyEvent::PageUp => "<PageUp>"@,
        KeyEvent::PageDown => "<PageDown>"@,
        KeyEvent::BackTab => "<BackTab>"@,
        KeyEvent::Delete => "<Delete>"@,
        KeyEvent::Insert => "<Insert>"@,
        KeyEvent::Null => "<Null>"@,
        KeyEvent::Esc => "<Esc>"@,
        KeyEvent::CtrlUp => "<CtrlUp>"@,
        KeyEvent::CtrlDown => "<CtrlDown>"@,
        KeyEvent::CtrlRight => "<CtrlRight>"@,
        KeyEvent::CtrlLeft => "<CtrlLeft>"@,
        KeyEvent::ShiftUp => "<ShiftUp>"@,
        KeyEvent::ShiftDown => "<ShiftDown>"@,
        KeyEvent::ShiftRight => "<ShiftRight>"@,
        KeyEvent::ShiftLeft => "<ShiftLeft>"@,
    }
}

impl KeyBind {
    /// The text form of this binding; see `key_text`.
    pub fn to_text(&self) -> (r: String)
        ensures
            r@ == key_text(self.0),
    {
        match self.0 {
            KeyEvent::Char(c) => if c == '\n' {
                String::from_str("<CR>")
            } else if c == '\t' {
                String::from_str("<Tab>")
            } else {
                let mut r = String::new();
                push_char(&mut r, c);
                assert(r@ =~= seq![c]);
                r
            },
            KeyEvent::Ctrl(c) => {
                let mut r = String::from_str("<C-");
                push_char(&mut r, c);
                r.append(">");
                r
            },
            KeyEvent::Alt(c) => {
                let mut r = String::from_str("<M-");
                push_char(&mut r, c);
                r.append(">");
                r
            },
            KeyEvent::F(n) => {
                let mut r = String::from_str("<F");
                push_u8(&mut r, n);
                r.append(">");
                r
            },
            KeyEvent::Backspace => String::from_str("<Backspace>"),
            KeyEvent::Left => String::from_str("<Left>"),
            KeyEvent::Right => String::from_str("<Right>"),
            KeyEvent::Up => String::from_str("<Up>"),
            KeyEvent::Down => String::from_str("<Down>"),
            KeyEvent::Home => String::from_str("<Home>"),
            KeyEvent::End => String::from_str("<End>"),
            KeyEvent::PageUp => String::from_str("<PageUp>"),
            KeyEvent::PageDown => String::from_str("<PageDown>"),
            KeyEvent::BackTab => String::from_str("<BackTab>"),
            KeyEvent::Delete => String::from_str("<Delete>"),
            KeyEvent::Insert => String::from_str("<Insert>"),
            KeyEvent::Null => String::from_str("<Null>"),
            KeyEvent::Esc => String::from_str("<Esc>"),
            KeyEvent::CtrlUp => String::from_str("<CtrlUp>"),
            KeyEvent::CtrlDown => String::from_str("<CtrlDown>"),
            KeyEvent::CtrlRight => String::from_str("<CtrlRight>"),
            KeyEvent::CtrlLeft => String::from_str("<CtrlLeft>"),
            KeyEvent::ShiftUp => String::from_str("<ShiftUp>"),
            KeyEvent::ShiftDown => String::from_str("<ShiftDown>"),
            KeyEvent::ShiftRight => String::from_str("<ShiftRight>"),
            KeyEvent::ShiftLeft => String::from_str("<ShiftLeft>"),
        }
    }
}

} // verus!
