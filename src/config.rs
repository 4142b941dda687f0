//! Configuration: actions and their key bindings, validation of the engine
//! table, and the built-in defaults.
use vstd::prelude::*;
use vstd::string::*;

use crate::engine::{Color, Engine, Prompt, SuggestionAdapterName, DEFAULT_NAME};
use crate::keys::{ConfigError, KeyBind, KeyEvent};
use crate::registry::Registry;
use crate::text::{has_ws, is_whitespace, same_text};

verus! {

/// What a key can be bound to.
#[derive(Clone, Copy, PartialEq, Eq, Structural, Debug)]
pub enum BindableAction {
    SelectNext,
    SelectPrev,
    DeleteWord,
    DeleteChar,
    Exit,
    Submit,
    ClearInput,
    AddChar(char),
}

/// A configuration as it is loaded: engines under their configured keys
/// (the default engine under `_default`) and the key bindings.
pub struct Config {
    pub engines: Vec<(String, Engine)>,
    pub keybinds: Vec<(KeyBind, BindableAction)>,
}

// ---------------------------------------------------------------------------
// Key bindings
/// The action of the first binding of `key` in `table` at or after `i`.
pub open spec fn bound_action(table: Seq<(KeyBind, BindableAction)>, key: KeyBind, i: int) -> Option<
    BindableAction,
>
    decreases table.len() - i,
{
    if i < 0 || i >= table.len() {
        None
    } else if table[i].0 == key {
        Some(table[i].1)
    } else {
        bound_action(table, key, i + 1)
    }
}

/// The action a key press stands for: its binding, else typing the
/// character for a character key, else nothing.
pub open spec fn action_of(table: Seq<(KeyBind, BindableAction)>, key: KeyEvent) -> Option<
    BindableAction,
> {
    match bound_action(table, KeyBind(key), 0) {
        Some(a) => Some(a),
        None => match key {
            KeyEvent::Char(c) => Some(BindableAction::AddChar(c)),
            _ => None,
        },
    }
}

/// The action bound to `key`, if any.
pub fn action_for(keybinds: &Vec<(KeyBind, BindableAction)>, key: KeyBind) -> (r: Option<
    BindableAction,
>)
    ensures
        r == bound_action(keybinds@, key, 0),
{
    let mut i: usize = 0;
    while i < keybinds.len()
        invariant
            i <= keybinds@.len(),
            bound_action(keybinds@, key, i as int) == bound_action(keybinds@, key, 0),
        decreases keybinds@.len() - i,
    {
        if keybinds[i].0 == key {
            return Some(keybinds[i].1);
        }
        i = i + 1;
    }
    None
}

/// The action that a key press stands for; see `action_of`.
pub fn logical_action(keybinds: &Vec<(KeyBind, BindableAction)>, key: KeyEvent) -> (r: Option<
    BindableAction,
>)
    ensures
        r == action_of(keybinds@, key),
{
    match action_for(keybinds, KeyBind(key)) {
        Some(a) => Some(a),
        None => match key {
            KeyEvent::Char(c) => Some(BindableAction::AddChar(c)),
            _ => None,
        },
    }
}

// ---------------------------------------------------------------------------
// Validation
/// A key that names an engine other than the default one.
pub open spec fn valid_prefix(k: Seq<char>) -> bool {
    k.len() > 0 && k != "_default"@ && !has_ws(k)
}

/// The index of the first entry keyed by `k` at or after `i`, or the length.
pub open spec fn first_keyed(raw: Seq<(String, Engine)>, k: Seq<char>, i: int) -> int
    decreases raw.len() - i,
{
    if i < 0 || i >= raw.len() {
        raw.len() as int
    } else if raw[i].0@ == k {
        i
    } else {
        first_keyed(raw, k, i + 1)
    }
}

/// Some entry of `raw` before index `n` is keyed by `k`.
pub open spec fn keyed_before(raw: Seq<(String, Engine)>, k: Seq<char>, n: int) -> bool {
    exists|j: int| 0 <= j < n && #[trigger] raw[j].0@ == k
}

/// The prompt text of a validated engine: the engine's name between spaces
/// where the configuration left the text unset.
pub open spec fn prompt_text(text: Seq<char>, name: Seq<char>) -> Seq<char> {
    if text == DEFAULT_NAME@ {
        " "@ + name + " "@
    } else {
        text
    }
}

/// `new` is `old` with its prompt text filled in.
pub open spec fn named_prompt(new: Engine, old: Engine) -> bool {
    &&& new.name == old.name
    &&& new.suggestion_url == old.suggestion_url
    &&& new.search_url == old.search_url
    &&& new.space_becomes == old.space_becomes
    &&& new.suggestion_adapter == old.suggestion_adapter
    &&& new.prompt.icon_fg == old.prompt.icon_fg
    &&& new.prompt.icon_bg == old.prompt.icon_bg
    &&& new.prompt.icon == old.prompt.icon
    &&& new.prompt.text_fg == old.prompt.text_fg
    &&& new.prompt.text_bg == old.prompt.text_bg
    &&& new.prompt.text@ == prompt_text(old.prompt.text@, old.name@)
}

/// The entries of `raw[..n]` whose key holds whitespace, as (key, engine name).
pub open spec fn ignored_entries(raw: Seq<(String, Engine)>, n: int) -> Seq<(Seq<char>, Seq<char>)>
    decreases n,
{
    if n <= 0 || n > raw.len() {
        Seq::empty()
    } else if has_ws(raw[n - 1].0@) {
        ignored_entries(raw, n - 1).push((raw[n - 1].0@, raw[n - 1].1.name@))
    } else {
        ignored_entries(raw, n - 1)
    }
}

/// The table that validation builds from `raw[..n]`, default engine aside.
pub open spec fn validated_so_far(reg: Map<Seq<char>, Engine>, raw: Seq<(String, Engine)>, n: int) -> bool {
    &&& forall|k: Seq<char>| #[trigger]
        reg.contains_key(k) <==> (valid_prefix(k) && keyed_before(raw, k, n))
    &&& forall|k: Seq<char>| #[trigger]
        reg.contains_key(k) ==> named_prompt(reg[k], raw[first_keyed(raw, k, 0)].1)
}

/// `reg` and `ignored` are what validation makes of `raw`; see `validate_config`.
pub open spec fn validated(raw: Seq<(String, Engine)>, reg: Registry, ignored: Vec<(String, String)>) -> bool {
    &&& reg.wf()
    &&& forall|k: Seq<char>| #[trigger]
        reg@.contains_key(k) <==> (k.len() == 0 || (valid_prefix(k) && keyed_before(
            raw,
            k,
            raw.len() as int,
        )))
    &&& named_prompt(
        reg@[Seq::empty()],
        raw[first_keyed(raw, "_default"@, 0)].1,
    )
    &&& forall|k: Seq<char>| #[trigger]
        reg@.contains_key(k) && k.len() > 0 ==> named_prompt(
            reg@[k],
            raw[first_keyed(raw, k, 0)].1,
        )
    &&& ignored@.map_values(|p: (String, String)| (p.0@, p.1@)) == ignored_entries(
        raw,
        raw.len() as int,
    )

}

fn with_prompt_text(engine: Engine) -> (r: Engine)
    ensures
        named_prompt(r, engine),
{
    let mut engine = engine;
    if same_text(engine.prompt.text.as_str(), DEFAULT_NAME) {
        let mut text = String::from_str(" ");
        text.append(engine.name.as_str());
        text.append(" ");
        engine.prompt.text = text;
    }
    engine
}

fn holds_whitespace(s: &str) -> (r: bool)
    ensures
        r == has_ws(s@),
{
    let cs = crate::text::chars_of(s);
    let mut i: usize = 0;
    while i < cs.len()
        invariant
            cs@ == s@,
            i <= cs@.len(),
            forall|j: int| 0 <= j < i ==> !crate::text::is_ws(#[trigger] s@[j]),
        decreases cs@.len() - i,
    {
        if is_whitespace(cs[i]) {
            assert(crate::text::is_ws(s@[i as int]));
            return true;
        }
        i = i + 1;
    }
    false
}

proof fn lemma_first_keyed(raw: Seq<(String, Engine)>, k: Seq<char>, i: int, n: int)
    requires
        0 <= i <= n <= raw.len(),
        forall|j: int| i <= j < n ==> raw[j].0@ != k,
        n < raw.len() ==> raw[n].0@ == k,
    ensures
        first_keyed(raw, k, i) == n,
    decreases n - i,
{
    if i < n {
        lemma_first_keyed(raw, k, i + 1, n);
    }
}

/// Turns a loaded engine table into a registry: the engine under
/// `_default` becomes the default engine (under the empty prefix), entries
/// keyed by the empty prefix or by a key holding whitespace are left out,
/// the first entry of a key wins, and each prompt left without text gets the
/// engine's name. Also returns the entries left out for whitespace, as
/// (key, engine name), for the user to be told. Fails when there is no
/// `_default` entry.
pub fn validate_config(engines: Vec<(String, Engine)>) -> (r: Result<
    (Registry, Vec<(String, String)>),
    ConfigError,
>)
    ensures
        r is Ok <==> keyed_before(engines@, "_default"@, engines@.len() as int),
        r is Ok ==> validated(engines@, r->Ok_0.0, r->Ok_0.1),
        r matches Err(e) ==> e.message() == "No '_default' search engine found!!!"@,
{
    let ghost raw = engines@;
    let n = engines.len();
    let mut rest = engines;
    let mut registry = Registry::new();
    let mut default: Option<Engine> = None;
    let mut ignored: Vec<(String, String)> = Vec::new();
    let mut i: usize = 0;
    proof {
        reveal_strlit("_default");
        reveal_strlit("");
    }
    assert(registry@ =~= Map::<Seq<char>, Engine>::empty());
    while i < n
        invariant
            n == raw.len(),
            i <= n,
            rest@ == raw.subrange(i as int, n as int),
            registry.inv(),
            validated_so_far(registry@, raw, i as int),
            default is Some <==> keyed_before(raw, "_default"@, i as int),
            default matches Some(d) ==> named_prompt(d, raw[first_keyed(raw, "_default"@, 0)].1),
            ignored@.map_values(|p: (String, String)| (p.0@, p.1@)) == ignored_entries(
                raw,
                i as int,
            ),
        decreases n - i,
    {
        let ghost ignored_before = ignored@.map_values(|p: (String, String)| (p.0@, p.1@));
        assert(rest@[0] == raw[i as int]);
        let (key, engine) = rest.remove(0);
        assert(rest@ =~= raw.subrange(i + 1, n as int));
        let ghost k = key@;
        let ghost engine_name = engine.name@;
        assert(engine_name == raw[i as int].1.name@);
        proof {
            reveal_strlit("_default");
            assert("_default"@ =~= seq!['_', 'd', 'e', 'f', 'a', 'u', 'l', 't']);
            if k == "_default"@ || k.len() == 0 {
                assert forall|j: int| 0 <= j < k.len() implies !crate::text::is_ws(#[trigger] k[j]) by {
                    assert(k[j] == "_default"@[j]);
                }
            }
            if !keyed_before(raw, k, i as int) {
                lemma_first_keyed(raw, k, 0, i as int);
            }
        }
        if same_text(key.as_str(), "_default") {
            if default.is_none() {
                default = Some(with_prompt_text(engine));
            }
        } else if key.unicode_len() == 0 {
        } else if holds_whitespace(key.as_str()) {
            let name = engine.name;
            ignored.push((key, name));
        } else if registry.lookup(key.as_str()).is_none() {
            registry.insert(key, with_prompt_text(engine));
        }
        i = i + 1;
        proof {
            assert(raw[i - 1].0@ == k);
            assert forall|q: Seq<char>| #[trigger] keyed_before(raw, q, i as int) <==> (keyed_before(raw, q, i - 1) || q == k) by {
                if keyed_before(raw, q, i as int) {
                    let j = choose|j: int| 0 <= j < i && #[trigger] raw[j].0@ == q;
                    if j < i - 1 {
                        assert(keyed_before(raw, q, i - 1));
                    }
                }
                if keyed_before(raw, q, i - 1) {
                    let j = choose|j: int| 0 <= j < i - 1 && #[trigger] raw[j].0@ == q;
                    assert(raw[j].0@ == q);
                }
                if q == k {
                    assert(raw[i - 1].0@ == q);
                }
            }
            assert(ignored_entries(raw, i as int) == if has_ws(k) {
                ignored_entries(raw, i - 1).push((k, raw[i - 1].1.name@))
            } else {
                ignored_entries(raw, i - 1)
            });
            if has_ws(k) {
                assert(ignored@.map_values(|p: (String, String)| (p.0@, p.1@)) =~= ignored_before.push(
                    (k, engine_name),
                ));
            } else {
                assert(ignored@.map_values(|p: (String, String)| (p.0@, p.1@)) =~= ignored_before);
            }
        }
    }
    assert(default is Some <==> keyed_before(engines@, "_default"@, engines@.len() as int));
    match default {
        None => Err(ConfigError::new("No '_default' search engine found!!!")),
        Some(d) => {
            proof {
                assert(!registry@.contains_key(""@));
            }
            let ghost before_default = registry@;
            registry.insert(String::new(), d);
            proof {
                assert(!has_ws(Seq::<char>::empty()));
                assert forall|q: Seq<char>| #[trigger] registry@.contains_key(q) implies !has_ws(q) by {
                    if q.len() > 0 {
                        assert(valid_prefix(q));
                    }
                }
            }
            proof {
                assert(registry.wf());
                assert forall|k: Seq<char>| #[trigger] registry@.contains_key(k) <==> (k.len() == 0 || (valid_prefix(k) && keyed_before(raw, k, raw.len() as int))) by {
                    if k.len() == 0 {
                        assert(k =~= Seq::<char>::empty());
                    } else {
                        assert(k != Seq::<char>::empty());
                        assert(registry@.contains_key(k) == before_default.contains_key(k));
                    }
                }
                assert(named_prompt(registry@[Seq::empty()], raw[first_keyed(raw, "_default"@, 0)].1));
                assert forall|k: Seq<char>| #[trigger] registry@.contains_key(k) && k.len() > 0 implies named_prompt(registry@[k], raw[first_keyed(raw, k, 0)].1) by {
                    assert(k != Seq::<char>::empty());
                    assert(before_default.contains_key(k));
                }
            }
            Ok((registry, ignored))
        },
    }
}

// ---------------------------------------------------------------------------
// Defaults
/// One engine of the built-in configuration.
pub struct DefaultEngine {
    pub prefix: Seq<char>,
    pub name: Seq<char>,
    pub suggestion_url: Seq<char>,
    pub search_url: Seq<char>,
    pub space_becomes: Seq<char>,
    pub icon_fg: Color,
    pub icon_bg: Color,
    pub icon: Seq<char>,
    pub text: Seq<char>,
}

/// The engines of the built-in configuration, in order.
pub open spec fn default_engines() -> Seq<DefaultEngine> {
    seq![
        DefaultEngine { prefix: "_default"@, name: "Google"@, suggestion_url: "https://www.google.com/complete/search?client=chrome&q=%s"@, search_url: "https://www.google.com/search?q=%s"@, space_becomes: "+"@, icon_fg: Color::White, icon_bg: Color::Blue, icon: " g "@, text: " Google "@ },
        DefaultEngine { prefix: "ddg"@, name: "DuckDuckGo"@, suggestion_url: "https://duckduckgo.com/ac/?q=%s&type=list"@, search_url: "https://duckduckgo.com/?q=%s"@, space_becomes: "+"@, icon_fg: Color::White, icon_bg: Color::Rgb { r: 222, g: 88, b: 51 }, icon: " ♞ "@, text: DEFAULT_NAME@ },
        DefaultEngine { prefix: "g"@, name: "Google (I'm Feeling Lucky)"@, suggestion_url: "https://www.google.com/complete/search?client=chrome&q=%s"@, search_url: "https://www.google.com/search?btnI&q=%s"@, space_becomes: "+"@, icon_fg: Color::White, icon_bg: Color::Blue, icon: " g "@, text: " I'm Feeling Lucky "@ },
        DefaultEngine { prefix: "red"@, name: "Reddit"@, suggestion_url: "https://www.google.com/complete/search?client=chrome&q=%s"@, search_url: "https://www.google.com/search?q=site:reddit.com+%s"@, space_becomes: "+"@, icon_fg: Color::White, icon_bg: Color::Rgb { r: 255, g: 69, b: 0 }, icon: " ⬬ "@, text: DEFAULT_NAME@ },
        DefaultEngine { prefix: "wkt"@, name: "Wiktionary"@, suggestion_url: "https://en.wiktionary.org/w/api.php?action=opensearch&search=%s&limit=15&namespace=0&format=json"@, search_url: "https://www.wiktionary.org/search-redirect.php?family=wiktionary&language=en&search=%s&go=Go"@, space_becomes: "+"@, icon_fg: Color::Black, icon_bg: Color::White, icon: "['w]"@, text: DEFAULT_NAME@ },
        DefaultEngine { prefix: "w"@, name: "Wikipedia"@, suggestion_url: "https://en.wikipedia.org/w/api.php?action=opensearch&search=%s&limit=15&namespace=0&format=json"@, search_url: "https://www.wikipedia.org/search-redirect.php?family=wikipedia&language=en&search=%s&language=en&go=Go"@, space_becomes: "+"@, icon_fg: Color::Black, icon_bg: Color::White, icon: " W "@, text: DEFAULT_NAME@ },
        DefaultEngine { prefix: "yt"@, name: "YouTube"@, suggestion_url: "http://suggestqueries.google.com/complete/search?client=firefox&ds=yt&q=%s"@, search_url: "https://www.youtube.com/results?q=%s"@, space_becomes: "+"@, icon_fg: Color::White, icon_bg: Color::Red, icon: " ▶ "@, text: DEFAULT_NAME@ },
        DefaultEngine { prefix: "r"@, name: "Subreddit"@, suggestion_url: "https://us-central1-subreddit-suggestions.cloudfunctions.net/suggest?query=%s"@, search_url: "https://www.reddit.com/r/%s"@, space_becomes: ""@, icon_fg: Color::White, icon_bg: Color::Rgb { r: 255, g: 69, b: 0 }, icon: " ⬬ "@, text: DEFAULT_NAME@ }
    ]
}

/// The key bindings of the built-in configuration, in order.
pub open spec fn default_keybinds() -> Seq<(KeyBind, BindableAction)> {
    seq![
        (KeyBind(KeyEvent::Ctrl('c')), BindableAction::Exit),
        (KeyBind(KeyEvent::Esc), BindableAction::Exit),
        (KeyBind(KeyEvent::Char('\n')), BindableAction::Submit),
        (KeyBind(KeyEvent::Ctrl('w')), BindableAction::DeleteWord),
        (KeyBind(KeyEvent::Ctrl('n')), BindableAction::SelectNext),
        (KeyBind(KeyEvent::Char('\t')), BindableAction::SelectNext),
        (KeyBind(KeyEvent::Down), BindableAction::SelectNext),
        (KeyBind(KeyEvent::Ctrl('p')), BindableAction::SelectPrev),
        (KeyBind(KeyEvent::BackTab), BindableAction::SelectPrev),
        (KeyBind(KeyEvent::Up), BindableAction::SelectPrev),
        (KeyBind(KeyEvent::Backspace), BindableAction::DeleteChar)
    ]
}

/// Entry `e` is engine `d` of the built-in configuration: its prompt text
/// is black on white and it reads OpenSearch suggestions.
pub open spec fn is_default_entry(e: (String, Engine), d: DefaultEngine) -> bool {
    &&& e.0@ == d.prefix
    &&& e.1.name@ == d.name
    &&& e.1.suggestion_url@ == d.suggestion_url
    &&& e.1.search_url@ == d.search_url
    &&& e.1.space_becomes@ == d.space_becomes
    &&& e.1.prompt.icon_fg == d.icon_fg
    &&& e.1.prompt.icon_bg == d.icon_bg
    &&& e.1.prompt.icon@ == d.icon
    &&& e.1.prompt.text_fg == Color::Black
    &&& e.1.prompt.text_bg == Color::White
    &&& e.1.prompt.text@ == d.text
    &&& e.1.suggestion_adapter is OpenSearch
}

fn push_engine(
    engs: &mut Vec<(String, Engine)>,
    prefix: &str,
    name: &str,
    suggestion_url: &str,
    search_url: &str,
    space_becomes: &str,
    icon_fg: Color,
    icon_bg: Color,
    icon: &str,
    text: &str,
)
    ensures
        final(engs)@.len() == old(engs)@.len() + 1,
        forall|i: int| 0 <= i < old(engs)@.len() ==> final(engs)@[i] == old(engs)@[i],
        is_default_entry(
            final(engs)@[old(engs)@.len() as int],
            DefaultEngine {
                prefix: prefix@,
                name: name@,
                suggestion_url: suggestion_url@,
                search_url: search_url@,
                space_becomes: space_becomes@,
                icon_fg,
                icon_bg,
                icon: icon@,
                text: text@,
            },
        ),
{
    let engine = Engine {
        name: String::from_str(name),
        suggestion_url: String::from_str(suggestion_url),
        search_url: String::from_str(search_url),
        space_becomes: String::from_str(space_becomes),
        prompt: Prompt {
            icon_fg,
            icon_bg,
            icon: String::from_str(icon),
            text_fg: Color::Black,
            text_bg: Color::White,
            text: String::from_str(text),
        },
        suggestion_adapter: SuggestionAdapterName::OpenSearch,
    };
    engs.push((String::from_str(prefix), engine));
}

/// The built-in configuration, used when none can be loaded.
#[verifier::rlimit(50)]
pub fn get_default_config() -> (r: Config)
    ensures
        r.engines@.len() == default_engines().len(),
        forall|i: int|
            0 <= i < r.engines@.len() ==> is_default_entry(
                #[trigger] r.engines@[i],
                default_engines()[i],
            ),
        r.keybinds@ == default_keybinds(),
{
    let mut engs: Vec<(String, Engine)> = Vec::new();
    push_engine(
        &mut engs,
        "_default",
        "Google",
        "https://www.google.com/complete/search?client=chrome&q=%s",
        "https://www.google.com/search?q=%s",
        "+",
        Color::White,
        Color::Blue,
        " g ",
        " Google ",
    );
    push_engine(
        &mut engs,
        "ddg",
        "DuckDuckGo",
        "https://duckduckgo.com/ac/?q=%s&type=list",
        "https://duckduckgo.com/?q=%s",
        "+",
        Color::White,
        Color::Rgb { r: 222, g: 88, b: 51 },
        " ♞ ",
        DEFAULT_NAME,
    );
    push_engine(
        &mut engs,
        "g",
        "Google (I'm Feeling Lucky)",
        "https://www.google.com/complete/search?client=chrome&q=%s",
        "https://www.google.com/search?btnI&q=%s",
        "+",
        Color::White,
        Color::Blue,
        " g ",
        " I'm Feeling Lucky ",
    );
    push_engine(
        &mut engs,
        "red",
        "Reddit",
        "https://www.google.com/complete/search?client=chrome&q=%s",
        "https://www.google.com/search?q=site:reddit.com+%s",
        "+",
        Color::White,
        Color::Rgb { r: 255, g: 69, b: 0 },
        " ⬬ ",
        DEFAULT_NAME,
    );
    push_engine(
        &mut engs,
        "wkt",
        "Wiktionary",
        "https://en.wiktionary.org/w/api.php?action=opensearch&search=%s&limit=15&namespace=0&format=json",
        "https://www.wiktionary.org/search-redirect.php?family=wiktionary&language=en&search=%s&go=Go",
        "+",
        Color::Black,
        Color::White,
        "['w]",
        DEFAULT_NAME,
    );
    push_engine(
        &mut engs,
        "w",
        "Wikipedia",
        "https://en.wikipedia.org/w/api.php?action=opensearch&search=%s&limit=15&namespace=0&format=json",
        "https://www.wikipedia.org/search-redirect.php?family=wikipedia&language=en&search=%s&language=en&go=Go",
        "+",
        Color::Black,
        Color::White,
        " W ",
        DEFAULT_NAME,
    );
    push_engine(
        &mut engs,
        "yt",
        "YouTube",
        "http://suggestqueries.google.com/complete/search?client=firefox&ds=yt&q=%s",
        "https://www.youtube.com/results?q=%s",
        "+",
        Color::White,
        Color::Red,
        " ▶ ",
        DEFAULT_NAME,
    );
    push_engine(
        &mut engs,
        "r",
        "Subreddit",
        "https://us-central1-subreddit-suggestions.cloudfunctions.net/suggest?query=%s",
        "https://www.reddit.com/r/%s",
        "",
        Color::White,
        Color::Rgb { r: 255, g: 69, b: 0 },
        " ⬬ ",
        DEFAULT_NAME,
    );
    let mut keybinds: Vec<(KeyBind, BindableAction)> = Vec::new();
    keybinds.push((KeyBind(KeyEvent::Ctrl('c')), BindableAction::Exit));
    keybinds.push((KeyBind(KeyEvent::Esc), BindableAction::Exit));
    keybinds.push((KeyBind(KeyEvent::Char('\n')), BindableAction::Submit));
    keybinds.push((KeyBind(KeyEvent::Ctrl('w')), BindableAction::DeleteWord));
    keybinds.push((KeyBind(KeyEvent::Ctrl('n')), BindableAction::SelectNext));
    keybinds.push((KeyBind(KeyEvent::Char('\t')), BindableAction::SelectNext));
    keybinds.push((KeyBind(KeyEvent::Down), BindableAction::SelectNext));
    keybinds.push((KeyBind(KeyEvent::Ctrl('p')), BindableAction::SelectPrev));
    keybinds.push((KeyBind(KeyEvent::BackTab), BindableAction::SelectPrev));
    keybinds.push((KeyBind(KeyEvent::Up), BindableAction::SelectPrev));
    keybinds.push((KeyBind(KeyEvent::Backspace), BindableAction::DeleteChar));
    assert(keybinds@ =~= default_keybinds());
    Config { engines: engs, keybinds }
}

// ---------------------------------------------------------------------------
// The configuration to run with
/// The engine registry and key bindings that the launcher runs with, the
/// entries left out for whitespace in their keys, and the error of a loaded
/// configuration that was set aside for the built-in one.
pub struct Settings {
    pub engines: Registry,
    pub keybinds: Vec<(KeyBind, BindableAction)>,
    pub ignored: Vec<(String, String)>,
    pub rejected: Option<ConfigError>,
}

/// `raw` is the engine table of the built-in configuration.
pub open spec fn is_default_table(raw: Seq<(String, Engine)>) -> bool {
    &&& raw.len() == default_engines().len()
    &&& forall|i: int| 0 <= i < raw.len() ==> is_default_entry(#[trigger] raw[i], default_engines()[i])
}

/// `r` runs with the built-in configuration.
pub open spec fn runs_default(r: Settings) -> bool {
    &&& exists|raw: Seq<(String, Engine)>| is_default_table(raw) && validated(raw, r.engines, r.ignored)
    &&& r.keybinds@ == default_keybinds()
}

fn default_settings(rejected: Option<ConfigError>) -> (r: Settings)
    ensures
        runs_default(r),
        r.engines.wf(),
        r.rejected == rejected,
{
    let config = get_default_config();
    let ghost raw = config.engines@;
    proof {
        assert(is_default_entry(raw[0], default_engines()[0]));
        assert(raw[0].0@ == "_default"@);
        assert(keyed_before(raw, "_default"@, raw.len() as int));
    }
    match validate_config(config.engines) {
        Ok((engines, ignored)) => {
            assert(is_default_table(raw));
            Settings { engines, keybinds: config.keybinds, ignored, rejected }
        },
        Err(_) => {
            assert(false);
            Settings { engines: Registry::new(), keybinds: config.keybinds, ignored: Vec::new(), rejected }
        },
    }
}

/// The configuration to run with: the loaded one where it validates, else
/// the built-in one. Where a loaded configuration is set aside, the error
/// that set it aside is kept for the user to be told.
pub fn settings_from(loaded: Option<Config>) -> (r: Settings)
    ensures
        r.engines.wf(),
        match loaded {
            Some(c) => if keyed_before(c.engines@, "_default"@, c.engines@.len() as int) {
                &&& validated(c.engines@, r.engines, r.ignored)
                &&& r.keybinds == c.keybinds
                &&& r.rejected is None
            } else {
                &&& runs_default(r)
                &&& r.rejected matches Some(e) && e.message() == "No '_default' search engine found!!!"@
            },
            None => runs_default(r) && r.rejected is None,
        },
{
    match loaded {
        None => default_settings(None),
        Some(c) => {
            let keybinds = c.keybinds;
            match validate_config(c.engines) {
                Ok((engines, ignored)) => Settings { engines, keybinds, ignored, rejected: None },
                Err(e) => default_settings(Some(e)),
            }
        },
    }
}

} // verus!
