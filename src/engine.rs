//! Search engines: their prompt style, their URL templates and how a search
//! term is put into a template.
use vstd::prelude::*;
use vstd::string::*;
use vstd::utf8::encode_utf8;

use crate::keys::{find_char, lemma_find_char_bounds};
use crate::registry::Registry;
use crate::text::{
    chars_of, has_ws, is_ws, lemma_back_ws_bounds, lemma_skip_word_bounds, lemma_skip_ws_bounds,
    push_char, same_text, skip_word, skip_word_at, skip_ws, skip_ws_at, slice, trim, trimmed,
    back_ws,
};

verus! {

/// Text that a prompt shows when the configuration leaves it unset; the
/// engine's name takes its place once the configuration is validated.
pub const DEFAULT_NAME: &'static str = "%%DEFAULT%%";

/// A terminal colour, as the renderer understands it.
#[derive(Clone, Copy, PartialEq, Eq, Structural, Debug)]
pub enum Color {
    Reset,
    Black,
    DarkGrey,
    Red,
    DarkRed,
    Green,
    DarkGreen,
    Yellow,
    DarkYellow,
    Blue,
    DarkBlue,
    Magenta,
    DarkMagenta,
    Cyan,
    DarkCyan,
    White,
    Grey,
    Rgb { r: u8, g: u8, b: u8 },
    AnsiValue(u8),
}

/// How an engine's prompt looks: a coloured icon, then coloured text.
pub struct Prompt {
    pub icon_fg: Color,
    pub icon_bg: Color,
    pub icon: String,
    pub text_fg: Color,
    pub text_bg: Color,
    pub text: String,
}

/// The icon part of a prompt alone, for narrow terminals.
pub struct ShortPrompt<'a>(pub &'a Prompt);

impl Prompt {
    pub fn to_short(&self) -> (r: ShortPrompt<'_>)
        ensures
            *r.0 == *self,
    {
        ShortPrompt(self)
    }
}

/// The prompt of an engine whose configuration gives none.
pub fn default_prompt() -> (r: Prompt)
    ensures
        r.icon_fg == Color::White,
        r.icon_bg == Color::Blue,
        r.icon@ == " > "@,
        r.text_fg == Color::Black,
        r.text_bg == Color::White,
        r.text@ == DEFAULT_NAME@,
{
    Prompt {
        icon_fg: Color::White,
        icon_bg: Color::Blue,
        icon: String::from_str(" > "),
        text_fg: Color::Black,
        text_bg: Color::White,
        text: String::from_str(DEFAULT_NAME),
    }
}

/// The prompt text that stands for "the engine's name".
pub fn default_name() -> (r: String)
    ensures
        r@ == DEFAULT_NAME@,
{
    String::from_str(DEFAULT_NAME)
}

/// Whether a prompt text is the placeholder for the engine's name.
pub fn is_default_name(s: &str) -> (r: bool)
    ensures
        r == (s@ == DEFAULT_NAME@),
{
    same_text(s, DEFAULT_NAME)
}

/// What a space in the search term becomes unless an engine says otherwise.
pub fn default_space_becomes() -> (r: String)
    ensures
        r@ == "+"@,
{
    String::from_str("+")
}

/// Whether an engine's space replacement is the usual one.
pub fn is_default_space_becomes(s: &str) -> (r: bool)
    ensures
        r == (s@ == "+"@),
{
    same_text(s, "+")
}

/// The default foreground of an icon and background of a prompt text.
pub fn white() -> (r: Color)
    ensures
        r == Color::White,
{
    Color::White
}

/// The default background of an icon and foreground of a prompt text.
pub fn black() -> (r: Color)
    ensures
        r == Color::Black,
{
    Color::Black
}

/// The shape of an engine's suggestion response.
pub enum SuggestionAdapterName {
    /// `[term, [candidate, ...]]`.
    OpenSearch,
    /// A dotted path of field names that leads to an array of candidates.
    JsonPath(String),
}

/// A search engine: a prompt, a search URL template and an optional
/// suggestion URL template (empty when the engine offers none). In a
/// template, `%s` stands for the encoded search term.
pub struct Engine {
    pub prompt: Prompt,
    pub name: String,
    pub suggestion_url: String,
    pub search_url: String,
    pub space_becomes: String,
    pub suggestion_adapter: SuggestionAdapterName,
}

/// The bytes that `percent_encoding::DEFAULT_ENCODE_SET` holds: controls,
/// everything outside printable ASCII, and space `"` `#` `<` `>` `` ` `` `?` `{` `}`.
pub open spec fn in_default_encode_set(b: u8) -> bool {
    b < 0x20 || b > 0x7E || b == 0x20 || b == 0x22 || b == 0x23 || b == 0x3C || b == 0x3E || b
        == 0x60 || b == 0x3F || b == 0x7B || b == 0x7D
}

/// An upper-case hexadecimal digit.
pub open spec fn hex_digit(d: int) -> char {
    seq!['0', '1', '2', '3', '4', '5', '6', '7', '8', '9', 'A', 'B', 'C', 'D', 'E', 'F'][d]
}

/// One byte after percent-encoding: `%XX` when the set holds it, else the byte's character.
pub open spec fn encode_byte(b: u8) -> Seq<char> {
    if in_default_encode_set(b) {
        seq!['%', hex_digit(b as int / 16), hex_digit(b as int % 16)]
    } else {
        seq![b as char]
    }
}

/// Percent-encoding of a byte string, byte by byte.
pub open spec fn percent_encoded(bytes: Seq<u8>) -> Seq<char>
    decreases bytes.len(),
{
    if bytes.len() == 0 {
        Seq::empty()
    } else {
        encode_byte(bytes[0]) + percent_encoded(bytes.drop_first())
    }
}

/// Relies on `percent_encoding::utf8_percent_encode` with `DEFAULT_ENCODE_SET`:
/// each UTF-8 byte of `s` that the set holds becomes `%XX` (upper-case hex),
/// every other byte stays as it is.
#[verifier::external_body]
fn percent_encode(s: &str) -> (r: String)
    ensures
        r@ == percent_encoded(s.spec_bytes()),
{
    percent_encoding::utf8_percent_encode(s, percent_encoding::DEFAULT_ENCODE_SET).to_string()
}

/// `s` with every occurrence of `pat`, from left to right and without
/// overlap, replaced by `rep` (as `str::replace` does); `s` itself for an
/// empty `pat`.
pub open spec fn replace_all(s: Seq<char>, pat: Seq<char>, rep: Seq<char>) -> Seq<char>
    decreases s.len(),
{
    if pat.len() == 0 || s.len() < pat.len() {
        s
    } else if s.subrange(0, pat.len() as int) == pat {
        rep + replace_all(s.subrange(pat.len() as int, s.len() as int), pat, rep)
    } else {
        seq![s[0]] + replace_all(s.drop_first(), pat, rep)
    }
}

/// Whether `pat` occurs in `s` at `i`.
fn occurs_at(s: &Vec<char>, i: usize, pat: &Vec<char>) -> (r: bool)
    requires
        i + pat@.len() <= s@.len(),
    ensures
        r == (s@.subrange(i as int, i + pat@.len()) == pat@),
{
    let sl = s.len();
    let mut k: usize = 0;
    while k < pat.len()
        invariant
            sl == s@.len(),
            i + pat@.len() <= s@.len(),
            k <= pat@.len(),
            s@.subrange(i as int, i + k) == pat@.subrange(0, k as int),
        decreases pat@.len() - k,
    {
        if s[i + k] != pat[k] {
            assert(s@.subrange(i as int, i + pat@.len())[k as int] != pat@[k as int]);
            return false;
        }
        k = k + 1;
        assert(s@.subrange(i as int, i + k) =~= pat@.subrange(0, k as int));
    }
    assert(pat@.subrange(0, k as int) =~= pat@);
    true
}

/// Replaces every occurrence of `pat` in `s` by `rep`.
pub fn replace(s: &str, pat: &Vec<char>, rep: &str) -> (r: String)
    ensures
        r@ == replace_all(s@, pat@, rep@),
{
    let cs = chars_of(s);
    let n = cs.len();
    let m = pat.len();
    if m == 0 {
        return String::from_str(s);
    }
    let mut r = String::new();
    let mut i: usize = 0;
    assert(s@.subrange(0, n as int) =~= s@);
    while i < n
        invariant
            cs@ == s@,
            n == s@.len(),
            m == pat@.len(),
            m > 0,
            i <= n,
            r@ + replace_all(s@.subrange(i as int, n as int), pat@, rep@) == replace_all(
                s@,
                pat@,
                rep@,
            ),
        decreases n - i,
    {
        let ghost rest = s@.subrange(i as int, n as int);
        if m <= n - i && occurs_at(&cs, i, pat) {
            proof {
                assert(rest.subrange(0, m as int) =~= s@.subrange(i as int, i + m));
                assert(rest.subrange(m as int, rest.len() as int) =~= s@.subrange(
                    i + m,
                    n as int,
                ));
            }
            r.append(rep);
            i = i + m;
        } else {
            proof {
                if m <= n - i {
                    assert(rest.subrange(0, m as int) =~= s@.subrange(i as int, i + m));
                }
                assert(rest.drop_first() =~= s@.subrange(i + 1, n as int));
            }
            push_char(&mut r, cs[i]);
            i = i + 1;
        }
        assert(r@ + replace_all(s@.subrange(i as int, n as int), pat@, rep@) =~= replace_all(
            s@,
            pat@,
            rep@,
        ));
    }
    assert(s@.subrange(n as int, n as int) =~= Seq::<char>::empty());
    assert(r@ =~= r@ + replace_all(s@.subrange(n as int, n as int), pat@, rep@));
    r
}

/// A run of the search term without spaces as it goes into a URL:
/// percent-encoded, then `+` as `%2B`.
pub open spec fn encoded_part(part: Seq<char>) -> Seq<char> {
    replace_all(percent_encoded(encode_utf8(part)), seq!['+'], seq!['%', '2', 'B'])
}

/// A search term as it goes into a URL: each space becomes `space` (the
/// engine's setting, put in as it is), and each run between spaces is
/// encoded as `encoded_part` says.
pub open spec fn encoded_term(term: Seq<char>, space: Seq<char>) -> Seq<char>
    decreases term.len(),
{
    let d = find_char(term, ' ', 0);
    if 0 <= d < term.len() {
        encoded_part(term.subrange(0, d)) + space + encoded_term(
            term.subrange(d + 1, term.len() as int),
            space,
        )
    } else {
        encoded_part(term)
    }
}

/// `template` with each `%s` replaced by the encoded term.
pub open spec fn filled_template(template: Seq<char>, term: Seq<char>, space: Seq<char>) -> Seq<
    char,
> {
    replace_all(template, seq!['%', 's'], encoded_term(term, space))
}

impl Engine {
    fn encode_part(s: &str) -> (r: String)
        ensures
            r@ == encoded_part(s@),
    {
        let e = percent_encode(s);
        let plus = vec!['+'];
        let mut rep = String::new();
        push_char(&mut rep, '%');
        push_char(&mut rep, '2');
        push_char(&mut rep, 'B');
        assert(rep@ =~= seq!['%', '2', 'B']);
        assert(plus@ =~= seq!['+']);
        replace(e.as_str(), &plus, rep.as_str())
    }

    fn encode(s: &str, space: &str) -> (r: String)
        ensures
            r@ == encoded_term(s@, space@),
    {
        let cs = chars_of(s);
        let n = cs.len();
        let mut r = String::new();
        let mut start: usize = 0;
        let mut done = false;
        assert(s@.subrange(0, n as int) =~= s@);
        while !done
            invariant
                cs@ == s@,
                n == s@.len(),
                start <= n,
                !done ==> r@ + encoded_term(s@.subrange(start as int, n as int), space@)
                    == encoded_term(s@, space@),
                done ==> r@ == encoded_term(s@, space@),
            decreases n - start + (if done {
                0int
            } else {
                1int
            }),
        {
            let ghost rest = s@.subrange(start as int, n as int);
            let mut d = start;
            while d < n && cs[d] != ' '
                invariant
                    cs@ == s@,
                    n == s@.len(),
                    start <= d <= n,
                    rest == s@.subrange(start as int, n as int),
                    find_char(rest, ' ', d - start) == find_char(rest, ' ', 0),
                decreases n - d,
            {
                d = d + 1;
            }
            proof {
                lemma_find_char_bounds(rest, ' ', 0);
                assert(rest.subrange(0, d - start) =~= s@.subrange(start as int, d as int));
            }
            let part = slice(s, start, d);
            let enc = Engine::encode_part(part.as_str());
            let ghost before = r@;
            r.append(enc.as_str());
            if d < n {
                proof {
                    assert(rest.subrange(d - start + 1, rest.len() as int) =~= s@.subrange(
                        d + 1,
                        n as int,
                    ));
                }
                r.append(space);
                assert(r@ =~= before + encoded_part(rest.subrange(0, d - start)) + space@);
                start = d + 1;
            } else {
                proof {
                    assert(rest.subrange(0, d - start) =~= rest);
                }
                done = true;
            }
        }
        r
    }

    fn fill(template: &str, search_term: &str, space: &str) -> (r: String)
        ensures
            r@ == filled_template(template@, search_term@, space@),
    {
        let enc = Engine::encode(search_term, space);
        let pat = vec!['%', 's'];
        assert(pat@ =~= seq!['%', 's']);
        replace(template, &pat, enc.as_str())
    }

    /// The URL that asks this engine for suggestions on `search_term`; each
    /// space of the term becomes the engine's `space_becomes`.
    pub fn format_suggestion_url(&self, search_term: &str) -> (r: String)
        ensures
            r@ == filled_template(self.suggestion_url@, search_term@, self.space_becomes@),
    {
        Engine::fill(self.suggestion_url.as_str(), search_term, self.space_becomes.as_str())
    }

    /// The URL that searches this engine for `search_term`; each space of
    /// the term becomes the engine's `space_becomes`.
    pub fn format_search_url(&self, search_term: &str) -> (r: String)
        ensures
            r@ == filled_template(self.search_url@, search_term@, self.space_becomes@),
    {
        Engine::fill(self.search_url.as_str(), search_term, self.space_becomes.as_str())
    }
}

/// How a line resolves against a table of engines: the prefix that selects
/// the engine (empty for the default engine) and the search term.
///
/// A line starting with `?` goes to the default engine with the rest of the
/// line as its term. Otherwise the first whitespace-delimited word selects an
/// engine when it is a key of `engines` and whitespace follows it; the term
/// is then the trimmed rest of the line. In every other case the default
/// engine gets the whole trimmed line.
pub open spec fn match_line(line: Seq<char>, engines: Map<Seq<char>, Engine>) -> (
    Seq<char>,
    Seq<char>,
) {
    if line.len() > 0 && line[0] == '?' {
        (Seq::empty(), line.drop_first())
    } else {
        let a = skip_ws(line, 0);
        let e = skip_word(line, a);
        if e == line.len() {
            (Seq::empty(), trim(line))
        } else if engines.contains_key(line.subrange(a, e)) {
            (line.subrange(a, e), trim(line.subrange(e, line.len() as int)))
        } else {
            (Seq::empty(), trim(line))
        }
    }
}

/// Resolves `input_line` to an engine, the prefix that selected it (empty
/// for the default engine) and the search term.
pub fn match_engine<'a>(input_line: &str, engines: &'a Registry) -> (r: (&'a Engine, String, String))
    requires
        engines.wf(),
    ensures
        r.1@ == match_line(input_line@, engines@).0,
        r.2@ == match_line(input_line@, engines@).1,
        *r.0 == engines@[r.1@],
{
    let cs = chars_of(input_line);
    let n = cs.len();
    let default_engine = engines.default_engine();
    if n > 0 && cs[0] == '?' {
        assert(input_line@.subrange(1, n as int) =~= input_line@.drop_first());
        return (default_engine, String::new(), slice(input_line, 1, n));
    }
    let a = skip_ws_at(&cs, 0);
    proof {
        lemma_skip_ws_bounds(cs@, 0);
    }
    let e = skip_word_at(&cs, a);
    proof {
        lemma_skip_word_bounds(cs@, a as int);
    }
    if e == n {
        return (default_engine, String::new(), trimmed(input_line));
    }
    let potential_prefix = slice(input_line, a, e);
    match engines.lookup(potential_prefix.as_str()) {
        Some(engine) => {
            let rest = slice(input_line, e, n);
            (engine, potential_prefix, trimmed(rest.as_str()))
        },
        None => (default_engine, String::new(), trimmed(input_line)),
    }
}

/// The line that accepting suggestion `selected` produces, given the prefix
/// that `selected` itself would select (`prefix_in_result`) and the prefix in
/// effect: escaped with `?` when it would select another engine, else behind
/// the prefix in effect and a space (or alone when that prefix is empty).
pub open spec fn line_from_selection(
    prefix_in_result: Seq<char>,
    current_prefix: Seq<char>,
    selected: Seq<char>,
) -> Seq<char> {
    if prefix_in_result.len() > 0 && prefix_in_result != current_prefix {
        seq!['?'] + selected
    } else if current_prefix.len() > 0 {
        current_prefix + seq![' '] + selected
    } else {
        selected
    }
}

/// Builds the input line for an accepted suggestion; see `line_from_selection`.
pub fn input_line_from_selection(
    prefix_in_result: &str,
    current_prefix: &str,
    selected_result: &str,
) -> (r: String)
    ensures
        r@ == line_from_selection(prefix_in_result@, current_prefix@, selected_result@),
{
    let pir_len = prefix_in_result.unicode_len();
    let cur_len = current_prefix.unicode_len();
    if pir_len > 0 && !same_text(prefix_in_result, current_prefix) {
        let mut r = String::new();
        push_char(&mut r, '?');
        r.append(selected_result);
        assert(r@ =~= seq!['?'] + selected_result@);
        r
    } else if cur_len > 0 {
        let mut r = String::from_str(current_prefix);
        push_char(&mut r, ' ');
        r.append(selected_result);
        r
    } else {
        String::from_str(selected_result)
    }
}

/// The line after accepting suggestion `selected` while `current_prefix` is
/// in effect: the prefix that `selected` alone would select decides.
pub fn reconstruct(selected: &str, current_prefix: &str, engines: &Registry) -> (r: String)
    requires
        engines.wf(),
    ensures
        r@ == line_from_selection(match_line(selected@, engines@).0, current_prefix@, selected@),
{
    let (_, interfering_prefix, _) = match_engine(selected, engines);
    input_line_from_selection(interfering_prefix.as_str(), current_prefix, selected)
}

proof fn lemma_skip_ws_to(s: Seq<char>, i: int, j: int)
    requires
        0 <= i <= j <= s.len(),
        forall|k: int| i <= k < j ==> is_ws(#[trigger] s[k]),
        j < s.len() ==> !is_ws(s[j]),
    ensures
        skip_ws(s, i) == j,
    decreases j - i,
{
    if i < j {
        lemma_skip_ws_to(s, i + 1, j);
    }
}

proof fn lemma_skip_word_to(s: Seq<char>, i: int, j: int)
    requires
        0 <= i <= j <= s.len(),
        forall|k: int| i <= k < j ==> !is_ws(#[trigger] s[k]),
        j < s.len() ==> is_ws(s[j]),
    ensures
        skip_word(s, i) == j,
    decreases j - i,
{
    if i < j {
        lemma_skip_word_to(s, i + 1, j);
    }
}

proof fn lemma_back_ws_to(s: Seq<char>, j: int, i: int)
    requires
        0 <= i <= j <= s.len(),
        forall|k: int| i <= k < j ==> is_ws(#[trigger] s[k]),
        i > 0 ==> !is_ws(s[i - 1]),
    ensures
        back_ws(s, j) == i,
    decreases j - i,
{
    if i < j {
        lemma_back_ws_to(s, j - 1, i);
    }
}

/// A string equal to its own trim starts and ends with a character other
/// than whitespace, unless it is empty.
proof fn lemma_trimmed_ends(s: Seq<char>)
    requires
        trim(s) == s,
    ensures
        s.len() > 0 ==> !is_ws(s[0]) && !is_ws(s[s.len() - 1]),
{
    lemma_skip_ws_bounds(s, 0);
    lemma_back_ws_bounds(s, s.len() as int);
}

/// A space in front of a trimmed string is trimmed away again.
proof fn lemma_trim_after_space(s: Seq<char>)
    requires
        trim(s) == s,
    ensures
        trim(seq![' '] + s) == s,
{
    let t = seq![' '] + s;
    lemma_trimmed_ends(s);
    assert(t[0] == ' ');
    if s.len() == 0 {
        lemma_skip_ws_to(t, 0, 1);
        lemma_back_ws_to(t, 1, 0);
    } else {
        assert(t[1] == s[0]);
        assert(t[t.len() - 1] == s[s.len() - 1]);
        lemma_skip_ws_to(t, 0, 1);
        lemma_back_ws_to(t, t.len() as int, t.len() as int);
        assert(t.subrange(1, t.len() as int) =~= s);
    }
}

/// A line whose first word is a registered prefix, followed by whitespace,
/// selects that prefix's engine.
pub proof fn lemma_registered_prefix_selects_engine(
    engines: &Registry,
    lead: Seq<char>,
    prefix: Seq<char>,
    rest: Seq<char>,
)
    requires
        engines.wf(),
        forall|k: int| 0 <= k < lead.len() ==> is_ws(#[trigger] lead[k]),
        prefix.len() > 0,
        !has_ws(prefix),
        engines@.contains_key(prefix),
        rest.len() > 0,
        is_ws(rest[0]),
        (lead + prefix + rest)[0] != '?',
    ensures
        match_line(lead + prefix + rest, engines@).0 == prefix,
        engines@[match_line(lead + prefix + rest, engines@).0] == engines@[prefix],
{
    let line = lead + prefix + rest;
    let a = lead.len() as int;
    let e = a + prefix.len();
    assert forall|k: int| 0 <= k < a implies is_ws(#[trigger] line[k]) by {
        assert(line[k] == lead[k]);
    }
    assert forall|k: int| a <= k < e implies !is_ws(#[trigger] line[k]) by {
        assert(line[k] == prefix[k - a]);
    }
    assert(line[a] == prefix[0]);
    assert(line[e] == rest[0]);
    lemma_skip_ws_to(line, 0, a);
    lemma_skip_word_to(line, a, e);
    assert(line.subrange(a, e) =~= prefix);
}

/// A line starting with `?` goes to the default engine, with the rest of the
/// line, as it is, for its term.
pub proof fn lemma_escaped_line(engines: &Registry, line: Seq<char>)
    requires
        line.len() > 0,
        line[0] == '?',
    ensures
        match_line(line, engines@).0 == Seq::<char>::empty(),
        match_line(line, engines@).1 == line.subrange(1, line.len() as int),
{
    assert(line.drop_first() =~= line.subrange(1, line.len() as int));
}

/// Accepting a suggestion and matching the line that results gives back the
/// suggestion as the term, with at most the escape marker in front of it
/// removed. The suggestion has no surrounding whitespace, and the prefix in
/// effect is empty or a registered prefix that does not itself start with `?`.
pub proof fn lemma_reconstruct_round_trip(
    engines: &Registry,
    selected: Seq<char>,
    current_prefix: Seq<char>,
)
    requires
        engines.wf(),
        trim(selected) == selected,
        current_prefix.len() == 0 || (engines@.contains_key(current_prefix) && current_prefix[0]
            != '?'),
    ensures
        ({
            let line = line_from_selection(
                match_line(selected, engines@).0,
                current_prefix,
                selected,
            );
            let term = match_line(line, engines@).1;
            term == selected || seq!['?'] + term == selected
        }),
{
    let pir = match_line(selected, engines@).0;
    let line = line_from_selection(pir, current_prefix, selected);
    if pir.len() > 0 && pir != current_prefix {
        assert(line.drop_first() =~= selected);
    } else if current_prefix.len() > 0 {
        let c = current_prefix;
        let m = c.len() as int;
        assert(!has_ws(c));
        assert forall|k: int| 0 <= k < m implies !is_ws(#[trigger] line[k]) by {
            assert(line[k] == c[k]);
            if is_ws(c[k]) {
                assert(has_ws(c));
            }
        }
        assert(line[m] == ' ');
        lemma_skip_ws_to(line, 0, 0);
        lemma_skip_word_to(line, 0, m);
        assert(line.subrange(0, m) =~= c);
        assert(line.subrange(m, line.len() as int) =~= seq![' '] + selected);
        lemma_trim_after_space(selected);
    } else {
        if selected.len() > 0 && selected[0] == '?' {
            assert(seq!['?'] + selected.drop_first() =~= selected);
        } else {
            lemma_skip_ws_bounds(selected, 0);
            lemma_skip_word_bounds(selected, skip_ws(selected, 0));
            lemma_trimmed_ends(selected);
        }
    }
}

} // verus!
