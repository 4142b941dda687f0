//! Suggestion responses: a JSON document model and the two response shapes
//! that engines use (OpenSearch arrays and a dotted path to an array).
use vstd::prelude::*;
use vstd::string::*;

use crate::engine::SuggestionAdapterName;
use crate::text::{chars_of, same_text, slice};

verus! {

#[verifier::external_type_specification]
#[verifier::external_body]
pub struct ExJsonValue(json::JsonValue);

/// A JSON document, as far as suggestion responses are read: numbers keep
/// no value, objects keep their members in order.
pub enum Json {
    Null,
    Bool(bool),
    Number,
    Str(String),
    Array(Vec<Json>),
    Object(Vec<(String, Json)>),
}

/// The document that `json::parse` reads from a text, or `None` where the
/// text is not JSON.
pub uninterp spec fn json_document(text: Seq<char>) -> Option<Json>;

impl Json {
    /// Relies on `json::JsonValue`'s variants: copies a parsed tree, member
    /// by member and element by element.
    #[verifier::external_body]
    fn from_value(v: &json::JsonValue) -> Json {
        match v {
            json::JsonValue::Null => Json::Null,
            json::JsonValue::Boolean(b) => Json::Bool(*b),
            json::JsonValue::Number(_) => Json::Number,
            json::JsonValue::Short(s) => Json::Str(s.as_str().to_string()),
            json::JsonValue::String(s) => Json::Str(s.clone()),
            json::JsonValue::Array(a) => Json::Array(a.iter().map(Json::from_value).collect()),
            json::JsonValue::Object(o) => Json::Object(
                o.iter().map(|(k, x)| (k.to_string(), Json::from_value(x))).collect(),
            ),
        }
    }
}

/// Relies on `json::parse`: the document that `text` holds, or `None`
/// where it is not valid JSON.
#[verifier::external_body]
fn parse_json(text: &str) -> (r: Option<Json>)
    ensures
        r == json_document(text@),
{
    json::parse(text).ok().map(|v| Json::from_value(&v))
}

/// Suggestions that arrived for a search term.
pub struct Suggestions {
    pub term: String,
    pub sugg_terms: Vec<String>,
}

impl Suggestions {
    /// The term and the candidates, as character sequences.
    pub open spec fn shape(&self) -> (Seq<char>, Seq<Seq<char>>) {
        (self.term@, self.sugg_terms@.map_values(|s: String| s@))
    }
}

/// Why a response could not be read.
#[derive(Clone, Copy, PartialEq, Eq, Structural, Debug)]
pub enum AdapterError {
    /// The body is not valid JSON.
    InvalidJson,
    /// An OpenSearch response does not start with the term as a string.
    MissingTerm,
    /// The expected array is absent.
    NotAnArray,
    /// A candidate is not a string.
    NonStringCandidate,
}

/// What reading a response gives, as character sequences.
pub open spec fn outcome(r: Result<Suggestions, AdapterError>) -> Result<
    (Seq<char>, Seq<Seq<char>>),
    AdapterError,
> {
    match r {
        Ok(s) => Ok(s.shape()),
        Err(e) => Err(e),
    }
}

/// Every element is a string.
pub open spec fn all_strings(items: Seq<Json>) -> bool {
    forall|i: int| 0 <= i < items.len() ==> #[trigger] items[i] is Str
}

/// The strings of an array of strings.
pub open spec fn string_values(items: Seq<Json>) -> Seq<Seq<char>> {
    items.map_values(|x: Json| x->Str_0@)
}

/// The candidates of an array: its strings, or an error if any element is
/// not a string.
pub open spec fn candidates(j: Json) -> Result<Seq<Seq<char>>, AdapterError> {
    match j {
        Json::Array(items) => if all_strings(items@) {
            Ok(string_values(items@))
        } else {
            Err(AdapterError::NonStringCandidate)
        },
        _ => Err(AdapterError::NotAnArray),
    }
}

/// An OpenSearch response: an array whose first element is the term and
/// whose second element is the array of candidates.
pub open spec fn open_search_shape(doc: Json) -> Result<(Seq<char>, Seq<Seq<char>>), AdapterError> {
    match doc {
        Json::Array(items) => if items@.len() >= 1 && items@[0] is Str {
            if items@.len() >= 2 {
                match candidates(items@[1]) {
                    Ok(c) => Ok((items@[0]->Str_0@, c)),
                    Err(e) => Err(e),
                }
            } else {
                Err(AdapterError::NotAnArray)
            }
        } else {
            Err(AdapterError::MissingTerm)
        },
        _ => Err(AdapterError::MissingTerm),
    }
}

/// The value of the first member keyed `key` at or after index `i`, or null.
pub open spec fn member(entries: Seq<(String, Json)>, key: Seq<char>, i: int) -> Json
    decreases entries.len() - i,
{
    if i < 0 || i >= entries.len() {
        Json::Null
    } else if entries[i].0@ == key {
        entries[i].1
    } else {
        member(entries, key, i + 1)
    }
}

/// `j[key]`: the member of an object, null for anything else.
pub open spec fn field(j: Json, key: Seq<char>) -> Json {
    match j {
        Json::Object(entries) => member(entries@, key, 0),
        _ => Json::Null,
    }
}

/// The value that following field names `path` from `j` leads to.
pub open spec fn walk(j: Json, path: Seq<Seq<char>>) -> Json
    decreases path.len(),
{
    if path.len() == 0 {
        j
    } else {
        walk(field(j, path[0]), path.drop_first())
    }
}

/// The first index at or after `i` that holds `.` (or the length).
pub open spec fn next_dot(s: Seq<char>, i: int) -> int
    decreases s.len() - i,
{
    if 0 <= i < s.len() && s[i] != '.' {
        next_dot(s, i + 1)
    } else {
        i
    }
}

/// The parts of `s` between dots, as `str::split('.')` gives them.
pub open spec fn split_dots(s: Seq<char>) -> Seq<Seq<char>>
    decreases s.len(),
{
    let d = next_dot(s, 0);
    if 0 <= d < s.len() {
        seq![s.subrange(0, d)] + split_dots(s.subrange(d + 1, s.len() as int))
    } else {
        seq![s]
    }
}

/// A response read along a dotted path: the candidates at the end of the
/// path, for the term that was asked for.
pub open spec fn path_shape(doc: Json, path: Seq<char>, term: Seq<char>) -> Result<
    (Seq<char>, Seq<Seq<char>>),
    AdapterError,
> {
    match candidates(walk(doc, split_dots(path))) {
        Ok(c) => Ok((term, c)),
        Err(e) => Err(e),
    }
}

/// What a response body gives when `shape` reads its document: an error
/// where the body is not JSON.
pub open spec fn read_body(
    body: Seq<char>,
    shape: spec_fn(Json) -> Result<(Seq<char>, Seq<Seq<char>>), AdapterError>,
) -> Result<(Seq<char>, Seq<Seq<char>>), AdapterError> {
    match json_document(body) {
        Some(doc) => shape(doc),
        None => Err(AdapterError::InvalidJson),
    }
}

/// How an engine's adapter reads a document.
pub open spec fn adapter_shape(adapter: SuggestionAdapterName, doc: Json, term: Seq<char>) -> Result<
    (Seq<char>, Seq<Seq<char>>),
    AdapterError,
> {
    match adapter {
        SuggestionAdapterName::OpenSearch => open_search_shape(doc),
        SuggestionAdapterName::JsonPath(path) => path_shape(doc, path@, term),
    }
}

proof fn lemma_next_dot_bounds(s: Seq<char>, i: int)
    requires
        0 <= i <= s.len(),
    ensures
        i <= next_dot(s, i) <= s.len(),
        next_dot(s, i) < s.len() ==> s[next_dot(s, i)] == '.',
    decreases s.len() - i,
{
    if i < s.len() && s[i] != '.' {
        lemma_next_dot_bounds(s, i + 1);
    }
}

/// The strings of an array of strings, copied.
fn string_list(items: &Vec<Json>) -> (r: Result<Vec<String>, AdapterError>)
    ensures
        match r {
            Ok(v) => all_strings(items@) && v@.map_values(|s: String| s@) == string_values(
                items@,
            ),
            Err(e) => !all_strings(items@) && e == AdapterError::NonStringCandidate,
        },
{
    let mut out: Vec<String> = Vec::new();
    let mut i: usize = 0;
    while i < items.len()
        invariant
            i <= items@.len(),
            forall|k: int| 0 <= k < i ==> #[trigger] items@[k] is Str,
            out@.map_values(|s: String| s@) == string_values(items@.subrange(0, i as int)),
        decreases items@.len() - i,
    {
        let ghost before = out@;
        match &items[i] {
            Json::Str(s) => {
                let c = s.clone();
                assert(c@ == items@[i as int]->Str_0@);
                out.push(c);
                assert(items@.subrange(0, i + 1) =~= items@.subrange(0, i as int).push(
                    items@[i as int],
                ));
                assert(out@.map_values(|s: String| s@) =~= before.map_values(|s: String| s@).push(c@));
            },
            _ => {
                return Err(AdapterError::NonStringCandidate);
            },
        }
        i = i + 1;
        assert(out@.map_values(|s: String| s@) =~= string_values(items@.subrange(0, i as int)));
    }
    assert(items@.subrange(0, i as int) =~= items@);
    Ok(out)
}

fn candidates_of(j: &Json) -> (r: Result<Vec<String>, AdapterError>)
    ensures
        match (r, candidates(*j)) {
            (Ok(v), Ok(c)) => v@.map_values(|s: String| s@) == c,
            (Err(e), Err(f)) => e == f,
            _ => false,
        },
{
    match j {
        Json::Array(items) => string_list(items),
        _ => Err(AdapterError::NotAnArray),
    }
}

/// Reads an OpenSearch document; see `open_search_shape`.
pub fn open_search_suggestions(doc: &Json) -> (r: Result<Suggestions, AdapterError>)
    ensures
        outcome(r) == open_search_shape(*doc),
{
    match doc {
        Json::Array(items) => {
            if items.len() < 1 {
                return Err(AdapterError::MissingTerm);
            }
            let term = match &items[0] {
                Json::Str(t) => t.clone(),
                _ => {
                    return Err(AdapterError::MissingTerm);
                },
            };
            if items.len() < 2 {
                return Err(AdapterError::NotAnArray);
            }
            match candidates_of(&items[1]) {
                Ok(sugg_terms) => Ok(Suggestions { term, sugg_terms }),
                Err(e) => Err(e),
            }
        },
        _ => Err(AdapterError::MissingTerm),
    }
}

/// `j[key]`, borrowed; `null` stands for a missing member.
fn field_of<'a>(j: &'a Json, key: &str, null: &'a Json) -> (r: &'a Json)
    requires
        *null == Json::Null,
    ensures
        *r == field(*j, key@),
{
    match j {
        Json::Object(entries) => {
            let mut i: usize = 0;
            while i < entries.len()
                invariant
                    *null == Json::Null,
                    field(*j, key@) == member(entries@, key@, 0),
                    i <= entries@.len(),
                    member(entries@, key@, i as int) == member(entries@, key@, 0),
                decreases entries@.len() - i,
            {
                if same_text(entries[i].0.as_str(), key) {
                    return &entries[i].1;
                }
                i = i + 1;
            }
            null
        },
        _ => null,
    }
}

/// Reads a document along dotted path `path`; see `path_shape`.
pub fn json_path_suggestions(doc: &Json, path: &str, term: &str) -> (r: Result<
    Suggestions,
    AdapterError,
>)
    ensures
        outcome(r) == path_shape(*doc, path@, term@),
{
    let null = Json::Null;
    let cs = chars_of(path);
    let n = cs.len();
    let mut cur: &Json = doc;
    let mut start: usize = 0;
    let mut done = false;
    assert(path@.subrange(0, n as int) =~= path@);
    while !done
        invariant
            cs@ == path@,
            n == path@.len(),
            start <= n,
            null == Json::Null,
            !done ==> walk(*doc, split_dots(path@)) == walk(
                *cur,
                split_dots(path@.subrange(start as int, n as int)),
            ),
            done ==> walk(*doc, split_dots(path@)) == *cur,
        decreases n - start + (if done {
            0int
        } else {
            1int
        }),
    {
        let ghost rest = path@.subrange(start as int, n as int);
        let mut d = start;
        while d < n && cs[d] != '.'
            invariant
                cs@ == path@,
                n == path@.len(),
                start <= d <= n,
                next_dot(rest, d - start) == next_dot(rest, 0),
                rest == path@.subrange(start as int, n as int),
            decreases n - d,
        {
            d = d + 1;
        }
        proof {
            lemma_next_dot_bounds(rest, 0);
            assert(rest.subrange(0, d - start) =~= path@.subrange(start as int, d as int));
        }
        let segment = slice(path, start, d);
        cur = field_of(cur, segment.as_str(), &null);
        if d < n {
            proof {
                assert(rest.subrange(d - start + 1, rest.len() as int) =~= path@.subrange(
                    d + 1,
                    n as int,
                ));
                assert(split_dots(rest).drop_first() == split_dots(path@.subrange(d + 1, n as int)));
            }
            start = d + 1;
        } else {
            proof {
                assert(split_dots(rest).drop_first() =~= Seq::<Seq<char>>::empty());
            }
            done = true;
        }
    }
    match candidates_of(cur) {
        Ok(sugg_terms) => Ok(Suggestions { term: String::from_str(term), sugg_terms }),
        Err(e) => Err(e),
    }
}

/// Reads suggestions for `term` from a response body.
pub trait SuggestionAdapter {
    /// What this adapter makes of a document.
    spec fn shape_of(&self, doc: Json, term: Seq<char>) -> Result<
        (Seq<char>, Seq<Seq<char>>),
        AdapterError,
    >;

    fn get(&self, body: &str, term: &str) -> (r: Result<Suggestions, AdapterError>)
        ensures
            outcome(r) == read_body(body@, |doc: Json| self.shape_of(doc, term@)),
    ;
}

/// Reads OpenSearch responses: `[term, [candidate, ...]]`.
pub struct OpenSearchAdapter;

/// Reads the array of candidates at the end of a dotted path of field names.
pub struct JsonPathAdapter(pub String);

impl SuggestionAdapter for OpenSearchAdapter {
    open spec fn shape_of(&self, doc: Json, term: Seq<char>) -> Result<
        (Seq<char>, Seq<Seq<char>>),
        AdapterError,
    > {
        open_search_shape(doc)
    }

    fn get(&self, body: &str, term: &str) -> (r: Result<Suggestions, AdapterError>) {
        match parse_json(body) {
            Some(doc) => open_search_suggestions(&doc),
            None => Err(AdapterError::InvalidJson),
        }
    }
}

impl SuggestionAdapter for JsonPathAdapter {
    open spec fn shape_of(&self, doc: Json, term: Seq<char>) -> Result<
        (Seq<char>, Seq<Seq<char>>),
        AdapterError,
    > {
        path_shape(doc, self.0@, term)
    }

    fn get(&self, body: &str, term: &str) -> (r: Result<Suggestions, AdapterError>) {
        match parse_json(body) {
            Some(doc) => json_path_suggestions(&doc, self.0.as_str(), term),
            None => Err(AdapterError::InvalidJson),
        }
    }
}

/// Reads a response body for `term` with the adapter that an engine names.
pub fn read_suggestions(adapter: &SuggestionAdapterName, body: &str, term: &str) -> (r: Result<
    Suggestions,
    AdapterError,
>)
    ensures
        outcome(r) == read_body(body@, |doc: Json| adapter_shape(*adapter, doc, term@)),
{
    match parse_json(body) {
        Some(doc) => match adapter {
            SuggestionAdapterName::OpenSearch => open_search_suggestions(&doc),
            SuggestionAdapterName::JsonPath(path) => json_path_suggestions(
                &doc,
                path.as_str(),
                term,
            ),
        },
        None => Err(AdapterError::InvalidJson),
    }
}

} // verus!
