//! Instance documents in TOML, as the library sees them: the root table's
//! entries in order, each a scalar or a table of scalars. Reading and
//! rendering the text is done by the `toml` crate; looking values up, and
//! deciding what a document says, is done here.

use vstd::prelude::*;
use toml::Value;
use crate::text::str_eq;

verus! {

#[verifier::external_type_specification]
#[verifier::external_body]
pub struct ExTomlSerError(toml::ser::Error);

/// A value read from a table: a string, an integer, a float (its text as
/// `f64` displays it, and its value truncated toward zero as `as i64`
/// does), a boolean, or anything else (a date, an array, a nested table).
pub enum TomlScalar {
    Str(String),
    Int(i64),
    Float(String, i64),
    Bool(bool),
    Other,
}

pub enum TomlScalarView {
    Str(Seq<char>),
    Int(i64),
    Float(Seq<char>, i64),
    Bool(bool),
    Other,
}

impl View for TomlScalar {
    type V = TomlScalarView;

    open spec fn view(&self) -> TomlScalarView {
        match self {
            TomlScalar::Str(s) => TomlScalarView::Str(s@),
            TomlScalar::Int(i) => TomlScalarView::Int(*i),
            TomlScalar::Float(t, w) => TomlScalarView::Float(t@, *w),
            TomlScalar::Bool(b) => TomlScalarView::Bool(*b),
            TomlScalar::Other => TomlScalarView::Other,
        }
    }
}

/// Key/value entries, keys by their characters.
pub open spec fn entries_view<T: View>(s: Seq<(String, T)>) -> Seq<(Seq<char>, T::V)> {
    s.map_values(|p: (String, T)| (p.0@, p.1@))
}

/// An entry of a document's root table: a scalar, or a table of scalars.
pub enum TomlEntry {
    Scalar(TomlScalar),
    Table(Vec<(String, TomlScalar)>),
}

pub enum TomlEntryView {
    Scalar(TomlScalarView),
    Table(Seq<(Seq<char>, TomlScalarView)>),
}

impl View for TomlEntry {
    type V = TomlEntryView;

    open spec fn view(&self) -> TomlEntryView {
        match self {
            TomlEntry::Scalar(s) => TomlEntryView::Scalar(s@),
            TomlEntry::Table(t) => TomlEntryView::Table(entries_view(t@)),
        }
    }
}

/// A parsed document: its root table's entries.
pub struct TomlDoc {
    pub entries: Vec<(String, TomlEntry)>,
}

impl View for TomlDoc {
    type V = Seq<(Seq<char>, TomlEntryView)>;

    open spec fn view(&self) -> Seq<(Seq<char>, TomlEntryView)> {
        entries_view(self.entries@)
    }
}

pub open spec fn doc_view_opt(d: Option<TomlDoc>) -> Option<Seq<(Seq<char>, TomlEntryView)>> {
    match d {
        Some(d) => Some(d@),
        None => None,
    }
}

/// A value to be written into a table.
pub enum TomlField {
    Str(String),
    Int(i64),
    Bool(bool),
    /// A float, by the text `f64` displays for it.
    Float(String),
}

pub enum TomlFieldView {
    Str(Seq<char>),
    Int(i64),
    Bool(bool),
    Float(Seq<char>),
}

impl View for TomlField {
    type V = TomlFieldView;

    open spec fn view(&self) -> TomlFieldView {
        match self {
            TomlField::Str(s) => TomlFieldView::Str(s@),
            TomlField::Int(i) => TomlFieldView::Int(*i),
            TomlField::Bool(b) => TomlFieldView::Bool(*b),
            TomlField::Float(t) => TomlFieldView::Float(t@),
        }
    }
}

/// Named sections of fields, names by their characters.
pub open spec fn sections_view(s: Seq<(String, Vec<(String, TomlField)>)>) -> Seq<(Seq<char>, Seq<(Seq<char>, TomlFieldView)>)> {
    s.map_values(|p: (String, Vec<(String, TomlField)>)| (p.0@, entries_view(p.1@)))
}

/// What `toml::from_str::<toml::Value>` makes of a text, as root-table
/// entries; `None` where the text is not a TOML document.
pub uninterp spec fn spec_toml_doc(text: Seq<char>) -> Option<Seq<(Seq<char>, TomlEntryView)>>;

/// What `toml::to_string_pretty` renders for a root table of sections;
/// `None` where it reports an error.
pub uninterp spec fn spec_toml_render(sections: Seq<(Seq<char>, Seq<(Seq<char>, TomlFieldView)>)>) -> Option<Seq<char>>;

/// Parses `text` with `toml::from_str::<toml::Value>`. A document whose root
/// is a table gives its entries, each value converted one for one (a
/// float to its display text and its `as i64` value; dates, arrays and
/// tables below the first level to `Other`); a parse error gives `None`.
/// Only that the result is a function of the text is claimed.
#[verifier::external_body]
fn parse_toml(text: &str) -> (r: Option<TomlDoc>)
    ensures
        doc_view_opt(r) == spec_toml_doc(text@),
{
    let sc = |v: Value| match v {
        Value::String(s) => TomlScalar::Str(s),
        Value::Integer(i) => TomlScalar::Int(i),
        Value::Float(x) => TomlScalar::Float(x.to_string(), x as i64),
        Value::Boolean(b) => TomlScalar::Bool(b),
        _ => TomlScalar::Other,
    };
    match toml::from_str::<Value>(text) {
        Ok(Value::Table(t)) => Some(TomlDoc { entries: t.into_iter().map(|(k, v)| (k, match v {
            Value::Table(s) => TomlEntry::Table(s.into_iter().map(|(n, x)| (n, sc(x))).collect()),
            x => TomlEntry::Scalar(sc(x)),
        })).collect() }),
        _ => None,
    }
}

/// Renders sections with `toml::to_string_pretty`, each section a table
/// of its fields converted one for one (a float from its text; a text that
/// does not parse as a float is written as a string). Only that the
/// result, and whether it is an error, are a function of the sections is
/// claimed.
#[verifier::external_body]
fn render_toml(sections: &Vec<(String, Vec<(String, TomlField)>)>) -> (r: Result<String, toml::ser::Error>)
    ensures
        r is Ok <==> spec_toml_render(sections_view(sections@)) is Some,
        r matches Ok(t) ==> spec_toml_render(sections_view(sections@)) == Some(t@),
{
    let field = |f: &TomlField| match f {
        TomlField::Str(s) => Value::String(s.clone()),
        TomlField::Int(i) => Value::Integer(*i),
        TomlField::Bool(b) => Value::Boolean(*b),
        TomlField::Float(t) => t.parse().map_or_else(|_| Value::String(t.clone()), Value::Float),
    };
    let root: toml::Table = sections.iter().map(|(k, fs)| (k.clone(),
        Value::Table(fs.iter().map(|(n, f)| (n.clone(), field(f))).collect()))).collect();
    toml::to_string_pretty(&Value::Table(root))
}

/// The message of a `toml::ser::Error`, by its `Display`. Nothing is
/// claimed of the text.
#[verifier::external_body]
fn ser_error_text(e: &toml::ser::Error) -> String {
    e.to_string()
}

// ============================================================================
// Looking values up
// ============================================================================

/// The value of the first entry with `key`, if any.
pub open spec fn first_entry<T>(s: Seq<(Seq<char>, T)>, key: Seq<char>) -> Option<T>
    decreases s.len(),
{
    if s.len() == 0 {
        None
    } else if s[0].0 == key {
        Some(s[0].1)
    } else {
        first_entry(s.drop_first(), key)
    }
}

proof fn lemma_first_entry_skip<T>(s: Seq<(Seq<char>, T)>, key: Seq<char>, i: int)
    requires
        0 <= i <= s.len(),
        forall|j: int| 0 <= j < i ==> (#[trigger] s[j]).0 != key,
    ensures
        first_entry(s, key) == first_entry(s.subrange(i, s.len() as int), key),
    decreases i,
{
    if i == 0 {
        assert(s.subrange(0, s.len() as int) =~= s);
    } else {
        assert(s[0].0 != key);
        let t = s.drop_first();
        assert forall|j: int| 0 <= j < i - 1 implies (#[trigger] t[j]).0 != key by {
            assert(t[j] == s[j + 1]);
        }
        lemma_first_entry_skip(t, key, i - 1);
        assert(t.subrange(i - 1, t.len() as int) =~= s.subrange(i, s.len() as int));
    }
}

pub open spec fn opt_view<T: View>(r: Option<&T>) -> Option<T::V> {
    match r {
        Some(v) => Some(v@),
        None => None,
    }
}

/// The value of the first entry named `key`.
pub fn find_entry<'a, T: View>(entries: &'a Vec<(String, T)>, key: &str) -> (r: Option<&'a T>)
    ensures
        opt_view(r) == first_entry(entries_view(entries@), key@),
{
    let ghost v = entries_view(entries@);
    let mut i: usize = 0;
    while i < entries.len()
        invariant
            i <= entries@.len(),
            v == entries_view(entries@),
            forall|j: int| 0 <= j < i ==> (#[trigger] v[j]).0 != key@,
        decreases entries.len() - i,
    {
        if str_eq(entries[i].0.as_str(), key) {
            proof {
                lemma_first_entry_skip(v, key@, i as int);
                assert(v.subrange(i as int, v.len() as int)[0] == v[i as int]);
            }
            return Some(&entries[i].1);
        }
        i = i + 1;
    }
    proof {
        lemma_first_entry_skip(v, key@, i as int);
        assert(v.subrange(i as int, v.len() as int).len() == 0);
    }
    None
}

/// The table under `key` at the root of a document, if that entry is a
/// table.
pub open spec fn spec_doc_table(d: Seq<(Seq<char>, TomlEntryView)>, key: Seq<char>) -> Option<Seq<(Seq<char>, TomlScalarView)>> {
    match first_entry(d, key) {
        Some(TomlEntryView::Table(t)) => Some(t),
        _ => None,
    }
}

/// The string under `key`, if that entry is a string.
pub open spec fn spec_attr_str(a: Seq<(Seq<char>, TomlScalarView)>, key: Seq<char>) -> Option<Seq<char>> {
    match first_entry(a, key) {
        Some(TomlScalarView::Str(s)) => Some(s),
        _ => None,
    }
}

/// The integer under `key`: an integer as it is, a float truncated, 0
/// otherwise.
pub open spec fn spec_attr_int(a: Seq<(Seq<char>, TomlScalarView)>, key: Seq<char>) -> i64 {
    match first_entry(a, key) {
        Some(TomlScalarView::Int(i)) => i,
        Some(TomlScalarView::Float(_, w)) => w,
        _ => 0,
    }
}

/// The boolean under `key`, `false` unless it is a boolean.
pub open spec fn spec_attr_bool(a: Seq<(Seq<char>, TomlScalarView)>, key: Seq<char>) -> bool {
    match first_entry(a, key) {
        Some(TomlScalarView::Bool(b)) => b,
        _ => false,
    }
}

/// The `class_name` string of a document's `[metadata]`.
pub open spec fn spec_doc_class(d: Seq<(Seq<char>, TomlEntryView)>) -> Option<Seq<char>> {
    match spec_doc_table(d, "metadata"@) {
        Some(m) => spec_attr_str(m, "class_name"@),
        None => None,
    }
}

pub open spec fn opt_str_view(s: Option<String>) -> Option<Seq<char>> {
    match s {
        Some(s) => Some(s@),
        None => None,
    }
}

/// The root table under `key`, if that entry is a table.
pub fn doc_table<'a>(doc: &'a TomlDoc, key: &str) -> (r: Option<&'a Vec<(String, TomlScalar)>>)
    ensures
        match r {
            Some(t) => spec_doc_table(doc@, key@) == Some(entries_view(t@)),
            None => spec_doc_table(doc@, key@) is None,
        },
{
    match find_entry(&doc.entries, key) {
        Some(TomlEntry::Table(t)) => Some(t),
        _ => None,
    }
}

/// The string under `key`.
pub fn attr_str(a: &Vec<(String, TomlScalar)>, key: &str) -> (r: Option<String>)
    ensures
        opt_str_view(r) == spec_attr_str(entries_view(a@), key@),
{
    match find_entry(a, key) {
        Some(TomlScalar::Str(s)) => Some(s.clone()),
        _ => None,
    }
}

/// The integer under `key` (a float truncated; 0 when absent or of another
/// kind).
pub fn attr_int(a: &Vec<(String, TomlScalar)>, key: &str) -> (r: i64)
    ensures
        r == spec_attr_int(entries_view(a@), key@),
{
    match find_entry(a, key) {
        Some(TomlScalar::Int(i)) => *i,
        Some(TomlScalar::Float(_, w)) => *w,
        _ => 0,
    }
}

/// The boolean under `key` (`false` when absent or of another kind).
pub fn attr_bool(a: &Vec<(String, TomlScalar)>, key: &str) -> (r: bool)
    ensures
        r == spec_attr_bool(entries_view(a@), key@),
{
    match find_entry(a, key) {
        Some(TomlScalar::Bool(b)) => *b,
        _ => false,
    }
}

/// The document's class: the `class_name` string of its `[metadata]`.
pub fn doc_class(doc: &TomlDoc) -> (r: Option<String>)
    ensures
        opt_str_view(r) == spec_doc_class(doc@),
{
    match doc_table(doc, "metadata") {
        Some(m) => attr_str(m, "class_name"),
        None => None,
    }
}

/// Reads a document's text: `None` where it is not a TOML document.
pub fn read_toml_doc(text: &str) -> (r: Option<TomlDoc>)
    ensures
        doc_view_opt(r) == spec_toml_doc(text@),
{
    parse_toml(text)
}

// ============================================================================
// Writing instance documents
// ============================================================================

/// The sections of an instance document, in the order `toml` writes
/// table keys: `[attributes]`, then `[metadata]` (`archivable = true` and
/// the class), then `[properties]` (the class and the name).
pub open spec fn spec_instance_sections(
    class_name: Seq<char>,
    name: Seq<char>,
    attributes: Seq<(Seq<char>, TomlFieldView)>,
) -> Seq<(Seq<char>, Seq<(Seq<char>, TomlFieldView)>)> {
    seq![
        ("attributes"@, attributes),
        ("metadata"@, seq![("archivable"@, TomlFieldView::Bool(true)), ("class_name"@, TomlFieldView::Str(class_name))]),
        ("properties"@, seq![("class_name"@, TomlFieldView::Str(class_name)), ("name"@, TomlFieldView::Str(name))]),
    ]
}

/// The text of an instance document; where rendering fails, a TOML comment
/// line `# serialisation failed: ` with the error's message.
pub open spec fn instance_text_is(
    class_name: Seq<char>,
    name: Seq<char>,
    attributes: Seq<(Seq<char>, TomlFieldView)>,
    t: Seq<char>,
) -> bool {
    match spec_toml_render(spec_instance_sections(class_name, name, attributes)) {
        Some(r) => t == r,
        None => exists|m: Seq<char>| t == "# serialisation failed: "@ + m + "\n"@,
    }
}

fn field_str(key: &str, value: &str) -> (r: (String, TomlField))
    ensures
        r.0@ == key@,
        r.1@ == TomlFieldView::Str(value@),
{
    (key.to_owned(), TomlField::Str(value.to_owned()))
}

/// The document of one instance: its class and name, and its attributes.
pub fn instance_text(class_name: &str, name: &str, attributes: Vec<(String, TomlField)>) -> (r: String)
    ensures
        instance_text_is(class_name@, name@, entries_view(attributes@), r@),
{
    let ghost av = entries_view(attributes@);
    let meta = vec![("archivable".to_owned(), TomlField::Bool(true)), field_str("class_name", class_name)];
    let props = vec![field_str("class_name", class_name), field_str("name", name)];
    let sections = vec![
        ("attributes".to_owned(), attributes),
        ("metadata".to_owned(), meta),
        ("properties".to_owned(), props),
    ];
    proof {
        let mv: Seq<(Seq<char>, TomlFieldView)> = seq![("archivable"@, TomlFieldView::Bool(true)), ("class_name"@, TomlFieldView::Str(class_name@))];
        let pv: Seq<(Seq<char>, TomlFieldView)> = seq![("class_name"@, TomlFieldView::Str(class_name@)), ("name"@, TomlFieldView::Str(name@))];
        assert(entries_view(meta@) =~= mv);
        assert(entries_view(props@) =~= pv);
        assert(sections_view(sections@) =~= spec_instance_sections(class_name@, name@, av));
    }
    match render_toml(&sections) {
        Ok(t) => t,
        Err(e) => {
            let m = ser_error_text(&e);
            let mut out = "# serialisation failed: ".to_owned();
            crate::text::push_str(&mut out, m.as_str());
            crate::text::push_str(&mut out, "\n");
            out
        },
    }
}

} // verus!
