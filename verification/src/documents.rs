//! Documents of other formats: members of JSON and TOML texts, and edits of a configuration in place.
//! The parsers and the editor are those of `serde_json`, `toml` and `toml_edit`.

use crate::text::opt_view;
use vstd::prelude::*;
use vstd::string::*;

verus! {

/// The integer that the JSON text has as its member, or what is said of a text that is not JSON.
pub uninterp spec fn json_integer_at(text: Seq<char>, key: Seq<char>) -> Result<
    Option<i64>,
    Seq<char>,
>;

/// Reads with `serde_json::from_str` and looks the member up with `Value::get` and `Value::as_i64`: the
/// result is a function of the text and the key alone. What JSON is, is not stated here.
#[verifier::external_body]
pub(crate) fn json_integer(text: &str, key: &str) -> (r: Result<Option<i64>, String>)
    ensures
        match r {
            Ok(n) => json_integer_at(text@, key@) == Ok::<Option<i64>, Seq<char>>(n),
            Err(e) => json_integer_at(text@, key@) == Err::<Option<i64>, Seq<char>>(e@),
        },
{
    match serde_json::from_str::<serde_json::Value>(text) {
        Ok(value) => Ok(value.get(key).and_then(serde_json::Value::as_i64)),
        Err(error) => Err(error.to_string()),
    }
}

/// The text that the JSON text has as its member, or what is said of a text that is not JSON.
pub uninterp spec fn json_text_at(text: Seq<char>, key: Seq<char>) -> Result<
    Option<Seq<char>>,
    Seq<char>,
>;

/// Reads with `serde_json::from_str` and looks the member up with `Value::get` and `Value::as_str`: the
/// result is a function of the text and the key alone. What JSON is, is not stated here.
#[verifier::external_body]
pub(crate) fn json_text(text: &str, key: &str) -> (r: Result<Option<String>, String>)
    ensures
        match r {
            Ok(t) => json_text_at(text@, key@) == Ok::<Option<Seq<char>>, Seq<char>>(opt_view(t)),
            Err(e) => json_text_at(text@, key@) == Err::<Option<Seq<char>>, Seq<char>>(e@),
        },
{
    match serde_json::from_str::<serde_json::Value>(text) {
        Ok(value) => Ok(value.get(key).and_then(serde_json::Value::as_str).map(str::to_owned)),
        Err(error) => Err(error.to_string()),
    }
}

/// The text is TOML, and the table of the name has the key.
pub uninterp spec fn toml_table_holds(text: Seq<char>, table: Seq<char>, key: Seq<char>) -> bool;

/// Reads with `toml::from_str` and looks the key up with `Value::get`, `Value::as_table` and
/// `Table::contains_key`: the result is a function of the text, the table's name and the key alone. What
/// TOML is, is not stated here.
#[verifier::external_body]
pub(crate) fn toml_has(text: &str, table: &str, key: &str) -> (r: bool)
    ensures
        r == toml_table_holds(text@, table@, key@),
{
    match toml::from_str::<toml::Value>(text) {
        Ok(doc) => doc.get(table).and_then(|t| t.as_table()).is_some_and(|t| t.contains_key(key)),
        Err(_) => false,
    }
}

/// What stands in a configuration: a table with a header or in dotted form, a table in braces, a list,
/// a text, a flag, or something that is none of these.
pub enum Toml {
    Table(Map<Seq<char>, Toml>),
    Inline(Map<Seq<char>, Toml>),
    List(Seq<Toml>),
    Text(Seq<char>),
    Flag(bool),
    Other,
}

/// An editable configuration.
#[verifier::external_type_specification]
#[verifier::external_body]
pub struct ExDocumentMut(toml_edit::DocumentMut);

/// What a configuration holds at its root.
pub uninterp spec fn entries(doc: toml_edit::DocumentMut) -> Map<Seq<char>, Toml>;

/// How a configuration is printed.
pub uninterp spec fn printed(doc: toml_edit::DocumentMut) -> Seq<char>;

/// What a text holds as a configuration, or what is said of a text that is none.
pub uninterp spec fn read_entries(text: Seq<char>) -> Result<Map<Seq<char>, Toml>, Seq<char>>;

/// Reads with `toml_edit::DocumentMut::from_str`: what the document holds, or the message of the error,
/// is a function of the text alone. What TOML is, is not stated here.
#[verifier::external_body]
pub(crate) fn parse_document(text: &str) -> (r: Result<toml_edit::DocumentMut, String>)
    ensures
        match r {
            Ok(doc) => read_entries(text@) == Ok::<Map<Seq<char>, Toml>, Seq<char>>(entries(doc)),
            Err(e) => read_entries(text@) == Err::<Map<Seq<char>, Toml>, Seq<char>>(e@),
        },
{
    text.parse::<toml_edit::DocumentMut>().map_err(|error| error.to_string())
}

/// Prints with the `Display` of `toml_edit::DocumentMut`. What the text looks like is not stated here.
#[verifier::external_body]
pub(crate) fn document_text(doc: &toml_edit::DocumentMut) -> (r: String)
    ensures
        r@ == printed(*doc),
{
    doc.to_string()
}

/// Asks `toml_edit::Table::contains_key` of the root.
#[verifier::external_body]
pub(crate) fn has_entry(doc: &toml_edit::DocumentMut, key: &str) -> (r: bool)
    ensures
        r == entries(*doc).contains_key(key@),
{
    doc.contains_key(key)
}

/// The keys of a table, of either form.
pub open spec fn table_like(t: Toml) -> Option<Map<Seq<char>, Toml>> {
    match t {
        Toml::Table(m) => Some(m),
        Toml::Inline(m) => Some(m),
        _ => None,
    }
}

/// The value of the key, where the map has it.
pub open spec fn at(m: Map<Seq<char>, Toml>, key: Seq<char>) -> Option<Toml> {
    if m.contains_key(key) {
        Some(m[key])
    } else {
        None
    }
}

/// Whether the table of the name has the key; None where there is no table of the name, of either form.
pub open spec fn table_holds(m: Map<Seq<char>, Toml>, table: Seq<char>, key: Seq<char>) -> Option<
    bool,
> {
    match at(m, table) {
        Some(t) => match table_like(t) {
            Some(inner) => Some(inner.contains_key(key)),
            None => None,
        },
        None => None,
    }
}

/// Asks `toml_edit::TableLike::get` of what `Table::get` and `Item::as_table_like` find under the name.
#[verifier::external_body]
pub(crate) fn table_has(doc: &toml_edit::DocumentMut, table: &str, key: &str) -> (r: Option<bool>)
    ensures
        r == table_holds(entries(*doc), table@, key@),
{
    doc.get(table).and_then(toml_edit::Item::as_table_like).map(|t| t.get(key).is_some())
}

/// The flag of the table with a header or in dotted form.
pub open spec fn flag_at(m: Map<Seq<char>, Toml>, table: Seq<char>, key: Seq<char>) -> Option<bool> {
    match at(m, table) {
        Some(Toml::Table(inner)) => match at(inner, key) {
            Some(Toml::Flag(b)) => Some(b),
            _ => None,
        },
        _ => None,
    }
}

/// Looks a flag up with `Table::get`, `Item::as_table` and `Item::as_bool` of `toml_edit`.
#[verifier::external_body]
pub(crate) fn table_flag(doc: &toml_edit::DocumentMut, table: &str, key: &str) -> (r: Option<bool>)
    ensures
        r == flag_at(entries(*doc), table@, key@),
{
    doc.get(table).and_then(toml_edit::Item::as_table).and_then(|t| t.get(key)).and_then(
        toml_edit::Item::as_bool,
    )
}

/// The table within the table has the key; both have a header or are in dotted form.
pub open spec fn nested_holds(
    m: Map<Seq<char>, Toml>,
    table: Seq<char>,
    inner: Seq<char>,
    key: Seq<char>,
) -> bool {
    match at(m, table) {
        Some(Toml::Table(t)) => match at(t, inner) {
            Some(Toml::Table(u)) => u.contains_key(key),
            _ => false,
        },
        _ => false,
    }
}

/// Looks a key up with `Table::get`, `Item::as_table`, and `Table::get` twice more, of `toml_edit`.
#[verifier::external_body]
pub(crate) fn nested_has(doc: &toml_edit::DocumentMut, table: &str, inner: &str, key: &str) -> (r: bool)
    ensures
        r == nested_holds(entries(*doc), table@, inner@, key@),
{
    doc.get(table).and_then(toml_edit::Item::as_table).and_then(|t| t.get(inner)).and_then(
        toml_edit::Item::as_table,
    ).and_then(|t| t.get(key)).is_some()
}

/// The texts of a list, None for each item that is no text.
pub open spec fn list_texts(items: Seq<Toml>) -> Seq<Option<Seq<char>>> {
    items.map_values(
        |t: Toml|
            match t {
                Toml::Text(s) => Some(s),
                _ => None,
            },
    )
}

/// Hands the texts of a list out with `Table::get`, `Item::as_array`, `Array::iter` and `Value::as_str` of
/// `toml_edit`; None where there is no list under the name.
#[verifier::external_body]
pub(crate) fn list_of(doc: &toml_edit::DocumentMut, key: &str) -> (r: Option<Vec<Option<String>>>)
    ensures
        match at(entries(*doc), key@) {
            Some(Toml::List(items)) => r matches Some(v) && v@.map_values(
                |t: Option<String>| opt_view(t),
            ) == list_texts(items),
            _ => r is None,
        },
{
    doc.get(key).and_then(toml_edit::Item::as_array).map(
        |a| a.iter().map(|v| v.as_str().map(str::to_owned)).collect(),
    )
}

/// Puts an empty table under the name with `toml_edit::Table::insert`.
#[verifier::external_body]
pub(crate) fn put_table(doc: &mut toml_edit::DocumentMut, key: &str)
    ensures
        entries(*final(doc)) == entries(*old(doc)).insert(key@, Toml::Table(Map::empty())),
{
    doc.insert(key, toml_edit::Item::Table(toml_edit::Table::new()));
}

/// Puts an empty list under the name with `toml_edit::Table::insert`.
#[verifier::external_body]
pub(crate) fn put_list(doc: &mut toml_edit::DocumentMut, key: &str)
    ensures
        entries(*final(doc)) == entries(*old(doc)).insert(key@, Toml::List(Seq::empty())),
{
    doc.insert(key, toml_edit::Item::Value(toml_edit::Value::Array(toml_edit::Array::new())));
}

/// Adds a text at the end of the list with `toml_edit::Array::push`.
#[verifier::external_body]
pub(crate) fn push_text(doc: &mut toml_edit::DocumentMut, key: &str, text: &str)
    requires
        at(entries(*old(doc)), key@) matches Some(Toml::List(_)),
    ensures
        at(entries(*old(doc)), key@) matches Some(Toml::List(items)) && entries(*final(doc))
            == entries(*old(doc)).insert(key@, Toml::List(items.push(Toml::Text(text@)))),
{
    if let Some(list) = doc.get_mut(key).and_then(toml_edit::Item::as_array_mut) {
        list.push(text);
    }
}

/// The texts as a table has them, the later where a key comes twice.
pub open spec fn text_map(pairs: Seq<(Seq<char>, Seq<char>)>) -> Map<Seq<char>, Toml>
    decreases pairs.len(),
{
    if pairs.len() == 0 {
        Map::empty()
    } else {
        text_map(pairs.drop_last()).insert(pairs.last().0, Toml::Text(pairs.last().1))
    }
}

/// The table with another table in it; within a table in braces it is one in braces too.
pub open spec fn with_table(t: Toml, key: Seq<char>, inner: Map<Seq<char>, Toml>) -> Toml {
    match t {
        Toml::Table(m) => Toml::Table(m.insert(key, Toml::Table(inner))),
        Toml::Inline(m) => Toml::Inline(m.insert(key, Toml::Inline(inner))),
        _ => t,
    }
}

/// Puts a table of texts into the table of the name with `toml_edit::TableLike::insert`, which makes it
/// one in braces where the other is.
#[verifier::external_body]
pub(crate) fn put_texts(
    doc: &mut toml_edit::DocumentMut,
    table: &str,
    key: &str,
    texts: &Vec<(String, String)>,
)
    requires
        at(entries(*old(doc)), table@) matches Some(t) && table_like(t) is Some,
    ensures
        at(entries(*old(doc)), table@) matches Some(t) && entries(*final(doc)) == entries(
            *old(doc),
        ).insert(
            table@,
            with_table(
                t,
                key@,
                text_map(texts@.map_values(|p: (String, String)| (p.0@, p.1@))),
            ),
        ),
{
    let pairs = texts.iter().map(|(k, v)| (k.as_str(), toml_edit::value(v.as_str())));
    let item = toml_edit::Item::Table(pairs.collect());
    if let Some(like) = doc.get_mut(table).and_then(toml_edit::Item::as_table_like_mut) {
        like.insert(key, item);
    }
}

} // verus!
