use vstd::prelude::*;

use toml_edit::{DocumentMut, Item, TomlError};

verus! {

/// A TOML document that keeps the formatting of its source.
#[verifier::external_type_specification]
#[verifier::external_body]
pub struct ExDocumentMut(DocumentMut);

/// An entry of a TOML document.
#[verifier::external_type_specification]
#[verifier::external_body]
pub struct ExItem(Item);

/// The error of a TOML text that does not parse.
#[verifier::external_type_specification]
#[verifier::external_body]
pub struct ExTomlError(TomlError);

/// Whether a text parses as a TOML document.
pub uninterp spec fn parses_as_toml(text: Seq<char>) -> bool;

/// Relies on `DocumentMut`'s `FromStr`: the text parses or it does not,
/// depending on the text alone.
#[verifier::external_body]
fn parse_document(text: &str) -> (r: Result<DocumentMut, TomlError>)
    ensures
        r is Ok == parses_as_toml(text@),
{
    text.parse::<DocumentMut>()
}

/// Relies on `Table::get` of the document's root table: the entry under a
/// key, if there is one.
#[verifier::external_body]
fn entry<'a>(doc: &'a DocumentMut, key: &str) -> (r: Option<&'a Item>) {
    doc.get(key)
}

/// Relies on `Item::as_bool`: the boolean an entry holds, if it holds one.
#[verifier::external_body]
fn entry_bool(item: &Item) -> (r: Option<bool>) {
    item.as_bool()
}

/// Relies on `toml_edit::value`: an entry that holds a boolean.
#[verifier::external_body]
fn bool_entry(v: bool) -> (r: Item) {
    toml_edit::value(v)
}

/// Relies on indexing a `DocumentMut` mutably: the entry under the key is
/// replaced, or added where there is none.
#[verifier::external_body]
fn set_entry(doc: &mut DocumentMut, key: &str, item: Item) {
    doc[key] = item;
}

/// Relies on `DocumentMut`'s `Display`: the document as text, with the
/// formatting of its source.
#[verifier::external_body]
fn document_text(doc: &DocumentMut) -> (r: String) {
    doc.to_string()
}

/// Why the configuration text could not be edited.
#[derive(Debug, Clone, Copy, PartialEq, Eq, Structural)]
pub enum EditError {
    /// The text is not a TOML document.
    InvalidToml,
}

/// The key of the auto-start setting.
pub const AUTO_START_KEY: &'static str = "auto_start";

/// The new auto-start setting: the opposite of a boolean setting, and off
/// where the setting is absent or not a boolean.
pub fn toggled_autostart(current: Option<bool>) -> (r: bool)
    ensures
        r == (match current {
            Some(b) => !b,
            None => false,
        }),
{
    match current {
        Some(b) => !b,
        None => false,
    }
}

/// The configuration text with its auto-start setting toggled as
/// `toggled_autostart` says, the rest of the document kept as written; an
/// error where the text is not a TOML document.
pub fn toggle_autostart(config_text: &str) -> (r: Result<String, EditError>)
    ensures
        r is Ok == parses_as_toml(config_text@),
        r is Err ==> r == Err::<String, EditError>(EditError::InvalidToml),
{
    match parse_document(config_text) {
        Ok(mut doc) => {
            let current = match entry(&doc, AUTO_START_KEY) {
                Some(item) => entry_bool(item),
                None => None,
            };
            let enabled = toggled_autostart(current);
            set_entry(&mut doc, AUTO_START_KEY, bool_entry(enabled));
            Ok(document_text(&doc))
        },
        Err(_) => Err(EditError::InvalidToml),
    }
}

} // verus!
