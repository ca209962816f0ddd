//! Documents in TOML, read, changed and written by `toml_edit`.

use vstd::prelude::*;

verus! {

/// The document type of `toml_edit`.
#[verifier::external_type_specification]
#[verifier::external_body]
pub struct ExDocumentMut(toml_edit::DocumentMut);

/// The type of what stands in a document of `toml_edit`.
#[verifier::external_type_specification]
#[verifier::external_body]
pub struct ExItem(toml_edit::Item);

/// The document that `toml_edit` reads in a text, or the message of its error.
pub uninterp spec fn document_in(source: Seq<char>) -> Result<toml_edit::DocumentMut, Seq<char>>;

/// What `toml_edit` writes for a document.
pub uninterp spec fn document_text(document: toml_edit::DocumentMut) -> Seq<char>;

/// What stands at the top of a document under a key.
pub uninterp spec fn setting_in(
    document: toml_edit::DocumentMut,
    key: Seq<char>,
) -> Option<toml_edit::Item>;

/// What stands in an item under a key, where the item is a table.
pub uninterp spec fn entry_in(item: toml_edit::Item, key: Seq<char>) -> Option<toml_edit::Item>;

/// How `toml_edit` shows an item.
pub uninterp spec fn item_text(item: toml_edit::Item) -> Seq<char>;

/// Whether an item is a table with a header or with dotted keys.
pub uninterp spec fn is_ordinary_table(item: toml_edit::Item) -> bool;

/// Whether an item is a table between braces.
pub uninterp spec fn is_braced_table(item: toml_edit::Item) -> bool;

/// The item that `toml_edit` makes of a string.
pub uninterp spec fn string_item(text: Seq<char>) -> toml_edit::Item;

/// A document with an empty table at its top.
pub uninterp spec fn with_table(
    document: toml_edit::DocumentMut,
    key: Seq<char>,
) -> toml_edit::DocumentMut;

/// A document with an entry in one of its tables.
pub uninterp spec fn with_entry(
    document: toml_edit::DocumentMut,
    table: Seq<char>,
    key: Seq<char>,
    item: toml_edit::Item,
) -> toml_edit::DocumentMut;

/// The entry of a table at the top of a document.
pub open spec fn entry_of(
    document: toml_edit::DocumentMut,
    table: Seq<char>,
    key: Seq<char>,
) -> Option<toml_edit::Item> {
    match setting_in(document, table) {
        Some(setting) => entry_in(setting, key),
        None => None,
    }
}

/// How an item is shown that may be missing.
pub open spec fn shown(item: Option<toml_edit::Item>) -> Option<Seq<char>> {
    match item {
        Some(item) => Some(item_text(item)),
        None => None,
    }
}

/// A document into which an entry was put: a table that is missing is created
/// for it.
pub open spec fn entered(
    document: toml_edit::DocumentMut,
    table: Seq<char>,
    key: Seq<char>,
    item: toml_edit::Item,
) -> toml_edit::DocumentMut {
    if setting_in(document, table) is None {
        with_entry(with_table(document, table), table, key, item)
    } else {
        with_entry(document, table, key, item)
    }
}

/// Whether an entry can be put into a table of a document: the table is there,
/// or nothing is.
pub open spec fn takes(document: toml_edit::DocumentMut, table: Seq<char>) -> bool {
    match setting_in(document, table) {
        Some(setting) => is_ordinary_table(setting) || is_braced_table(setting),
        None => true,
    }
}

/// Whether a table of a document is an ordinary one or is not there. In a table
/// between braces an entry with a header of its own has no place.
pub open spec fn ordinary(document: toml_edit::DocumentMut, table: Seq<char>) -> bool {
    match setting_in(document, table) {
        Some(setting) => is_ordinary_table(setting),
        None => true,
    }
}

/// Whether two documents have the same under a key: nothing, or tables of the
/// same sort or other items, which are shown the same.
pub open spec fn same_setting(
    a: toml_edit::DocumentMut,
    b: toml_edit::DocumentMut,
    key: Seq<char>,
) -> bool {
    match (setting_in(a, key), setting_in(b, key)) {
        (Some(x), Some(y)) => item_text(x) == item_text(y) && is_ordinary_table(x)
            == is_ordinary_table(y) && is_braced_table(x) == is_braced_table(y),
        (None, None) => true,
        _ => false,
    }
}

/// Whether `written` reads as `document` with one entry more or another: the
/// entry is shown as `item`, and everything else as it is in `document`: the
/// other entries of the table, the entries of other tables, and the other
/// settings at the top.
pub open spec fn holds_entry(
    written: Seq<char>,
    document: toml_edit::DocumentMut,
    table: Seq<char>,
    key: Seq<char>,
    item: toml_edit::Item,
) -> bool {
    match document_in(written) {
        Ok(after) => {
            &&& shown(entry_of(after, table, key)) == Some(item_text(item))
            &&& forall|k: Seq<char>|
                k != key ==> shown(#[trigger] entry_of(after, table, k)) == shown(
                    entry_of(document, table, k),
                )
            &&& forall|t: Seq<char>, k: Seq<char>|
                t != table ==> shown(#[trigger] entry_of(after, t, k)) == shown(
                    entry_of(document, t, k),
                )
            &&& forall|t: Seq<char>| t != table ==> #[trigger] same_setting(after, document, t)
        },
        Err(message) => false,
    }
}

/// The document with the entry of this program, when `literal` is what TOML
/// writes for its command.
pub open spec fn codex_lines(literal: Seq<char>) -> Seq<char> {
    "[mcp_servers.loomterm]\ncommand = "@ + literal
        + "\ncwd = \".\"\nenv_vars = [\"LOOMTERM_CONFIG\", \"LOOMTERM_STATE_DIR\", \"LOOMTERM_RUNTIME_DIR\", \"LOOMTERM_SESSION_ID\", \"LOOMTERM_AGENT_KIND\"]\nstartup_timeout_sec = 30\ntool_timeout_sec = 90\nrequired = true\ndefault_tools_approval_mode = \"writes\"\n"@
}

/// The document with the entry of this program.
pub open spec fn codex_document(command: Seq<char>) -> Seq<char> {
    codex_lines(item_text(string_item(command)))
}

/// The entry of this program in a document.
pub open spec fn own_entry(source: Seq<char>) -> Option<toml_edit::Item> {
    match document_in(source) {
        Ok(document) => entry_of(document, "mcp_servers"@, "loomterm"@),
        Err(message) => None,
    }
}

/// Whether nothing stands in a document.
pub open spec fn nothing_in(document: toml_edit::DocumentMut) -> bool {
    forall|key: Seq<char>| #[trigger] setting_in(document, key) is None
}

/// Whether `document` was read from `source`, where the servers stand in an
/// ordinary table or nowhere, and then got the entry of this program.
pub open spec fn got_own_entry(
    document: toml_edit::DocumentMut,
    source: Seq<char>,
    command: Seq<char>,
) -> bool {
    match (document_in(source), own_entry(codex_document(command))) {
        (Ok(before), Some(item)) => ordinary(before, "mcp_servers"@) && document == entered(
            before,
            "mcp_servers"@,
            "loomterm"@,
            item,
        ),
        _ => false,
    }
}

/// Whether a text reads back as a document that was read from `source` and got
/// the entry of this program.
pub open spec fn reads_back(written: Seq<char>, source: Seq<char>, command: Seq<char>) -> bool {
    match (document_in(source), own_entry(codex_document(command))) {
        (Ok(before), Some(item)) => holds_entry(
            written,
            before,
            "mcp_servers"@,
            "loomterm"@,
            item,
        ),
        _ => false,
    }
}

/// `FromStr` of `toml_edit::DocumentMut`, with the error written by its
/// `Display`: a function of the text alone. In an empty text nothing stands.
#[verifier::external_body]
pub(crate) fn parse_document(source: &str) -> (parsed: Result<toml_edit::DocumentMut, String>)
    ensures
        match parsed {
            Ok(document) => document_in(source@) is Ok && document_in(source@)->Ok_0 == document,
            Err(message) => document_in(source@) is Err && document_in(source@)->Err_0
                == message@,
        },
        source@.len() == 0 ==> parsed is Ok && nothing_in(parsed->Ok_0),
{
    source.parse::<toml_edit::DocumentMut>().map_err(|error| error.to_string())
}

/// `toml_edit::Table::get`, on the table at the top of a document.
#[verifier::external_body]
pub(crate) fn get_setting<'a>(document: &'a toml_edit::DocumentMut, key: &str) -> (found: Option<
    &'a toml_edit::Item,
>)
    ensures
        match found {
            Some(item) => setting_in(*document, key@) == Some(*item),
            None => setting_in(*document, key@) is None,
        },
{
    document.get(key)
}

/// `toml_edit::Item::get` with a text: what stands under the key in a table of
/// either sort, and nothing in any other item.
#[verifier::external_body]
pub(crate) fn get_entry<'a>(item: &'a toml_edit::Item, key: &str) -> (found: Option<
    &'a toml_edit::Item,
>)
    ensures
        match found {
            Some(entry) => entry_in(*item, key@) == Some(*entry),
            None => entry_in(*item, key@) is None,
        },
{
    item.get(key)
}

/// `Display` of `toml_edit::Item`.
#[verifier::external_body]
pub(crate) fn show_item(item: &toml_edit::Item) -> (text: String)
    ensures
        text@ == item_text(*item),
{
    item.to_string()
}

/// `toml_edit::Item::is_table`.
#[verifier::external_body]
pub(crate) fn item_is_table(item: &toml_edit::Item) -> (yes: bool)
    ensures
        yes == is_ordinary_table(*item),
{
    item.is_table()
}

/// `toml_edit::Item::is_inline_table`.
#[verifier::external_body]
pub(crate) fn item_is_inline(item: &toml_edit::Item) -> (yes: bool)
    ensures
        yes == is_braced_table(*item),
{
    item.is_inline_table()
}

/// `Clone` of `toml_edit::Item` gives the same item.
#[verifier::external_body]
pub(crate) fn clone_item(item: &toml_edit::Item) -> (copy: toml_edit::Item)
    ensures
        copy == *item,
{
    item.clone()
}

/// `toml_edit::value` on a string: a function of the string alone. What it is
/// written as is a literal of TOML, so that the document with the entry of this
/// program can be read and has that entry.
#[verifier::external_body]
pub(crate) fn make_string_item(text: &str) -> (item: toml_edit::Item)
    ensures
        item == string_item(text@),
        own_entry(codex_lines(item_text(item))) is Some,
{
    toml_edit::value(text)
}

/// `IndexMut` of `toml_edit::DocumentMut` with a key that is not there, set to
/// an empty table.
#[verifier::external_body]
pub(crate) fn add_table(document: &mut toml_edit::DocumentMut, key: &str)
    requires
        setting_in(*old(document), key@) is None,
    ensures
        *final(document) == with_table(*old(document), key@),
        ordinary(*final(document), key@),
{
    document[key] = toml_edit::Item::Table(toml_edit::Table::new());
}

/// `IndexMut` of `toml_edit::DocumentMut` and of the table that stands under
/// the first key, with the entry set to an item.
#[verifier::external_body]
pub(crate) fn put_entry(
    document: &mut toml_edit::DocumentMut,
    table: &str,
    key: &str,
    item: toml_edit::Item,
)
    requires
        takes(*old(document), table@),
    ensures
        *final(document) == with_entry(*old(document), table@, key@, item),
{
    document[table][key] = item;
}

/// `Display` of `toml_edit::DocumentMut`: a function of the document alone.
/// `toml_edit` keeps what it does not change as it was written. So a document
/// that was read from a text and got the entry of this program reads back with
/// that entry, and with everything else as it was, where the servers stand in
/// an ordinary table or stood nowhere. Nothing is said of servers between
/// braces, where an entry with a header of its own is not written.
#[verifier::external_body]
pub(crate) fn write_document(document: &toml_edit::DocumentMut) -> (written: String)
    ensures
        written@ == document_text(*document),
        forall|source: Seq<char>, command: Seq<char>|
            #[trigger] got_own_entry(*document, source, command) ==> reads_back(
                written@,
                source,
                command,
            ),
{
    document.to_string()
}

} // verus!
