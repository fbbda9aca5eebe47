//! Documents of `toml_edit`: reading one from a text, and taking the
//! items of one document over into another.

use toml_edit::{DocumentMut, TomlError};
use vstd::prelude::*;
use vstd::string::StringExecFns;

verus! {

/// `toml_edit::DocumentMut`, an editable TOML document.
#[verifier::external_type_specification]
#[verifier::external_body]
pub struct ExDocumentMut(DocumentMut);

/// `toml_edit::TomlError`, the error of parsing a TOML document.
#[verifier::external_type_specification]
#[verifier::external_body]
pub struct ExTomlError(TomlError);

/// What the root item of `document` holds, where it is a table or an
/// inline table: each key that has an item, with the text that the item
/// is written as. Nothing where the root item is no such table.
pub uninterp spec fn document_items(document: DocumentMut) -> Map<Seq<char>, Seq<char>>;

/// Whether the root item of `document` is a table, as it is in every
/// document that was parsed or newly made.
pub uninterp spec fn is_table_rooted(document: DocumentMut) -> bool;

/// Whether the root item of `document` is a table or an inline table.
pub uninterp spec fn is_table_like_rooted(document: DocumentMut) -> bool;

/// Whether the root item of `document` is none.
pub uninterp spec fn is_none_rooted(document: DocumentMut) -> bool;

/// Whether an item can be put into `document` under a key: the root item
/// is a table or an inline table, which take it, or none, in whose place
/// an inline table is made.
pub open spec fn takes_items(document: DocumentMut) -> bool {
    is_table_like_rooted(document) || is_none_rooted(document)
}

/// What the document that `content` is parsed to holds, as
/// `document_items` gives it; `None` where `content` is no TOML document.
pub uninterp spec fn toml_items(content: Seq<char>) -> Option<Map<Seq<char>, Seq<char>>>;

/// Why no document could be had from a text.
#[derive(Debug, Clone, Copy, PartialEq, Eq, Structural)]
pub enum TomlDocumentError {
    /// The text is no TOML document.
    InvalidData,
}

impl TomlDocumentError {
    /// The text of the message that describes this error.
    pub open spec fn message_text(self) -> Seq<char> {
        "Could not parse toml file"@
    }

    /// Describes this error in words.
    pub fn message(&self) -> (r: String)
        ensures
            r@ == self.message_text(),
    {
        String::from_str("Could not parse toml file")
    }
}

/// Parses `content` by the `FromStr` of `DocumentMut`. A document that
/// comes out of it has a table as its root, and what it holds depends on
/// `content` alone; an error comes exactly where `content` is no TOML
/// document.
#[verifier::external_body]
fn parse_document(content: &str) -> (r: Result<DocumentMut, TomlError>)
    ensures
        match r {
            Ok(document) => is_table_rooted(document) && is_table_like_rooted(document)
                && toml_items(content@) == Some(document_items(document)),
            Err(_) => toml_items(content@) is None,
        },
{
    content.parse::<DocumentMut>()
}

/// Whether the root item of `document` is a table, by
/// `DocumentMut::as_item` and `Item::is_table`. A table is also what
/// `Item::is_table_like` asks for.
#[verifier::external_body]
fn has_table_root(document: &DocumentMut) -> (r: bool)
    ensures
        r == is_table_rooted(*document),
        r ==> is_table_like_rooted(*document),
{
    document.as_item().is_table()
}

/// Whether the root item of `document` is a table or an inline table, by
/// `DocumentMut::as_item` and `Item::is_table_like`.
#[verifier::external_body]
fn has_table_like_root(document: &DocumentMut) -> (r: bool)
    ensures
        r == is_table_like_rooted(*document),
{
    document.as_item().is_table_like()
}

/// Whether the root item of `document` is none, by
/// `DocumentMut::as_item` and `Item::is_none`.
#[verifier::external_body]
fn has_none_root(document: &DocumentMut) -> (r: bool)
    ensures
        r == is_none_rooted(*document),
{
    document.as_item().is_none()
}

/// The keys of the root table of `document`, in the order of
/// `Table::iter`, which passes over the keys without an item. Each key
/// that has an item comes once.
#[verifier::external_body]
fn document_keys(document: &DocumentMut) -> (keys: Vec<String>)
    requires
        is_table_rooted(*document),
    ensures
        keys.deep_view().no_duplicates(),
        forall|key: Seq<char>|
            keys.deep_view().contains(key) <==> #[trigger] document_items(*document).dom().contains(
                key,
            ),
{
    document.as_table().iter().map(|(key, _)| String::from(key)).collect()
}

/// Puts a clone of the item that `new` holds under `key` into `base`
/// under the same key, by the `Index` and `IndexMut` of `DocumentMut`:
/// in place of the item that `base` holds under `key`, or as a further
/// item. Nothing else in `base` changes. A root item that is a table
/// stays one; in place of a root item that is none, `IndexMut` makes an
/// inline table.
#[verifier::external_body]
fn copy_item(base: &mut DocumentMut, new: &DocumentMut, key: &str)
    requires
        takes_items(*old(base)),
        is_table_rooted(*new),
        document_items(*new).dom().contains(key@),
    ensures
        is_table_like_rooted(*final(base)),
        is_table_rooted(*old(base)) ==> is_table_rooted(*final(base)),
        document_items(*final(base)) == document_items(*old(base)).insert(
            key@,
            document_items(*new)[key@],
        ),
{
    base[key] = new[key].clone();
}

/// Tries building a document from the content of a TOML file. Fails
/// where the content is no TOML document.
pub fn parse_toml_document(content: &str) -> (r: Result<DocumentMut, TomlDocumentError>)
    ensures
        match r {
            Ok(document) => is_table_rooted(document) && takes_items(document) && toml_items(
                content@,
            ) == Some(document_items(document)),
            Err(e) => toml_items(content@) is None,
        },
{
    match parse_document(content) {
        Ok(document) => Ok(document),
        Err(_) => Err(TomlDocumentError::InvalidData),
    }
}

/// What `base` holds after the items of `new` under the first `count` of
/// `names` were taken over into it.
pub open spec fn merged_up_to(
    base: Map<Seq<char>, Seq<char>>,
    new: Map<Seq<char>, Seq<char>>,
    names: Seq<Seq<char>>,
    count: int,
) -> Map<Seq<char>, Seq<char>> {
    base.union_prefer_right(new.restrict(names.take(count).to_set()))
}

/// Taking over the item under the next name is a step from one
/// `merged_up_to` to the next.
proof fn lemma_merged_one_more(
    base: Map<Seq<char>, Seq<char>>,
    new: Map<Seq<char>, Seq<char>>,
    names: Seq<Seq<char>>,
    count: int,
)
    requires
        0 <= count < names.len(),
        new.dom().contains(names[count]),
    ensures
        merged_up_to(base, new, names, count).insert(names[count], new[names[count]])
            == merged_up_to(base, new, names, count + 1),
{
    let key = names[count];
    let seen = names.take(count);
    assert(names.take(count + 1) =~= seen.push(key));
    seen.lemma_push_to_set_commute(key);
    assert(merged_up_to(base, new, names, count).insert(key, new[key]) =~= merged_up_to(
        base,
        new,
        names,
        count + 1,
    ));
}

/// With all the keys of `new` among `names`, taking over the items
/// under all the names merges `new` into `base`.
proof fn lemma_merged_all(
    base: Map<Seq<char>, Seq<char>>,
    new: Map<Seq<char>, Seq<char>>,
    names: Seq<Seq<char>>,
)
    requires
        forall|key: Seq<char>| names.contains(key) <==> #[trigger] new.dom().contains(key),
    ensures
        merged_up_to(base, new, names, names.len() as int) == base.union_prefer_right(new),
        merged_up_to(base, new, names, 0) == base,
{
    assert(names.take(names.len() as int) =~= names);
    assert(names.to_set() =~= new.dom());
    assert(new.restrict(new.dom()) =~= new);
    assert(names.take(0).to_set() =~= Set::<Seq<char>>::empty());
    assert(merged_up_to(base, new, names, 0) =~= base);
}

/// Takes each item of the root table of `new` over into `base`, where it
/// replaces the item under the same key or stands as a further item.
/// What `base` holds under the other keys stays. The root item of `new`
/// is a table; that of `base` is a table, an inline table or none.
pub fn merge_toml_documents(base: &mut DocumentMut, new: &DocumentMut)
    requires
        takes_items(*old(base)),
        is_table_rooted(*new),
    ensures
        takes_items(*final(base)),
        is_table_rooted(*old(base)) ==> is_table_rooted(*final(base)),
        document_items(*final(base)) == document_items(*old(base)).union_prefer_right(
            document_items(*new),
        ),
{
    let keys = document_keys(new);
    let ghost base_items = document_items(*base);
    let ghost new_items = document_items(*new);
    let ghost names = keys.deep_view();
    proof {
        lemma_merged_all(base_items, new_items, names);
    }
    let mut i: usize = 0;
    while i < keys.len()
        invariant
            i <= keys.len(),
            names == keys.deep_view(),
            new_items == document_items(*new),
            takes_items(*base),
            is_table_rooted(*old(base)) ==> is_table_rooted(*base),
            is_table_rooted(*new),
            forall|key: Seq<char>| names.contains(key) <==> #[trigger] new_items.dom().contains(key),
            document_items(*base) == merged_up_to(base_items, new_items, names, i as int),
        decreases keys.len() - i,
    {
        let key = keys[i].as_str();
        proof {
            assert(names[i as int] == key@);
            assert(names.contains(key@));
            lemma_merged_one_more(base_items, new_items, names, i as int);
        }
        copy_item(base, new, key);
        i += 1;
    }
}

/// Merges `new` into `base` as `merge_toml_documents` does, where the
/// root item of `new` is a table and that of `base` takes items, and
/// says so with `true`. Where not, `base` stays as it is, and the answer
/// is `false`.
pub fn try_merge_toml_documents(base: &mut DocumentMut, new: &DocumentMut) -> (merged: bool)
    ensures
        merged == (takes_items(*old(base)) && is_table_rooted(*new)),
        merged ==> takes_items(*final(base)) && document_items(*final(base)) == document_items(
            *old(base),
        ).union_prefer_right(document_items(*new)),
        !merged ==> *final(base) == *old(base),
{
    if has_table_root(new) && (has_table_like_root(base) || has_none_root(base)) {
        merge_toml_documents(base, new);
        true
    } else {
        false
    }
}

} // verus!
