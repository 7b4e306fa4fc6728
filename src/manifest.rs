//! The manifest document model: a parsed, format-preserving TOML document,
//! read and edited through a small set of operations on its items.
use vstd::prelude::*;

use toml_edit::{DocumentMut, Item, TomlError};

verus! {

#[verifier::external_type_specification]
#[verifier::external_body]
pub struct ExDocumentMut(DocumentMut);

#[verifier::external_type_specification]
#[verifier::external_body]
pub struct ExItem(Item);

#[verifier::external_type_specification]
#[verifier::external_body]
pub struct ExTomlError(TomlError);

/// The root item of a document (`DocumentMut::as_item`).
pub uninterp spec fn root_of(d: DocumentMut) -> Item;

/// The item under a key of a table or inline table (`Item::get` with a string
/// key); `None` where the key is absent or the item is not table-like.
pub uninterp spec fn child_of(i: Item, key: Seq<char>) -> Option<Item>;

/// The string an item holds (`Item::as_str`).
pub uninterp spec fn str_of(i: Item) -> Option<Seq<char>>;

/// The elements of an array item, each with the string it holds if it holds
/// one (`Item::as_array`, `Value::as_str`).
pub uninterp spec fn array_strs_of(i: Item) -> Option<Seq<Option<Seq<char>>>>;

/// The keys of a (non-inline) table item, in document order (`Item::as_table`,
/// `Table::iter`).
pub uninterp spec fn table_keys_of(i: Item) -> Option<Seq<Seq<char>>>;

/// Whether an item is a table or an inline table (`Item::is_table_like`).
pub uninterp spec fn is_table_like(i: Item) -> bool;

/// The item reached from `i` by following the keys of `path`.
pub open spec fn item_at(i: Item, path: Seq<Seq<char>>) -> Option<Item>
    decreases path.len(),
{
    if path.len() == 0 {
        Some(i)
    } else {
        match child_of(i, path[0]) {
            Some(c) => item_at(c, path.drop_first()),
            None => None,
        }
    }
}

/// A path of one key reaches the child under that key.
pub proof fn lemma_item_at_one(i: Item, a: Seq<char>)
    ensures
        item_at(i, seq![a]) == child_of(i, a),
{
    assert(seq![a].drop_first() =~= Seq::<Seq<char>>::empty());
    reveal_with_fuel(item_at, 2);
}

/// A path of two keys reaches the grandchild under them.
pub proof fn lemma_item_at_two(i: Item, a: Seq<char>, b: Seq<char>)
    ensures
        item_at(i, seq![a, b]) == match child_of(i, a) {
            Some(c) => child_of(c, b),
            None => None,
        },
{
    assert(seq![a, b].drop_first() =~= seq![b]);
    if let Some(c) = child_of(i, a) {
        lemma_item_at_one(c, b);
    }
}

/// The item of a document at a dotted key path.
pub open spec fn doc_item(d: DocumentMut, path: Seq<Seq<char>>) -> Option<Item> {
    item_at(root_of(d), path)
}

/// The string of a document at a dotted key path.
pub open spec fn doc_str(d: DocumentMut, path: Seq<Seq<char>>) -> Option<Seq<char>> {
    match doc_item(d, path) {
        Some(i) => str_of(i),
        None => None,
    }
}

/// The array of a document at a dotted key path.
pub open spec fn doc_array(d: DocumentMut, path: Seq<Seq<char>>) -> Option<Seq<Option<Seq<char>>>> {
    match doc_item(d, path) {
        Some(i) => array_strs_of(i),
        None => None,
    }
}

/// Children other than `key` are the same in both items.
pub open spec fn same_except(a: Item, b: Item, key: Seq<char>) -> bool {
    forall|k: Seq<char>| k != key ==> #[trigger] child_of(a, k) == child_of(b, k)
}

/// Whether TOML text parses into a document.
pub uninterp spec fn toml_parses(text: Seq<char>) -> bool;

/// Relies on `str::parse` for `DocumentMut`: parses TOML text, keeping its
/// formatting; whether it succeeds depends on the text alone.
#[verifier::external_body]
pub(crate) fn parse_document(text: &str) -> (r: Result<DocumentMut, TomlError>)
    ensures
        r is Ok <==> toml_parses(text@),
{
    text.parse::<DocumentMut>()
}

/// Relies on `DocumentMut::new`: an empty document.
#[verifier::external_body]
pub(crate) fn empty_document() -> (r: DocumentMut)
    ensures
        table_keys_of(root_of(r)) == Some(Seq::<Seq<char>>::empty()),
        is_table_like(root_of(r)),
        forall|k: Seq<char>| #[trigger] child_of(root_of(r), k) is None,
{
    DocumentMut::new()
}

/// The text of a document (`DocumentMut`'s `Display`), which depends on the
/// document alone.
pub uninterp spec fn document_text_of(d: DocumentMut) -> Seq<char>;

/// Relies on `DocumentMut`'s `Display`: the document's text.
#[verifier::external_body]
pub(crate) fn render_document(d: &DocumentMut) -> (r: String)
    ensures
        r@ == document_text_of(*d),
{
    d.to_string()
}

/// Relies on `DocumentMut::as_item`.
#[verifier::external_body]
pub(crate) fn root_item(d: &DocumentMut) -> (r: &Item)
    ensures
        *r == root_of(*d),
{
    d.as_item()
}

/// Relies on `DocumentMut::as_item_mut`; the root of a document is a table.
#[verifier::external_body]
pub(crate) fn root_item_mut(d: &mut DocumentMut) -> (r: &mut Item)
    ensures
        *r == root_of(*old(d)),
        table_keys_of(*r) is Some,
        root_of(*final(d)) == *final(r),
{
    d.as_item_mut()
}

/// Relies on `Item::get` with a string key.
#[verifier::external_body]
pub(crate) fn child_item<'a>(i: &'a Item, key: &str) -> (r: Option<&'a Item>)
    ensures
        match r {
            Some(c) => child_of(*i, key@) == Some(*c),
            None => child_of(*i, key@) is None,
        },
{
    i.get(key)
}

/// Relies on `Item::get_mut` with a string key, which finds the same item as
/// `Item::get`; changing it leaves the other children in place. The library
/// never stores `Item::None` (it has no way to make one), the one value that
/// `Item::get` does not return.
#[verifier::external_body]
pub(crate) fn child_item_mut<'a>(i: &'a mut Item, key: &str) -> (r: &'a mut Item)
    requires
        child_of(*old(i), key@) is Some,
    ensures
        Some(*r) == child_of(*old(i), key@),
        child_of(*final(i), key@) == Some(*final(r)),
        same_except(*final(i), *old(i), key@),
        is_table_like(*final(i)) == is_table_like(*old(i)),
        table_keys_of(*final(i)) == table_keys_of(*old(i)),
{
    i.get_mut(key).unwrap()
}

/// Relies on `Item::as_str`.
#[verifier::external_body]
pub(crate) fn item_str(i: &Item) -> (r: Option<String>)
    ensures
        match r {
            Some(s) => str_of(*i) == Some(s@),
            None => str_of(*i) is None,
        },
{
    i.as_str().map(String::from)
}

/// Relies on `Item::is_table_like`.
#[verifier::external_body]
pub(crate) fn item_is_table_like(i: &Item) -> (r: bool)
    ensures
        r == is_table_like(*i),
{
    i.is_table_like()
}

/// Relies on `Item::as_table` and `Table::iter`: the keys in document order,
/// which are the keys under which `Item::get` finds an item.
#[verifier::external_body]
pub(crate) fn item_table_keys(i: &Item) -> (r: Option<Vec<String>>)
    ensures
        match r {
            Some(v) => table_keys_of(*i) == Some(v@.map_values(|s: String| s@)),
            None => table_keys_of(*i) is None,
        },
        r is Some ==> forall|k: Seq<char>|
            #[trigger] child_of(*i, k) is Some <==> r->0@.map_values(|s: String| s@).contains(k),
{
    i.as_table().map(|t| t.iter().map(|(k, _)| k.to_string()).collect())
}

/// The string views of a sequence of optional strings.
pub open spec fn opt_views(v: Seq<Option<String>>) -> Seq<Option<Seq<char>>> {
    v.map_values(|o: Option<String>| match o {
        Some(s) => Some(s@),
        None => None,
    })
}

/// Relies on `Item::as_array`, `Array::iter` and `Value::as_str`.
#[verifier::external_body]
pub(crate) fn item_array_strs(i: &Item) -> (r: Option<Vec<Option<String>>>)
    ensures
        match r {
            Some(v) => array_strs_of(*i) == Some(opt_views(v@)),
            None => array_strs_of(*i) is None,
        },
{
    i.as_array().map(|a| a.iter().map(|v| v.as_str().map(String::from)).collect())
}

/// Relies on `Array::push`: appends a string to an array item.
#[verifier::external_body]
pub(crate) fn array_push_str(i: &mut Item, v: &str)
    requires
        array_strs_of(*old(i)) is Some,
    ensures
        array_strs_of(*final(i)) == Some(array_strs_of(*old(i))->0.push(Some(v@))),
{
    let _ = i.as_array_mut().map(|a| a.push(v));
}

/// Relies on `Array::iter_mut`, which walks the same values as `Array::iter`:
/// replaces one element of an array item with a string.
#[verifier::external_body]
pub(crate) fn array_set_str(i: &mut Item, idx: usize, v: &str)
    requires
        array_strs_of(*old(i)) is Some,
        idx < array_strs_of(*old(i))->0.len(),
    ensures
        array_strs_of(*final(i)) == Some(array_strs_of(*old(i))->0.update(idx as int, Some(v@))),
{
    let _ = i.as_array_mut().and_then(|a| a.iter_mut().nth(idx)).map(|e| *e = v.into());
}

/// Relies on `IndexMut` of `Item` and `toml_edit::value`: sets a key of a
/// table-like item to a string.
#[verifier::external_body]
pub(crate) fn set_child_str(i: &mut Item, key: &str, v: &str)
    requires
        is_table_like(*old(i)),
    ensures
        child_of(*final(i), key@) is Some,
        str_of(child_of(*final(i), key@)->0) == Some(v@),
        same_except(*final(i), *old(i), key@),
        is_table_like(*final(i)),
{
    i[key] = toml_edit::value(v);
}

/// Relies on `IndexMut` of `Item`, `Array::from_iter` and `toml_edit::value`:
/// sets a key of a table-like item to an array of strings.
#[verifier::external_body]
pub(crate) fn set_child_strs(i: &mut Item, key: &str, vs: &Vec<String>)
    requires
        is_table_like(*old(i)),
    ensures
        child_of(*final(i), key@) is Some,
        array_strs_of(child_of(*final(i), key@)->0) == Some(
            opt_views(vs@.map_values(|s: String| Some(s))),
        ),
        same_except(*final(i), *old(i), key@),
        is_table_like(*final(i)),
{
    i[key] = toml_edit::value(vs.iter().collect::<toml_edit::Array>());
}

/// Relies on `TableLike::remove`: takes a key out of a table-like item (a
/// table is one).
#[verifier::external_body]
pub(crate) fn remove_child(i: &mut Item, key: &str) -> (r: Option<Item>)
    requires
        is_table_like(*old(i)) || table_keys_of(*old(i)) is Some,
        child_of(*old(i), key@) is Some,
    ensures
        table_keys_of(*old(i)) is Some ==> r == child_of(*old(i), key@),
        child_of(*final(i), key@) is None,
        same_except(*final(i), *old(i), key@),
        is_table_like(*final(i)),
        table_keys_of(*old(i)) is Some ==> table_keys_of(*final(i)) is Some,
{
    i.as_table_like_mut().and_then(|t| t.remove(key))
}

/// Relies on `Table::insert`: sets a key of a table item to an item, keeping
/// the key's place if it was there and adding it last otherwise. The item is
/// a table or one that `Item::get` returned, so never `Item::None`, which
/// `Item::get` would not find.
#[verifier::external_body]
pub(crate) fn insert_child(i: &mut Item, key: &str, v: Item)
    requires
        table_keys_of(*old(i)) is Some,
        is_table_like(v) || exists|p: Item, k: Seq<char>| child_of(p, k) == Some(v),
    ensures
        child_of(*final(i), key@) == Some(v),
        same_except(*final(i), *old(i), key@),
        is_table_like(*final(i)),
        table_keys_of(*final(i)) is Some,
{
    let _ = i.as_table_mut().map(|t| t.insert(key, v));
}

/// The first table of an array of tables (`Item::get` with index 0).
pub uninterp spec fn first_table_of(i: Item) -> Option<Item>;

/// Relies on `Item::get` with index 0.
#[verifier::external_body]
pub(crate) fn first_table(i: &Item) -> (r: Option<&Item>)
    ensures
        match r {
            Some(c) => first_table_of(*i) == Some(*c),
            None => first_table_of(*i) is None,
        },
{
    i.get(0)
}

/// Relies on `Item::get_mut` with index 0, `IndexMut` of `Item` and
/// `toml_edit::value`: sets a key of the first table of an array of tables.
#[verifier::external_body]
pub(crate) fn set_first_table_str(i: &mut Item, key: &str, v: &str)
    requires
        first_table_of(*old(i)) is Some,
        is_table_like(first_table_of(*old(i))->0),
    ensures
        first_table_of(*final(i)) is Some,
        child_of(first_table_of(*final(i))->0, key@) is Some,
        str_of(child_of(first_table_of(*final(i))->0, key@)->0) == Some(v@),
        same_except(first_table_of(*final(i))->0, first_table_of(*old(i))->0, key@),
{
    let _ = i.get_mut(0).map(|t| t[key] = toml_edit::value(v));
}

/// Relies on `toml_edit::table`: a new empty table item.
#[verifier::external_body]
pub(crate) fn new_table() -> (r: Item)
    ensures
        table_keys_of(r) == Some(Seq::<Seq<char>>::empty()),
        is_table_like(r),
        forall|k: Seq<char>| #[trigger] child_of(r, k) is None,
{
    toml_edit::table()
}

/// A manifest could not be read or changed as asked.
#[derive(Debug, PartialEq, Eq, Structural)]
pub enum ManifestError {
    /// The text is not a TOML document.
    Parse,
    /// A key that the operation needs is absent.
    MissingKey,
    /// An item does not have the shape the operation needs.
    UnexpectedShape,
}

/// Reads a manifest document from its text.
pub fn read_document(text: &str) -> (r: Result<DocumentMut, ManifestError>)
    ensures
        r is Ok <==> toml_parses(text@),
        r is Err ==> r == Err::<DocumentMut, ManifestError>(ManifestError::Parse),
{
    match parse_document(text) {
        Ok(d) => Ok(d),
        Err(_) => Err(ManifestError::Parse),
    }
}

/// The text of a manifest document, to replace the whole file with.
pub fn write_document(document: &DocumentMut) -> (r: String)
    ensures
        r@ == document_text_of(*document),
{
    render_document(document)
}

/// A manifest file, by its path.
pub struct Manifest {
    pub path: String,
}

impl Manifest {
    pub fn new(path: String) -> (r: Self)
        ensures
            r.path == path,
    {
        Manifest { path }
    }
}

/// Finds the item at a key path of a document.
pub fn lookup<'a>(d: &'a DocumentMut, path: &Vec<String>) -> (r: Option<&'a Item>)
    ensures
        match r {
            Some(i) => doc_item(*d, path@.map_values(|s: String| s@)) == Some(*i),
            None => doc_item(*d, path@.map_values(|s: String| s@)) is None,
        },
{
    let ghost keys = path@.map_values(|s: String| s@);
    let mut cur = root_item(d);
    assert(keys.subrange(0, keys.len() as int) =~= keys);
    let mut i: usize = 0;
    while i < path.len()
        invariant
            i <= path.len(),
            keys == path@.map_values(|s: String| s@),
            doc_item(*d, keys) == item_at(*cur, keys.subrange(i as int, keys.len() as int)),
        decreases path.len() - i,
    {
        let ghost rest = keys.subrange(i as int, keys.len() as int);
        assert(rest.drop_first() =~= keys.subrange(i + 1, keys.len() as int));
        match child_item(cur, path[i].as_str()) {
            Some(c) => {
                cur = c;
            },
            None => {
                return None;
            },
        }
        i = i + 1;
    }
    Some(cur)
}

/// `new` is `old` with `table.key` set to the string `value`, and nothing
/// else under `table` or beside it changed.
pub open spec fn field_set(
    old: DocumentMut,
    new: DocumentMut,
    table: Seq<char>,
    key: Seq<char>,
    value: Seq<char>,
) -> bool {
    &&& child_of(root_of(old), table) is Some
    &&& child_of(root_of(new), table) is Some
    &&& child_of(child_of(root_of(new), table)->0, key) is Some
    &&& str_of(child_of(child_of(root_of(new), table)->0, key)->0) == Some(value)
    &&& same_except(root_of(new), root_of(old), table)
    &&& same_except(child_of(root_of(new), table)->0, child_of(root_of(old), table)->0, key)
}

/// Sets the string field `key` of the top-level table `table`. Fails,
/// changing nothing, where `table` is absent or not table-like.
pub fn set_string_field(doc: &mut DocumentMut, table: &str, key: &str, value: &str) -> (r: Result<
    (),
    ManifestError,
>)
    ensures
        r is Ok <==> (child_of(root_of(*old(doc)), table@) is Some && is_table_like(
            child_of(root_of(*old(doc)), table@)->0,
        )),
        r is Err ==> *final(doc) == *old(doc),
        r is Ok ==> field_set(*old(doc), *final(doc), table@, key@, value@),
{
    let ok = match child_item(root_item(doc), table) {
        Some(t) => item_is_table_like(t),
        None => false,
    };
    if !ok {
        return Err(ManifestError::MissingKey);
    }
    let root = root_item_mut(doc);
    let t = child_item_mut(root, table);
    set_child_str(t, key, value);
    Ok(())
}

/// Setting one field leaves every other item of the document as it was:
/// whatever lies at a key path that does not pass through `table.key` (other
/// than `table` itself, which holds the field) is the same before and after.
pub proof fn lemma_field_update_is_local(
    old: DocumentMut,
    new: DocumentMut,
    table: Seq<char>,
    key: Seq<char>,
    value: Seq<char>,
    path: Seq<Seq<char>>,
)
    requires
        field_set(old, new, table, key, value),
        path.len() > 0,
        !(path[0] == table && (path.len() == 1 || path[1] == key)),
    ensures
        doc_item(new, path) == doc_item(old, path),
{
    let rest = path.drop_first();
    if path[0] != table {
        assert(child_of(root_of(new), path[0]) == child_of(root_of(old), path[0]));
    } else {
        let tn = child_of(root_of(new), table)->0;
        let to = child_of(root_of(old), table)->0;
        assert(rest.len() > 0 && rest[0] != key);
        assert(child_of(tn, rest[0]) == child_of(to, rest[0]));
        assert(item_at(tn, rest) == item_at(to, rest));
    }
}

} // verus!
