//! The layout of a lockfile written as TOML: top-level tables are written as
//! `[section]` tables rather than inline `{ ... }` tables.

use vstd::prelude::*;
use toml_edit::DocumentMut;

verus! {

#[verifier::external_type_specification]
#[verifier::external_body]
pub struct ExDocumentMut(DocumentMut);

/// How a TOML item is written.
#[derive(Clone, Copy, Debug, PartialEq, Eq, Structural)]
pub enum ItemShape {
    /// A value other than an inline table (string, number, array, ...).
    Value,
    /// An inline table, `key = { ... }`.
    InlineTable,
    /// A table with its own header, `[key]`.
    Table,
    /// An array of tables, `[[key]]`.
    ArrayOfTables,
}

/// A top-level item of a TOML document: its key, how it is written, and, for
/// a table or an inline table, the key and shape of each of its entries.
pub struct TomlEntry {
    pub key: Seq<char>,
    pub shape: ItemShape,
    pub children: Seq<(Seq<char>, ItemShape)>,
}

/// The top-level items of a `toml_edit::DocumentMut`, in the document's order:
/// the non-empty (not `Item::None`) items of the root table, each with the
/// non-empty entries of its own table or inline table in their order (none for
/// other items). Empty when the root item is not a table.
pub uninterp spec fn toml_top_level(doc: DocumentMut) -> Seq<TomlEntry>;

/// The shape an item takes when its inline table is promoted to a table.
pub open spec fn promoted(shape: ItemShape) -> ItemShape {
    if shape == ItemShape::InlineTable {
        ItemShape::Table
    } else {
        shape
    }
}

/// The keys of the top-level items: the root table is reached with
/// `DocumentMut::as_item` and `Item::as_table`, and walked with `Table::iter`,
/// which goes in order and skips empty items; no keys when the root is not a
/// table. The contract states that they are the keys of [`toml_top_level`].
#[verifier::external_body]
fn top_level_keys(doc: &DocumentMut) -> (res: Vec<String>)
    ensures
        res@.len() == toml_top_level(*doc).len(),
        forall|i: int| 0 <= i < res@.len() ==> #[trigger] res@[i]@ == toml_top_level(*doc)[i].key,
{
    match doc.as_item().as_table() {
        Some(root) => root.iter().map(|(k, _)| k.to_string()).collect(),
        None => Vec::new(),
    }
}

/// Reaches the root table with `DocumentMut::as_item_mut` and
/// `Item::as_table_mut` (nothing happens when the root is not a table), looks
/// `key` up with `Table::get_mut` and, where the item is an inline table
/// (`Item::as_inline_table_mut`), replaces it in place by the table that
/// `InlineTable::into_table` makes of it, which keeps its key and value pairs
/// (only their whitespace is reset). The contract states that the item under
/// `key` changes shape from inline table to table with the same entries, that
/// all other items stay, and that the result tells whether an item was
/// promoted. It says nothing of the values below the entries' shapes.
#[verifier::external_body]
fn promote_inline_table(doc: &mut DocumentMut, key: &str) -> (res: bool)
    ensures
        toml_top_level(*final(doc)).len() == toml_top_level(*old(doc)).len(),
        forall|i: int| 0 <= i < toml_top_level(*old(doc)).len() ==> {
            let before = #[trigger] toml_top_level(*old(doc))[i];
            let after = toml_top_level(*final(doc))[i];
            &&& after.key == before.key
            &&& after.children == before.children
            &&& after.shape == if before.key == key@ { promoted(before.shape) } else { before.shape }
        },
        res == exists|i: int| 0 <= i < toml_top_level(*old(doc)).len()
            && #[trigger] toml_top_level(*old(doc))[i].key == key@
            && toml_top_level(*old(doc))[i].shape == ItemShape::InlineTable,
{
    if let Some(root) = doc.as_item_mut().as_table_mut() {
        if let Some(item) = root.get_mut(key) {
            if let Some(inline_table) = item.as_inline_table_mut() {
                let table = core::mem::take(inline_table).into_table();
                *item = toml_edit::Item::Table(table);
                return true;
            }
        }
    }
    false
}

/// Rewrites every top-level inline table of `doc` as a table with its own
/// header and the same entries, leaving keys, order and all other items as
/// they were.
pub fn promote_top_level_tables(doc: &mut DocumentMut)
    ensures
        toml_top_level(*final(doc)).len() == toml_top_level(*old(doc)).len(),
        forall|i: int| 0 <= i < toml_top_level(*old(doc)).len() ==> {
            let before = #[trigger] toml_top_level(*old(doc))[i];
            let after = toml_top_level(*final(doc))[i];
            &&& after.key == before.key
            &&& after.children == before.children
            &&& after.shape == promoted(before.shape)
        },
{
    let ghost orig = toml_top_level(*doc);
    let keys = top_level_keys(doc);
    let mut t: usize = 0;
    while t < keys.len()
        invariant
            keys@.len() == orig.len(),
            forall|i: int| 0 <= i < keys@.len() ==> #[trigger] keys@[i]@ == orig[i].key,
            t <= keys@.len(),
            toml_top_level(*doc).len() == orig.len(),
            forall|i: int| 0 <= i < orig.len() ==> {
                let cur = #[trigger] toml_top_level(*doc)[i];
                &&& cur.key == orig[i].key
                &&& cur.children == orig[i].children
                &&& cur.shape == if exists|s: int| 0 <= s < t && #[trigger] keys@[s]@ == orig[i].key {
                    promoted(orig[i].shape)
                } else {
                    orig[i].shape
                }
            },
        decreases keys@.len() - t,
    {
        let ghost before = toml_top_level(*doc);
        promote_inline_table(doc, keys[t].as_str());
        proof {
            assert forall|i: int| 0 <= i < orig.len() implies {
                let cur = #[trigger] toml_top_level(*doc)[i];
                &&& cur.key == orig[i].key
                &&& cur.children == orig[i].children
                &&& cur.shape == if exists|s: int| 0 <= s < t + 1 && #[trigger] keys@[s]@ == orig[i].key {
                    promoted(orig[i].shape)
                } else {
                    orig[i].shape
                }
            } by {
                let b = before[i];
                if keys@[t as int]@ == orig[i].key {
                    assert(exists|s: int| 0 <= s < t + 1 && #[trigger] keys@[s]@ == orig[i].key);
                } else {
                    if exists|s: int| 0 <= s < t + 1 && #[trigger] keys@[s]@ == orig[i].key {
                        let s = choose|s: int| 0 <= s < t + 1 && #[trigger] keys@[s]@ == orig[i].key;
                        assert(s < t);
                    }
                }
            }
        }
        t = t + 1;
    }
    assert forall|i: int| 0 <= i < orig.len() implies
        (#[trigger] toml_top_level(*doc)[i]).shape == promoted(orig[i].shape) by {
        assert(keys@[i]@ == orig[i].key);
    }
}

/// After promotion no item is an inline table, and promoting again changes
/// nothing.
pub proof fn lemma_promoted_settles(shape: ItemShape)
    ensures
        promoted(shape) != ItemShape::InlineTable,
        promoted(promoted(shape)) == promoted(shape),
        shape != ItemShape::InlineTable ==> promoted(shape) == shape,
{
}

} // verus!
