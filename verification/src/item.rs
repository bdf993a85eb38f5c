//! The transient item tree produced by one decode step.
//!
//! An item is either an opaque byte string or an ordered list of items. It is
//! produced by the primitive decoder, consumed by the schema mapper within the
//! same decode step, and never persisted.

use vstd::prelude::*;

verus! {

broadcast use vstd::std_specs::vec::group_vec_axioms, vstd::seq::axiom_seq_index_decreases;

/// The mathematical model of an item: a byte string or an ordered list.
pub enum ItemModel {
    /// An opaque byte string.
    Str(Seq<u8>),
    /// An ordered list of child items, in encounter order.
    List(Seq<ItemModel>),
}

/// One decoded item: an opaque byte string or an ordered list of items.
#[derive(Debug, PartialEq, Eq)]
pub enum Item {
    /// An opaque byte string.
    Str(Vec<u8>),
    /// An ordered list of child items, in encounter order.
    List(Vec<Item>),
}

/// The model of an item: strings keep their bytes, lists model each child.
pub open spec fn item_model(it: Item) -> ItemModel
    decreases it,
{
    match it {
        Item::Str(bytes) => ItemModel::Str(bytes@),
        Item::List(children) => ItemModel::List(items_model(children@)),
    }
}

/// The models of a sequence of items, in order.
pub open spec fn items_model(s: Seq<Item>) -> Seq<ItemModel>
    decreases s,
{
    if s.len() == 0 {
        Seq::empty()
    } else {
        seq![item_model(s[0])] + items_model(s.skip(1))
    }
}

/// `items_model` maps the sequence pointwise.
pub proof fn lemma_items_model_index(s: Seq<Item>)
    ensures
        items_model(s).len() == s.len(),
        forall|i: int| 0 <= i < s.len() ==> items_model(s)[i] == item_model(s[i]),
    decreases s.len(),
{
    if s.len() > 0 {
        lemma_items_model_index(s.skip(1));
        assert forall|i: int| 0 <= i < s.len() implies items_model(s)[i] == item_model(s[i]) by {
            if i > 0 {
                assert(items_model(s)[i] == items_model(s.skip(1))[i - 1]);
                assert(s.skip(1)[i - 1] == s[i]);
            }
        }
    }
}

/// Appending one item appends its model.
pub proof fn lemma_items_model_push(s: Seq<Item>, x: Item)
    ensures
        items_model(s.push(x)) == items_model(s) + seq![item_model(x)],
{
    lemma_items_model_index(s.push(x));
    lemma_items_model_index(s);
    assert(items_model(s.push(x)) =~= items_model(s) + seq![item_model(x)]);
}

impl View for Item {
    type V = ItemModel;

    open spec fn view(&self) -> ItemModel {
        item_model(*self)
    }
}

} // verus!
