//! The card service: create and list use cases over a record store.
//!
//! The live key-value backend is a network collaborator and stays outside
//! the library; this store is the in-memory implementation of the same
//! port, and never fails. The encoding and decoding it goes through are the
//! same verified codec functions the outside port uses.
use vstd::prelude::*;

use crate::ids::{is_canonical_uid, Uid};
use crate::model::{CardModel, TodoCard};
use crate::store::{
    dbitem_model, decode_cards, item_of, record_of, scanoutput_to_todocards, DbItem, ItemModel,
    TodoCardDb,
};

verus! {

/// An in-memory card store: the items live in insertion order.
pub struct CardService {
    items: Vec<DbItem>,
}

impl View for CardService {
    type V = Seq<ItemModel>;

    closed spec fn view(&self) -> Seq<ItemModel> {
        self.items@.map(|i: int, it: DbItem| dbitem_model(it@))
    }
}

impl CardService {
    /// An empty store.
    pub fn new() -> (r: CardService)
        ensures
            r@ =~= Seq::<ItemModel>::empty(),
    {
        CardService { items: Vec::new() }
    }

    /// Creates a card: assigns a fresh identifier, encodes the card under
    /// it, and appends the record. The in-memory store is total, so the
    /// assigned identifier is the whole answer.
    pub fn create(&mut self, card: &TodoCard) -> (r: Uid)
        ensures
            is_canonical_uid(r@),
            final(self)@ == old(self)@.push(item_of(record_of(card@, r@))),
    {
        let db = TodoCardDb::new(card);
        let id = db.id.clone();
        let item = db.to_db_val();
        proof {
            assert(old(self).items@.push(item).map(|i: int, it: DbItem| dbitem_model(it@)) =~= old(
                self,
            )@.push(item_of(record_of(card@, id@))));
        }
        self.items.push(item);
        id
    }

    /// Lists every stored card, in insertion order, skipping records that
    /// do not decode.
    pub fn list(&self) -> (r: Vec<TodoCard>)
        ensures
            r@.map(|i: int, c: TodoCard| c@) == decode_cards(self@),
    {
        scanoutput_to_todocards(&self.items)
    }
}

/// A created card appears in the listing: after appending a card's record,
/// the decoded listing is the old listing plus that card, its identifier
/// populated.
pub proof fn lemma_create_then_list(items: Seq<ItemModel>, c: CardModel, id: Seq<char>)
    requires
        is_canonical_uid(id),
        is_canonical_uid(c.owner),
    ensures
        decode_cards(items.push(item_of(record_of(c, id)))) == decode_cards(items) + seq![
            CardModel {
                id: Some(id),
                title: c.title,
                description: c.description,
                owner: c.owner,
                tasks: c.tasks,
                state: c.state,
            },
        ],
{
    let it = item_of(record_of(c, id));
    let whole = items.push(it);
    assert(whole.drop_last() =~= items);
    assert(whole.last() == it);
    crate::store::lemma_encode_decode_round_trip(c, id);
}

} // verus!
