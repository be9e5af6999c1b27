//! The store: turns a collection into its persisted document and a
//! document back into a collection, salvaging an absent or unreadable
//! document as an empty collection. File access itself lives outside
//! the library; the store works on the document text.

use vstd::prelude::*;
use crate::types::ItemModel;
use crate::collection::Collection;
use crate::codec::{ren_items, doc_items};
use crate::writer::render_items;
use crate::reader::parse_doc;
use crate::chars::{to_chars, from_chars};

verus! {

/// Builds the collection from the document text: absent becomes empty,
/// an unparseable document is salvaged as empty, and a parseable one
/// yields its items in document order.
pub fn load(doc: Option<&str>, path: String) -> (r: Collection)
    ensures
        r.wf(),
        r.path@ == path@,
        match doc {
            Option::Some(d) => match doc_items(d@) {
                Option::Some(items) => r@ == items,
                Option::None => r@ =~= Seq::<ItemModel>::empty(),
            },
            Option::None => r@ =~= Seq::<ItemModel>::empty(),
        },
{
    match doc {
        None => Collection::empty(path),
        Some(d) => {
            let cs = to_chars(d);
            match parse_doc(&cs) {
                Some(items) => {
                    let c = Collection { items, path };
                    c
                },
                None => Collection::empty(path),
            }
        },
    }
}

/// Serializes the collection as the persisted document, pretty-printed.
pub fn save_doc(c: &Collection) -> (r: String)
    requires
        c.wf(),
    ensures
        r@ == ren_items(c@),
{
    proof {
        assert forall|i: int| 0 <= i < c.items@.len() implies (#[trigger] c.items@[i])@.wf()
        by {
            assert(c@[i] == c.items@[i]@);
        }
    }
    let cs = render_items(&c.items);
    from_chars(&cs)
}

} // verus!
