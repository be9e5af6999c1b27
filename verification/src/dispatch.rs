//! The command dispatcher: translates one parsed command into one
//! collection operation, reports the outcome, and says whether — and
//! with what document — the store must be rewritten. A query or an
//! outcome that changed nothing asks for no write.

use vstd::prelude::*;
use crate::types::{Item, ItemModel, Timestamp, opt_text_view};
use crate::collection::{Collection, CompleteOutcome, DeleteOutcome, ValidationError, max_id,
    has_id, completion_stamp};
use crate::query::{list_view, search_view};
use crate::codec::ren_items;
use crate::store::save_doc;

verus! {

/// One parsed command, as the command line delivers it.
pub enum Command {
    Add { title: String, priority: Option<String>, due: Option<String>, tags: Vec<String> },
    List { completed: bool, priority: Option<String>, tag: Option<String> },
    Search { query: String },
    Complete { id: u32 },
    Delete { id: u32 },
}

/// The user-visible outcome of one command.
pub enum Output {
    Added { id: u32, title: String },
    AddRejected,
    Listed { items: Vec<Item> },
    Completed { title: String },
    AlreadyCompleted { id: u32 },
    Deleted { title: String },
    NotFound { id: u32 },
}

/// Applies one command. The second component carries the new document
/// exactly when the collection changed; queries and the no-op outcomes
/// leave it absent, so an unchanged store is never rewritten.
pub fn dispatch(c: &mut Collection, cmd: Command, now: Timestamp) -> (r: (Output, Option<
    String>))
    requires
        old(c).wf(),
        now.wf(),
        cmd is Add ==> max_id(old(c)@) < u32::MAX,
    ensures
        final(c).wf(),
        final(c).path@ == old(c).path@,
        r.1 is Some <==> final(c)@ != old(c)@,
        r.1 is Some ==> (r.1 matches Option::Some(doc) && doc@ == ren_items(final(c)@)),
        cmd matches Command::Add { title, priority, due, tags } ==> {
            if title@.len() == 0 {
                r.0 is AddRejected && final(c)@ =~= old(c)@
            } else {
                &&& final(c)@ =~= old(c)@.push(Collection::added_item(old(c)@, title@,
                    opt_text_view(match priority { Option::Some(ref p) => Option::Some(p),
                        Option::None => Option::None }),
                    match due { Option::Some(ref d) => Option::Some(d@), Option::None =>
                        Option::None }, tags.deep_view(), now))
                &&& (r.0 matches Output::Added { id, title: t } && id == max_id(old(c)@) + 1
                        && t@ == title@)
            }
        },
        cmd matches Command::List { completed, priority, tag } ==> final(c)@ =~= old(c)@
            && (r.0 matches Output::Listed { items } && items.deep_view() == list_view(old(
            c)@, completed, opt_text_view(match priority { Option::Some(ref p) =>
            Option::Some(p), Option::None => Option::None }), opt_text_view(match tag {
            Option::Some(ref t) => Option::Some(t), Option::None => Option::None }))),
        cmd matches Command::Search { query } ==> final(c)@ =~= old(c)@
            && (r.0 matches Output::Listed { items } && items.deep_view() == search_view(old(
            c)@, query@)),
        cmd matches Command::Complete { id } ==> {
            &&& (!has_id(old(c)@, id as int) ==> (r.0 matches Output::NotFound { id: i }
                    && i == id) && final(c)@ =~= old(c)@)
            &&& forall|i: int| 0 <= i < old(c)@.len() && old(c)@[i].id == id ==> {
                if old(c)@[i].completed {
                    &&& (r.0 matches Output::AlreadyCompleted { id: j } && j == id)
                    &&& final(c)@ =~= old(c)@
                } else {
                    &&& (r.0 matches Output::Completed { title } && title@ == old(c)@[i].title)
                    &&& final(c)@ =~= old(c)@.update(i, ItemModel {
                            completed: true,
                            completed_at: Option::Some(completion_stamp(old(c)@[i].created_at,
                                now)),
                            ..old(c)@[i]
                        })
                }
            }
        },
        cmd matches Command::Delete { id } ==> {
            &&& (!has_id(old(c)@, id as int) ==> (r.0 matches Output::NotFound { id: i }
                    && i == id) && final(c)@ =~= old(c)@)
            &&& forall|i: int| 0 <= i < old(c)@.len() && old(c)@[i].id == id ==> (r.0 matches
                    Output::Deleted { title } && title@ == old(c)@[i].title)
                    && final(c)@ =~= old(c)@.remove(i)
            &&& !has_id(final(c)@, id as int)
        },
{
    match cmd {
        Command::Add { title, priority, due, tags } => {
            let title_copy = title.clone();
            let res = c.add(title, match &priority { Some(p) => Some(p), None => None },
                match &due { Some(d) => Some(d), None => None }, tags, now);
            match res {
                Ok(id) => {
                    let doc = save_doc(c);
                    proof {
                        assert(final(c)@ != old(c)@) by {
                            assert(final(c)@.len() == old(c)@.len() + 1);
                        }
                    }
                    (Output::Added { id, title: title_copy }, Some(doc))
                },
                Err(ValidationError::EmptyTitle) => (Output::AddRejected, None),
            }
        },
        Command::List { completed, priority, tag } => {
            let items = c.list(completed, match &priority { Some(p) => Some(p), None => None },
                match &tag { Some(t) => Some(t), None => None });
            (Output::Listed { items }, None)
        },
        Command::Search { query } => {
            let items = c.search(query.as_str());
            (Output::Listed { items }, None)
        },
        Command::Complete { id } => {
            let out = c.complete(id, now);
            match out {
                CompleteOutcome::NotFound => (Output::NotFound { id }, None),
                CompleteOutcome::AlreadyCompleted => (Output::AlreadyCompleted { id }, None),
                CompleteOutcome::Completed { title } => {
                    let doc = save_doc(c);
                    proof {
                        assert(has_id(old(c)@, id as int));
                        let ghost i = choose|i: int| 0 <= i < old(c)@.len()
                            && old(c)@[i].id == id;
                        assert(final(c)@[i] != old(c)@[i]);
                        assert(final(c)@ != old(c)@);
                    }
                    (Output::Completed { title }, Some(doc))
                },
            }
        },
        Command::Delete { id } => {
            let out = c.delete(id);
            match out {
                DeleteOutcome::NotFound => (Output::NotFound { id }, None),
                DeleteOutcome::Deleted { title } => {
                    let doc = save_doc(c);
                    proof {
                        assert(has_id(old(c)@, id as int));
                        let ghost i = choose|i: int| 0 <= i < old(c)@.len()
                            && old(c)@[i].id == id;
                        assert(final(c)@ =~= old(c)@.remove(i));
                        assert(final(c)@.len() + 1 == old(c)@.len());
                        assert(final(c)@ != old(c)@);
                    }
                    (Output::Deleted { title }, Some(doc))
                },
            }
        },
    }
}

} // verus!
