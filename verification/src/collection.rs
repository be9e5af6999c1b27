//! The authoritative in-memory state: an ordered list of items with
//! distinct positive identifiers, and the three mutations `add`,
//! `complete` and `delete` with their identifier policy.

use vstd::prelude::*;
use crate::types::{Item, ItemModel, Timestamp, Date, Priority, priority_of_text, date_of_text,
    opt_text_view, parse_priority, parse_date};

verus! {

impl DeepView for Item {
    type V = ItemModel;

    open spec fn deep_view(&self) -> ItemModel {
        self.view()
    }
}

/// The ordered, persisted set of items, together with the location of
/// its backing document.
pub struct Collection {
    pub items: Vec<Item>,
    pub path: String,
}

/// Whether some item of the sequence carries the identifier.
pub open spec fn has_id(s: Seq<ItemModel>, id: int) -> bool {
    exists|i: int| 0 <= i < s.len() && s[i].id == id
}

/// The largest identifier present, or zero for an empty sequence.
pub open spec fn max_id(s: Seq<ItemModel>) -> int
    decreases s.len(),
{
    if s.len() == 0 {
        0
    } else {
        let m = max_id(s.drop_last());
        if s.last().id > m { s.last().id } else { m }
    }
}

pub proof fn lemma_max_id_ge(s: Seq<ItemModel>, i: int)
    requires
        0 <= i < s.len(),
    ensures
        s[i].id <= max_id(s),
        max_id(s) >= 0,
    decreases s.len(),
{
    if i + 1 == s.len() {
        if s.len() > 1 {
            lemma_max_id_ge(s.drop_last(), 0);
        }
    } else {
        lemma_max_id_ge(s.drop_last(), i);
    }
}

pub proof fn lemma_max_id_nonneg(s: Seq<ItemModel>)
    ensures
        max_id(s) >= 0,
    decreases s.len(),
{
    if s.len() > 0 {
        lemma_max_id_nonneg(s.drop_last());
    }
}

/// An error of `add`: the title was empty.
#[derive(Clone, Copy, Debug, PartialEq, Eq, Structural)]
pub enum ValidationError {
    EmptyTitle,
}

/// Outcome of `complete`.
pub enum CompleteOutcome {
    Completed { title: String },
    AlreadyCompleted,
    NotFound,
}

/// Outcome of `delete`.
pub enum DeleteOutcome {
    Deleted { title: String },
    NotFound,
}

/// The completion stamp: the clock reading, pulled up to the creation
/// time if the injected clock ran behind it, so that completion never
/// precedes creation.
pub open spec fn completion_stamp(created: Timestamp, now: Timestamp) -> Timestamp {
    if created.le(now) { now } else { created }
}

impl View for Collection {
    type V = Seq<ItemModel>;

    open spec fn view(&self) -> Seq<ItemModel> {
        self.items.deep_view()
    }
}

/// Well-formedness of a whole item sequence: every item well formed
/// and all identifiers distinct.
pub open spec fn wf_items(s: Seq<ItemModel>) -> bool {
    &&& forall|i: int| 0 <= i < s.len() ==> (#[trigger] s[i]).wf()
    &&& forall|i: int, j: int| 0 <= i < j < s.len() ==> s[i].id != s[j].id
}

impl Collection {
    pub open spec fn wf(&self) -> bool {
        wf_items(self@)
    }

    /// An empty collection bound to a path.
    pub fn empty(path: String) -> (r: Collection)
        ensures
            r@ =~= Seq::<ItemModel>::empty(),
            r.wf(),
            r.path@ == path@,
    {
        Collection { items: Vec::new(), path }
    }

    /// The index of the item carrying `id`, if any.
    fn find_by_id(&self, id: u32) -> (r: Option<usize>)
        ensures
            match r {
                Option::Some(i) => i < self@.len() && self@[i as int].id == id,
                Option::None => !has_id(self@, id as int),
            },
    {
        let mut i: usize = 0;
        while i < self.items.len()
            invariant
                i <= self@.len(),
                self@.len() == self.items.len(),
                forall|j: int| 0 <= j < i ==> self@[j].id != id,
            decreases self@.len() - i,
        {
            if self.items[i].id == id {
                return Some(i);
            }
            i = i + 1;
        }
        None
    }

    /// The model of the item that would be appended by `add`.
    pub open spec fn added_item(
        s: Seq<ItemModel>,
        title: Seq<char>,
        priority: Option<Seq<char>>,
        due: Option<Seq<char>>,
        tags: Seq<Seq<char>>,
        now: Timestamp,
    ) -> ItemModel {
        ItemModel {
            id: max_id(s) + 1,
            title: title,
            completed: false,
            created_at: now,
            completed_at: Option::None,
            priority: priority_of_text(priority),
            due_date: match due {
                Option::Some(t) => date_of_text(t),
                Option::None => Option::None,
            },
            categories: tags,
        }
    }

    /// Appends a new item. The title must be non-empty; the priority
    /// label degrades to `Low` and a malformed due date to absence; the
    /// new identifier is one more than the largest present, so no
    /// identifier still in the collection is ever reused.
    pub fn add(
        &mut self,
        title: String,
        priority: Option<&String>,
        due: Option<&String>,
        tags: Vec<String>,
        now: Timestamp,
    ) -> (r: Result<u32, ValidationError>)
        requires
            old(self).wf(),
            now.wf(),
            max_id(old(self)@) < u32::MAX,
        ensures
            title@.len() == 0 ==> r == Result::<u32, ValidationError>::Err(
                ValidationError::EmptyTitle) && final(self)@ =~= old(self)@,
            title@.len() > 0 ==> {
                &&& r == Result::<u32, ValidationError>::Ok((max_id(old(self)@) + 1) as u32)
                &&& final(self)@ =~= old(self)@.push(Self::added_item(
                        old(self)@, title@, opt_text_view(priority),
                        match due { Option::Some(t) => Option::Some(t@), Option::None => Option::None },
                        tags.deep_view(), now))
                &&& forall|i: int| 0 <= i < old(self)@.len()
                        ==> (#[trigger] old(self)@[i].id) < max_id(old(self)@) + 1
            },
            final(self).wf(),
            final(self).path@ == old(self).path@,
    {
        if title.as_str().unicode_len() == 0 {
            assert(final(self)@ =~= old(self)@);
            return Err(ValidationError::EmptyTitle);
        }
        let mut mx: u32 = 0;
        let mut i: usize = 0;
        while i < self.items.len()
            invariant
                i <= self@.len(),
                self@.len() == self.items.len(),
                mx == max_id(self@.take(i as int)),
            decreases self@.len() - i,
        {
            proof {
                assert(self@.take(i + 1).drop_last() =~= self@.take(i as int));
                assert(self@.take(i + 1).last() == self@[i as int]);
                lemma_max_id_nonneg(self@.take(i as int));
            }
            let id_i = self.items[i].id;
            if id_i > mx {
                mx = id_i;
            }
            i = i + 1;
        }
        proof {
            assert(self@.take(self@.len() as int) =~= self@);
            assert forall|k: int| 0 <= k < self@.len()
                implies (#[trigger] self@[k].id) < max_id(self@) + 1 by {
                lemma_max_id_ge(self@, k);
            }
        }
        let pr = parse_priority(priority);
        let dd: Option<Date> = match due {
            Some(t) => parse_date(t.as_str()),
            None => None,
        };
        let item = Item {
            id: mx + 1,
            title,
            completed: false,
            created_at: now,
            completed_at: None,
            priority: pr,
            due_date: dd,
            categories: tags,
        };
        self.items.push(item);
        proof {
            let ghost s = old(self)@;
            assert(final(self)@ =~= s.push(final(self)@.last()));
            assert forall|a: int, b: int| 0 <= a < b < final(self)@.len()
                implies final(self)@[a].id != final(self)@[b].id by {
                if b == s.len() {
                    lemma_max_id_ge(s, a);
                }
            }
        }
        Ok(mx + 1)
    }

    /// Marks the item with `id` complete. Absent identifiers report
    /// `NotFound`; an already completed item is left untouched and
    /// reported; otherwise the item is stamped with the clock reading.
    pub fn complete(&mut self, id: u32, now: Timestamp) -> (r: CompleteOutcome)
        requires
            old(self).wf(),
            now.wf(),
        ensures
            final(self).wf(),
            final(self).path@ == old(self).path@,
            !has_id(old(self)@, id as int) ==> r is NotFound && final(self)@ =~= old(self)@,
            has_id(old(self)@, id as int) ==> !(r is NotFound),
            forall|i: int| 0 <= i < old(self)@.len() && old(self)@[i].id == id ==> {
                if old(self)@[i].completed {
                    &&& r is AlreadyCompleted
                    &&& final(self)@ =~= old(self)@
                } else {
                    &&& r is Completed
                    &&& (r matches CompleteOutcome::Completed { title } ==> title@ == old(self)@[i].title)
                    &&& final(self)@ =~= old(self)@.update(i, ItemModel {
                            completed: true,
                            completed_at: Option::Some(completion_stamp(old(self)@[i].created_at, now)),
                            ..old(self)@[i]
                        })
                }
            },
    {
        let found = self.find_by_id(id);
        match found {
            None => {
                assert(final(self)@ =~= old(self)@);
                CompleteOutcome::NotFound
            },
            Some(i) => {
                proof {
                    assert forall|j: int| 0 <= j < old(self)@.len() && old(self)@[j].id == id
                        implies j == i by {
                        if j != i {
                            assert(old(self)@[j].id != old(self)@[i as int].id);
                        }
                    }
                }
                if self.items[i].completed {
                    assert(final(self)@ =~= old(self)@);
                    CompleteOutcome::AlreadyCompleted
                } else {
                    let mut item = self.items.remove(i);
                    let title = item.title.clone();
                    let created = item.created_at;
                    let stamp = if created.le_exec(&now) { now } else { created };
                    item.completed = true;
                    item.completed_at = Some(stamp);
                    self.items.insert(i, item);
                    proof {
                        let ghost s = old(self)@;
                        assert(final(self)@ =~= s.update(i as int, ItemModel {
                            completed: true,
                            completed_at: Option::Some(completion_stamp(s[i as int].created_at, now)),
                            ..s[i as int]
                        }));
                        assert(final(self)@[i as int].wf());
                    }
                    CompleteOutcome::Completed { title }
                }
            },
        }
    }

    /// Removes the item with `id`. Other items keep their positions and
    /// identifiers; an absent identifier reports `NotFound`.
    pub fn delete(&mut self, id: u32) -> (r: DeleteOutcome)
        requires
            old(self).wf(),
        ensures
            final(self).wf(),
            final(self).path@ == old(self).path@,
            !has_id(old(self)@, id as int) ==> r is NotFound && final(self)@ =~= old(self)@,
            has_id(old(self)@, id as int) ==> !(r is NotFound),
            forall|i: int| 0 <= i < old(self)@.len() && old(self)@[i].id == id ==> {
                &&& r is Deleted
                &&& (r matches DeleteOutcome::Deleted { title } ==> title@ == old(self)@[i].title)
                &&& final(self)@ =~= old(self)@.remove(i)
            },
            !has_id(final(self)@, id as int),
    {
        let found = self.find_by_id(id);
        match found {
            None => {
                assert(final(self)@ =~= old(self)@);
                DeleteOutcome::NotFound
            },
            Some(i) => {
                proof {
                    assert forall|j: int| 0 <= j < old(self)@.len() && old(self)@[j].id == id
                        implies j == i by {
                        if j != i {
                            assert(old(self)@[j].id != old(self)@[i as int].id);
                        }
                    }
                }
                let item = self.items.remove(i);
                proof {
                    let ghost s = old(self)@;
                    assert(final(self)@ =~= s.remove(i as int));
                    assert forall|k: int| 0 <= k < final(self)@.len()
                        implies final(self)@[k].id != id by {
                        if k < i {
                            assert(final(self)@[k] == s[k]);
                        } else {
                            assert(final(self)@[k] == s[k + 1]);
                        }
                    }
                }
                DeleteOutcome::Deleted { title: item.title }
            },
        }
    }
}

} // verus!
