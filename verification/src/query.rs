//! Pure queries over the item sequence: the pending/completed listing
//! with its optional priority and category filters, and the
//! case-insensitive title search. Results keep creation order.

use vstd::prelude::*;
use crate::chars::to_chars;
use crate::types::{Item, ItemModel, Priority, opt_text_view};
use crate::collection::Collection;

verus! {

/// The Unicode lower-case folding of a text, as `str::to_lowercase`
/// computes it.
pub uninterp spec fn lower_of(s: Seq<char>) -> Seq<char>;

/// Relies on `str::to_lowercase`: the result depends on the
/// characters alone (locale-independent Unicode lowercasing).
#[verifier::external_body]
fn lowercase(s: &str) -> (r: String)
    ensures
        r@ == lower_of(s@),
{
    s.to_lowercase()
}

/// Whether `q` occurs in `hay` starting at `k`.
pub open spec fn matches_at(hay: Seq<char>, q: Seq<char>, k: int) -> bool {
    forall|j: int| 0 <= j < q.len() ==> hay[k + j] == q[j]
}

/// Substring containment; an empty needle is contained in every text.
pub open spec fn contains_seq(hay: Seq<char>, q: Seq<char>) -> bool {
    exists|k: int| 0 <= k <= hay.len() - q.len() && matches_at(hay, q, k)
}

/// Whether the search keeps an item's title: an empty query matches
/// every title, any other query must occur in the title once both are
/// folded to lower case.
pub open spec fn title_matches(title: Seq<char>, q: Seq<char>) -> bool {
    q.len() == 0 || contains_seq(lower_of(title), lower_of(q))
}

fn match_at_exec(hay: &Vec<char>, q: &Vec<char>, k: usize) -> (r: bool)
    requires
        k + q@.len() <= hay@.len(),
    ensures
        r == matches_at(hay@, q@, k as int),
{
    let n = hay.len();
    let mut j: usize = 0;
    while j < q.len()
        invariant
            j <= q@.len(),
            k + q@.len() <= hay@.len(),
            n == hay@.len(),
            forall|j0: int| 0 <= j0 < j ==> hay@[k + j0] == q@[j0],
        decreases q@.len() - j,
    {
        if hay[k + j] != q[j] {
            assert(!matches_at(hay@, q@, k as int));
            return false;
        }
        j = j + 1;
    }
    true
}

fn contains_exec(hay: &Vec<char>, q: &Vec<char>) -> (r: bool)
    ensures
        r == contains_seq(hay@, q@),
{
    if q.len() > hay.len() {
        assert(!contains_seq(hay@, q@));
        return false;
    }
    let last_start: usize = hay.len() - q.len();
    let mut k: usize = 0;
    while k <= last_start
        invariant
            k <= last_start + 1,
            last_start + q@.len() == hay@.len(),
            q@.len() <= hay@.len(),
            hay@.len() <= usize::MAX,
            forall|k0: int| 0 <= k0 < k ==> !matches_at(hay@, q@, k0),
        decreases last_start - k + 1,
    {
        if match_at_exec(hay, q, k) {
            return true;
        }
        proof {
            if q@.len() == 0 {
                assert(matches_at(hay@, q@, k as int));
            }
        }
        k = k + 1;
    }
    false
}

/// The lower-case discriminator name of a priority, as the listing
/// filter matches it.
pub open spec fn priority_label(p: Priority) -> Seq<char> {
    match p {
        Priority::High => seq!['h', 'i', 'g', 'h'],
        Priority::Medium => seq!['m', 'e', 'd', 'i', 'u', 'm'],
        Priority::Low => seq!['l', 'o', 'w'],
    }
}

/// Whether the listing keeps an item: the pending/completed selector
/// must match, and each given filter must match too (conjunction).
pub open spec fn keep_listed(
    it: ItemModel,
    completed: bool,
    prio: Option<Seq<char>>,
    cat: Option<Seq<char>>,
) -> bool {
    &&& it.completed == completed
    &&& match prio {
        Option::Some(p) => priority_label(it.priority) == p,
        Option::None => true,
    }
    &&& match cat {
        Option::Some(c) => it.categories.contains(c),
        Option::None => true,
    }
}

/// The listing of an item sequence, in creation order.
pub open spec fn list_view(
    s: Seq<ItemModel>,
    completed: bool,
    prio: Option<Seq<char>>,
    cat: Option<Seq<char>>,
) -> Seq<ItemModel> {
    s.filter(|it: ItemModel| keep_listed(it, completed, prio, cat))
}

/// The search result of an item sequence, in creation order.
pub open spec fn search_view(s: Seq<ItemModel>, q: Seq<char>) -> Seq<ItemModel> {
    s.filter(|it: ItemModel| title_matches(it.title, q))
}

fn clone_string_vec(v: &Vec<String>) -> (r: Vec<String>)
    ensures
        r.deep_view() == v.deep_view(),
{
    let mut out: Vec<String> = Vec::new();
    let mut i: usize = 0;
    while i < v.len()
        invariant
            i <= v@.len(),
            out@.len() == i,
            forall|j: int| 0 <= j < i ==> (#[trigger] out@[j])@ == v@[j]@,
        decreases v@.len() - i,
    {
        let c = v[i].clone();
        assert(c@ == v@[i as int]@);
        out.push(c);
        i = i + 1;
    }
    proof {
        assert forall|j: int| 0 <= j < out@.len() implies out.deep_view()[j] == v.deep_view()[j]
        by {
            assert(out@[j]@ == v@[j]@);
        }
        assert(out.deep_view() =~= v.deep_view());
    }
    out
}

/// A field-for-field copy of an item.
pub fn clone_item(it: &Item) -> (r: Item)
    ensures
        r@ == it@,
{
    let r = Item {
        id: it.id,
        title: it.title.clone(),
        completed: it.completed,
        created_at: it.created_at,
        completed_at: it.completed_at,
        priority: it.priority,
        due_date: it.due_date,
        categories: clone_string_vec(&it.categories),
    };
    proof {
        assert(r@ =~= it@);
    }
    r
}

fn chars_eq(v: &Vec<char>, w: &Vec<char>) -> (r: bool)
    ensures
        r == (v@ == w@),
{
    if v.len() != w.len() {
        proof {
            assert(v@ != w@);
        }
        return false;
    }
    let mut i: usize = 0;
    while i < v.len()
        invariant
            i <= v.len(),
            v.len() == w.len(),
            forall|j: int| 0 <= j < i ==> v@[j] == w@[j],
        decreases v.len() - i,
    {
        if v[i] != w[i] {
            return false;
        }
        i = i + 1;
    }
    proof {
        assert(v@ =~= w@);
    }
    true
}

fn item_listed(it: &Item, completed: bool, priority: Option<&String>, tag: Option<&String>) -> (r:
    bool)
    ensures
        r == keep_listed(it@, completed, opt_text_view(priority), opt_text_view(tag)),
{
    if it.completed != completed {
        return false;
    }
    let prio_ok: bool = match priority {
        None => true,
        Some(p) => {
            let label: Vec<char> = match it.priority {
                Priority::High => vec!['h', 'i', 'g', 'h'],
                Priority::Medium => vec!['m', 'e', 'd', 'i', 'u', 'm'],
                Priority::Low => vec!['l', 'o', 'w'],
            };
            proof {
                assert(label@ =~= priority_label(it@.priority));
            }
            let pc = to_chars(p.as_str());
            chars_eq(&label, &pc)
        },
    };
    if !prio_ok {
        return false;
    }
    match tag {
        None => true,
        Some(t) => {
            let mut i: usize = 0;
            let mut found: bool = false;
            while i < it.categories.len()
                invariant
                    i <= it.categories.len(),
                    it@.categories.len() == it.categories.len(),
                    found ==> it@.categories.contains(t@),
                    !found ==> forall|j: int| 0 <= j < i ==> it@.categories[j] != t@,
                decreases it.categories.len() - i,
            {
                if !found && it.categories[i].eq(t) {
                    assert(it@.categories[i as int] == t@);
                    found = true;
                }
                i = i + 1;
            }
            proof {
                if !found {
                    assert(forall|j: int| 0 <= j < it@.categories.len()
                        ==> it@.categories[j] != t@);
                }
            }
            found
        },
    }
}

impl Collection {
    /// The filtered listing: pending or completed items, optionally
    /// narrowed to one priority name and one category, in creation
    /// order. No mutation.
    pub fn list(&self, completed: bool, priority: Option<&String>, tag: Option<&String>) -> (r:
        Vec<Item>)
        ensures
            r.deep_view() == list_view(self@, completed, opt_text_view(priority), opt_text_view(
                tag)),
    {
        let ghost pred = |it: ItemModel| keep_listed(it, completed, opt_text_view(priority),
            opt_text_view(tag));
        let mut out: Vec<Item> = Vec::new();
        let mut i: usize = 0;
        while i < self.items.len()
            invariant
                i <= self.items.len(),
                self@.len() == self.items.len(),
                pred == (|it: ItemModel| keep_listed(it, completed, opt_text_view(priority),
                    opt_text_view(tag))),
                out.deep_view() =~= self@.take(i as int).filter(pred),
            decreases self.items.len() - i,
        {
            proof {
                reveal(Seq::filter);
                assert(self@.take(i + 1).drop_last() =~= self@.take(i as int));
                assert(self@.take(i + 1).last() == self@[i as int]);
            }
            if item_listed(&self.items[i], completed, priority, tag) {
                out.push(clone_item(&self.items[i]));
            }
            i = i + 1;
            proof {
                assert(out.deep_view() =~= self@.take(i as int).filter(pred));
            }
        }
        proof {
            assert(self@.take(self@.len() as int) =~= self@);
        }
        out
    }

    /// The case-insensitive title search, in creation order; an empty
    /// query returns every item. No mutation.
    pub fn search(&self, query: &str) -> (r: Vec<Item>)
        ensures
            r.deep_view() == search_view(self@, query@),
    {
        let qempty = query.unicode_len() == 0;
        let fq = lowercase(query);
        let q = to_chars(fq.as_str());
        let ghost pred = |it: ItemModel| title_matches(it.title, query@);
        let mut out: Vec<Item> = Vec::new();
        let mut i: usize = 0;
        while i < self.items.len()
            invariant
                i <= self.items.len(),
                self@.len() == self.items.len(),
                q@ == lower_of(query@),
                qempty == (query@.len() == 0),
                pred == (|it: ItemModel| title_matches(it.title, query@)),
                out.deep_view() =~= self@.take(i as int).filter(pred),
            decreases self.items.len() - i,
        {
            proof {
                reveal(Seq::filter);
                assert(self@.take(i + 1).drop_last() =~= self@.take(i as int));
                assert(self@.take(i + 1).last() == self@[i as int]);
            }
            let keep: bool = if qempty {
                true
            } else {
                let ft = lowercase(self.items[i].title.as_str());
                let tc = to_chars(ft.as_str());
                contains_exec(&tc, &q)
            };
            if keep {
                out.push(clone_item(&self.items[i]));
            }
            i = i + 1;
            proof {
                assert(out.deep_view() =~= self@.take(i as int).filter(pred));
            }
        }
        proof {
            assert(self@.take(self@.len() as int) =~= self@);
        }
        out
    }
}

} // verus!
