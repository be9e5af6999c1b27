//! The plain renderer: deterministic, undecorated text for items and
//! outcome messages. A decorated renderer may wrap these lines with
//! color outside the library.

use vstd::prelude::*;
use crate::types::{Item, ItemModel, Timestamp, Date, Priority};
use crate::codec::{ren_u32, ren2, ren4};
use crate::writer::{emit_lit, emit_u32, emit2, emit4};
use crate::chars::{to_chars, from_chars};
use vstd::seq_lib::lemma_concat_associative;

verus! {

/// `YYYY-MM-DD HH:MM`, the display form of a timestamp.
pub open spec fn disp_ts(t: Timestamp) -> Seq<char> {
    ren4(t.year as int) + seq!['-'] + ren2(t.month as int) + seq!['-'] + ren2(t.day as int)
        + seq![' '] + ren2(t.hour as int) + seq![':'] + ren2(t.minute as int)
}

/// `YYYY-MM-DD`, the display form of a date.
pub open spec fn disp_date(d: Date) -> Seq<char> {
    ren4(d.year as int) + seq!['-'] + ren2(d.month as int) + seq!['-'] + ren2(d.day as int)
}

/// The display label of a priority.
pub open spec fn disp_prio(p: Priority) -> Seq<char> {
    match p {
        Priority::High => seq!['H', 'I', 'G', 'H'],
        Priority::Medium => seq!['M', 'E', 'D'],
        Priority::Low => seq!['L', 'O', 'W'],
    }
}

/// The one-line item row: status mark, id, title, priority label and
/// creation time.
pub open spec fn main_line(it: ItemModel) -> Seq<char> {
    (if it.completed { seq!['x'] } else { seq!['o'] }) + seq![' ', '['] + ren_u32(it.id)
        + seq![']', ' '] + it.title + seq![' '] + disp_prio(it.priority) + seq![' ', '(', 'c',
        'r', 'e', 'a', 't', 'e', 'd', ':', ' '] + disp_ts(it.created_at) + seq![')']
}

fn emit_disp_ts(out: &mut Vec<char>, t: &Timestamp)
    requires
        t.wf(),
    ensures
        final(out)@ == old(out)@ + disp_ts(*t),
{
    emit4(out, t.year);
    out.push('-');
    emit2(out, t.month);
    out.push('-');
    emit2(out, t.day);
    out.push(' ');
    emit2(out, t.hour);
    out.push(':');
    emit2(out, t.minute);
    proof {
        assert(final(out)@ =~= old(out)@ + disp_ts(*t));
    }
}

fn emit_disp_date(out: &mut Vec<char>, d: &Date)
    requires
        d.wf(),
    ensures
        final(out)@ == old(out)@ + disp_date(*d),
{
    emit4(out, d.year);
    out.push('-');
    emit2(out, d.month);
    out.push('-');
    emit2(out, d.day);
    proof {
        assert(final(out)@ =~= old(out)@ + disp_date(*d));
    }
}

/// Formats the one-line item row.
pub fn format_main_line(it: &Item) -> (r: String)
    requires
        it@.wf(),
    ensures
        r@ == main_line(it@),
{
    let mut out: Vec<char> = Vec::new();
    if it.completed {
        out.push('x');
    } else {
        out.push('o');
    }
    out.push(' ');
    out.push('[');
    emit_u32(&mut out, it.id);
    out.push(']');
    out.push(' ');
    let title_chars = to_chars(it.title.as_str());
    emit_lit(&mut out, &title_chars);
    out.push(' ');
    let label: Vec<char> = match it.priority {
        Priority::High => vec!['H', 'I', 'G', 'H'],
        Priority::Medium => vec!['M', 'E', 'D'],
        Priority::Low => vec!['L', 'O', 'W'],
    };
    proof {
        assert(label@ =~= disp_prio(it@.priority));
    }
    emit_lit(&mut out, &label);
    let created: Vec<char> = vec![' ', '(', 'c', 'r', 'e', 'a', 't', 'e', 'd', ':', ' '];
    emit_lit(&mut out, &created);
    emit_disp_ts(&mut out, &it.created_at);
    out.push(')');
    proof {
        assert(out@ =~= main_line(it@));
    }
    from_chars(&out)
}

/// The joined category tags, separated by `, `.
pub open spec fn joined_tags(cs: Seq<Seq<char>>) -> Seq<char>
    decreases cs.len(),
{
    if cs.len() <= 1 {
        if cs.len() == 0 { Seq::<char>::empty() } else { cs[0] }
    } else {
        cs[0] + seq![',', ' '] + joined_tags(cs.skip(1))
    }
}

fn emit_tags(out: &mut Vec<char>, cs: &Vec<String>, k: usize)
    requires
        k < cs@.len(),
    ensures
        final(out)@ == old(out)@ + joined_tags(cs.deep_view().skip(k as int)),
    decreases cs@.len() - k,
{
    let n = cs.len();
    let tc = to_chars(cs[k].as_str());
    emit_lit(out, &tc);
    proof {
        assert(cs.deep_view().skip(k as int)[0] == cs@[k as int]@);
    }
    if k + 1 < n {
        out.push(',');
        out.push(' ');
        emit_tags(out, cs, k + 1);
        proof {
            assert(cs.deep_view().skip(k as int).skip(1) =~= cs.deep_view().skip(k as int + 1));
            let rest = joined_tags(cs.deep_view().skip(k as int + 1));
            assert(((old(out)@ + cs@[k as int]@).push(',')).push(' ')
                =~= old(out)@ + cs@[k as int]@ + seq![',', ' ']);
            lemma_concat_associative(old(out)@, cs@[k as int]@, seq![',', ' ']);
            lemma_concat_associative(old(out)@, cs@[k as int]@ + seq![',', ' '], rest);
            assert(cs.deep_view().skip(k as int).len() > 1);
        }
    } else {
        proof {
            assert(cs.deep_view().skip(k as int).len() == 1);
        }
    }
}

/// `categories: a, b` — the tag line for an item that has tags.
pub open spec fn tags_line(cs: Seq<Seq<char>>) -> Seq<char> {
    seq!['c', 'a', 't', 'e', 'g', 'o', 'r', 'i', 'e', 's', ':', ' '] + joined_tags(cs)
}

/// Formats the tag line.
pub fn format_tags_line(cs: &Vec<String>) -> (r: String)
    requires
        cs@.len() > 0,
    ensures
        r@ == tags_line(cs.deep_view()),
{
    let mut out: Vec<char> = Vec::new();
    let pre: Vec<char> = vec!['c', 'a', 't', 'e', 'g', 'o', 'r', 'i', 'e', 's', ':', ' '];
    emit_lit(&mut out, &pre);
    emit_tags(&mut out, cs, 0);
    proof {
        assert(cs.deep_view().skip(0) =~= cs.deep_view());
        assert(out@ =~= tags_line(cs.deep_view()));
    }
    from_chars(&out)
}

/// `due: YYYY-MM-DD` — the due line.
pub open spec fn due_line(d: Date) -> Seq<char> {
    seq!['d', 'u', 'e', ':', ' '] + disp_date(d)
}

pub fn format_due_line(d: &Date) -> (r: String)
    requires
        d.wf(),
    ensures
        r@ == due_line(*d),
{
    let mut out: Vec<char> = Vec::new();
    let pre: Vec<char> = vec!['d', 'u', 'e', ':', ' '];
    emit_lit(&mut out, &pre);
    emit_disp_date(&mut out, d);
    proof {
        assert(out@ =~= due_line(*d));
    }
    from_chars(&out)
}

/// `completed: YYYY-MM-DD HH:MM` — the completion line.
pub open spec fn completed_line(t: Timestamp) -> Seq<char> {
    seq!['c', 'o', 'm', 'p', 'l', 'e', 't', 'e', 'd', ':', ' '] + disp_ts(t)
}

pub fn format_completed_line(t: &Timestamp) -> (r: String)
    requires
        t.wf(),
    ensures
        r@ == completed_line(*t),
{
    let mut out: Vec<char> = Vec::new();
    let pre: Vec<char> = vec!['c', 'o', 'm', 'p', 'l', 'e', 't', 'e', 'd', ':', ' '];
    emit_lit(&mut out, &pre);
    emit_disp_ts(&mut out, t);
    proof {
        assert(out@ =~= completed_line(*t));
    }
    from_chars(&out)
}

/// All display lines of one item: the row, then the optional tag, due
/// and completion lines.
pub open spec fn item_lines(it: ItemModel) -> Seq<Seq<char>> {
    seq![main_line(it)] + (if it.categories.len() > 0 { seq![tags_line(it.categories)] } else {
        Seq::<Seq<char>>::empty() }) + (match it.due_date {
        Option::Some(d) => seq![due_line(d)],
        Option::None => Seq::<Seq<char>>::empty(),
    }) + (match it.completed_at {
        Option::Some(t) => seq![completed_line(t)],
        Option::None => Seq::<Seq<char>>::empty(),
    })
}

/// Formats the display lines of one item.
pub fn format_item_lines(it: &Item) -> (r: Vec<String>)
    requires
        it@.wf(),
    ensures
        r.deep_view() == item_lines(it@),
{
    let mut out: Vec<String> = Vec::new();
    out.push(format_main_line(it));
    if it.categories.len() > 0 {
        out.push(format_tags_line(&it.categories));
    }
    match &it.due_date {
        Some(d) => {
            out.push(format_due_line(d));
        },
        None => {},
    }
    match &it.completed_at {
        Some(t) => {
            out.push(format_completed_line(t));
        },
        None => {},
    }
    proof {
        assert(out.deep_view() =~= item_lines(it@));
    }
    out
}

} // verus!
