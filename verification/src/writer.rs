//! The executable renderer: builds the persisted document character by
//! character, proved to emit exactly the document the codec defines.

use vstd::prelude::*;
use crate::chars::{digit_char, digit_char_exec};
use crate::types::{Item, Timestamp, Date, Priority};
use vstd::seq_lib::lemma_concat_associative;
use crate::codec::{ren_u32, ren2, ren4, hex_char, esc_char, esc_str, quoted, ren_ts, ren_date,
    null_chars, ren_bool, ren_prio, ren_opt_ts, ren_opt_date, sp4, sp6, ren_cat_entries,
    ren_cats, n_id, n_title, n_completed, n_created_at, n_completed_at, n_priority, n_due_date,
    n_categories, fld_pre, fld, ren_item, ren_item_entries, ren_items};

verus! {

fn hex_char_exec(d: u32) -> (c: char)
    requires
        d < 16,
    ensures
        c == hex_char(d as int),
{
    if d == 0 { '0' }
    else if d == 1 { '1' }
    else if d == 2 { '2' }
    else if d == 3 { '3' }
    else if d == 4 { '4' }
    else if d == 5 { '5' }
    else if d == 6 { '6' }
    else if d == 7 { '7' }
    else if d == 8 { '8' }
    else if d == 9 { '9' }
    else if d == 10 { 'a' }
    else if d == 11 { 'b' }
    else if d == 12 { 'c' }
    else if d == 13 { 'd' }
    else if d == 14 { 'e' }
    else { 'f' }
}

pub(crate) fn emit_lit(out: &mut Vec<char>, l: &Vec<char>)
    ensures
        final(out)@ == old(out)@ + l@,
{
    let mut i: usize = 0;
    while i < l.len()
        invariant
            i <= l@.len(),
            out@ == old(out)@ + l@.take(i as int),
        decreases l@.len() - i,
    {
        out.push(l[i]);
        i = i + 1;
        proof {
            assert(out@ =~= old(out)@ + l@.take(i as int));
        }
    }
    proof {
        assert(old(out)@ + l@.take(l@.len() as int) =~= old(out)@ + l@);
    }
}

pub(crate) fn emit_u32(out: &mut Vec<char>, n: u32)
    ensures
        final(out)@ == old(out)@ + ren_u32(n as int),
    decreases n,
{
    if n < 10 {
        out.push(digit_char_exec(n));
        proof {
            assert(old(out)@.push(digit_char(n as int)) =~= old(out)@ + ren_u32(n as int));
        }
    } else {
        emit_u32(out, n / 10);
        out.push(digit_char_exec(n % 10));
        proof {
            assert((old(out)@ + ren_u32(n as int / 10)).push(digit_char(n as int % 10))
                =~= old(out)@ + ren_u32(n as int));
        }
    }
}

pub(crate) fn emit2(out: &mut Vec<char>, n: u32)
    requires
        n < 100,
    ensures
        final(out)@ == old(out)@ + ren2(n as int),
{
    out.push(digit_char_exec(n / 10));
    out.push(digit_char_exec(n % 10));
    proof {
        assert(final(out)@ =~= old(out)@ + ren2(n as int));
    }
}

pub(crate) fn emit4(out: &mut Vec<char>, n: u32)
    requires
        n < 10000,
    ensures
        final(out)@ == old(out)@ + ren4(n as int),
{
    out.push(digit_char_exec(n / 1000));
    out.push(digit_char_exec(n / 100 % 10));
    out.push(digit_char_exec(n / 10 % 10));
    out.push(digit_char_exec(n % 10));
    proof {
        assert(final(out)@ =~= old(out)@ + ren4(n as int));
    }
}

fn emit_esc_char(out: &mut Vec<char>, c: char)
    ensures
        final(out)@ == old(out)@ + esc_char(c),
{
    if c == '"' {
        out.push('\\');
        out.push('"');
        proof {
            assert(final(out)@ =~= old(out)@ + esc_char(c));
        }
    } else if c == '\\' {
        out.push('\\');
        out.push('\\');
        proof {
            assert(final(out)@ =~= old(out)@ + esc_char(c));
        }
    } else {
        let code: u32 = c as u32;
        if code < 32 {
            out.push('\\');
            out.push('u');
            out.push('0');
            out.push('0');
            out.push(hex_char_exec(code / 16));
            out.push(hex_char_exec(code % 16));
            proof {
                assert(final(out)@ =~= old(out)@ + esc_char(c));
            }
        } else {
            out.push(c);
            proof {
                assert(final(out)@ =~= old(out)@ + esc_char(c));
            }
        }
    }
}

fn emit_esc(out: &mut Vec<char>, s: &Vec<char>, k: usize)
    requires
        k <= s@.len(),
    ensures
        final(out)@ == old(out)@ + esc_str(s@.skip(k as int)),
    decreases s@.len() - k,
{
    if k == s.len() {
        proof {
            assert(s@.skip(k as int) =~= Seq::<char>::empty());
            assert(old(out)@ + Seq::<char>::empty() =~= old(out)@);
        }
    } else {
        emit_esc_char(out, s[k]);
        emit_esc(out, s, k + 1);
        proof {
            assert(s@.skip(k as int)[0] == s@[k as int]);
            assert(s@.skip(k as int).skip(1) =~= s@.skip(k as int + 1));
            assert(esc_str(s@.skip(k as int)) == esc_char(s@[k as int]) + esc_str(s@.skip(
                k as int + 1)));
            assert(old(out)@ + esc_char(s@[k as int]) + esc_str(s@.skip(k as int + 1))
                =~= old(out)@ + esc_str(s@.skip(k as int)));
        }
    }
}

fn emit_quoted(out: &mut Vec<char>, s: &String)
    ensures
        final(out)@ == old(out)@ + quoted(s@),
{
    let cs = crate::chars::to_chars(s.as_str());
    out.push('"');
    emit_esc(out, &cs, 0);
    out.push('"');
    proof {
        assert(cs@.skip(0) =~= s@);
        assert(final(out)@ =~= old(out)@ + quoted(s@));
    }
}

fn emit_ts(out: &mut Vec<char>, t: &Timestamp)
    requires
        t.wf(),
    ensures
        final(out)@ == old(out)@ + ren_ts(*t),
{
    emit4(out, t.year);
    out.push('-');
    emit2(out, t.month);
    out.push('-');
    emit2(out, t.day);
    out.push('T');
    emit2(out, t.hour);
    out.push(':');
    emit2(out, t.minute);
    out.push(':');
    emit2(out, t.second);
    proof {
        assert(final(out)@ =~= old(out)@ + ren_ts(*t));
    }
}

fn emit_date(out: &mut Vec<char>, d: &Date)
    requires
        d.wf(),
    ensures
        final(out)@ == old(out)@ + ren_date(*d),
{
    emit4(out, d.year);
    out.push('-');
    emit2(out, d.month);
    out.push('-');
    emit2(out, d.day);
    proof {
        assert(final(out)@ =~= old(out)@ + ren_date(*d));
    }
}

fn emit_bool(out: &mut Vec<char>, b: bool)
    ensures
        final(out)@ == old(out)@ + ren_bool(b),
{
    if b {
        let l: Vec<char> = vec!['t', 'r', 'u', 'e'];
        proof {
            assert(l@ =~= ren_bool(true));
        }
        emit_lit(out, &l);
    } else {
        let l: Vec<char> = vec!['f', 'a', 'l', 's', 'e'];
        proof {
            assert(l@ =~= ren_bool(false));
        }
        emit_lit(out, &l);
    }
}

fn emit_prio(out: &mut Vec<char>, p: Priority)
    ensures
        final(out)@ == old(out)@ + ren_prio(p),
{
    match p {
        Priority::High => {
            let l: Vec<char> = vec!['"', 'H', 'i', 'g', 'h', '"'];
            proof {
                assert(l@ =~= ren_prio(Priority::High));
            }
            emit_lit(out, &l);
        },
        Priority::Medium => {
            let l: Vec<char> = vec!['"', 'M', 'e', 'd', 'i', 'u', 'm', '"'];
            proof {
                assert(l@ =~= ren_prio(Priority::Medium));
            }
            emit_lit(out, &l);
        },
        Priority::Low => {
            let l: Vec<char> = vec!['"', 'L', 'o', 'w', '"'];
            proof {
                assert(l@ =~= ren_prio(Priority::Low));
            }
            emit_lit(out, &l);
        },
    }
}

fn emit_null(out: &mut Vec<char>)
    ensures
        final(out)@ == old(out)@ + null_chars(),
{
    let l: Vec<char> = vec!['n', 'u', 'l', 'l'];
    proof {
        assert(l@ =~= null_chars());
    }
    emit_lit(out, &l);
}

fn emit_opt_ts(out: &mut Vec<char>, o: &Option<Timestamp>)
    requires
        o is Some ==> o->0.wf(),
    ensures
        final(out)@ == old(out)@ + ren_opt_ts(*o),
{
    match o {
        Option::None => {
            emit_null(out);
        },
        Option::Some(t) => {
            out.push('"');
            emit_ts(out, t);
            out.push('"');
            proof {
                assert(final(out)@ =~= old(out)@ + ren_opt_ts(*o));
            }
        },
    }
}

fn emit_opt_date(out: &mut Vec<char>, o: &Option<Date>)
    requires
        o is Some ==> o->0.wf(),
    ensures
        final(out)@ == old(out)@ + ren_opt_date(*o),
{
    match o {
        Option::None => {
            emit_null(out);
        },
        Option::Some(d) => {
            out.push('"');
            emit_date(out, d);
            out.push('"');
            proof {
                assert(final(out)@ =~= old(out)@ + ren_opt_date(*o));
            }
        },
    }
}

fn emit_cat_entries(out: &mut Vec<char>, cats: &Vec<String>, k: usize)
    requires
        k < cats@.len(),
    ensures
        final(out)@ == old(out)@ + ren_cat_entries(cats.deep_view().skip(k as int)),
    decreases cats@.len() - k,
{
    let n = cats.len();
    let sp: Vec<char> = vec![' ', ' ', ' ', ' ', ' ', ' '];
    proof {
        assert(sp@ =~= sp6());
    }
    emit_lit(out, &sp);
    emit_quoted(out, &cats[k]);
    proof {
        assert(cats.deep_view().skip(k as int)[0] == cats@[k as int]@);
    }
    if k + 1 < n {
        out.push(',');
        out.push('\n');
        emit_cat_entries(out, cats, k + 1);
        proof {
            assert(cats.deep_view().skip(k as int).skip(1) =~= cats.deep_view().skip(
                k as int + 1));
            assert(cats.deep_view().skip(k as int).len() > 1);
            assert(final(out)@ =~= old(out)@ + ren_cat_entries(cats.deep_view().skip(k as int)));
        }
    } else {
        proof {
            assert(cats.deep_view().skip(k as int).len() == 1);
            assert(final(out)@ =~= old(out)@ + ren_cat_entries(cats.deep_view().skip(k as int)));
        }
    }
}

fn emit_cats(out: &mut Vec<char>, cats: &Vec<String>)
    ensures
        final(out)@ == old(out)@ + ren_cats(cats.deep_view()),
{
    if cats.len() == 0 {
        out.push('[');
        out.push(']');
        proof {
            assert(cats.deep_view().len() == 0);
            assert(final(out)@ =~= old(out)@ + ren_cats(cats.deep_view()));
        }
    } else {
        out.push('[');
        out.push('\n');
        emit_cat_entries(out, cats, 0);
        out.push('\n');
        let sp: Vec<char> = vec![' ', ' ', ' ', ' ', ']'];
        emit_lit(out, &sp);
        proof {
            assert(cats.deep_view().skip(0) =~= cats.deep_view());
            assert(sp@ =~= sp4() + seq![']']);
            assert(cats.deep_view().len() > 0);
            assert(final(out)@ =~= old(out)@ + ren_cats(cats.deep_view()));
        }
    }
}

fn emit_fld_pre(out: &mut Vec<char>, name: &Vec<char>)
    ensures
        final(out)@ == old(out)@ + fld_pre(name@),
{
    let sp: Vec<char> = vec![' ', ' ', ' ', ' ', '"'];
    emit_lit(out, &sp);
    emit_lit(out, name);
    let cl: Vec<char> = vec!['"', ':', ' '];
    emit_lit(out, &cl);
    proof {
        assert(final(out)@ =~= old(out)@ + fld_pre(name@));
    }
}

fn comma_nl(out: &mut Vec<char>)
    ensures
        final(out)@ == old(out)@ + seq![',', '\n'],
{
    out.push(',');
    out.push('\n');
    proof {
        assert(final(out)@ =~= old(out)@ + seq![',', '\n']);
    }
}

#[verifier::rlimit(100)]
fn emit_item(out: &mut Vec<char>, it: &Item)
    requires
        it@.wf(),
    ensures
        final(out)@ == old(out)@ + ren_item(it@),
{
    let ghost base = old(out)@;
    let ghost a0 = seq![' ', ' ', '{', '\n'];
    let ghost f1 = fld(n_id(), ren_u32(it@.id), true);
    let ghost f2 = fld(n_title(), quoted(it@.title), true);
    let ghost f3 = fld(n_completed(), ren_bool(it@.completed), true);
    let ghost f4 = fld(n_created_at(), seq!['"'] + ren_ts(it@.created_at) + seq!['"'], true);
    let ghost f5 = fld(n_completed_at(), ren_opt_ts(it@.completed_at), true);
    let ghost f6 = fld(n_priority(), ren_prio(it@.priority), true);
    let ghost f7 = fld(n_due_date(), ren_opt_date(it@.due_date), true);
    let ghost f8 = fld(n_categories(), ren_cats(it@.categories), false);

    let open: Vec<char> = vec![' ', ' ', '{', '\n'];
    proof {
        assert(open@ =~= a0);
    }
    emit_lit(out, &open);
    let ghost c0 = base + a0;

    let name_id: Vec<char> = vec!['i', 'd'];
    proof {
        assert(name_id@ =~= n_id());
    }
    emit_fld_pre(out, &name_id);
    emit_u32(out, it.id);
    comma_nl(out);
    proof {
        lemma_concat_associative(c0, fld_pre(n_id()), ren_u32(it@.id));
        lemma_concat_associative(c0, fld_pre(n_id()) + ren_u32(it@.id), seq![',', '\n']);
        assert(out@ == c0 + f1);
    }
    let ghost c1 = c0 + f1;

    let name_title: Vec<char> = vec!['t', 'i', 't', 'l', 'e'];
    proof {
        assert(name_title@ =~= n_title());
    }
    emit_fld_pre(out, &name_title);
    emit_quoted(out, &it.title);
    comma_nl(out);
    proof {
        lemma_concat_associative(c1, fld_pre(n_title()), quoted(it@.title));
        lemma_concat_associative(c1, fld_pre(n_title()) + quoted(it@.title), seq![',', '\n']);
        assert(out@ == c1 + f2);
    }
    let ghost c2 = c1 + f2;

    let name_completed: Vec<char> = vec!['c', 'o', 'm', 'p', 'l', 'e', 't', 'e', 'd'];
    proof {
        assert(name_completed@ =~= n_completed());
    }
    emit_fld_pre(out, &name_completed);
    emit_bool(out, it.completed);
    comma_nl(out);
    proof {
        lemma_concat_associative(c2, fld_pre(n_completed()), ren_bool(it@.completed));
        lemma_concat_associative(c2, fld_pre(n_completed()) + ren_bool(it@.completed),
            seq![',', '\n']);
        assert(out@ == c2 + f3);
    }
    let ghost c3 = c2 + f3;

    let name_created: Vec<char> = vec!['c', 'r', 'e', 'a', 't', 'e', 'd', '_', 'a', 't'];
    proof {
        assert(name_created@ =~= n_created_at());
    }
    emit_fld_pre(out, &name_created);
    out.push('"');
    emit_ts(out, &it.created_at);
    out.push('"');
    comma_nl(out);
    proof {
        let pre = fld_pre(n_created_at());
        let v = seq!['"'] + ren_ts(it@.created_at) + seq!['"'];
        assert((c3 + pre).push('"') =~= (c3 + pre) + seq!['"']);
        assert(((c3 + pre) + seq!['"'] + ren_ts(it@.created_at)).push('"')
            =~= (c3 + pre) + seq!['"'] + ren_ts(it@.created_at) + seq!['"']);
        lemma_concat_associative(c3 + pre, seq!['"'], ren_ts(it@.created_at));
        lemma_concat_associative(c3 + pre, seq!['"'] + ren_ts(it@.created_at), seq!['"']);
        assert(out@ == ((c3 + pre) + v) + seq![',', '\n']);
        lemma_concat_associative(c3, pre, v);
        lemma_concat_associative(c3, pre + v, seq![',', '\n']);
        assert(out@ == c3 + f4);
    }
    let ghost c4 = c3 + f4;

    let name_cat: Vec<char> = vec!['c', 'o', 'm', 'p', 'l', 'e', 't', 'e', 'd', '_', 'a', 't'];
    proof {
        assert(name_cat@ =~= n_completed_at());
    }
    emit_fld_pre(out, &name_cat);
    emit_opt_ts(out, &it.completed_at);
    comma_nl(out);
    proof {
        lemma_concat_associative(c4, fld_pre(n_completed_at()), ren_opt_ts(it@.completed_at));
        lemma_concat_associative(c4, fld_pre(n_completed_at()) + ren_opt_ts(it@.completed_at),
            seq![',', '\n']);
        assert(out@ == c4 + f5);
    }
    let ghost c5 = c4 + f5;

    let name_prio: Vec<char> = vec!['p', 'r', 'i', 'o', 'r', 'i', 't', 'y'];
    proof {
        assert(name_prio@ =~= n_priority());
    }
    emit_fld_pre(out, &name_prio);
    emit_prio(out, it.priority);
    comma_nl(out);
    proof {
        lemma_concat_associative(c5, fld_pre(n_priority()), ren_prio(it@.priority));
        lemma_concat_associative(c5, fld_pre(n_priority()) + ren_prio(it@.priority),
            seq![',', '\n']);
        assert(out@ == c5 + f6);
    }
    let ghost c6 = c5 + f6;

    let name_due: Vec<char> = vec!['d', 'u', 'e', '_', 'd', 'a', 't', 'e'];
    proof {
        assert(name_due@ =~= n_due_date());
    }
    emit_fld_pre(out, &name_due);
    emit_opt_date(out, &it.due_date);
    comma_nl(out);
    proof {
        lemma_concat_associative(c6, fld_pre(n_due_date()), ren_opt_date(it@.due_date));
        lemma_concat_associative(c6, fld_pre(n_due_date()) + ren_opt_date(it@.due_date),
            seq![',', '\n']);
        assert(out@ == c6 + f7);
    }
    let ghost c7 = c6 + f7;

    let name_cats: Vec<char> = vec!['c', 'a', 't', 'e', 'g', 'o', 'r', 'i', 'e', 's'];
    proof {
        assert(name_cats@ =~= n_categories());
    }
    emit_fld_pre(out, &name_cats);
    emit_cats(out, &it.categories);
    out.push('\n');
    proof {
        let pre = fld_pre(n_categories());
        assert(((c7 + pre) + ren_cats(it@.categories)).push('\n')
            =~= ((c7 + pre) + ren_cats(it@.categories)) + seq!['\n']);
        lemma_concat_associative(c7, pre, ren_cats(it@.categories));
        lemma_concat_associative(c7, pre + ren_cats(it@.categories), seq!['\n']);
        assert(out@ == c7 + f8);
    }
    let ghost c8 = c7 + f8;

    let close: Vec<char> = vec![' ', ' ', '}'];
    proof {
        assert(close@ =~= seq![' ', ' ', '}']);
    }
    emit_lit(out, &close);

    proof {
        assert(out@ == c8 + seq![' ', ' ', '}']);
        lemma_concat_associative(base, a0, f1);
        lemma_concat_associative(base, a0 + f1, f2);
        lemma_concat_associative(base, a0 + f1 + f2, f3);
        lemma_concat_associative(base, a0 + f1 + f2 + f3, f4);
        lemma_concat_associative(base, a0 + f1 + f2 + f3 + f4, f5);
        lemma_concat_associative(base, a0 + f1 + f2 + f3 + f4 + f5, f6);
        lemma_concat_associative(base, a0 + f1 + f2 + f3 + f4 + f5 + f6, f7);
        lemma_concat_associative(base, a0 + f1 + f2 + f3 + f4 + f5 + f6 + f7, f8);
        lemma_concat_associative(base, a0 + f1 + f2 + f3 + f4 + f5 + f6 + f7 + f8,
            seq![' ', ' ', '}']);
        assert(out@ == base + ren_item(it@));
    }
}

fn emit_item_entries(out: &mut Vec<char>, items: &Vec<Item>, k: usize)
    requires
        k < items@.len(),
        forall|i: int| 0 <= i < items@.len() ==> (#[trigger] items@[i])@.wf(),
    ensures
        final(out)@ == old(out)@ + ren_item_entries(items.deep_view().skip(k as int)),
    decreases items@.len() - k,
{
    let ghost base = old(out)@;
    let n = items.len();
    emit_item(out, &items[k]);
    proof {
        assert(items.deep_view().skip(k as int)[0] == items@[k as int]@);
    }
    let ghost a = ren_item(items.deep_view().skip(k as int)[0]);
    if k + 1 < n {
        comma_nl(out);
        emit_item_entries(out, items, k + 1);
        proof {
            assert(items.deep_view().skip(k as int).skip(1) =~= items.deep_view().skip(
                k as int + 1));
            let e = ren_item_entries(items.deep_view().skip(k as int + 1));
            lemma_concat_associative(base, a, seq![',', '\n']);
            lemma_concat_associative(base, a + seq![',', '\n'], e);
            assert(items.deep_view().skip(k as int).len() > 1);
            assert(out@ == base + ren_item_entries(items.deep_view().skip(k as int)));
        }
    } else {
        proof {
            assert(items.deep_view().skip(k as int).len() == 1);
            assert(out@ == base + ren_item_entries(items.deep_view().skip(k as int)));
        }
    }
}

/// Renders the whole document for a sequence of items.
pub fn render_items(items: &Vec<Item>) -> (r: Vec<char>)
    requires
        forall|i: int| 0 <= i < items@.len() ==> (#[trigger] items@[i])@.wf(),
    ensures
        r@ == ren_items(items.deep_view()),
{
    let mut out: Vec<char> = Vec::new();
    if items.len() == 0 {
        out.push('[');
        out.push(']');
        proof {
            assert(items.deep_view().len() == 0);
            assert(out@ =~= ren_items(items.deep_view()));
        }
    } else {
        out.push('[');
        out.push('\n');
        emit_item_entries(&mut out, items, 0);
        out.push('\n');
        out.push(']');
        proof {
            assert(items.deep_view().skip(0) =~= items.deep_view());
            assert(items.deep_view().len() > 0);
            assert(out@ =~= ren_items(items.deep_view()));
        }
    }
    out
}

} // verus!
