//! The persistence round-trip: a document produced by the renderer is
//! accepted by the parser and yields exactly the items it was rendered
//! from. Proved bottom-up, production by production.

use vstd::prelude::*;
use crate::chars::{digit_char, digit_val, is_digit, lemma_digit_roundtrip};
use crate::types::{ItemModel, Timestamp, Date};
use crate::collection::wf_items;
use crate::codec::{ren_u32, ren2, ren4, esc_char, esc_str, quoted, ren_ts, ren_date, null_chars,
    ren_bool, ren_prio, ren_opt_ts, ren_opt_date, sp4, sp6, ren_cat_entries, ren_cats, n_id,
    n_title, n_completed, n_created_at, n_completed_at, n_priority, n_due_date, n_categories,
    fld_pre, fld, ren_item, ren_item_entries, ren_items, p_lit, p_digits, p_u32,
    hex_char, is_hex, hex_val, ctl_char, p_str_body, p_quoted, p_ts, p_date, p_bool, p_prio,
    p_opt_ts, p_opt_date, p_cat_entries, p_cats, p_item, p_item_rest, p_item_tail,
    p_item_entries, p_items, doc_items};

verus! {

pub proof fn lemma_p_lit(l: Seq<char>, rest: Seq<char>)
    ensures
        p_lit(l + rest, l) == Option::Some(rest),
    decreases l.len(),
{
    if l.len() == 0 {
        assert(l + rest =~= rest);
    } else {
        assert((l + rest)[0] == l[0]);
        assert((l + rest).skip(1) =~= l.skip(1) + rest);
        lemma_p_lit(l.skip(1), rest);
    }
}

pub open spec fn pow10(k: nat) -> int
    decreases k,
{
    if k == 0 { 1 } else { 10 * pow10((k - 1) as nat) }
}

pub open spec fn num_digits(n: int) -> nat
    decreases n,
{
    if n < 10 { 1 } else { (1 + num_digits(n / 10)) as nat }
}

pub proof fn lemma_num_digits_bound(n: int, k: nat)
    requires
        0 <= n,
        1 <= k,
        n < pow10(k),
    ensures
        num_digits(n) <= k,
    decreases n,
{
    if n >= 10 {
        assert(pow10(k) == 10 * pow10((k - 1) as nat));
        if k == 1 {
            assert(pow10(1nat) == 10);
            assert(false);
        }
        assert(n / 10 < pow10((k - 1) as nat)) by (nonlinear_arith)
            requires n < 10 * pow10((k - 1) as nat), 0 <= n,
        ;
        lemma_num_digits_bound(n / 10, (k - 1) as nat);
    }
}

pub proof fn lemma_p_digits(n: int, rest: Seq<char>, acc: int, count: int)
    requires
        0 <= n,
        0 <= acc,
        0 <= count,
        count + num_digits(n) <= 10,
    ensures
        p_digits(ren_u32(n) + rest, acc, count) == p_digits(rest,
            acc * pow10(num_digits(n)) + n, count + num_digits(n)),
    decreases n,
{
    if n < 10 {
        let s = ren_u32(n) + rest;
        lemma_digit_roundtrip(n);
        assert(s[0] == digit_char(n));
        assert(s.skip(1) =~= rest);
        assert(pow10(0nat) == 1);
        assert(pow10(1nat) == 10 * pow10(0nat));
    } else {
        let d = digit_char(n % 10);
        let nd10 = num_digits(n / 10);
        assert(ren_u32(n) + rest =~= ren_u32(n / 10) + (seq![d] + rest));
        lemma_p_digits(n / 10, seq![d] + rest, acc, count);
        let acc1 = acc * pow10(nd10) + n / 10;
        let s1 = seq![d] + rest;
        lemma_digit_roundtrip(n % 10);
        assert(s1[0] == d);
        assert(s1.skip(1) =~= rest);
        lemma_pow10_pos(nd10);
        assert(acc1 >= 0) by (nonlinear_arith)
            requires acc >= 0, pow10(nd10) >= 1, n / 10 >= 0, acc1 == acc * pow10(nd10) + n / 10,
        ;
        assert(p_digits(s1, acc1, count + nd10) == p_digits(rest, acc1 * 10 + n % 10,
            count + nd10 + 1));
        assert(num_digits(n) == nd10 + 1);
        assert(pow10(num_digits(n)) == 10 * pow10(nd10));
        assert(acc1 * 10 + n % 10 == acc * (10 * pow10(nd10)) + ((n / 10) * 10 + n % 10))
            by (nonlinear_arith)
            requires acc1 == acc * pow10(nd10) + n / 10,
        ;
        assert((n / 10) * 10 + n % 10 == n);
    }
}

pub proof fn lemma_pow10_mono(a: nat, b: nat)
    requires
        a <= b,
    ensures
        pow10(a) <= pow10(b),
    decreases b,
{
    if a < b {
        lemma_pow10_mono(a, (b - 1) as nat);
        lemma_pow10_pos((b - 1) as nat);
        assert(pow10(b) == 10 * pow10((b - 1) as nat));
    }
}

pub proof fn lemma_pow10_pos(k: nat)
    ensures
        pow10(k) >= 1,
    decreases k,
{
    if k > 0 {
        lemma_pow10_pos((k - 1) as nat);
    }
}

pub proof fn lemma_p_u32(n: int, rest: Seq<char>)
    requires
        0 <= n <= u32::MAX,
        rest.len() == 0 || !is_digit(rest[0]),
    ensures
        p_u32(ren_u32(n) + rest) == Option::Some((n, rest)),
{
    assert(pow10(10nat) == 10000000000) by {
        reveal_with_fuel(pow10, 11);
    }
    lemma_num_digits_bound(n, 10nat);
    lemma_p_digits(n, rest, 0, 0);
    assert(0 * pow10(num_digits(n)) == 0) by (nonlinear_arith);
    assert(p_digits(rest, n, 0 + num_digits(n) as int) == Option::Some((n, rest)));
}

pub proof fn lemma_digits4(n: int)
    requires
        0 <= n < 10000,
    ensures
        (n / 1000) * 1000 + (n / 100 % 10) * 100 + (n / 10 % 10) * 10 + n % 10 == n,
{
    assert((n / 1000) * 1000 + (n / 100 % 10) * 100 + (n / 10 % 10) * 10 + n % 10 == n)
        by (nonlinear_arith)
        requires 0 <= n < 10000,
    ;
}

pub proof fn lemma_hex_roundtrip(d: int)
    requires
        0 <= d < 16,
    ensures
        is_hex(hex_char(d)),
        hex_val(hex_char(d)) == d,
{
}

pub proof fn lemma_ctl_roundtrip(c: char)
    requires
        (c as u32) < 32,
    ensures
        ctl_char(c as u32 as int) == c,
{
}

pub proof fn lemma_p_str_body(s: Seq<char>, rest: Seq<char>)
    ensures
        p_str_body(esc_str(s) + seq!['"'] + rest) == Option::Some((s, rest)),
    decreases s.len(),
{
    if s.len() == 0 {
        let full = esc_str(s) + seq!['"'] + rest;
        assert(full[0] == '"');
        assert(full.skip(1) =~= rest);
        assert(Seq::<char>::empty() =~= s);
    } else {
        let c = s[0];
        let tail = esc_str(s.skip(1)) + seq!['"'] + rest;
        let full = esc_str(s) + seq!['"'] + rest;
        assert(full =~= esc_char(c) + tail);
        lemma_p_str_body(s.skip(1), rest);
        if c == '"' {
            assert(full[0] == '\\');
            assert(full[1] == '"');
            assert(full.skip(2) =~= tail);
            assert(seq![full[1]] + s.skip(1) =~= s);
        } else if c == '\\' {
            assert(full[0] == '\\');
            assert(full[1] == '\\');
            assert(full.skip(2) =~= tail);
            assert(seq![full[1]] + s.skip(1) =~= s);
        } else if (c as u32) < 32 {
            let code = (c as u32) as int;
            lemma_hex_roundtrip(code / 16);
            lemma_hex_roundtrip(code % 16);
            assert(full[0] == '\\');
            assert(full[1] == 'u');
            assert(full[2] == '0');
            assert(full[3] == '0');
            assert(full[4] == hex_char(code / 16));
            assert(full[5] == hex_char(code % 16));
            assert((code / 16) * 16 + code % 16 == code);
            assert(full.skip(6) =~= tail);
            lemma_ctl_roundtrip(c);
            assert(seq![ctl_char(code)] + s.skip(1) =~= s);
        } else {
            assert(full[0] == c);
            assert(full.skip(1) =~= tail);
            assert(seq![c] + s.skip(1) =~= s);
        }
    }
}

pub proof fn lemma_p_quoted(s: Seq<char>, rest: Seq<char>)
    ensures
        p_quoted(quoted(s) + rest) == Option::Some((s, rest)),
{
    let full = quoted(s) + rest;
    assert(full[0] == '"');
    assert(full.skip(1) =~= esc_str(s) + seq!['"'] + rest);
    lemma_p_str_body(s, rest);
}

pub proof fn lemma_p_ts(t: Timestamp, rest: Seq<char>)
    requires
        t.wf(),
    ensures
        p_ts(seq!['"'] + ren_ts(t) + seq!['"'] + rest) == Option::Some((t, rest)),
{
    let y = t.year as int;
    let mo = t.month as int;
    let d = t.day as int;
    let h = t.hour as int;
    let mi = t.minute as int;
    let sec = t.second as int;
    let full = seq!['"'] + ren_ts(t) + seq!['"'] + rest;
    assert(full =~= seq!['"', digit_char(y / 1000), digit_char(y / 100 % 10), digit_char(
        y / 10 % 10), digit_char(y % 10), '-', digit_char(mo / 10), digit_char(mo % 10), '-',
        digit_char(d / 10), digit_char(d % 10), 'T', digit_char(h / 10), digit_char(h % 10), ':',
        digit_char(mi / 10), digit_char(mi % 10), ':', digit_char(sec / 10), digit_char(
        sec % 10), '"'] + rest);
    lemma_digit_roundtrip(y / 1000);
    lemma_digit_roundtrip(y / 100 % 10);
    lemma_digit_roundtrip(y / 10 % 10);
    lemma_digit_roundtrip(y % 10);
    lemma_digit_roundtrip(mo / 10);
    lemma_digit_roundtrip(mo % 10);
    lemma_digit_roundtrip(d / 10);
    lemma_digit_roundtrip(d % 10);
    lemma_digit_roundtrip(h / 10);
    lemma_digit_roundtrip(h % 10);
    lemma_digit_roundtrip(mi / 10);
    lemma_digit_roundtrip(mi % 10);
    lemma_digit_roundtrip(sec / 10);
    lemma_digit_roundtrip(sec % 10);
    lemma_digits4(y);
    assert(full.skip(21) =~= rest);
    match p_ts(full) {
        Option::Some((t2, r2)) => {
            assert(t2 =~= t);
            assert(r2 == rest);
        },
        Option::None => {
            assert(false);
        },
    }
}

pub proof fn lemma_p_date(dt: Date, rest: Seq<char>)
    requires
        dt.wf(),
    ensures
        p_date(seq!['"'] + ren_date(dt) + seq!['"'] + rest) == Option::Some((dt, rest)),
{
    let y = dt.year as int;
    let mo = dt.month as int;
    let d = dt.day as int;
    let full = seq!['"'] + ren_date(dt) + seq!['"'] + rest;
    assert(full =~= seq!['"', digit_char(y / 1000), digit_char(y / 100 % 10), digit_char(
        y / 10 % 10), digit_char(y % 10), '-', digit_char(mo / 10), digit_char(mo % 10), '-',
        digit_char(d / 10), digit_char(d % 10), '"'] + rest);
    lemma_digit_roundtrip(y / 1000);
    lemma_digit_roundtrip(y / 100 % 10);
    lemma_digit_roundtrip(y / 10 % 10);
    lemma_digit_roundtrip(y % 10);
    lemma_digit_roundtrip(mo / 10);
    lemma_digit_roundtrip(mo % 10);
    lemma_digit_roundtrip(d / 10);
    lemma_digit_roundtrip(d % 10);
    lemma_digits4(y);
    assert(full.skip(12) =~= rest);
    match p_date(full) {
        Option::Some((d2, r2)) => {
            assert(d2 =~= dt);
            assert(r2 == rest);
        },
        Option::None => {
            assert(false);
        },
    }
}

pub proof fn lemma_p_bool(b: bool, rest: Seq<char>)
    ensures
        p_bool(ren_bool(b) + rest) == Option::Some((b, rest)),
{
    let s = ren_bool(b) + rest;
    if b {
        lemma_p_lit(ren_bool(true), rest);
    } else {
        assert(s[0] == 'f');
        assert(p_lit(s, ren_bool(true)) == Option::<Seq<char>>::None);
        lemma_p_lit(ren_bool(false), rest);
    }
}

pub proof fn lemma_p_prio(p: crate::types::Priority, rest: Seq<char>)
    ensures
        p_prio(ren_prio(p) + rest) == Option::Some((p, rest)),
{
    let s = ren_prio(p) + rest;
    match p {
        crate::types::Priority::High => {
            lemma_p_lit(ren_prio(crate::types::Priority::High), rest);
        },
        crate::types::Priority::Medium => {
            assert(s[1] == 'M');
            assert(s.skip(1)[0] == 'M');
            assert(p_lit(s.skip(1), ren_prio(crate::types::Priority::High).skip(1))
                == Option::<Seq<char>>::None);
            assert(p_lit(s, ren_prio(crate::types::Priority::High)) == Option::<Seq<char>>::None);
            lemma_p_lit(ren_prio(crate::types::Priority::Medium), rest);
        },
        crate::types::Priority::Low => {
            assert(s[1] == 'L');
            assert(s.skip(1)[0] == 'L');
            assert(p_lit(s.skip(1), ren_prio(crate::types::Priority::High).skip(1))
                == Option::<Seq<char>>::None);
            assert(p_lit(s, ren_prio(crate::types::Priority::High)) == Option::<Seq<char>>::None);
            assert(p_lit(s.skip(1), ren_prio(crate::types::Priority::Medium).skip(1))
                == Option::<Seq<char>>::None);
            assert(p_lit(s, ren_prio(crate::types::Priority::Medium)) == Option::<Seq<char>>::None);
            lemma_p_lit(ren_prio(crate::types::Priority::Low), rest);
        },
    }
}

pub proof fn lemma_p_opt_ts(o: Option<Timestamp>, rest: Seq<char>)
    requires
        o is Some ==> o->0.wf(),
    ensures
        p_opt_ts(ren_opt_ts(o) + rest) == Option::Some((o, rest)),
{
    let s = ren_opt_ts(o) + rest;
    match o {
        Option::None => {
            lemma_p_lit(null_chars(), rest);
        },
        Option::Some(t) => {
            assert(s[0] == '"');
            assert(p_lit(s, null_chars()) == Option::<Seq<char>>::None);
            assert(s =~= seq!['"'] + ren_ts(t) + seq!['"'] + rest);
            lemma_p_ts(t, rest);
        },
    }
}

pub proof fn lemma_p_opt_date(o: Option<Date>, rest: Seq<char>)
    requires
        o is Some ==> o->0.wf(),
    ensures
        p_opt_date(ren_opt_date(o) + rest) == Option::Some((o, rest)),
{
    let s = ren_opt_date(o) + rest;
    match o {
        Option::None => {
            lemma_p_lit(null_chars(), rest);
        },
        Option::Some(d) => {
            assert(s[0] == '"');
            assert(p_lit(s, null_chars()) == Option::<Seq<char>>::None);
            assert(s =~= seq!['"'] + ren_date(d) + seq!['"'] + rest);
            lemma_p_date(d, rest);
        },
    }
}

pub proof fn lemma_ren_cat_entries_len(cs: Seq<Seq<char>>)
    ensures
        ren_cat_entries(cs).len() >= cs.len(),
    decreases cs.len(),
{
    if cs.len() > 1 {
        lemma_ren_cat_entries_len(cs.skip(1));
    }
}

pub proof fn lemma_p_cat_entries(cs: Seq<Seq<char>>, rest: Seq<char>, fuel: nat)
    requires
        cs.len() >= 1,
        fuel >= cs.len(),
    ensures
        p_cat_entries(ren_cat_entries(cs) + seq!['\n'] + sp4() + seq![']'] + rest, fuel)
            == Option::Some((cs, rest)),
    decreases cs.len(),
{
    let close = seq!['\n'] + sp4() + seq![']'];
    let s = ren_cat_entries(cs) + seq!['\n'] + sp4() + seq![']'] + rest;
    if cs.len() == 1 {
        assert(s =~= sp6() + (quoted(cs[0]) + (close + rest)));
        lemma_p_lit(sp6(), quoted(cs[0]) + (close + rest));
        lemma_p_quoted(cs[0], close + rest);
        let r = close + rest;
        assert(r[0] == '\n');
        assert(r =~= (seq!['\n'] + sp4() + seq![']']) + rest);
        lemma_p_lit(seq!['\n'] + sp4() + seq![']'], rest);
        assert(seq![cs[0]] =~= cs);
    } else {
        let entries1 = ren_cat_entries(cs.skip(1));
        assert(s =~= sp6() + (quoted(cs[0]) + (seq![',', '\n'] + (entries1 + seq!['\n'] + sp4()
            + seq![']'] + rest))));
        let after = seq![',', '\n'] + (entries1 + seq!['\n'] + sp4() + seq![']'] + rest);
        lemma_p_lit(sp6(), quoted(cs[0]) + after);
        lemma_p_quoted(cs[0], after);
        assert(after[0] == ',');
        assert(after =~= seq![',', '\n'] + (entries1 + seq!['\n'] + sp4() + seq![']'] + rest));
        lemma_p_lit(seq![',', '\n'], entries1 + seq!['\n'] + sp4() + seq![']'] + rest);
        lemma_p_cat_entries(cs.skip(1), rest, (fuel - 1) as nat);
        assert(seq![cs[0]] + cs.skip(1) =~= cs);
    }
}

pub proof fn lemma_p_cats(cs: Seq<Seq<char>>, rest: Seq<char>)
    ensures
        p_cats(ren_cats(cs) + rest) == Option::Some((cs, rest)),
{
    let s = ren_cats(cs) + rest;
    if cs.len() == 0 {
        lemma_p_lit(seq!['[', ']'], rest);
        assert(Seq::<Seq<char>>::empty() =~= cs);
    } else {
        assert(s[0] == '[');
        assert(s[1] == '\n');
        assert(s.skip(1)[0] == '\n');
        assert(p_lit(s.skip(1), seq!['[', ']'].skip(1)) == Option::<Seq<char>>::None);
        assert(p_lit(s, seq!['[', ']']) == Option::<Seq<char>>::None);
        let s1 = ren_cat_entries(cs) + seq!['\n'] + sp4() + seq![']'] + rest;
        assert(s =~= seq!['[', '\n'] + s1);
        lemma_p_lit(seq!['[', '\n'], s1);
        lemma_ren_cat_entries_len(cs);
        lemma_p_cat_entries(cs, rest, s1.len());
    }
}

/// The rendering of the last three field lines and the closing brace.
pub open spec fn ren_tail(it: ItemModel) -> Seq<char> {
    fld(n_priority(), ren_prio(it.priority), true)
        + fld(n_due_date(), ren_opt_date(it.due_date), true)
        + fld(n_categories(), ren_cats(it.categories), false)
        + seq![' ', ' ', '}']
}

/// The rendering of the middle three field lines and the tail.
pub open spec fn ren_mid(it: ItemModel) -> Seq<char> {
    fld(n_completed(), ren_bool(it.completed), true)
        + fld(n_created_at(), seq!['"'] + ren_ts(it.created_at) + seq!['"'], true)
        + fld(n_completed_at(), ren_opt_ts(it.completed_at), true)
        + ren_tail(it)
}

#[verifier::rlimit(100)]
pub proof fn lemma_p_item_tail(it: ItemModel, rest: Seq<char>)
    requires
        it.wf(),
    ensures
        p_item_tail(ren_tail(it) + rest, it.id, it.title, it.completed, it.created_at,
            it.completed_at) == Option::Some((it, rest)),
{
    let t8 = seq![' ', ' ', '}'] + rest;
    let t7 = fld(n_categories(), ren_cats(it.categories), false) + t8;
    let t6 = fld(n_due_date(), ren_opt_date(it.due_date), true) + t7;
    let s = ren_tail(it) + rest;

    let after_prio = seq![',', '\n'] + t6;
    assert(s =~= fld_pre(n_priority()) + (ren_prio(it.priority) + after_prio));
    lemma_p_lit(fld_pre(n_priority()), ren_prio(it.priority) + after_prio);
    lemma_p_prio(it.priority, after_prio);
    lemma_p_lit(seq![',', '\n'], t6);

    let after_due = seq![',', '\n'] + t7;
    assert(t6 =~= fld_pre(n_due_date()) + (ren_opt_date(it.due_date) + after_due));
    lemma_p_lit(fld_pre(n_due_date()), ren_opt_date(it.due_date) + after_due);
    lemma_p_opt_date(it.due_date, after_due);
    lemma_p_lit(seq![',', '\n'], t7);

    let after_cats = seq!['\n'] + t8;
    assert(t7 =~= fld_pre(n_categories()) + (ren_cats(it.categories) + after_cats));
    lemma_p_lit(fld_pre(n_categories()), ren_cats(it.categories) + after_cats);
    lemma_p_cats(it.categories, after_cats);
    assert(after_cats =~= seq!['\n', ' ', ' ', '}'] + rest);
    lemma_p_lit(seq!['\n', ' ', ' ', '}'], rest);

    match p_item_tail(s, it.id, it.title, it.completed, it.created_at, it.completed_at) {
        Option::Some((it2, r2)) => {
            assert(it2 =~= it);
            assert(r2 == rest);
        },
        Option::None => {
            assert(false);
        },
    }
}

#[verifier::rlimit(100)]
pub proof fn lemma_p_item_rest(it: ItemModel, rest: Seq<char>)
    requires
        it.wf(),
    ensures
        p_item_rest(ren_mid(it) + rest, it.id, it.title) == Option::Some((it, rest)),
{
    let t5 = ren_tail(it) + rest;
    let t4 = fld(n_completed_at(), ren_opt_ts(it.completed_at), true) + t5;
    let t3 = fld(n_created_at(), seq!['"'] + ren_ts(it.created_at) + seq!['"'], true) + t4;
    let s = ren_mid(it) + rest;

    let after_completed = seq![',', '\n'] + t3;
    assert(s =~= fld_pre(n_completed()) + (ren_bool(it.completed) + after_completed));
    lemma_p_lit(fld_pre(n_completed()), ren_bool(it.completed) + after_completed);
    lemma_p_bool(it.completed, after_completed);
    lemma_p_lit(seq![',', '\n'], t3);

    let after_created = seq![',', '\n'] + t4;
    assert(t3 =~= fld_pre(n_created_at()) + (seq!['"'] + ren_ts(it.created_at) + seq!['"']
        + after_created));
    lemma_p_lit(fld_pre(n_created_at()), seq!['"'] + ren_ts(it.created_at) + seq!['"']
        + after_created);
    lemma_p_ts(it.created_at, after_created);
    lemma_p_lit(seq![',', '\n'], t4);

    let after_cat = seq![',', '\n'] + t5;
    assert(t4 =~= fld_pre(n_completed_at()) + (ren_opt_ts(it.completed_at) + after_cat));
    lemma_p_lit(fld_pre(n_completed_at()), ren_opt_ts(it.completed_at) + after_cat);
    lemma_p_opt_ts(it.completed_at, after_cat);
    lemma_p_lit(seq![',', '\n'], t5);

    lemma_p_item_tail(it, rest);
}

#[verifier::rlimit(100)]
pub proof fn lemma_p_item(it: ItemModel, rest: Seq<char>)
    requires
        it.wf(),
        it.id <= u32::MAX,
    ensures
        p_item(ren_item(it) + rest) == Option::Some((it, rest)),
{
    let t2 = ren_mid(it) + rest;
    let t1 = fld(n_title(), quoted(it.title), true) + t2;
    let t0 = fld(n_id(), ren_u32(it.id), true) + t1;
    let full = ren_item(it) + rest;
    assert(full =~= seq![' ', ' ', '{', '\n'] + t0);
    lemma_p_lit(seq![' ', ' ', '{', '\n'], t0);

    let after_id = seq![',', '\n'] + t1;
    assert(t0 =~= fld_pre(n_id()) + (ren_u32(it.id) + after_id));
    lemma_p_lit(fld_pre(n_id()), ren_u32(it.id) + after_id);
    assert(after_id[0] == ',');
    lemma_p_u32(it.id, after_id);
    lemma_p_lit(seq![',', '\n'], t1);

    let after_title = seq![',', '\n'] + t2;
    assert(t1 =~= fld_pre(n_title()) + (quoted(it.title) + after_title));
    lemma_p_lit(fld_pre(n_title()), quoted(it.title) + after_title);
    lemma_p_quoted(it.title, after_title);
    lemma_p_lit(seq![',', '\n'], t2);

    lemma_p_item_rest(it, rest);
}

pub proof fn lemma_ren_item_entries_len(items: Seq<ItemModel>)
    ensures
        ren_item_entries(items).len() >= items.len(),
    decreases items.len(),
{
    if items.len() > 1 {
        lemma_ren_item_entries_len(items.skip(1));
    }
}

#[verifier::rlimit(100)]
pub proof fn lemma_p_item_entries(items: Seq<ItemModel>, rest: Seq<char>, fuel: nat)
    requires
        items.len() >= 1,
        fuel >= items.len(),
        forall|i: int| 0 <= i < items.len() ==> (#[trigger] items[i]).wf()
            && items[i].id <= u32::MAX,
    ensures
        p_item_entries(ren_item_entries(items) + seq!['\n', ']'] + rest, fuel)
            == Option::Some((items, rest)),
    decreases items.len(),
{
    let s = ren_item_entries(items) + seq!['\n', ']'] + rest;
    if items.len() == 1 {
        let r = seq!['\n', ']'] + rest;
        assert(s =~= ren_item(items[0]) + r);
        lemma_p_item(items[0], r);
        assert(r[0] == '\n');
        lemma_p_lit(seq!['\n', ']'], rest);
        assert(seq![items[0]] =~= items);
    } else {
        let inner = ren_item_entries(items.skip(1)) + seq!['\n', ']'] + rest;
        let r = seq![',', '\n'] + inner;
        assert(s =~= ren_item(items[0]) + r);
        lemma_p_item(items[0], r);
        assert(r[0] == ',');
        lemma_p_lit(seq![',', '\n'], inner);
        assert(forall|i: int| 0 <= i < items.skip(1).len()
            ==> (#[trigger] items.skip(1)[i]).wf() && items.skip(1)[i].id <= u32::MAX);
        lemma_p_item_entries(items.skip(1), rest, (fuel - 1) as nat);
        assert(seq![items[0]] + items.skip(1) =~= items);
    }
}

/// The round-trip: a rendered document parses back to exactly the
/// items it was rendered from.
#[verifier::rlimit(100)]
pub proof fn lemma_doc_roundtrip(items: Seq<ItemModel>)
    requires
        wf_items(items),
        forall|i: int| 0 <= i < items.len() ==> (#[trigger] items[i]).id <= u32::MAX,
    ensures
        doc_items(ren_items(items)) == Option::Some(items),
{
    let s = ren_items(items);
    if items.len() == 0 {
        lemma_p_lit(seq!['[', ']'], Seq::<char>::empty());
        assert(s =~= seq!['[', ']'] + Seq::<char>::empty());
        assert(p_items(s) == Option::Some((Seq::<ItemModel>::empty(), Seq::<char>::empty())));
        assert(Seq::<ItemModel>::empty() =~= items);
    } else {
        assert(s[1] == '\n');
        assert(s.skip(1)[0] == '\n');
        assert(p_lit(s.skip(1), seq!['[', ']'].skip(1)) == Option::<Seq<char>>::None);
        assert(p_lit(s, seq!['[', ']']) == Option::<Seq<char>>::None);
        let s1 = ren_item_entries(items) + seq!['\n', ']'];
        assert(s =~= seq!['[', '\n'] + s1);
        lemma_p_lit(seq!['[', '\n'], s1);
        lemma_ren_item_entries_len(items);
        assert(s1 =~= ren_item_entries(items) + seq!['\n', ']'] + Seq::<char>::empty());
        lemma_p_item_entries(items, Seq::<char>::empty(), s1.len());
        assert(p_items(s) == Option::Some((items, Seq::<char>::empty())));
    }
}

} // verus!
