//! The executable parser: reads the persisted document back, each
//! function proved to compute exactly what the codec's parsing
//! functions yield on the same text.

use vstd::prelude::*;
use crate::chars::{is_digit_exec, digit_val_exec, from_chars};
use crate::types::{Item, ItemModel, Timestamp, Date, Priority, valid_ymd_exec};
use crate::collection::wf_items;
use crate::query::clone_item;
use crate::codec::{is_hex, hex_val, ctl_char, p_lit, p_digits, p_u32, p_str_body,
    p_quoted, p_ts, p_date, p_bool, p_prio, p_opt_ts, p_opt_date, p_cat_entries, p_cats,
    p_item, p_item_rest, p_item_tail, p_item_entries, p_items, doc_items, ren_bool, ren_prio,
    null_chars, sp6, sp4, fld_pre, n_id, n_title, n_completed, n_created_at, n_completed_at,
    n_priority, n_due_date, n_categories};
use crate::roundtrip::{pow10, lemma_pow10_mono};

verus! {

fn is_hex_exec(c: char) -> (r: bool)
    ensures
        r == is_hex(c),
{
    is_digit_exec(c) || ('a' <= c && c <= 'f')
}

fn hex_val_exec(c: char) -> (r: u32)
    requires
        is_hex(c),
    ensures
        r == hex_val(c),
        r < 16,
{
    if is_digit_exec(c) {
        digit_val_exec(c)
    } else {
        c as u32 - 'a' as u32 + 10
    }
}

fn ctl_char_exec(code: u32) -> (c: char)
    requires
        code < 32,
    ensures
        c == ctl_char(code as int),
{
    if code == 0 { '\u{0}' }
    else if code == 1 { '\u{1}' }
    else if code == 2 { '\u{2}' }
    else if code == 3 { '\u{3}' }
    else if code == 4 { '\u{4}' }
    else if code == 5 { '\u{5}' }
    else if code == 6 { '\u{6}' }
    else if code == 7 { '\u{7}' }
    else if code == 8 { '\u{8}' }
    else if code == 9 { '\u{9}' }
    else if code == 10 { '\u{a}' }
    else if code == 11 { '\u{b}' }
    else if code == 12 { '\u{c}' }
    else if code == 13 { '\u{d}' }
    else if code == 14 { '\u{e}' }
    else if code == 15 { '\u{f}' }
    else if code == 16 { '\u{10}' }
    else if code == 17 { '\u{11}' }
    else if code == 18 { '\u{12}' }
    else if code == 19 { '\u{13}' }
    else if code == 20 { '\u{14}' }
    else if code == 21 { '\u{15}' }
    else if code == 22 { '\u{16}' }
    else if code == 23 { '\u{17}' }
    else if code == 24 { '\u{18}' }
    else if code == 25 { '\u{19}' }
    else if code == 26 { '\u{1a}' }
    else if code == 27 { '\u{1b}' }
    else if code == 28 { '\u{1c}' }
    else if code == 29 { '\u{1d}' }
    else if code == 30 { '\u{1e}' }
    else { '\u{1f}' }
}

fn append_chars(dst: &mut Vec<char>, src: &Vec<char>)
    ensures
        final(dst)@ == old(dst)@ + src@,
{
    let mut i: usize = 0;
    while i < src.len()
        invariant
            i <= src@.len(),
            dst@ == old(dst)@ + src@.take(i as int),
        decreases src@.len() - i,
    {
        dst.push(src[i]);
        i = i + 1;
        proof {
            assert(dst@ =~= old(dst)@ + src@.take(i as int));
        }
    }
    proof {
        assert(old(dst)@ + src@.take(src@.len() as int) =~= old(dst)@ + src@);
    }
}

fn e_lit_from(s: &Vec<char>, i: usize, l: &Vec<char>, li: usize) -> (r: Option<usize>)
    requires
        i <= s@.len(),
        li <= l@.len(),
    ensures
        match r {
            Option::Some(j) => i <= j <= s@.len() && j - i == l@.len() - li
                && p_lit(s@.skip(i as int), l@.skip(li as int))
                    == Option::Some(s@.skip(j as int)),
            Option::None => p_lit(s@.skip(i as int), l@.skip(li as int))
                == Option::<Seq<char>>::None,
        },
    decreases l@.len() - li,
{
    if li == l.len() {
        proof {
            assert(l@.skip(li as int) =~= Seq::<char>::empty());
        }
        Some(i)
    } else if i < s.len() && s[i] == l[li] {
        proof {
            assert(s@.skip(i as int)[0] == s@[i as int]);
            assert(l@.skip(li as int)[0] == l@[li as int]);
            assert(s@.skip(i as int).skip(1) =~= s@.skip(i as int + 1));
            assert(l@.skip(li as int).skip(1) =~= l@.skip(li as int + 1));
        }
        e_lit_from(s, i + 1, l, li + 1)
    } else {
        proof {
            assert(l@.skip(li as int).len() > 0);
            if i < s.len() {
                assert(s@.skip(i as int)[0] == s@[i as int]);
                assert(l@.skip(li as int)[0] == l@[li as int]);
            }
        }
        None
    }
}

fn e_lit(s: &Vec<char>, i: usize, l: &Vec<char>) -> (r: Option<usize>)
    requires
        i <= s@.len(),
    ensures
        match r {
            Option::Some(j) => i <= j <= s@.len() && j - i == l@.len()
                && p_lit(s@.skip(i as int), l@) == Option::Some(s@.skip(j as int)),
            Option::None => p_lit(s@.skip(i as int), l@) == Option::<Seq<char>>::None,
        },
{
    proof {
        assert(l@.skip(0) =~= l@);
    }
    e_lit_from(s, i, l, 0)
}

fn e_digits(s: &Vec<char>, i: usize, acc: u64, count: u8) -> (r: Option<(u64, usize)>)
    requires
        i <= s@.len(),
        count <= 10,
        (acc as int) < pow10(count as nat),
    ensures
        match r {
            Option::Some((v, j)) => i <= j <= s@.len()
                && p_digits(s@.skip(i as int), acc as int, count as int)
                    == Option::Some((v as int, s@.skip(j as int))),
            Option::None => p_digits(s@.skip(i as int), acc as int, count as int)
                == Option::<(int, Seq<char>)>::None,
        },
    decreases s@.len() - i,
{
    let n = s.len();
    if i < n && is_digit_exec(s[i]) {
        proof {
            assert(s@.skip(i as int)[0] == s@[i as int]);
        }
        if count >= 10 {
            None
        } else {
            let d: u32 = digit_val_exec(s[i]);
            proof {
                assert(pow10((count + 1) as nat) == 10 * pow10(count as nat));
                lemma_pow10_mono((count + 1) as nat, 10nat);
                assert(pow10(10nat) == 10000000000) by {
                    reveal_with_fuel(pow10, 11);
                }
                assert(acc as int * 10 + d < pow10((count + 1) as nat));
                assert(s@.skip(i as int).skip(1) =~= s@.skip(i as int + 1));
            }
            let acc2: u64 = acc * 10 + d as u64;
            e_digits(s, i + 1, acc2, count + 1)
        }
    } else {
        proof {
            if i < n {
                assert(s@.skip(i as int)[0] == s@[i as int]);
            } else {
                assert(s@.skip(i as int).len() == 0);
            }
        }
        if count == 0 {
            None
        } else {
            Some((acc, i))
        }
    }
}

fn e_u32(s: &Vec<char>, i: usize) -> (r: Option<(u32, usize)>)
    requires
        i <= s@.len(),
    ensures
        match r {
            Option::Some((v, j)) => i <= j <= s@.len()
                && p_u32(s@.skip(i as int)) == Option::Some((v as int, s@.skip(j as int))),
            Option::None => p_u32(s@.skip(i as int)) == Option::<(int, Seq<char>)>::None,
        },
{
    proof {
        assert(pow10(0nat) == 1);
    }
    match e_digits(s, i, 0, 0) {
        None => None,
        Some((v, j)) => {
            if v <= 0xffff_ffffu64 {
                Some((v as u32, j))
            } else {
                None
            }
        },
    }
}

fn e_str_body(s: &Vec<char>, i: usize) -> (r: Option<(Vec<char>, usize)>)
    requires
        i <= s@.len(),
    ensures
        match r {
            Option::Some((t, j)) => i < j <= s@.len()
                && p_str_body(s@.skip(i as int)) == Option::Some((t@, s@.skip(j as int))),
            Option::None => p_str_body(s@.skip(i as int))
                == Option::<(Seq<char>, Seq<char>)>::None,
        },
    decreases s@.len() - i,
{
    let n = s.len();
    if i == n {
        proof {
            assert(s@.skip(i as int).len() == 0);
        }
        return None;
    }
    let c = s[i];
    proof {
        assert(s@.skip(i as int)[0] == s@[i as int]);
    }
    if c == '"' {
        proof {
            assert(s@.skip(i as int).skip(1) =~= s@.skip(i as int + 1));
        }
        let empty: Vec<char> = Vec::new();
        proof {
            assert(empty@ =~= Seq::<char>::empty());
        }
        Some((empty, i + 1))
    } else if c == '\\' {
        if i + 1 < n && (s[i + 1] == '"' || s[i + 1] == '\\') {
            proof {
                assert(s@.skip(i as int)[1] == s@[i as int + 1]);
                assert(s@.skip(i as int).len() >= 2);
                assert(s@.skip(i as int).skip(2) =~= s@.skip(i as int + 2));
            }
            match e_str_body(s, i + 2) {
                None => None,
                Some((t, j)) => {
                    let mut v: Vec<char> = Vec::new();
                    v.push(s[i + 1]);
                    append_chars(&mut v, &t);
                    proof {
                        assert(v@ =~= seq![s@[i as int + 1]] + t@);
                    }
                    Some((v, j))
                },
            }
        } else if n - i >= 6 && s[i + 1] == 'u' && s[i + 2] == '0' && s[i + 3] == '0'
            && is_hex_exec(s[i + 4]) && is_hex_exec(s[i + 5])
            && hex_val_exec(s[i + 4]) * 16 + hex_val_exec(s[i + 5]) < 32 {
            let code: u32 = hex_val_exec(s[i + 4]) * 16 + hex_val_exec(s[i + 5]);
            proof {
                assert(s@.skip(i as int)[1] == s@[i as int + 1]);
                assert(s@.skip(i as int)[2] == s@[i as int + 2]);
                assert(s@.skip(i as int)[3] == s@[i as int + 3]);
                assert(s@.skip(i as int)[4] == s@[i as int + 4]);
                assert(s@.skip(i as int)[5] == s@[i as int + 5]);
                assert(s@.skip(i as int).len() >= 6);
                assert(s@.skip(i as int).skip(6) =~= s@.skip(i as int + 6));
            }
            match e_str_body(s, i + 6) {
                None => None,
                Some((t, j)) => {
                    let mut v: Vec<char> = Vec::new();
                    v.push(ctl_char_exec(code));
                    append_chars(&mut v, &t);
                    proof {
                        assert(v@ =~= seq![ctl_char(code as int)] + t@);
                    }
                    Some((v, j))
                },
            }
        } else {
            proof {
                let sk = s@.skip(i as int);
                if i + 1 < n {
                    assert(sk[1] == s@[i as int + 1]);
                }
                if i + 5 < n {
                    assert(sk[2] == s@[i as int + 2]);
                    assert(sk[3] == s@[i as int + 3]);
                    assert(sk[4] == s@[i as int + 4]);
                    assert(sk[5] == s@[i as int + 5]);
                }
                assert(p_str_body(sk) == Option::<(Seq<char>, Seq<char>)>::None);
            }
            None
        }
    } else {
        let code: u32 = c as u32;
        if code < 32 {
            None
        } else {
            proof {
                assert(s@.skip(i as int).skip(1) =~= s@.skip(i as int + 1));
            }
            match e_str_body(s, i + 1) {
                None => None,
                Some((t, j)) => {
                    let mut v: Vec<char> = Vec::new();
                    v.push(c);
                    append_chars(&mut v, &t);
                    proof {
                        assert(v@ =~= seq![s@[i as int]] + t@);
                    }
                    Some((v, j))
                },
            }
        }
    }
}

fn e_ts(s: &Vec<char>, i: usize) -> (r: Option<(Timestamp, usize)>)
    requires
        i <= s@.len(),
    ensures
        match r {
            Option::Some((t, j)) => i < j <= s@.len()
                && p_ts(s@.skip(i as int)) == Option::Some((t, s@.skip(j as int))),
            Option::None => p_ts(s@.skip(i as int)) == Option::<(Timestamp, Seq<char>)>::None,
        },
{
    let n = s.len();
    if n - i < 21 {
        proof {
            assert(s@.skip(i as int).len() < 21);
        }
        return None;
    }
    proof {
        assert forall|k: int| 0 <= k < 21 implies s@.skip(i as int)[k] == s@[i as int + k] by {}
    }
    let ok: bool = s[i] == '"' && is_digit_exec(s[i + 1]) && is_digit_exec(s[i + 2])
        && is_digit_exec(s[i + 3]) && is_digit_exec(s[i + 4]) && s[i + 5] == '-'
        && is_digit_exec(s[i + 6]) && is_digit_exec(s[i + 7]) && s[i + 8] == '-'
        && is_digit_exec(s[i + 9]) && is_digit_exec(s[i + 10]) && s[i + 11] == 'T'
        && is_digit_exec(s[i + 12]) && is_digit_exec(s[i + 13]) && s[i + 14] == ':'
        && is_digit_exec(s[i + 15]) && is_digit_exec(s[i + 16]) && s[i + 17] == ':'
        && is_digit_exec(s[i + 18]) && is_digit_exec(s[i + 19]) && s[i + 20] == '"';
    if !ok {
        return None;
    }
    let y: u32 = digit_val_exec(s[i + 1]) * 1000 + digit_val_exec(s[i + 2]) * 100
        + digit_val_exec(s[i + 3]) * 10 + digit_val_exec(s[i + 4]);
    let mo: u32 = digit_val_exec(s[i + 6]) * 10 + digit_val_exec(s[i + 7]);
    let d: u32 = digit_val_exec(s[i + 9]) * 10 + digit_val_exec(s[i + 10]);
    let h: u32 = digit_val_exec(s[i + 12]) * 10 + digit_val_exec(s[i + 13]);
    let mi: u32 = digit_val_exec(s[i + 15]) * 10 + digit_val_exec(s[i + 16]);
    let sec: u32 = digit_val_exec(s[i + 18]) * 10 + digit_val_exec(s[i + 19]);
    let t = Timestamp { year: y, month: mo, day: d, hour: h, minute: mi, second: sec };
    proof {
        assert(s@.skip(i as int).skip(21) =~= s@.skip(i as int + 21));
    }
    Some((t, i + 21))
}

fn e_date(s: &Vec<char>, i: usize) -> (r: Option<(Date, usize)>)
    requires
        i <= s@.len(),
    ensures
        match r {
            Option::Some((dt, j)) => i < j <= s@.len()
                && p_date(s@.skip(i as int)) == Option::Some((dt, s@.skip(j as int))),
            Option::None => p_date(s@.skip(i as int)) == Option::<(Date, Seq<char>)>::None,
        },
{
    let n = s.len();
    if n - i < 12 {
        proof {
            assert(s@.skip(i as int).len() < 12);
        }
        return None;
    }
    proof {
        assert forall|k: int| 0 <= k < 12 implies s@.skip(i as int)[k] == s@[i as int + k] by {}
    }
    let ok: bool = s[i] == '"' && is_digit_exec(s[i + 1]) && is_digit_exec(s[i + 2])
        && is_digit_exec(s[i + 3]) && is_digit_exec(s[i + 4]) && s[i + 5] == '-'
        && is_digit_exec(s[i + 6]) && is_digit_exec(s[i + 7]) && s[i + 8] == '-'
        && is_digit_exec(s[i + 9]) && is_digit_exec(s[i + 10]) && s[i + 11] == '"';
    if !ok {
        return None;
    }
    let y: u32 = digit_val_exec(s[i + 1]) * 1000 + digit_val_exec(s[i + 2]) * 100
        + digit_val_exec(s[i + 3]) * 10 + digit_val_exec(s[i + 4]);
    let mo: u32 = digit_val_exec(s[i + 6]) * 10 + digit_val_exec(s[i + 7]);
    let d: u32 = digit_val_exec(s[i + 9]) * 10 + digit_val_exec(s[i + 10]);
    let dt = Date { year: y, month: mo, day: d };
    proof {
        assert(s@.skip(i as int).skip(12) =~= s@.skip(i as int + 12));
    }
    Some((dt, i + 12))
}

fn e_bool(s: &Vec<char>, i: usize) -> (r: Option<(bool, usize)>)
    requires
        i <= s@.len(),
    ensures
        match r {
            Option::Some((b, j)) => i < j <= s@.len()
                && p_bool(s@.skip(i as int)) == Option::Some((b, s@.skip(j as int))),
            Option::None => p_bool(s@.skip(i as int)) == Option::<(bool, Seq<char>)>::None,
        },
{
    let tl: Vec<char> = vec!['t', 'r', 'u', 'e'];
    proof {
        assert(tl@ =~= ren_bool(true));
    }
    match e_lit(s, i, &tl) {
        Some(j) => Some((true, j)),
        None => {
            let fl: Vec<char> = vec!['f', 'a', 'l', 's', 'e'];
            proof {
                assert(fl@ =~= ren_bool(false));
            }
            match e_lit(s, i, &fl) {
                Some(j) => Some((false, j)),
                None => None,
            }
        },
    }
}

fn e_prio(s: &Vec<char>, i: usize) -> (r: Option<(Priority, usize)>)
    requires
        i <= s@.len(),
    ensures
        match r {
            Option::Some((p, j)) => i < j <= s@.len()
                && p_prio(s@.skip(i as int)) == Option::Some((p, s@.skip(j as int))),
            Option::None => p_prio(s@.skip(i as int))
                == Option::<(Priority, Seq<char>)>::None,
        },
{
    let hl: Vec<char> = vec!['"', 'H', 'i', 'g', 'h', '"'];
    proof {
        assert(hl@ =~= ren_prio(Priority::High));
    }
    match e_lit(s, i, &hl) {
        Some(j) => Some((Priority::High, j)),
        None => {
            let ml: Vec<char> = vec!['"', 'M', 'e', 'd', 'i', 'u', 'm', '"'];
            proof {
                assert(ml@ =~= ren_prio(Priority::Medium));
            }
            match e_lit(s, i, &ml) {
                Some(j) => Some((Priority::Medium, j)),
                None => {
                    let ll: Vec<char> = vec!['"', 'L', 'o', 'w', '"'];
                    proof {
                        assert(ll@ =~= ren_prio(Priority::Low));
                    }
                    match e_lit(s, i, &ll) {
                        Some(j) => Some((Priority::Low, j)),
                        None => None,
                    }
                },
            }
        },
    }
}

fn e_opt_ts(s: &Vec<char>, i: usize) -> (r: Option<(Option<Timestamp>, usize)>)
    requires
        i <= s@.len(),
    ensures
        match r {
            Option::Some((o, j)) => i < j <= s@.len()
                && p_opt_ts(s@.skip(i as int)) == Option::Some((o, s@.skip(j as int))),
            Option::None => p_opt_ts(s@.skip(i as int))
                == Option::<(Option<Timestamp>, Seq<char>)>::None,
        },
{
    let nl: Vec<char> = vec!['n', 'u', 'l', 'l'];
    proof {
        assert(nl@ =~= null_chars());
    }
    match e_lit(s, i, &nl) {
        Some(j) => Some((None, j)),
        None => match e_ts(s, i) {
            Some((t, j)) => Some((Some(t), j)),
            None => None,
        },
    }
}

fn e_opt_date(s: &Vec<char>, i: usize) -> (r: Option<(Option<Date>, usize)>)
    requires
        i <= s@.len(),
    ensures
        match r {
            Option::Some((o, j)) => i < j <= s@.len()
                && p_opt_date(s@.skip(i as int)) == Option::Some((o, s@.skip(j as int))),
            Option::None => p_opt_date(s@.skip(i as int))
                == Option::<(Option<Date>, Seq<char>)>::None,
        },
{
    let nl: Vec<char> = vec!['n', 'u', 'l', 'l'];
    proof {
        assert(nl@ =~= null_chars());
    }
    match e_lit(s, i, &nl) {
        Some(j) => Some((None, j)),
        None => match e_date(s, i) {
            Some((d, j)) => Some((Some(d), j)),
            None => None,
        },
    }
}

fn e_quoted(s: &Vec<char>, i: usize) -> (r: Option<(Vec<char>, usize)>)
    requires
        i <= s@.len(),
    ensures
        match r {
            Option::Some((t, j)) => i < j <= s@.len()
                && p_quoted(s@.skip(i as int)) == Option::Some((t@, s@.skip(j as int))),
            Option::None => p_quoted(s@.skip(i as int))
                == Option::<(Seq<char>, Seq<char>)>::None,
        },
{
    if i < s.len() && s[i] == '"' {
        proof {
            assert(s@.skip(i as int)[0] == s@[i as int]);
            assert(s@.skip(i as int).skip(1) =~= s@.skip(i as int + 1));
        }
        e_str_body(s, i + 1)
    } else {
        proof {
            if i < s.len() {
                assert(s@.skip(i as int)[0] == s@[i as int]);
            } else {
                assert(s@.skip(i as int).len() == 0);
            }
        }
        None
    }
}

fn append_strings(dst: &mut Vec<String>, src: &Vec<String>)
    ensures
        final(dst)@.len() == old(dst)@.len() + src@.len(),
        final(dst).deep_view() == old(dst).deep_view() + src.deep_view(),
{
    let ghost n0 = old(dst)@.len();
    let mut k: usize = 0;
    while k < src.len()
        invariant
            k <= src@.len(),
            dst@.len() == n0 + k,
            forall|j: int| 0 <= j < n0 ==> dst@[j] == old(dst)@[j],
            forall|j: int| n0 <= j < n0 + k ==> (#[trigger] dst@[j])@ == src@[j - n0]@,
        decreases src@.len() - k,
    {
        dst.push(src[k].clone());
        k = k + 1;
    }
    proof {
        assert forall|j: int| 0 <= j < dst@.len() implies dst.deep_view()[j] == (old(
            dst).deep_view() + src.deep_view())[j] by {
            if j < n0 {
                assert(dst@[j] == old(dst)@[j]);
            } else {
                assert(dst@[j]@ == src@[j - n0]@);
            }
        }
        assert(dst.deep_view() =~= old(dst).deep_view() + src.deep_view());
    }
}

fn append_items(dst: &mut Vec<Item>, src: &Vec<Item>)
    ensures
        final(dst)@.len() == old(dst)@.len() + src@.len(),
        final(dst).deep_view() == old(dst).deep_view() + src.deep_view(),
{
    let ghost n0 = old(dst)@.len();
    let mut k: usize = 0;
    while k < src.len()
        invariant
            k <= src@.len(),
            dst@.len() == n0 + k,
            forall|j: int| 0 <= j < n0 ==> dst@[j] == old(dst)@[j],
            forall|j: int| n0 <= j < n0 + k ==> (#[trigger] dst@[j])@ == src@[j - n0]@,
        decreases src@.len() - k,
    {
        dst.push(clone_item(&src[k]));
        k = k + 1;
    }
    proof {
        assert forall|j: int| 0 <= j < dst@.len() implies dst.deep_view()[j] == (old(
            dst).deep_view() + src.deep_view())[j] by {
            if j < n0 {
                assert(dst@[j] == old(dst)@[j]);
            } else {
                assert(dst@[j]@ == src@[j - n0]@);
            }
        }
        assert(dst.deep_view() =~= old(dst).deep_view() + src.deep_view());
    }
}

#[verifier::rlimit(100)]
fn e_cat_entries(s: &Vec<char>, i: usize) -> (r: Option<(Vec<String>, usize)>)
    requires
        i <= s@.len(),
    ensures
        match r {
            Option::Some((cs, j)) => i < j <= s@.len() && forall|f: nat| f >= s@.len() - i
                ==> p_cat_entries(s@.skip(i as int), f)
                    == Option::Some((cs.deep_view(), s@.skip(j as int))),
            Option::None => forall|f: nat| f >= s@.len() - i
                ==> p_cat_entries(s@.skip(i as int), f)
                    == Option::<(Seq<Seq<char>>, Seq<char>)>::None,
        },
    decreases s@.len() - i,
{
    let spv: Vec<char> = vec![' ', ' ', ' ', ' ', ' ', ' '];
    proof {
        assert(spv@ =~= sp6());
    }
    let j0 = match e_lit(s, i, &spv) {
        Some(j) => j,
        None => {
            return None;
        },
    };
    let (cv, j1) = match e_quoted(s, j0) {
        Some(x) => x,
        None => {
            return None;
        },
    };
    if j1 < s.len() && s[j1] == ',' {
        proof {
            assert(s@.skip(j1 as int)[0] == s@[j1 as int]);
        }
        let cnl: Vec<char> = vec![',', '\n'];
        proof {
            assert(cnl@ =~= seq![',', '\n']);
        }
        match e_lit(s, j1, &cnl) {
            None => None,
            Some(j2) => match e_cat_entries(s, j2) {
                None => {
                    proof {
                        assert forall|f: nat| f >= s@.len() - i implies p_cat_entries(s@.skip(
                            i as int), f) == Option::<(Seq<Seq<char>>, Seq<char>)>::None by {
                            assert(f >= 1);
                            assert(p_cat_entries(s@.skip(j2 as int), (f - 1) as nat)
                                == Option::<(Seq<Seq<char>>, Seq<char>)>::None);
                        }
                    }
                    None
                },
                Some((rest_cs, j3)) => {
                    let mut v: Vec<String> = Vec::new();
                    v.push(from_chars(&cv));
                    proof {
                        assert(v.deep_view() =~= seq![cv@]);
                    }
                    append_strings(&mut v, &rest_cs);
                    proof {
                        assert(v.deep_view() == seq![cv@] + rest_cs.deep_view());
                        assert forall|f: nat| f >= s@.len() - i implies p_cat_entries(s@.skip(
                            i as int), f) == Option::Some((v.deep_view(), s@.skip(j3 as int)))
                        by {
                            assert(f >= 1);
                            assert(p_cat_entries(s@.skip(j2 as int), (f - 1) as nat)
                                == Option::Some((rest_cs.deep_view(), s@.skip(j3 as int))));
                        }
                    }
                    Some((v, j3))
                },
            },
        }
    } else {
        proof {
            if j1 < s.len() {
                assert(s@.skip(j1 as int)[0] == s@[j1 as int]);
            } else {
                assert(s@.skip(j1 as int).len() == 0);
            }
        }
        let closev: Vec<char> = vec!['\n', ' ', ' ', ' ', ' ', ']'];
        proof {
            assert(closev@ =~= seq!['\n'] + sp4() + seq![']']);
        }
        match e_lit(s, j1, &closev) {
            None => None,
            Some(j2) => {
                let mut v: Vec<String> = Vec::new();
                v.push(from_chars(&cv));
                proof {
                    assert(v.deep_view() =~= seq![cv@]);
                    assert forall|f: nat| f >= s@.len() - i implies p_cat_entries(s@.skip(
                        i as int), f) == Option::Some((v.deep_view(), s@.skip(j2 as int))) by {
                        assert(f >= 1);
                    }
                }
                Some((v, j2))
            },
        }
    }
}

fn e_cats(s: &Vec<char>, i: usize) -> (r: Option<(Vec<String>, usize)>)
    requires
        i <= s@.len(),
    ensures
        match r {
            Option::Some((cs, j)) => i < j <= s@.len()
                && p_cats(s@.skip(i as int))
                    == Option::Some((cs.deep_view(), s@.skip(j as int))),
            Option::None => p_cats(s@.skip(i as int))
                == Option::<(Seq<Seq<char>>, Seq<char>)>::None,
        },
{
    let braces: Vec<char> = vec!['[', ']'];
    proof {
        assert(braces@ =~= seq!['[', ']']);
    }
    match e_lit(s, i, &braces) {
        Some(j) => {
            let v: Vec<String> = Vec::new();
            proof {
                assert(v.deep_view() =~= Seq::<Seq<char>>::empty());
            }
            Some((v, j))
        },
        None => {
            let open: Vec<char> = vec!['[', '\n'];
            proof {
                assert(open@ =~= seq!['[', '\n']);
            }
            match e_lit(s, i, &open) {
                None => None,
                Some(j1) => match e_cat_entries(s, j1) {
                    None => {
                        proof {
                            assert(p_cat_entries(s@.skip(j1 as int),
                                s@.skip(j1 as int).len()) == Option::<(Seq<Seq<char>>,
                                Seq<char>)>::None);
                        }
                        None
                    },
                    Some((cs, j2)) => {
                        proof {
                            assert(p_cat_entries(s@.skip(j1 as int),
                                s@.skip(j1 as int).len()) == Option::Some((cs.deep_view(),
                                s@.skip(j2 as int))));
                        }
                        Some((cs, j2))
                    },
                },
            }
        },
    }
}

fn ts_wf_exec(t: &Timestamp) -> (r: bool)
    ensures
        r == t.wf(),
{
    valid_ymd_exec(t.year, t.month, t.day) && t.hour <= 23 && t.minute <= 59 && t.second <= 59
}

fn date_wf_exec(d: &Date) -> (r: bool)
    ensures
        r == d.wf(),
{
    valid_ymd_exec(d.year, d.month, d.day)
}

fn item_wf_exec(it: &Item) -> (r: bool)
    ensures
        r == it@.wf(),
{
    let title_ok: bool = it.title.as_str().unicode_len() > 0;
    let stamps_ok: bool = match &it.completed_at {
        Some(ca) => it.completed && it.created_at.le_exec(ca) && ts_wf_exec(ca),
        None => !it.completed,
    };
    let due_ok: bool = match &it.due_date {
        Some(d) => date_wf_exec(d),
        None => true,
    };
    it.id >= 1 && title_ok && stamps_ok && due_ok && ts_wf_exec(&it.created_at)
}

#[verifier::rlimit(100)]
fn e_item(s: &Vec<char>, i: usize) -> (r: Option<(Item, usize)>)
    requires
        i <= s@.len(),
    ensures
        match r {
            Option::Some((it, j)) => i < j <= s@.len()
                && p_item(s@.skip(i as int)) == Option::Some((it@, s@.skip(j as int))),
            Option::None => p_item(s@.skip(i as int))
                == Option::<(ItemModel, Seq<char>)>::None,
        },
{
    let open: Vec<char> = vec![' ', ' ', '{', '\n'];
    proof {
        assert(open@ =~= seq![' ', ' ', '{', '\n']);
    }
    let j0 = match e_lit(s, i, &open) { Some(j) => j, None => { return None; } };

    let pre_id: Vec<char> = vec![' ', ' ', ' ', ' ', '"', 'i', 'd', '"', ':', ' '];
    proof {
        assert(pre_id@ =~= fld_pre(n_id()));
    }
    let j1 = match e_lit(s, j0, &pre_id) { Some(j) => j, None => { return None; } };
    let (id, j2) = match e_u32(s, j1) { Some(x) => x, None => { return None; } };
    let cnl: Vec<char> = vec![',', '\n'];
    proof {
        assert(cnl@ =~= seq![',', '\n']);
    }
    let j3 = match e_lit(s, j2, &cnl) { Some(j) => j, None => { return None; } };

    let pre_title: Vec<char> = vec![' ', ' ', ' ', ' ', '"', 't', 'i', 't', 'l', 'e', '"', ':',
        ' '];
    proof {
        assert(pre_title@ =~= fld_pre(n_title()));
    }
    let j4 = match e_lit(s, j3, &pre_title) { Some(j) => j, None => { return None; } };
    let (titlev, j5) = match e_quoted(s, j4) { Some(x) => x, None => { return None; } };
    let j6 = match e_lit(s, j5, &cnl) { Some(j) => j, None => { return None; } };

    let pre_completed: Vec<char> = vec![' ', ' ', ' ', ' ', '"', 'c', 'o', 'm', 'p', 'l', 'e',
        't', 'e', 'd', '"', ':', ' '];
    proof {
        assert(pre_completed@ =~= fld_pre(n_completed()));
    }
    let j7 = match e_lit(s, j6, &pre_completed) { Some(j) => j, None => { return None; } };
    let (completed, j8) = match e_bool(s, j7) { Some(x) => x, None => { return None; } };
    let j9 = match e_lit(s, j8, &cnl) { Some(j) => j, None => { return None; } };

    let pre_created: Vec<char> = vec![' ', ' ', ' ', ' ', '"', 'c', 'r', 'e', 'a', 't', 'e',
        'd', '_', 'a', 't', '"', ':', ' '];
    proof {
        assert(pre_created@ =~= fld_pre(n_created_at()));
    }
    let j10 = match e_lit(s, j9, &pre_created) { Some(j) => j, None => { return None; } };
    let (created_at, j11) = match e_ts(s, j10) { Some(x) => x, None => { return None; } };
    let j12 = match e_lit(s, j11, &cnl) { Some(j) => j, None => { return None; } };

    let pre_completed_at: Vec<char> = vec![' ', ' ', ' ', ' ', '"', 'c', 'o', 'm', 'p', 'l',
        'e', 't', 'e', 'd', '_', 'a', 't', '"', ':', ' '];
    proof {
        assert(pre_completed_at@ =~= fld_pre(n_completed_at()));
    }
    let j13 = match e_lit(s, j12, &pre_completed_at) { Some(j) => j, None => { return None; } };
    let (completed_at, j14) = match e_opt_ts(s, j13) { Some(x) => x, None => { return None; } };
    let j15 = match e_lit(s, j14, &cnl) { Some(j) => j, None => { return None; } };

    let pre_prio: Vec<char> = vec![' ', ' ', ' ', ' ', '"', 'p', 'r', 'i', 'o', 'r', 'i', 't',
        'y', '"', ':', ' '];
    proof {
        assert(pre_prio@ =~= fld_pre(n_priority()));
    }
    let j16 = match e_lit(s, j15, &pre_prio) { Some(j) => j, None => { return None; } };
    let (priority, j17) = match e_prio(s, j16) { Some(x) => x, None => { return None; } };
    let j18 = match e_lit(s, j17, &cnl) { Some(j) => j, None => { return None; } };

    let pre_due: Vec<char> = vec![' ', ' ', ' ', ' ', '"', 'd', 'u', 'e', '_', 'd', 'a', 't',
        'e', '"', ':', ' '];
    proof {
        assert(pre_due@ =~= fld_pre(n_due_date()));
    }
    let j19 = match e_lit(s, j18, &pre_due) { Some(j) => j, None => { return None; } };
    let (due_date, j20) = match e_opt_date(s, j19) { Some(x) => x, None => { return None; } };
    let j21 = match e_lit(s, j20, &cnl) { Some(j) => j, None => { return None; } };

    let pre_cats: Vec<char> = vec![' ', ' ', ' ', ' ', '"', 'c', 'a', 't', 'e', 'g', 'o', 'r',
        'i', 'e', 's', '"', ':', ' '];
    proof {
        assert(pre_cats@ =~= fld_pre(n_categories()));
    }
    let j22 = match e_lit(s, j21, &pre_cats) { Some(j) => j, None => { return None; } };
    let (categories, j23) = match e_cats(s, j22) { Some(x) => x, None => { return None; } };

    let closing: Vec<char> = vec!['\n', ' ', ' ', '}'];
    proof {
        assert(closing@ =~= seq!['\n', ' ', ' ', '}']);
    }
    let j24 = match e_lit(s, j23, &closing) { Some(j) => j, None => { return None; } };

    let it = Item {
        id,
        title: from_chars(&titlev),
        completed,
        created_at,
        completed_at,
        priority,
        due_date,
        categories,
    };
    if item_wf_exec(&it) {
        Some((it, j24))
    } else {
        None
    }
}

#[verifier::rlimit(100)]
fn e_item_entries(s: &Vec<char>, i: usize) -> (r: Option<(Vec<Item>, usize)>)
    requires
        i <= s@.len(),
    ensures
        match r {
            Option::Some((items, j)) => i < j <= s@.len() && forall|f: nat| f >= s@.len() - i
                ==> p_item_entries(s@.skip(i as int), f)
                    == Option::Some((items.deep_view(), s@.skip(j as int))),
            Option::None => forall|f: nat| f >= s@.len() - i
                ==> p_item_entries(s@.skip(i as int), f)
                    == Option::<(Seq<ItemModel>, Seq<char>)>::None,
        },
    decreases s@.len() - i,
{
    let (it, j0) = match e_item(s, i) {
        Some(x) => x,
        None => {
            return None;
        },
    };
    if j0 < s.len() && s[j0] == ',' {
        proof {
            assert(s@.skip(j0 as int)[0] == s@[j0 as int]);
        }
        let cnl: Vec<char> = vec![',', '\n'];
        proof {
            assert(cnl@ =~= seq![',', '\n']);
        }
        match e_lit(s, j0, &cnl) {
            None => None,
            Some(j1) => match e_item_entries(s, j1) {
                None => {
                    proof {
                        assert forall|f: nat| f >= s@.len() - i implies p_item_entries(s@.skip(
                            i as int), f) == Option::<(Seq<ItemModel>, Seq<char>)>::None by {
                            assert(f >= 1);
                            assert(p_item_entries(s@.skip(j1 as int), (f - 1) as nat)
                                == Option::<(Seq<ItemModel>, Seq<char>)>::None);
                        }
                    }
                    None
                },
                Some((rest_items, j2)) => {
                    let ghost itm = it@;
                    let mut v: Vec<Item> = Vec::new();
                    v.push(it);
                    proof {
                        assert(v.deep_view() =~= seq![itm]);
                    }
                    append_items(&mut v, &rest_items);
                    proof {
                        assert(v.deep_view() == seq![itm] + rest_items.deep_view());
                        assert forall|f: nat| f >= s@.len() - i implies p_item_entries(s@.skip(
                            i as int), f) == Option::Some((v.deep_view(), s@.skip(j2 as int)))
                        by {
                            assert(f >= 1);
                            assert(p_item_entries(s@.skip(j1 as int), (f - 1) as nat)
                                == Option::Some((rest_items.deep_view(), s@.skip(j2 as int))));
                        }
                    }
                    Some((v, j2))
                },
            },
        }
    } else {
        proof {
            if j0 < s.len() {
                assert(s@.skip(j0 as int)[0] == s@[j0 as int]);
            } else {
                assert(s@.skip(j0 as int).len() == 0);
            }
        }
        let closev: Vec<char> = vec!['\n', ']'];
        proof {
            assert(closev@ =~= seq!['\n', ']']);
        }
        match e_lit(s, j0, &closev) {
            None => None,
            Some(j1) => {
                let ghost itm = it@;
                let mut v: Vec<Item> = Vec::new();
                v.push(it);
                proof {
                    assert(v.deep_view() =~= seq![itm]);
                    assert forall|f: nat| f >= s@.len() - i implies p_item_entries(s@.skip(
                        i as int), f) == Option::Some((v.deep_view(), s@.skip(j1 as int))) by {
                        assert(f >= 1);
                    }
                }
                Some((v, j1))
            },
        }
    }
}

fn e_items(s: &Vec<char>, i: usize) -> (r: Option<(Vec<Item>, usize)>)
    requires
        i <= s@.len(),
    ensures
        match r {
            Option::Some((items, j)) => i <= j <= s@.len()
                && p_items(s@.skip(i as int))
                    == Option::Some((items.deep_view(), s@.skip(j as int))),
            Option::None => p_items(s@.skip(i as int))
                == Option::<(Seq<ItemModel>, Seq<char>)>::None,
        },
{
    let braces: Vec<char> = vec!['[', ']'];
    proof {
        assert(braces@ =~= seq!['[', ']']);
    }
    match e_lit(s, i, &braces) {
        Some(j) => {
            let v: Vec<Item> = Vec::new();
            proof {
                assert(v.deep_view() =~= Seq::<ItemModel>::empty());
            }
            Some((v, j))
        },
        None => {
            let open: Vec<char> = vec!['[', '\n'];
            proof {
                assert(open@ =~= seq!['[', '\n']);
            }
            match e_lit(s, i, &open) {
                None => None,
                Some(j1) => match e_item_entries(s, j1) {
                    None => {
                        proof {
                            assert(p_item_entries(s@.skip(j1 as int),
                                s@.skip(j1 as int).len()) == Option::<(Seq<ItemModel>,
                                Seq<char>)>::None);
                        }
                        None
                    },
                    Some((items, j2)) => {
                        proof {
                            assert(p_item_entries(s@.skip(j1 as int),
                                s@.skip(j1 as int).len()) == Option::Some((items.deep_view(),
                                s@.skip(j2 as int))));
                        }
                        Some((items, j2))
                    },
                },
            }
        },
    }
}

fn check_wf_items(items: &Vec<Item>) -> (r: bool)
    ensures
        r == wf_items(items.deep_view()),
{
    let n = items.len();
    let mut a: usize = 0;
    while a < n
        invariant
            a <= n,
            n == items@.len(),
            forall|i: int| 0 <= i < a ==> (#[trigger] items.deep_view()[i]).wf(),
        decreases n - a,
    {
        if !item_wf_exec(&items[a]) {
            proof {
                assert(!items.deep_view()[a as int].wf());
            }
            return false;
        }
        proof {
            assert(items.deep_view()[a as int].wf());
        }
        a = a + 1;
    }
    let mut i: usize = 0;
    while i < n
        invariant
            i <= n,
            n == items@.len(),
            forall|k: int| 0 <= k < items@.len() ==> (#[trigger] items.deep_view()[k]).wf(),
            forall|k: int, l: int| 0 <= k < l < items@.len() && k < i
                ==> items.deep_view()[k].id != items.deep_view()[l].id,
        decreases n - i,
    {
        let mut j: usize = i + 1;
        while j < n
            invariant
                i < j <= n || (i + 1 == j && j > n),
                i < n,
                n == items@.len(),
                forall|l: int| i < l < j ==> items.deep_view()[i as int].id
                    != (#[trigger] items.deep_view()[l]).id,
            decreases n - j,
        {
            if items[i].id == items[j].id {
                proof {
                    assert(items.deep_view()[i as int].id == items.deep_view()[j as int].id);
                }
                return false;
            }
            j = j + 1;
        }
        i = i + 1;
    }
    true
}

/// Parses a whole document: the array, nothing after it, identifiers
/// distinct and every record well formed; anything else is refused.
pub fn parse_doc(s: &Vec<char>) -> (r: Option<Vec<Item>>)
    ensures
        match r {
            Option::Some(v) => doc_items(s@) == Option::Some(v.deep_view())
                && wf_items(v.deep_view()),
            Option::None => doc_items(s@) == Option::<Seq<ItemModel>>::None,
        },
{
    proof {
        assert(s@.skip(0) =~= s@);
    }
    match e_items(s, 0) {
        None => None,
        Some((items, j)) => {
            if j == s.len() {
                proof {
                    assert(s@.skip(j as int).len() == 0);
                }
                if check_wf_items(&items) {
                    Some(items)
                } else {
                    None
                }
            } else {
                proof {
                    assert(s@.skip(j as int).len() > 0);
                }
                None
            }
        },
    }
}

} // verus!
