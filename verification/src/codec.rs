//! The persisted document format: a pretty-printed JSON array of item
//! records, defined here twice — as a renderer and as a strict parser —
//! with the round-trip between the two proved below. A document that
//! the parser refuses is salvaged to an empty collection by the store.

use vstd::prelude::*;
use crate::chars::{digit_char, digit_val, is_digit};
use crate::types::{ItemModel, Timestamp, Date, Priority};
use crate::collection::wf_items;

verus! {

// ---------------------------------------------------------------------
// Rendering: the document as a function of the item models.
// ---------------------------------------------------------------------

/// Decimal digits of `n`, most significant first, no leading zeros.
pub open spec fn ren_u32(n: int) -> Seq<char>
    decreases n,
{
    if n < 10 {
        seq![digit_char(n)]
    } else {
        ren_u32(n / 10).push(digit_char(n % 10))
    }
}

/// Two decimal digits, zero padded.
pub open spec fn ren2(n: int) -> Seq<char> {
    seq![digit_char(n / 10), digit_char(n % 10)]
}

/// Four decimal digits, zero padded.
pub open spec fn ren4(n: int) -> Seq<char> {
    seq![digit_char(n / 1000), digit_char(n / 100 % 10), digit_char(n / 10 % 10), digit_char(
        n % 10)]
}

/// The lower-case hexadecimal digit character for a value below 16.
pub open spec fn hex_char(d: int) -> char {
    if d == 0 { '0' }
    else if d == 1 { '1' }
    else if d == 2 { '2' }
    else if d == 3 { '3' }
    else if d == 4 { '4' }
    else if d == 5 { '5' }
    else if d == 6 { '6' }
    else if d == 7 { '7' }
    else if d == 8 { '8' }
    else if d == 9 { '9' }
    else if d == 10 { 'a' }
    else if d == 11 { 'b' }
    else if d == 12 { 'c' }
    else if d == 13 { 'd' }
    else if d == 14 { 'e' }
    else { 'f' }
}

pub open spec fn is_hex(c: char) -> bool {
    is_digit(c) || ('a' <= c && c <= 'f')
}

pub open spec fn hex_val(c: char) -> int {
    if is_digit(c) { digit_val(c) } else { c as u32 - 'a' as u32 + 10 }
}

/// The JSON escape of one character: quotes and backslashes get a
/// backslash, control characters a `\u00xx` form, the rest stand as
/// they are.
pub open spec fn esc_char(c: char) -> Seq<char> {
    if c == '"' {
        seq!['\\', '"']
    } else if c == '\\' {
        seq!['\\', '\\']
    } else if (c as u32) < 32 {
        seq!['\\', 'u', '0', '0', hex_char((c as u32) as int / 16), hex_char((c as u32) as int % 16)]
    } else {
        seq![c]
    }
}

pub open spec fn esc_str(s: Seq<char>) -> Seq<char>
    decreases s.len(),
{
    if s.len() == 0 {
        Seq::<char>::empty()
    } else {
        esc_char(s[0]) + esc_str(s.skip(1))
    }
}

/// A JSON string literal: the escaped text between quotes.
pub open spec fn quoted(s: Seq<char>) -> Seq<char> {
    seq!['"'] + esc_str(s) + seq!['"']
}

/// `YYYY-MM-DDTHH:MM:SS`.
pub open spec fn ren_ts(t: Timestamp) -> Seq<char> {
    ren4(t.year as int) + seq!['-'] + ren2(t.month as int) + seq!['-'] + ren2(t.day as int)
        + seq!['T'] + ren2(t.hour as int) + seq![':'] + ren2(t.minute as int) + seq![':']
        + ren2(t.second as int)
}

/// `YYYY-MM-DD`.
pub open spec fn ren_date(d: Date) -> Seq<char> {
    ren4(d.year as int) + seq!['-'] + ren2(d.month as int) + seq!['-'] + ren2(d.day as int)
}

pub open spec fn null_chars() -> Seq<char> {
    seq!['n', 'u', 'l', 'l']
}

pub open spec fn ren_bool(b: bool) -> Seq<char> {
    if b { seq!['t', 'r', 'u', 'e'] } else { seq!['f', 'a', 'l', 's', 'e'] }
}

/// The priority discriminator name, quoted.
pub open spec fn ren_prio(p: Priority) -> Seq<char> {
    match p {
        Priority::High => seq!['"', 'H', 'i', 'g', 'h', '"'],
        Priority::Medium => seq!['"', 'M', 'e', 'd', 'i', 'u', 'm', '"'],
        Priority::Low => seq!['"', 'L', 'o', 'w', '"'],
    }
}

pub open spec fn ren_opt_ts(o: Option<Timestamp>) -> Seq<char> {
    match o {
        Option::Some(t) => seq!['"'] + ren_ts(t) + seq!['"'],
        Option::None => null_chars(),
    }
}

pub open spec fn ren_opt_date(o: Option<Date>) -> Seq<char> {
    match o {
        Option::Some(d) => seq!['"'] + ren_date(d) + seq!['"'],
        Option::None => null_chars(),
    }
}

pub open spec fn sp4() -> Seq<char> {
    seq![' ', ' ', ' ', ' ']
}

pub open spec fn sp6() -> Seq<char> {
    seq![' ', ' ', ' ', ' ', ' ', ' ']
}

/// One category entry per line, at the inner indent.
pub open spec fn ren_cat_entries(cs: Seq<Seq<char>>) -> Seq<char>
    decreases cs.len(),
{
    if cs.len() <= 1 {
        if cs.len() == 0 { Seq::<char>::empty() } else { sp6() + quoted(cs[0]) }
    } else {
        sp6() + quoted(cs[0]) + seq![',', '\n'] + ren_cat_entries(cs.skip(1))
    }
}

pub open spec fn ren_cats(cs: Seq<Seq<char>>) -> Seq<char> {
    if cs.len() == 0 {
        seq!['[', ']']
    } else {
        seq!['[', '\n'] + ren_cat_entries(cs) + seq!['\n'] + sp4() + seq![']']
    }
}

pub open spec fn n_id() -> Seq<char> { seq!['i', 'd'] }
pub open spec fn n_title() -> Seq<char> { seq!['t', 'i', 't', 'l', 'e'] }
pub open spec fn n_completed() -> Seq<char> {
    seq!['c', 'o', 'm', 'p', 'l', 'e', 't', 'e', 'd']
}
pub open spec fn n_created_at() -> Seq<char> {
    seq!['c', 'r', 'e', 'a', 't', 'e', 'd', '_', 'a', 't']
}
pub open spec fn n_completed_at() -> Seq<char> {
    seq!['c', 'o', 'm', 'p', 'l', 'e', 't', 'e', 'd', '_', 'a', 't']
}
pub open spec fn n_priority() -> Seq<char> {
    seq!['p', 'r', 'i', 'o', 'r', 'i', 't', 'y']
}
pub open spec fn n_due_date() -> Seq<char> {
    seq!['d', 'u', 'e', '_', 'd', 'a', 't', 'e']
}
pub open spec fn n_categories() -> Seq<char> {
    seq!['c', 'a', 't', 'e', 'g', 'o', 'r', 'i', 'e', 's']
}

/// `    "name": ` — the start of one field line.
pub open spec fn fld_pre(name: Seq<char>) -> Seq<char> {
    sp4() + seq!['"'] + name + seq!['"', ':', ' ']
}

pub open spec fn fld(name: Seq<char>, val: Seq<char>, comma: bool) -> Seq<char> {
    fld_pre(name) + val + (if comma { seq![',', '\n'] } else { seq!['\n'] })
}

/// One item record, indented for the top-level array.
pub open spec fn ren_item(it: ItemModel) -> Seq<char> {
    seq![' ', ' ', '{', '\n']
        + fld(n_id(), ren_u32(it.id), true)
        + fld(n_title(), quoted(it.title), true)
        + fld(n_completed(), ren_bool(it.completed), true)
        + fld(n_created_at(), seq!['"'] + ren_ts(it.created_at) + seq!['"'], true)
        + fld(n_completed_at(), ren_opt_ts(it.completed_at), true)
        + fld(n_priority(), ren_prio(it.priority), true)
        + fld(n_due_date(), ren_opt_date(it.due_date), true)
        + fld(n_categories(), ren_cats(it.categories), false)
        + seq![' ', ' ', '}']
}

pub open spec fn ren_item_entries(items: Seq<ItemModel>) -> Seq<char>
    decreases items.len(),
{
    if items.len() <= 1 {
        if items.len() == 0 { Seq::<char>::empty() } else { ren_item(items[0]) }
    } else {
        ren_item(items[0]) + seq![',', '\n'] + ren_item_entries(items.skip(1))
    }
}

/// The whole document.
pub open spec fn ren_items(items: Seq<ItemModel>) -> Seq<char> {
    if items.len() == 0 {
        seq!['[', ']']
    } else {
        seq!['[', '\n'] + ren_item_entries(items) + seq!['\n', ']']
    }
}

// ---------------------------------------------------------------------
// Parsing: each parser consumes a prefix and yields the remainder.
// ---------------------------------------------------------------------

/// Consumes the literal `l`.
pub open spec fn p_lit(s: Seq<char>, l: Seq<char>) -> Option<Seq<char>>
    decreases l.len(),
{
    if l.len() == 0 {
        Option::Some(s)
    } else if s.len() > 0 && s[0] == l[0] {
        p_lit(s.skip(1), l.skip(1))
    } else {
        Option::None
    }
}

/// Consumes decimal digits (at most ten, so the value stays small),
/// folding them onto `acc`.
pub open spec fn p_digits(s: Seq<char>, acc: int, count: int) -> Option<(int, Seq<char>)>
    decreases s.len(),
{
    if s.len() > 0 && is_digit(s[0]) {
        if count >= 10 {
            Option::None
        } else {
            p_digits(s.skip(1), acc * 10 + digit_val(s[0]), count + 1)
        }
    } else if count == 0 {
        Option::None
    } else {
        Option::Some((acc, s))
    }
}

/// A decimal number that fits a `u32`.
pub open spec fn p_u32(s: Seq<char>) -> Option<(int, Seq<char>)> {
    match p_digits(s, 0, 0) {
        Option::Some((v, r)) => if v <= u32::MAX { Option::Some((v, r)) } else { Option::None },
        Option::None => Option::None,
    }
}

/// The character with a code point below 32.
pub open spec fn ctl_char(code: int) -> char {
    if code == 0 { '\u{0}' }
    else if code == 1 { '\u{1}' }
    else if code == 2 { '\u{2}' }
    else if code == 3 { '\u{3}' }
    else if code == 4 { '\u{4}' }
    else if code == 5 { '\u{5}' }
    else if code == 6 { '\u{6}' }
    else if code == 7 { '\u{7}' }
    else if code == 8 { '\u{8}' }
    else if code == 9 { '\u{9}' }
    else if code == 10 { '\u{a}' }
    else if code == 11 { '\u{b}' }
    else if code == 12 { '\u{c}' }
    else if code == 13 { '\u{d}' }
    else if code == 14 { '\u{e}' }
    else if code == 15 { '\u{f}' }
    else if code == 16 { '\u{10}' }
    else if code == 17 { '\u{11}' }
    else if code == 18 { '\u{12}' }
    else if code == 19 { '\u{13}' }
    else if code == 20 { '\u{14}' }
    else if code == 21 { '\u{15}' }
    else if code == 22 { '\u{16}' }
    else if code == 23 { '\u{17}' }
    else if code == 24 { '\u{18}' }
    else if code == 25 { '\u{19}' }
    else if code == 26 { '\u{1a}' }
    else if code == 27 { '\u{1b}' }
    else if code == 28 { '\u{1c}' }
    else if code == 29 { '\u{1d}' }
    else if code == 30 { '\u{1e}' }
    else { '\u{1f}' }
}

/// The body of a string literal after its opening quote, up to and
/// including the closing quote.
pub open spec fn p_str_body(s: Seq<char>) -> Option<(Seq<char>, Seq<char>)>
    decreases s.len(),
{
    if s.len() == 0 {
        Option::None
    } else if s[0] == '"' {
        Option::Some((Seq::<char>::empty(), s.skip(1)))
    } else if s[0] == '\\' {
        if s.len() >= 2 && (s[1] == '"' || s[1] == '\\') {
            match p_str_body(s.skip(2)) {
                Option::Some((t, r)) => Option::Some((seq![s[1]] + t, r)),
                Option::None => Option::None,
            }
        } else if s.len() >= 6 && s[1] == 'u' && s[2] == '0' && s[3] == '0' && is_hex(s[4])
            && is_hex(s[5]) && hex_val(s[4]) * 16 + hex_val(s[5]) < 32 {
            match p_str_body(s.skip(6)) {
                Option::Some((t, r)) => Option::Some(
                    (seq![ctl_char(hex_val(s[4]) * 16 + hex_val(s[5]))] + t, r)),
                Option::None => Option::None,
            }
        } else {
            Option::None
        }
    } else if (s[0] as u32) < 32 {
        Option::None
    } else {
        match p_str_body(s.skip(1)) {
            Option::Some((t, r)) => Option::Some((seq![s[0]] + t, r)),
            Option::None => Option::None,
        }
    }
}

/// A whole string literal.
pub open spec fn p_quoted(s: Seq<char>) -> Option<(Seq<char>, Seq<char>)> {
    if s.len() > 0 && s[0] == '"' {
        p_str_body(s.skip(1))
    } else {
        Option::None
    }
}

/// A quoted `YYYY-MM-DDTHH:MM:SS` timestamp.
pub open spec fn p_ts(s: Seq<char>) -> Option<(Timestamp, Seq<char>)> {
    if s.len() >= 21 && s[0] == '"'
        && is_digit(s[1]) && is_digit(s[2]) && is_digit(s[3]) && is_digit(s[4])
        && s[5] == '-' && is_digit(s[6]) && is_digit(s[7])
        && s[8] == '-' && is_digit(s[9]) && is_digit(s[10])
        && s[11] == 'T' && is_digit(s[12]) && is_digit(s[13])
        && s[14] == ':' && is_digit(s[15]) && is_digit(s[16])
        && s[17] == ':' && is_digit(s[18]) && is_digit(s[19])
        && s[20] == '"'
    {
        let y = digit_val(s[1]) * 1000 + digit_val(s[2]) * 100 + digit_val(s[3]) * 10
            + digit_val(s[4]);
        let mo = digit_val(s[6]) * 10 + digit_val(s[7]);
        let d = digit_val(s[9]) * 10 + digit_val(s[10]);
        let h = digit_val(s[12]) * 10 + digit_val(s[13]);
        let mi = digit_val(s[15]) * 10 + digit_val(s[16]);
        let sec = digit_val(s[18]) * 10 + digit_val(s[19]);
        Option::Some((Timestamp {
            year: y as u32, month: mo as u32, day: d as u32,
            hour: h as u32, minute: mi as u32, second: sec as u32,
        }, s.skip(21)))
    } else {
        Option::None
    }
}

/// A quoted `YYYY-MM-DD` date.
pub open spec fn p_date(s: Seq<char>) -> Option<(Date, Seq<char>)> {
    if s.len() >= 12 && s[0] == '"'
        && is_digit(s[1]) && is_digit(s[2]) && is_digit(s[3]) && is_digit(s[4])
        && s[5] == '-' && is_digit(s[6]) && is_digit(s[7])
        && s[8] == '-' && is_digit(s[9]) && is_digit(s[10])
        && s[11] == '"'
    {
        let y = digit_val(s[1]) * 1000 + digit_val(s[2]) * 100 + digit_val(s[3]) * 10
            + digit_val(s[4]);
        let mo = digit_val(s[6]) * 10 + digit_val(s[7]);
        let d = digit_val(s[9]) * 10 + digit_val(s[10]);
        Option::Some((Date { year: y as u32, month: mo as u32, day: d as u32 }, s.skip(12)))
    } else {
        Option::None
    }
}

pub open spec fn p_bool(s: Seq<char>) -> Option<(bool, Seq<char>)> {
    match p_lit(s, ren_bool(true)) {
        Option::Some(r) => Option::Some((true, r)),
        Option::None => match p_lit(s, ren_bool(false)) {
            Option::Some(r) => Option::Some((false, r)),
            Option::None => Option::None,
        },
    }
}

pub open spec fn p_prio(s: Seq<char>) -> Option<(Priority, Seq<char>)> {
    match p_lit(s, ren_prio(Priority::High)) {
        Option::Some(r) => Option::Some((Priority::High, r)),
        Option::None => match p_lit(s, ren_prio(Priority::Medium)) {
            Option::Some(r) => Option::Some((Priority::Medium, r)),
            Option::None => match p_lit(s, ren_prio(Priority::Low)) {
                Option::Some(r) => Option::Some((Priority::Low, r)),
                Option::None => Option::None,
            },
        },
    }
}

pub open spec fn p_opt_ts(s: Seq<char>) -> Option<(Option<Timestamp>, Seq<char>)> {
    match p_lit(s, null_chars()) {
        Option::Some(r) => Option::Some((Option::None, r)),
        Option::None => match p_ts(s) {
            Option::Some((t, r)) => Option::Some((Option::Some(t), r)),
            Option::None => Option::None,
        },
    }
}

pub open spec fn p_opt_date(s: Seq<char>) -> Option<(Option<Date>, Seq<char>)> {
    match p_lit(s, null_chars()) {
        Option::Some(r) => Option::Some((Option::None, r)),
        Option::None => match p_date(s) {
            Option::Some((d, r)) => Option::Some((Option::Some(d), r)),
            Option::None => Option::None,
        },
    }
}

/// Category entries: one quoted string per line, separated by commas,
/// closed by the array bracket at the outer indent.
pub open spec fn p_cat_entries(s: Seq<char>, fuel: nat) -> Option<(Seq<Seq<char>>, Seq<char>)>
    decreases fuel,
{
    if fuel == 0 {
        Option::None
    } else {
        match p_lit(s, sp6()) {
            Option::None => Option::None,
            Option::Some(s1) => match p_quoted(s1) {
                Option::None => Option::None,
                Option::Some((c, r)) => {
                    if r.len() > 0 && r[0] == ',' {
                        match p_lit(r, seq![',', '\n']) {
                            Option::None => Option::None,
                            Option::Some(r1) => match p_cat_entries(r1, (fuel - 1) as nat) {
                                Option::None => Option::None,
                                Option::Some((cs, r2)) => Option::Some((seq![c] + cs, r2)),
                            },
                        }
                    } else {
                        match p_lit(r, seq!['\n'] + sp4() + seq![']']) {
                            Option::None => Option::None,
                            Option::Some(r1) => Option::Some((seq![c], r1)),
                        }
                    }
                },
            },
        }
    }
}

pub open spec fn p_cats(s: Seq<char>) -> Option<(Seq<Seq<char>>, Seq<char>)> {
    match p_lit(s, seq!['[', ']']) {
        Option::Some(r) => Option::Some((Seq::<Seq<char>>::empty(), r)),
        Option::None => match p_lit(s, seq!['[', '\n']) {
            Option::None => Option::None,
            Option::Some(s1) => p_cat_entries(s1, s1.len()),
        },
    }
}

/// One item record. A record whose fields do not form a well-formed
/// item is refused.
pub open spec fn p_item(s: Seq<char>) -> Option<(ItemModel, Seq<char>)> {
    match p_lit(s, seq![' ', ' ', '{', '\n']) {
        Option::None => Option::None,
        Option::Some(s0) => match p_lit(s0, fld_pre(n_id())) {
            Option::None => Option::None,
            Option::Some(s1) => match p_u32(s1) {
                Option::None => Option::None,
                Option::Some((id, s2)) => match p_lit(s2, seq![',', '\n']) {
                    Option::None => Option::None,
                    Option::Some(s3) => match p_lit(s3, fld_pre(n_title())) {
                        Option::None => Option::None,
                        Option::Some(s4) => match p_quoted(s4) {
                            Option::None => Option::None,
                            Option::Some((title, s5)) => match p_lit(s5, seq![',', '\n']) {
                                Option::None => Option::None,
                                Option::Some(s6) => p_item_rest(s6, id, title),
                            },
                        },
                    },
                },
            },
        },
    }
}

/// The remaining six fields of a record, after id and title.
pub open spec fn p_item_rest(s: Seq<char>, id: int, title: Seq<char>) -> Option<(ItemModel,
    Seq<char>)> {
    match p_lit(s, fld_pre(n_completed())) {
        Option::None => Option::None,
        Option::Some(s0) => match p_bool(s0) {
            Option::None => Option::None,
            Option::Some((completed, s1)) => match p_lit(s1, seq![',', '\n']) {
                Option::None => Option::None,
                Option::Some(s2) => match p_lit(s2, fld_pre(n_created_at())) {
                    Option::None => Option::None,
                    Option::Some(s3) => match p_ts(s3) {
                        Option::None => Option::None,
                        Option::Some((created_at, s4)) => match p_lit(s4, seq![',', '\n']) {
                            Option::None => Option::None,
                            Option::Some(s5) => match p_lit(s5, fld_pre(n_completed_at())) {
                                Option::None => Option::None,
                                Option::Some(s6) => match p_opt_ts(s6) {
                                    Option::None => Option::None,
                                    Option::Some((completed_at, s7)) => match p_lit(s7,
                                        seq![',', '\n']) {
                                        Option::None => Option::None,
                                        Option::Some(s8) => p_item_tail(s8, id, title, completed,
                                            created_at, completed_at),
                                    },
                                },
                            },
                        },
                    },
                },
            },
        },
    }
}

/// The last three fields of a record and its closing brace.
pub open spec fn p_item_tail(
    s: Seq<char>,
    id: int,
    title: Seq<char>,
    completed: bool,
    created_at: Timestamp,
    completed_at: Option<Timestamp>,
) -> Option<(ItemModel, Seq<char>)> {
    match p_lit(s, fld_pre(n_priority())) {
        Option::None => Option::None,
        Option::Some(s0) => match p_prio(s0) {
            Option::None => Option::None,
            Option::Some((priority, s1)) => match p_lit(s1, seq![',', '\n']) {
                Option::None => Option::None,
                Option::Some(s2) => match p_lit(s2, fld_pre(n_due_date())) {
                    Option::None => Option::None,
                    Option::Some(s3) => match p_opt_date(s3) {
                        Option::None => Option::None,
                        Option::Some((due_date, s4)) => match p_lit(s4, seq![',', '\n']) {
                            Option::None => Option::None,
                            Option::Some(s5) => match p_lit(s5, fld_pre(n_categories())) {
                                Option::None => Option::None,
                                Option::Some(s6) => match p_cats(s6) {
                                    Option::None => Option::None,
                                    Option::Some((categories, s7)) => match p_lit(s7,
                                        seq!['\n', ' ', ' ', '}']) {
                                        Option::None => Option::None,
                                        Option::Some(s8) => {
                                            let it = ItemModel {
                                                id, title, completed, created_at, completed_at,
                                                priority, due_date, categories,
                                            };
                                            if it.wf() {
                                                Option::Some((it, s8))
                                            } else {
                                                Option::None
                                            }
                                        },
                                    },
                                },
                            },
                        },
                    },
                },
            },
        },
    }
}

/// Item records separated by commas, closed by the array bracket.
pub open spec fn p_item_entries(s: Seq<char>, fuel: nat) -> Option<(Seq<ItemModel>, Seq<char>)>
    decreases fuel,
{
    if fuel == 0 {
        Option::None
    } else {
        match p_item(s) {
            Option::None => Option::None,
            Option::Some((it, r)) => {
                if r.len() > 0 && r[0] == ',' {
                    match p_lit(r, seq![',', '\n']) {
                        Option::None => Option::None,
                        Option::Some(r1) => match p_item_entries(r1, (fuel - 1) as nat) {
                            Option::None => Option::None,
                            Option::Some((items, r2)) => Option::Some((seq![it] + items, r2)),
                        },
                    }
                } else {
                    match p_lit(r, seq!['\n', ']']) {
                        Option::None => Option::None,
                        Option::Some(r1) => Option::Some((seq![it], r1)),
                    }
                }
            },
        }
    }
}

pub open spec fn p_items(s: Seq<char>) -> Option<(Seq<ItemModel>, Seq<char>)> {
    match p_lit(s, seq!['[', ']']) {
        Option::Some(r) => Option::Some((Seq::<ItemModel>::empty(), r)),
        Option::None => match p_lit(s, seq!['[', '\n']) {
            Option::None => Option::None,
            Option::Some(s1) => p_item_entries(s1, s1.len()),
        },
    }
}

/// The whole document: the array, nothing after it, identifiers
/// distinct.
pub open spec fn doc_items(s: Seq<char>) -> Option<Seq<ItemModel>> {
    match p_items(s) {
        Option::None => Option::None,
        Option::Some((items, r)) => {
            if r.len() == 0 && wf_items(items) {
                Option::Some(items)
            } else {
                Option::None
            }
        },
    }
}

} // verus!
