//! Plain-text renderings of numbers and durations used in the transcript and the
//! spinner row, the shell-timeout parser, whitespace collapsing, and todo statuses.

use vstd::prelude::*;
use crate::text::{
    ascii_lower_chars, ascii_lower_seq, char_is_ascii_white_space, char_is_white_space, chars_equal,
    chars_of, decimal, digit_char, is_ascii_digit, is_ascii_white_space, is_white_space, push_char,
    push_decimal, trim, trim_chars, trim_end, trim_start,
};

verus! {

/// `n` followed by a unit letter.
pub open spec fn with_unit(n: nat, unit: char) -> Seq<char> {
    decimal(n).push(unit)
}

/// Seconds rounded half up from milliseconds.
pub open spec fn rounded_seconds(ms: nat) -> nat {
    ms / 1000 + if ms % 1000 >= 500 {
        1nat
    } else {
        0nat
    }
}

/// An elapsed time: whole seconds under a minute (`12s`), then rounded to the second
/// as `1m 5s`, `1h 2m 3s`, and `1d 2h 3m` from a day on.
pub open spec fn spec_format_elapsed(ms: nat) -> Seq<char> {
    if ms < 60_000 {
        with_unit(ms / 1000, 's')
    } else {
        let total_seconds = rounded_seconds(ms);
        let total_minutes = total_seconds / 60;
        let seconds = total_seconds % 60;
        if total_minutes < 60 {
            with_unit(total_minutes, 'm') + seq![' '] + with_unit(seconds, 's')
        } else {
            let total_hours = total_minutes / 60;
            let minutes = total_minutes % 60;
            if total_hours < 24 {
                with_unit(total_hours, 'h') + seq![' '] + with_unit(minutes, 'm') + seq![' ']
                    + with_unit(seconds, 's')
            } else {
                with_unit(total_hours / 24, 'd') + seq![' '] + with_unit(total_hours % 24, 'h')
                    + seq![' '] + with_unit(minutes, 'm')
            }
        }
    }
}

fn push_with_unit(s: &mut String, n: u64, unit: char)
    ensures
        final(s)@ == old(s)@ + with_unit(n as nat, unit),
{
    push_decimal(s, n);
    push_char(s, unit);
    assert(old(s)@ + decimal(n as nat) + seq![unit] == old(s)@ + with_unit(n as nat, unit));
}

/// Formats an elapsed time in milliseconds for the spinner row.
pub fn format_elapsed(milliseconds: u64) -> (r: String)
    ensures
        r@ == spec_format_elapsed(milliseconds as nat),
{
    let mut r = String::new();
    if milliseconds < 60_000 {
        push_with_unit(&mut r, milliseconds / 1_000, 's');
        return r;
    }
    let total_seconds = milliseconds / 1_000 + if milliseconds % 1_000 >= 500 {
        1
    } else {
        0
    };
    let total_minutes = total_seconds / 60;
    let seconds = total_seconds % 60;
    if total_minutes < 60 {
        push_with_unit(&mut r, total_minutes, 'm');
        push_char(&mut r, ' ');
        push_with_unit(&mut r, seconds, 's');
        return r;
    }
    let total_hours = total_minutes / 60;
    let minutes = total_minutes % 60;
    if total_hours < 24 {
        push_with_unit(&mut r, total_hours, 'h');
        push_char(&mut r, ' ');
        push_with_unit(&mut r, minutes, 'm');
        push_char(&mut r, ' ');
        push_with_unit(&mut r, seconds, 's');
        return r;
    }
    push_with_unit(&mut r, total_hours / 24, 'd');
    push_char(&mut r, ' ');
    push_with_unit(&mut r, total_hours % 24, 'h');
    push_char(&mut r, ' ');
    push_with_unit(&mut r, minutes, 'm');
    r
}

/// Joins parts with single spaces.
pub open spec fn join_spaced(parts: Seq<Seq<char>>) -> Seq<char>
    decreases parts.len(),
{
    if parts.len() == 0 {
        Seq::empty()
    } else if parts.len() == 1 {
        parts[0]
    } else {
        join_spaced(parts.drop_last()) + seq![' '] + parts.last()
    }
}

/// The non-zero day, hour, minute and second parts of a duration, with seconds shown
/// when nothing else is.
pub open spec fn timeout_parts(total_seconds: nat) -> Seq<Seq<char>> {
    let days = total_seconds / 86_400;
    let hours = (total_seconds % 86_400) / 3_600;
    let minutes = (total_seconds % 3_600) / 60;
    let seconds = total_seconds % 60;
    let p1 = if days > 0 {
        seq![with_unit(days, 'd')]
    } else {
        Seq::empty()
    };
    let p2 = if hours > 0 {
        p1.push(with_unit(hours, 'h'))
    } else {
        p1
    };
    let p3 = if minutes > 0 {
        p2.push(with_unit(minutes, 'm'))
    } else {
        p2
    };
    if seconds > 0 || p3.len() == 0 {
        p3.push(with_unit(seconds, 's'))
    } else {
        p3
    }
}

/// Whole seconds rounded up from milliseconds (stopping at `u64::MAX` before dividing).
pub open spec fn ceil_seconds(ms: nat) -> nat {
    let padded = if ms + 999 > u64::MAX {
        u64::MAX as nat
    } else {
        ms + 999
    };
    padded / 1000
}

/// A shell timeout as `1d 2h 3m 4s`, leaving out zero parts.
pub open spec fn spec_format_timeout(ms: nat) -> Seq<char> {
    join_spaced(timeout_parts(ceil_seconds(ms)))
}

proof fn lemma_join_push(parts: Seq<Seq<char>>, x: Seq<char>)
    ensures
        join_spaced(parts.push(x)) == if parts.len() == 0 {
            x
        } else {
            join_spaced(parts) + seq![' '] + x
        },
{
    assert(parts.push(x).drop_last() == parts);
}

fn push_part(r: &mut String, first: bool, n: u64, unit: char)
    ensures
        final(r)@ == if first {
            old(r)@ + with_unit(n as nat, unit)
        } else {
            old(r)@ + seq![' '] + with_unit(n as nat, unit)
        },
{
    if !first {
        push_char(r, ' ');
    }
    push_with_unit(r, n, unit);
}

/// Formats a shell timeout given in milliseconds, rounded up to whole seconds.
pub fn format_timeout(milliseconds: u64) -> (r: String)
    ensures
        r@ == spec_format_timeout(milliseconds as nat),
{
    let total_seconds = milliseconds.saturating_add(999) / 1_000;
    let days = total_seconds / 86_400;
    let hours = (total_seconds % 86_400) / 3_600;
    let minutes = (total_seconds % 3_600) / 60;
    let seconds = total_seconds % 60;
    let ghost parts = timeout_parts(total_seconds as nat);
    let mut r = String::new();
    let mut count: usize = 0;
    let ghost mut built: Seq<Seq<char>> = Seq::empty();
    if days > 0 {
        push_part(&mut r, count == 0, days, 'd');
        proof {
            lemma_join_push(built, with_unit(days as nat, 'd'));
            if built.len() == 0 {
                assert(Seq::<char>::empty() + with_unit(days as nat, 'd') == with_unit(days as nat, 'd'));
            }
            built = built.push(with_unit(days as nat, 'd'));
        }
        count += 1;
    }
    assert(r@ == join_spaced(built) && built.len() == count);
    if hours > 0 {
        push_part(&mut r, count == 0, hours, 'h');
        proof {
            lemma_join_push(built, with_unit(hours as nat, 'h'));
            if built.len() == 0 {
                assert(Seq::<char>::empty() + with_unit(hours as nat, 'h') == with_unit(hours as nat, 'h'));
            }
            built = built.push(with_unit(hours as nat, 'h'));
        }
        count += 1;
    }
    assert(r@ == join_spaced(built) && built.len() == count);
    if minutes > 0 {
        push_part(&mut r, count == 0, minutes, 'm');
        proof {
            lemma_join_push(built, with_unit(minutes as nat, 'm'));
            if built.len() == 0 {
                assert(Seq::<char>::empty() + with_unit(minutes as nat, 'm') == with_unit(minutes as nat, 'm'));
            }
            built = built.push(with_unit(minutes as nat, 'm'));
        }
        count += 1;
    }
    assert(r@ == join_spaced(built) && built.len() == count);
    if seconds > 0 || count == 0 {
        push_part(&mut r, count == 0, seconds, 's');
        proof {
            lemma_join_push(built, with_unit(seconds as nat, 's'));
            if built.len() == 0 {
                assert(Seq::<char>::empty() + with_unit(seconds as nat, 's') == with_unit(seconds as nat, 's'));
            }
            built = built.push(with_unit(seconds as nat, 's'));
        }
    }
    assert(built =~= parts);
    r
}

/// Position of the first non-ASCII-whitespace character at or after `i`.
pub open spec fn skip_ascii_ws(t: Seq<char>, i: int) -> int
    decreases t.len() - i,
{
    if 0 <= i < t.len() && is_ascii_white_space(t[i]) {
        skip_ascii_ws(t, i + 1)
    } else {
        i
    }
}

/// Position just past the run of ASCII digits starting at `i`.
pub open spec fn digits_end(t: Seq<char>, i: int) -> int
    decreases t.len() - i,
{
    if 0 <= i < t.len() && is_ascii_digit(t[i]) {
        digits_end(t, i + 1)
    } else {
        i
    }
}

/// The number the digits `t[j..k]` spell.
pub open spec fn digits_value(t: Seq<char>, j: int, k: int) -> nat
    decreases k - j,
{
    if k <= j {
        0
    } else {
        digits_value(t, j, k - 1) * 10 + ((t[k - 1] as u32) - 48) as nat
    }
}

/// The unit at `m`: its multiplier in milliseconds and its length; a missing unit at
/// the end means milliseconds.
pub open spec fn unit_at(t: Seq<char>, m: int) -> Option<(nat, int)> {
    if m + 2 <= t.len() && t[m] == 'm' && t[m + 1] == 's' {
        Some((1, 2))
    } else if m < t.len() && t[m] == 's' {
        Some((1000, 1))
    } else if m < t.len() && t[m] == 'm' {
        Some((60_000, 1))
    } else if m < t.len() && t[m] == 'h' {
        Some((3_600_000, 1))
    } else if m < t.len() && t[m] == 'd' {
        Some((86_400_000, 1))
    } else if m == t.len() {
        Some((1, 0))
    } else {
        None
    }
}

proof fn lemma_skip_bounds(t: Seq<char>, i: int)
    requires
        0 <= i <= t.len(),
    ensures
        i <= skip_ascii_ws(t, i) <= t.len(),
        i <= digits_end(t, i) <= t.len(),
    decreases t.len() - i,
{
    if i < t.len() {
        lemma_skip_bounds(t, i + 1);
    }
}

/// The total, in milliseconds, of the terms `<number> [unit]` from position `i` on,
/// whitespace allowed around numbers; `None` when the text is not such a list.
pub open spec fn terms_from(t: Seq<char>, i: int) -> Option<nat>
    decreases t.len() - i,
{
    if i < 0 || i >= t.len() {
        Some(0)
    } else {
        let j = skip_ascii_ws(t, i);
        let k = digits_end(t, j);
        if k == j || !(i <= j <= k <= t.len()) {
            None
        } else {
            let m = skip_ascii_ws(t, k);
            match unit_at(t, m) {
                None => None,
                Some((multiplier, length)) => if m + length > i && m <= t.len() {
                    match terms_from(t, m + length) {
                        Some(rest) => Some(digits_value(t, j, k) * multiplier + rest),
                        None => None,
                    }
                } else {
                    None
                },
            }
        }
    }
}

/// A shell timeout such as `90`, `30s`, `1m 30s` or `2h` in milliseconds: `None`
/// for anything else, and when the total does not fit in a `u64`.
pub open spec fn spec_parse_timeout_ms(value: Seq<char>) -> Option<u64> {
    let t = trim(value);
    if t.len() == 0 {
        None
    } else {
        match terms_from(t, 0) {
            Some(total) => if total <= u64::MAX {
                Some(total as u64)
            } else {
                None
            },
            None => None,
        }
    }
}

proof fn lemma_digits_value_monotone(t: Seq<char>, j: int, k1: int, k2: int)
    requires
        j <= k1 <= k2,
        forall|x: int| j <= x < k2 ==> is_ascii_digit(#[trigger] t[x]),
    ensures
        digits_value(t, j, k1) <= digits_value(t, j, k2),
    decreases k2 - k1,
{
    if k1 < k2 {
        lemma_digits_value_monotone(t, j, k1, k2 - 1);
    }
}

proof fn lemma_digits_end_all_digits(t: Seq<char>, i: int, x: int)
    requires
        0 <= i <= x < digits_end(t, i),
    ensures
        is_ascii_digit(t[x]),
    decreases t.len() - i,
{
    if i < x {
        lemma_digits_end_all_digits(t, i + 1, x);
    }
}

pub open spec fn add_opt(o: Option<nat>, a: nat) -> Option<nat> {
    match o {
        Some(v) => Some(v + a),
        None => None,
    }
}

/// The multiplier and length of the unit at `m` (see `unit_at`).
fn unit_at_exec(t: &[char], m: usize) -> (r: Option<(u64, usize)>)
    requires
        m <= t@.len(),
    ensures
        r is Some <==> unit_at(t@, m as int) is Some,
        r matches Some(u) ==> unit_at(t@, m as int) == Some((u.0 as nat, u.1 as int)),
{
    let n = t.len();
    if m < n && n - m >= 2 && t[m] == 'm' && t[m + 1] == 's' {
        Some((1, 2))
    } else if m < n && t[m] == 's' {
        Some((1_000, 1))
    } else if m < n && t[m] == 'm' {
        Some((60_000, 1))
    } else if m < n && t[m] == 'h' {
        Some((3_600_000, 1))
    } else if m < n && t[m] == 'd' {
        Some((86_400_000, 1))
    } else if m == n {
        Some((1, 0))
    } else {
        None
    }
}

/// Parses a shell timeout (`90`, `30s`, `1m 30s`, `2h`, …) into milliseconds.
pub fn parse_timeout_ms(value: &str) -> (r: Option<u64>)
    ensures
        r == spec_parse_timeout_ms(value@),
{
    let cs = chars_of(value);
    let t = trim_chars(cs.as_slice());
    let n = t.len();
    if n == 0 {
        return None;
    }
    let ghost tv = t@;
    let mut index: usize = 0;
    let mut total: u64 = 0;
    while index < n
        invariant
            tv == t@,
            tv == trim(value@),
            n == tv.len(),
            index <= n,
            terms_from(tv, 0) == add_opt(terms_from(tv, index as int), total as nat),
        decreases n - index,
    {
        let ghost start = index as int;
        while index < n && char_is_ascii_white_space(t[index])
            invariant
                tv == t@,
                tv == trim(value@),
                n == tv.len(),
                start <= index <= n,
                start < n,
                terms_from(tv, 0) == add_opt(terms_from(tv, start), total as nat),
                skip_ascii_ws(tv, index as int) == skip_ascii_ws(tv, start),
            decreases n - index,
        {
            index += 1;
        }
        let number_start = index;
        proof {
            lemma_skip_bounds(tv, number_start as int);
        }
        let mut number: u64 = 0;
        let mut overflow = false;
        while index < n && (t[index] as u32) >= 48 && (t[index] as u32) <= 57
            invariant
                tv == t@,
                tv == trim(value@),
                n == tv.len(),
                number_start <= index <= n,
                0 <= start <= number_start,
                start < n,
                skip_ascii_ws(tv, start) == number_start,
                terms_from(tv, 0) == add_opt(terms_from(tv, start), total as nat),
                number_start <= digits_end(tv, number_start as int) <= n,
                digits_end(tv, index as int) == digits_end(tv, number_start as int),
                forall|x: int| number_start <= x < index ==> is_ascii_digit(#[trigger] tv[x]),
                !overflow ==> number == digits_value(tv, number_start as int, index as int),
                overflow ==> digits_value(tv, number_start as int, index as int) > u64::MAX,
            decreases n - index,
        {
            let digit = (t[index] as u32 - 48) as u64;
            if !overflow {
                if number > (u64::MAX - digit) / 10 {
                    overflow = true;
                } else {
                    number = number * 10 + digit;
                }
            } else {
                proof {
                    lemma_digits_value_monotone(tv, number_start as int, index as int, index + 1);
                }
            }
            index += 1;
        }
        let ghost j = number_start as int;
        let ghost k = index as int;
        assert(skip_ascii_ws(tv, start) == j);
        assert(digits_end(tv, j) == k);
        if number_start == index {
            return None;
        }
        if overflow {
            proof {
                let m = skip_ascii_ws(tv, k);
                lemma_skip_bounds(tv, k);
                match unit_at(tv, m) {
                    Some((multiplier, length)) => {
                        match terms_from(tv, m + length) {
                            Some(rest) => {
                                assert(digits_value(tv, j, k) * multiplier >= digits_value(tv, j, k)) by (nonlinear_arith)
                                    requires multiplier >= 1;
                            },
                            None => {},
                        }
                    },
                    None => {},
                }
            }
            return None;
        }
        while index < n && char_is_ascii_white_space(t[index])
            invariant
                tv == t@,
                tv == trim(value@),
                n == tv.len(),
                k <= index <= n,
                0 <= start <= j <= k,
                start < n,
                skip_ascii_ws(tv, start) == j,
                digits_end(tv, j) == k,
                j < k,
                number == digits_value(tv, j, k),
                terms_from(tv, 0) == add_opt(terms_from(tv, start), total as nat),
                skip_ascii_ws(tv, index as int) == skip_ascii_ws(tv, k),
            decreases n - index,
        {
            index += 1;
        }
        let ghost m = index as int;
        assert(skip_ascii_ws(tv, k) == m);
        let (multiplier, unit_length) = match unit_at_exec(t.as_slice(), index) {
            Some(u) => u,
            None => {
                return None;
            },
        };
        proof {
            lemma_skip_bounds(tv, k);
        }
        let term = match number.checked_mul(multiplier) {
            Some(v) => v,
            None => {
                return None;
            },
        };
        total = match total.checked_add(term) {
            Some(v) => v,
            None => {
                return None;
            },
        };
        index += unit_length;
    }
    Some(total)
}

/// A signed number as `Display` writes it.
pub open spec fn signed_decimal(v: int) -> Seq<char> {
    if v < 0 {
        seq!['-'] + decimal((-v) as nat)
    } else {
        decimal(v as nat)
    }
}

/// `d` with a comma before every character that starts a group of three counted
/// from the right (the first character never gets one).
pub open spec fn commas_from(d: Seq<char>, i: int) -> Seq<char>
    decreases d.len() - i,
{
    if i < 0 || i >= d.len() {
        Seq::empty()
    } else {
        (if i > 0 && (d.len() - i) % 3 == 0 {
            seq![',']
        } else {
            Seq::<char>::empty()
        }) + seq![d[i]] + commas_from(d, i + 1)
    }
}

/// A count with thousands separators: `1234567` becomes `1,234,567`.
pub open spec fn spec_format_count(v: int) -> Seq<char> {
    commas_from(signed_decimal(v), 0)
}

/// Formats a count with comma thousands separators.
pub fn format_count(value: i64) -> (r: String)
    ensures
        r@ == spec_format_count(value as int),
{
    let mut digits = String::new();
    if value < 0 {
        push_char(&mut digits, '-');
        let magnitude = (-(value as i128)) as u64;
        push_decimal(&mut digits, magnitude);
    } else {
        push_decimal(&mut digits, value as u64);
    }
    assert(digits@ == signed_decimal(value as int));
    let d = chars_of(digits.as_str());
    let n = d.len();
    let mut r = String::new();
    let mut i: usize = 0;
    while i < n
        invariant
            n == d@.len(),
            i <= n,
            r@ + commas_from(d@, i as int) == commas_from(d@, 0),
        decreases n - i,
    {
        let ghost before = r@;
        if i > 0 && (n - i) % 3 == 0 {
            push_char(&mut r, ',');
        }
        push_char(&mut r, d[i]);
        proof {
            let sep = if i > 0 && (n - i) % 3 == 0 {
                seq![',']
            } else {
                Seq::<char>::empty()
            };
            assert(r@ == before + sep + seq![d@[i as int]]);
            assert(commas_from(d@, i as int) == sep + seq![d@[i as int]] + commas_from(d@, i + 1));
            assert(before + (sep + seq![d@[i as int]] + commas_from(d@, i + 1)) == r@ + commas_from(d@, i + 1));
        }
        i += 1;
    }
    assert(r@ + commas_from(d@, n as int) == r@);
    r
}

/// The whitespace-separated words of `s`.
pub open spec fn words(s: Seq<char>) -> Seq<Seq<char>>
    decreases s.len(),
{
    if s.len() == 0 {
        Seq::empty()
    } else {
        let w = words(s.drop_last());
        let c = s.last();
        if is_white_space(c) {
            w
        } else if s.len() > 1 && !is_white_space(s[s.len() - 2]) && w.len() > 0 {
            w.update(w.len() - 1, w.last().push(c))
        } else {
            w.push(seq![c])
        }
    }
}

/// `text` with every whitespace run collapsed to one space and none at either end
/// (`split_whitespace` joined by spaces).
pub open spec fn spec_collapsed_whitespace(text: Seq<char>) -> Seq<char> {
    join_spaced(words(text))
}

proof fn lemma_join_extend_last(w: Seq<Seq<char>>, c: char)
    requires
        w.len() > 0,
    ensures
        join_spaced(w.update(w.len() - 1, w.last().push(c))) == join_spaced(w).push(c),
{
    let u = w.update(w.len() - 1, w.last().push(c));
    if w.len() == 1 {
        assert(u[0] == w[0].push(c));
    } else {
        assert(u.drop_last() == w.drop_last());
        assert(join_spaced(w.drop_last()) + seq![' '] + w.last().push(c) == (join_spaced(
            w.drop_last(),
        ) + seq![' '] + w.last()).push(c));
    }
}

/// Collapses whitespace runs to single spaces and trims the ends.
pub fn collapsed_whitespace(text: &str) -> (r: String)
    ensures
        r@ == spec_collapsed_whitespace(text@),
{
    let cs = chars_of(text);
    let n = cs.len();
    let mut r = String::new();
    let mut in_word = false;
    let mut wrote_any = false;
    let mut i: usize = 0;
    while i < n
        invariant
            n == cs@.len(),
            i <= n,
            r@ == join_spaced(words(cs@.take(i as int))),
            in_word == (i > 0 && !is_white_space(cs@[i - 1])),
            in_word ==> words(cs@.take(i as int)).len() > 0,
            wrote_any == (words(cs@.take(i as int)).len() > 0),
        decreases n - i,
    {
        let c = cs[i];
        let ghost prefix = cs@.take(i as int);
        let ghost next = cs@.take(i + 1);
        assert(next.drop_last() == prefix);
        assert(next.last() == c);
        if char_is_white_space(c) {
            in_word = false;
        } else {
            if in_word {
                proof {
                    assert(next[next.len() - 2] == cs@[i - 1]);
                    lemma_join_extend_last(words(prefix), c);
                }
                push_char(&mut r, c);
            } else {
                proof {
                    if i > 0 {
                        assert(next[next.len() - 2] == cs@[i - 1]);
                    }
                    lemma_join_push(words(prefix), seq![c]);
                }
                if wrote_any {
                    push_char(&mut r, ' ');
                }
                push_char(&mut r, c);
                assert(r@ == join_spaced(words(next)));
            }
            in_word = true;
            wrote_any = true;
        }
        i += 1;
    }
    assert(cs@.take(n as int) == cs@);
    r
}

/// The status names a finished todo may carry.
pub open spec fn is_finished_status_name(s: Seq<char>) -> bool {
    ||| s == seq!['c', 'o', 'm', 'p', 'l', 'e', 't', 'e', 'd']
    ||| s == seq!['c', 'o', 'm', 'p', 'l', 'e', 't', 'e']
    ||| s == seq!['d', 'o', 'n', 'e']
    ||| s == seq!['c', 'a', 'n', 'c', 'e', 'l', 'l', 'e', 'd']
    ||| s == seq!['c', 'a', 'n', 'c', 'e', 'l', 'e', 'd']
}

/// The status names the todo block shows as in progress.
pub open spec fn is_in_progress_status_name(s: Seq<char>) -> bool {
    ||| s == seq!['i', 'n', '_', 'p', 'r', 'o', 'g', 'r', 'e', 's', 's']
    ||| s == seq!['i', 'n', '-', 'p', 'r', 'o', 'g', 'r', 'e', 's', 's']
    ||| s == seq!['i', 'n', ' ', 'p', 'r', 'o', 'g', 'r', 'e', 's', 's']
    ||| s == seq!['w', 'o', 'r', 'k', 'i', 'n', 'g']
}

/// A status, trimmed and ASCII-lowered, with `-` and spaces read as `_`.
pub open spec fn normalized_status(s: Seq<char>) -> Seq<char> {
    ascii_lower_seq(trim(s)).map_values(|c: char| if c == '-' || c == ' ' {
        '_'
    } else {
        c
    })
}

/// The status names that pick the spinner's verb from a todo.
pub open spec fn is_active_status_name(s: Seq<char>) -> bool {
    ||| s == seq!['i', 'n', '_', 'p', 'r', 'o', 'g', 'r', 'e', 's', 's']
    ||| s == seq!['i', 'n', 'p', 'r', 'o', 'g', 'r', 'e', 's', 's']
    ||| s == seq!['a', 'c', 't', 'i', 'v', 'e']
    ||| s == seq!['d', 'o', 'i', 'n', 'g']
}

fn lowered_trimmed(status: &str) -> (r: Vec<char>)
    ensures
        r@ == ascii_lower_seq(trim(status@)),
{
    let cs = chars_of(status);
    let t = trim_chars(cs.as_slice());
    ascii_lower_chars(t.as_slice())
}

/// A todo status that counts as finished (completed, done or cancelled).
pub fn todo_status_is_finished(status: &str) -> (b: bool)
    ensures
        b == is_finished_status_name(ascii_lower_seq(trim(status@))),
{
    let s = lowered_trimmed(status);
    let completed = vec!['c', 'o', 'm', 'p', 'l', 'e', 't', 'e', 'd'];
    let complete = vec!['c', 'o', 'm', 'p', 'l', 'e', 't', 'e'];
    let done = vec!['d', 'o', 'n', 'e'];
    let cancelled = vec!['c', 'a', 'n', 'c', 'e', 'l', 'l', 'e', 'd'];
    let canceled = vec!['c', 'a', 'n', 'c', 'e', 'l', 'e', 'd'];
    chars_equal(s.as_slice(), completed.as_slice()) || chars_equal(s.as_slice(), complete.as_slice())
        || chars_equal(s.as_slice(), done.as_slice()) || chars_equal(
        s.as_slice(),
        cancelled.as_slice(),
    ) || chars_equal(s.as_slice(), canceled.as_slice())
}

/// A todo status that the todo block marks as in progress.
pub fn todo_status_is_in_progress(status: &str) -> (b: bool)
    ensures
        b == is_in_progress_status_name(ascii_lower_seq(trim(status@))),
{
    let s = lowered_trimmed(status);
    let a = vec!['i', 'n', '_', 'p', 'r', 'o', 'g', 'r', 'e', 's', 's'];
    let b = vec!['i', 'n', '-', 'p', 'r', 'o', 'g', 'r', 'e', 's', 's'];
    let c = vec!['i', 'n', ' ', 'p', 'r', 'o', 'g', 'r', 'e', 's', 's'];
    let d = vec!['w', 'o', 'r', 'k', 'i', 'n', 'g'];
    chars_equal(s.as_slice(), a.as_slice()) || chars_equal(s.as_slice(), b.as_slice())
        || chars_equal(s.as_slice(), c.as_slice()) || chars_equal(s.as_slice(), d.as_slice())
}

/// A todo status whose todo supplies the spinner's verb.
pub fn is_in_progress_todo_status(status: &str) -> (b: bool)
    ensures
        b == is_active_status_name(normalized_status(status@)),
{
    let s = lowered_trimmed(status);
    let mut u: Vec<char> = Vec::new();
    let mut i: usize = 0;
    while i < s.len()
        invariant
            i <= s@.len(),
            u@ == s@.take(i as int).map_values(|c: char| if c == '-' || c == ' ' {
                '_'
            } else {
                c
            }),
        decreases s@.len() - i,
    {
        let c = s[i];
        u.push(if c == '-' || c == ' ' {
            '_'
        } else {
            c
        });
        i += 1;
        assert(s@.take(i as int).drop_last() == s@.take(i - 1));
    }
    assert(s@.take(s@.len() as int) == s@);
    let a = vec!['i', 'n', '_', 'p', 'r', 'o', 'g', 'r', 'e', 's', 's'];
    let b = vec!['i', 'n', 'p', 'r', 'o', 'g', 'r', 'e', 's', 's'];
    let c = vec!['a', 'c', 't', 'i', 'v', 'e'];
    let d = vec!['d', 'o', 'i', 'n', 'g'];
    chars_equal(u.as_slice(), a.as_slice()) || chars_equal(u.as_slice(), b.as_slice())
        || chars_equal(u.as_slice(), c.as_slice()) || chars_equal(u.as_slice(), d.as_slice())
}

/// The milliseconds in one unit of a duration part (`d`, `h`, `m`, else seconds).
pub open spec fn unit_ms(u: char) -> nat {
    if u == 'd' {
        86_400_000
    } else if u == 'h' {
        3_600_000
    } else if u == 'm' {
        60_000
    } else {
        1000
    }
}

pub open spec fn is_duration_unit(u: char) -> bool {
    u == 'd' || u == 'h' || u == 'm' || u == 's'
}

/// The parts of a formatted timeout as numbers with their unit letters.
pub open spec fn timeout_values(total_seconds: nat) -> Seq<(nat, char)> {
    let days = total_seconds / 86_400;
    let hours = (total_seconds % 86_400) / 3_600;
    let minutes = (total_seconds % 3_600) / 60;
    let seconds = total_seconds % 60;
    let p1 = if days > 0 {
        seq![(days, 'd')]
    } else {
        Seq::empty()
    };
    let p2 = if hours > 0 {
        p1.push((hours, 'h'))
    } else {
        p1
    };
    let p3 = if minutes > 0 {
        p2.push((minutes, 'm'))
    } else {
        p2
    };
    if seconds > 0 || p3.len() == 0 {
        p3.push((seconds, 's'))
    } else {
        p3
    }
}

pub open spec fn rendered(ps: Seq<(nat, char)>) -> Seq<Seq<char>> {
    ps.map_values(|p: (nat, char)| with_unit(p.0, p.1))
}

/// The milliseconds the parts add up to.
pub open spec fn parts_total(ps: Seq<(nat, char)>) -> nat
    decreases ps.len(),
{
    if ps.len() == 0 {
        0
    } else {
        parts_total(ps.drop_last()) + ps.last().0 * unit_ms(ps.last().1)
    }
}

proof fn lemma_parts_total_front(ps: Seq<(nat, char)>)
    requires
        ps.len() > 0,
    ensures
        parts_total(ps) == ps[0].0 * unit_ms(ps[0].1) + parts_total(ps.drop_first()),
    decreases ps.len(),
{
    if ps.len() > 1 {
        lemma_parts_total_front(ps.drop_last());
        assert(ps.drop_last()[0] == ps[0]);
        assert(ps.drop_last().drop_first() == ps.drop_first().drop_last());
        assert(ps.drop_first().last() == ps.last());
        assert(parts_total(ps.drop_first()) == parts_total(ps.drop_first().drop_last())
            + ps.drop_first().last().0 * unit_ms(ps.drop_first().last().1));
    } else {
        assert(ps.drop_first().len() == 0);
        assert(ps.drop_last().len() == 0);
        assert(parts_total(ps.drop_first()) == 0);
        assert(parts_total(ps.drop_last()) == 0);
        assert(ps.last() == ps[0]);
    }
}

proof fn lemma_timeout_values(total: nat)
    ensures
        rendered(timeout_values(total)) == timeout_parts(total),
        timeout_values(total).len() > 0,
        forall|k: int|
            0 <= k < timeout_values(total).len() ==> is_duration_unit(
                #[trigger] timeout_values(total)[k].1,
            ),
        parts_total(timeout_values(total)) == (total / 86_400) * 86_400_000 + ((total % 86_400)
            / 3_600) * 3_600_000 + ((total % 3_600) / 60) * 60_000 + (total % 60) * 1000,
{
    let days = total / 86_400;
    let hours = (total % 86_400) / 3_600;
    let minutes = (total % 3_600) / 60;
    let seconds = total % 60;
    let p1: Seq<(nat, char)> = if days > 0 {
        seq![(days, 'd')]
    } else {
        Seq::empty()
    };
    let p2 = if hours > 0 {
        p1.push((hours, 'h'))
    } else {
        p1
    };
    let p3 = if minutes > 0 {
        p2.push((minutes, 'm'))
    } else {
        p2
    };
    let p4 = if seconds > 0 || p3.len() == 0 {
        p3.push((seconds, 's'))
    } else {
        p3
    };
    assert(p4 == timeout_values(total));
    assert(parts_total(Seq::<(nat, char)>::empty()) == 0);
    if days > 0 {
        assert(seq![(days, 'd')].drop_last() =~= Seq::<(nat, char)>::empty());
    }
    assert(parts_total(p1) == days * 86_400_000);
    if hours > 0 {
        assert(p1.push((hours, 'h')).drop_last() == p1);
    }
    assert(parts_total(p2) == days * 86_400_000 + hours * 3_600_000);
    if minutes > 0 {
        assert(p2.push((minutes, 'm')).drop_last() == p2);
    }
    assert(parts_total(p3) == days * 86_400_000 + hours * 3_600_000 + minutes * 60_000);
    if seconds > 0 || p3.len() == 0 {
        assert(p3.push((seconds, 's')).drop_last() == p3);
    }
    assert(parts_total(p4) == days * 86_400_000 + hours * 3_600_000 + minutes * 60_000 + seconds
        * 1000);
    assert(rendered(p4) =~= timeout_parts(total));
}

proof fn lemma_seconds_split(total: nat)
    ensures
        (total / 86_400) * 86_400_000 + ((total % 86_400) / 3_600) * 3_600_000 + ((total % 3_600)
            / 60) * 60_000 + (total % 60) * 1000 == total * 1000,
{
    let d = total / 86_400;
    let r1 = total % 86_400;
    let h = r1 / 3_600;
    let r2 = r1 % 3_600;
    let m = r2 / 60;
    let r3 = r2 % 60;
    vstd::arithmetic::div_mod::lemma_fundamental_div_mod(total as int, 86_400);
    vstd::arithmetic::div_mod::lemma_fundamental_div_mod(r1 as int, 3_600);
    vstd::arithmetic::div_mod::lemma_fundamental_div_mod(r2 as int, 60);
    assert(total == 3_600 * (24 * d + h) + r2) by (nonlinear_arith)
        requires total == 86_400 * d + r1, r1 == 3_600 * h + r2;
    vstd::arithmetic::div_mod::lemma_fundamental_div_mod_converse(
        total as int,
        3_600,
        (24 * d + h) as int,
        r2 as int,
    );
    assert(total == 60 * (1_440 * d + 60 * h + m) + r3) by (nonlinear_arith)
        requires total == 3_600 * (24 * d + h) + r2, r2 == 60 * m + r3;
    vstd::arithmetic::div_mod::lemma_fundamental_div_mod_converse(
        total as int,
        60,
        (1_440 * d + 60 * h + m) as int,
        r3 as int,
    );
    assert(d * 86_400_000 + h * 3_600_000 + m * 60_000 + r3 * 1000 == total * 1000) by (nonlinear_arith)
        requires total == 86_400 * d + r1, r1 == 3_600 * h + r2, r2 == 60 * m + r3;
}

proof fn lemma_join_front(xs: Seq<Seq<char>>)
    requires
        xs.len() >= 2,
    ensures
        join_spaced(xs) == xs[0] + seq![' '] + join_spaced(xs.drop_first()),
    decreases xs.len(),
{
    if xs.len() == 2 {
        assert(xs.drop_last() =~= seq![xs[0]]);
        assert(xs.drop_first() =~= seq![xs[1]]);
        assert(join_spaced(xs.drop_last()) == xs[0]);
        assert(join_spaced(xs.drop_first()) == xs[1]);
        assert(xs.last() == xs[1]);
    } else {
        lemma_join_front(xs.drop_last());
        assert(xs.drop_last().drop_first() =~= xs.drop_first().drop_last());
        assert(xs.drop_first().last() == xs.last());
        assert(xs.drop_last()[0] == xs[0]);
        assert(join_spaced(xs.drop_first()) == join_spaced(xs.drop_first().drop_last()) + seq![' ']
            + xs.drop_first().last());
        assert(xs[0] + seq![' '] + join_spaced(xs.drop_last().drop_first()) + seq![' '] + xs.last()
            =~= xs[0] + seq![' '] + (join_spaced(xs.drop_first().drop_last()) + seq![' ']
            + xs.drop_first().last()));
    }
}

proof fn lemma_digit_char_value(d: int)
    requires
        0 <= d < 10,
    ensures
        digit_char(d) as u32 == 48 + d,
{
}

proof fn lemma_decimal_digits(v: nat)
    ensures
        decimal(v).len() >= 1,
        forall|x: int| 0 <= x < decimal(v).len() ==> is_ascii_digit(#[trigger] decimal(v)[x]),
    decreases v,
{
    if v < 10 {
        lemma_digit_char_value(v as int);
    } else {
        lemma_decimal_digits(v / 10);
        lemma_digit_char_value((v % 10) as int);
        assert forall|x: int| 0 <= x < decimal(v).len() implies is_ascii_digit(
            #[trigger] decimal(v)[x],
        ) by {
            if x < decimal(v / 10).len() {
                assert(decimal(v)[x] == decimal(v / 10)[x]);
            }
        }
    }
}

proof fn lemma_digits_value_of(t: Seq<char>, j: int, v: nat)
    requires
        0 <= j,
        j + decimal(v).len() <= t.len(),
        t.subrange(j, j + decimal(v).len()) == decimal(v),
    ensures
        digits_value(t, j, j + decimal(v).len()) == v,
    decreases v,
{
    let len = decimal(v).len() as int;
    if v < 10 {
        assert(t[j] == t.subrange(j, j + len)[0]);
        lemma_digit_char_value(v as int);
        assert(digits_value(t, j, j) == 0);
    } else {
        lemma_decimal_digits(v / 10);
        let shorter = decimal(v / 10).len() as int;
        assert(shorter == len - 1);
        assert(t.subrange(j, j + shorter) =~= t.subrange(j, j + len).subrange(0, shorter));
        assert(t.subrange(j, j + len).subrange(0, shorter) =~= decimal(v / 10));
        lemma_digits_value_of(t, j, v / 10);
        assert(t[j + len - 1] == t.subrange(j, j + len)[len - 1]);
        lemma_digit_char_value((v % 10) as int);
        assert(v == (v / 10) * 10 + v % 10);
    }
}

proof fn lemma_digits_end_at(t: Seq<char>, i: int, e: int)
    requires
        0 <= i <= e < t.len(),
        forall|x: int| i <= x < e ==> is_ascii_digit(#[trigger] t[x]),
        !is_ascii_digit(t[e]),
    ensures
        digits_end(t, i) == e,
    decreases e - i,
{
    if i < e {
        lemma_digits_end_at(t, i + 1, e);
    }
}

proof fn lemma_terms_skip_space(t: Seq<char>, p: int)
    requires
        0 <= p,
        p + 1 < t.len(),
        is_ascii_white_space(t[p]),
        is_ascii_digit(t[p + 1]),
    ensures
        terms_from(t, p) == terms_from(t, p + 1),
{
    assert(skip_ascii_ws(t, p + 1) == p + 1);
    assert(skip_ascii_ws(t, p) == p + 1);
    lemma_skip_bounds(t, p + 2);
    assert(digits_end(t, p + 1) == digits_end(t, p + 2));
    let k = digits_end(t, p + 1);
    lemma_skip_bounds(t, k);
}

/// Parsing the text of duration parts joined with single spaces gives their total.
proof fn lemma_terms_of_parts(t: Seq<char>, i: int, ps: Seq<(nat, char)>)
    requires
        ps.len() >= 1,
        forall|k: int| 0 <= k < ps.len() ==> is_duration_unit(#[trigger] ps[k].1),
        0 <= i <= t.len(),
        t.subrange(i, t.len() as int) == join_spaced(rendered(ps)),
    ensures
        terms_from(t, i) == Some(parts_total(ps)),
    decreases ps.len(),
{
    let v = ps[0].0;
    let u = ps[0].1;
    assert(is_duration_unit(ps[0].1));
    let x = with_unit(v, u);
    lemma_decimal_digits(v);
    let len = decimal(v).len() as int;
    let tail = t.subrange(i, t.len() as int);
    assert(rendered(ps)[0] == x);
    lemma_parts_total_front(ps);
    if ps.len() == 1 {
        assert(rendered(ps) =~= seq![x]);
        assert(tail == x);
    } else {
        lemma_join_front(rendered(ps));
        assert(rendered(ps).drop_first() =~= rendered(ps.drop_first()));
        assert(tail == x + seq![' '] + join_spaced(rendered(ps.drop_first())));
        assert(t.subrange(i + len + 2, t.len() as int) =~= tail.subrange(len + 2, tail.len() as int));
        assert(tail.subrange(len + 2, tail.len() as int) =~= join_spaced(rendered(ps.drop_first())));
        assert forall|k: int| 0 <= k < ps.drop_first().len() implies is_duration_unit(
            #[trigger] ps.drop_first()[k].1,
        ) by {
            assert(ps.drop_first()[k] == ps[k + 1]);
        }
        lemma_terms_of_parts(t, i + len + 2, ps.drop_first());
        assert(t[i + len + 1] == tail[len + 1]);
        assert(tail[len + 1] == ' ');
        lemma_decimal_digits(ps.drop_first()[0].0);
        assert(rendered(ps.drop_first())[0] == with_unit(ps.drop_first()[0].0, ps.drop_first()[0].1));
        if ps.drop_first().len() >= 2 {
            lemma_join_front(rendered(ps.drop_first()));
        } else {
            assert(rendered(ps.drop_first()) =~= seq![rendered(ps.drop_first())[0]]);
        }
        assert(t[i + len + 2] == join_spaced(rendered(ps.drop_first()))[0]);
        lemma_terms_skip_space(t, i + len + 1);
    }
    assert forall|y: int| i <= y < i + len implies is_ascii_digit(#[trigger] t[y]) by {
        assert(t[y] == tail[y - i]);
        assert(tail[y - i] == decimal(v)[y - i]);
    }
    assert(t[i + len] == tail[len]);
    assert(tail[len] == u);
    lemma_digits_end_at(t, i, i + len);
    assert(t.subrange(i, i + len) =~= tail.subrange(0, len));
    assert(tail.subrange(0, len) =~= decimal(v));
    lemma_digits_value_of(t, i, v);
    assert(skip_ascii_ws(t, i) == i);
    assert(skip_ascii_ws(t, i + len) == i + len);
    if ps.len() == 1 {
        assert(i + len + 1 == t.len());
    } else {
        assert(t[i + len + 1] == ' ');
    }
    assert(unit_at(t, i + len) == Some((unit_ms(u), 1int)));
}

proof fn lemma_trim_unchanged(s: Seq<char>)
    requires
        s.len() > 0,
        !is_white_space(s[0]),
        !is_white_space(s.last()),
    ensures
        trim(s) == s,
{
}

/// A formatted timeout parses back to its whole seconds, in milliseconds.
pub proof fn law_formatted_timeouts_parse_back(ms: u64)
    ensures
        ceil_seconds(ms as nat) * 1000 <= u64::MAX,
        spec_parse_timeout_ms(spec_format_timeout(ms as nat)) == Some(
            (ceil_seconds(ms as nat) * 1000) as u64,
        ),
{
    let total = ceil_seconds(ms as nat);
    assert(total * 1000 <= u64::MAX);
    let ps = timeout_values(total);
    lemma_timeout_values(total);
    lemma_seconds_split(total);
    let text = spec_format_timeout(ms as nat);
    assert(text == join_spaced(rendered(ps)));
    assert(text.subrange(0, text.len() as int) =~= text);
    lemma_terms_of_parts(text, 0, ps);
    let xs = rendered(ps);
    assert(xs[0] == with_unit(ps[0].0, ps[0].1));
    lemma_decimal_digits(ps[0].0);
    assert(xs.last() == with_unit(ps.last().0, ps.last().1));
    assert(is_duration_unit(ps[ps.len() - 1].1));
    if xs.len() >= 2 {
        lemma_join_front(xs);
        assert(text.last() == join_spaced(xs.drop_last()).push(' ').add(xs.last()).last());
    } else {
        assert(xs =~= seq![xs[0]]);
    }
    assert(text[0] == xs[0][0]);
    assert(text.last() == xs.last().last());
    lemma_trim_unchanged(text);
}

/// A shell timeout argument: text, a number (as `as_u64` reads it), or anything
/// else.
pub enum TimeoutValue {
    Text(String),
    Number(Option<u64>),
    Other,
}

/// How a text timeout is shown: in the timeout format when it parses, else trimmed
/// when not blank.
pub open spec fn spec_normalize_timeout_text(s: Seq<char>) -> Option<Seq<char>> {
    match spec_parse_timeout_ms(s) {
        Some(ms) => Some(spec_format_timeout(ms as nat)),
        None => if trim(s).len() > 0 {
            Some(trim(s))
        } else {
            None
        },
    }
}

/// How a timeout argument is shown: a parseable text or a whole number in the
/// timeout format, other non-blank text trimmed, and nothing otherwise.
pub open spec fn spec_normalize_timeout(value: TimeoutValue) -> Option<Seq<char>> {
    match value {
        TimeoutValue::Text(s) => spec_normalize_timeout_text(s@),
        TimeoutValue::Number(Some(ms)) => Some(spec_format_timeout(ms as nat)),
        TimeoutValue::Number(None) => None,
        TimeoutValue::Other => None,
    }
}

/// The timeout shown on a shell tool's progress row.
pub fn normalize_timeout_value(value: &TimeoutValue) -> (r: Option<String>)
    ensures
        r.deep_view() == spec_normalize_timeout(*value),
{
    match value {
        TimeoutValue::Text(s) => match parse_timeout_ms(s.as_str()) {
            Some(ms) => Some(format_timeout(ms)),
            None => {
                let trimmed = trim_chars(chars_of(s.as_str()).as_slice());
                if trimmed.len() > 0 {
                    Some(crate::text::string_from_chars(trimmed.as_slice()))
                } else {
                    None
                }
            },
        },
        TimeoutValue::Number(Some(ms)) => Some(format_timeout(*ms)),
        TimeoutValue::Number(None) => None,
        TimeoutValue::Other => None,
    }
}

/// The value of the first field called `key`, if any.
pub open spec fn field_value(fields: Seq<(String, TimeoutValue)>, key: Seq<char>) -> Option<TimeoutValue>
    decreases fields.len(),
{
    if fields.len() == 0 {
        None
    } else if fields[0].0@ == key {
        Some(fields[0].1)
    } else {
        field_value(fields.drop_first(), key)
    }
}

/// The timeout a shell tool's arguments ask for: the first of the fields
/// `timeout`, `timeout_ms` and `timeoutMs` that is present, as it is shown; nothing
/// when the arguments are not an object.
pub open spec fn spec_shell_timeout(arguments: Option<Seq<(String, TimeoutValue)>>) -> Option<Seq<char>> {
    match arguments {
        None => None,
        Some(fields) => match field_value(fields, "timeout"@) {
            Some(v) => spec_normalize_timeout(v),
            None => match field_value(fields, "timeout_ms"@) {
                Some(v) => spec_normalize_timeout(v),
                None => match field_value(fields, "timeoutMs"@) {
                    Some(v) => spec_normalize_timeout(v),
                    None => None,
                },
            },
        },
    }
}

fn find_field<'a>(fields: &'a Vec<(String, TimeoutValue)>, key: &str) -> (r: Option<&'a TimeoutValue>)
    ensures
        match r {
            Some(v) => field_value(fields@, key@) == Some(*v),
            None => field_value(fields@, key@) is None,
        },
{
    let wanted = chars_of(key);
    let mut i: usize = 0;
    assert(fields@.skip(0) =~= fields@);
    while i < fields.len()
        invariant
            i <= fields@.len(),
            wanted@ == key@,
            field_value(fields@.skip(i as int), key@) == field_value(fields@, key@),
        decreases fields@.len() - i,
    {
        assert(fields@.skip(i as int)[0] == fields@[i as int]);
        assert(fields@.skip(i as int).drop_first() =~= fields@.skip(i + 1));
        let name = chars_of(fields[i].0.as_str());
        if chars_equal(name.as_slice(), wanted.as_slice()) {
            return Some(&fields[i].1);
        }
        i += 1;
    }
    None
}

/// The timeout shown for a shell tool, from its arguments (`None` when they are not
/// an object).
pub fn shell_timeout(arguments: Option<&Vec<(String, TimeoutValue)>>) -> (r: Option<String>)
    ensures
        r.deep_view() == spec_shell_timeout(
            match arguments {
                Some(a) => Some(a@),
                None => None,
            },
        ),
{
    let fields = match arguments {
        Some(a) => a,
        None => {
            return None;
        },
    };
    match find_field(fields, "timeout") {
        Some(v) => normalize_timeout_value(v),
        None => match find_field(fields, "timeout_ms") {
            Some(v) => normalize_timeout_value(v),
            None => match find_field(fields, "timeoutMs") {
                Some(v) => normalize_timeout_value(v),
                None => None,
            },
        },
    }
}

proof fn lemma_trim_start_shape(s: Seq<char>)
    ensures
        trim_start(s).len() == 0 || !is_white_space(trim_start(s)[0]),
        trim_start(s).len() <= s.len(),
        trim_start(s) == s.skip(s.len() - trim_start(s).len()),
    decreases s.len(),
{
    if s.len() > 0 && is_white_space(s[0]) {
        lemma_trim_start_shape(s.drop_first());
        assert(trim_start(s) == trim_start(s.drop_first()));
        let k = s.len() - trim_start(s).len();
        assert(s.drop_first().skip(k - 1) =~= s.skip(k));
    } else {
        assert(s.skip(0) =~= s);
    }
}

proof fn lemma_trim_end_shape(s: Seq<char>)
    ensures
        trim_end(s).len() == 0 || !is_white_space(trim_end(s).last()),
        trim_end(s) == s.take(trim_end(s).len() as int),
        trim_end(s).len() <= s.len(),
    decreases s.len(),
{
    if s.len() > 0 && is_white_space(s.last()) {
        lemma_trim_end_shape(s.drop_last());
        assert(s.drop_last().take(trim_end(s).len() as int) =~= s.take(trim_end(s).len() as int));
    } else {
        assert(s.take(s.len() as int) =~= s);
    }
}

proof fn lemma_trim_twice(s: Seq<char>)
    ensures
        trim(trim(s)) == trim(s),
{
    let u = trim_start(s);
    let v = trim_end(u);
    lemma_trim_start_shape(s);
    lemma_trim_end_shape(u);
    if v.len() > 0 {
        assert(v[0] == u[0]);
        assert(trim_start(v) == v);
        assert(trim_end(v) == v);
    } else {
        assert(trim_start(v) == v);
        assert(trim_end(v) == v);
    }
}

proof fn lemma_ceil_of_whole_seconds(c: nat)
    requires
        c * 1000 <= u64::MAX,
    ensures
        ceil_seconds(c * 1000) == c,
{
}

/// Showing a timeout that is already shown changes nothing: normalising the text a
/// timeout argument was shown as gives that text back.
pub proof fn law_normalized_timeouts_are_stable(value: TimeoutValue)
    requires
        spec_normalize_timeout(value) is Some,
    ensures
        spec_normalize_timeout_text(spec_normalize_timeout(value)->0) == spec_normalize_timeout(
            value,
        ),
{
    let shown = spec_normalize_timeout(value)->0;
    let formatted_ms: Option<u64> = match value {
        TimeoutValue::Text(s) => spec_parse_timeout_ms(s@),
        TimeoutValue::Number(Some(ms)) => Some(ms),
        _ => None,
    };
    match formatted_ms {
        Some(ms) => {
            assert(shown == spec_format_timeout(ms as nat));
            law_formatted_timeouts_parse_back(ms);
            let c = ceil_seconds(ms as nat);
            lemma_ceil_of_whole_seconds(c);
            assert(spec_parse_timeout_ms(shown) == Some((c * 1000) as u64));
            assert(spec_format_timeout(((c * 1000) as u64) as nat) == spec_format_timeout(ms as nat));
        },
        None => {
            let s = match value {
                TimeoutValue::Text(s) => s@,
                _ => Seq::empty(),
            };
            assert(shown == trim(s));
            lemma_trim_twice(s);
            assert(spec_parse_timeout_ms(shown) == spec_parse_timeout_ms(s));
        },
    }
}

} // verus!
