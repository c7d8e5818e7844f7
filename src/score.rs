//! The record of past scores: one decimal number per line.

use vstd::prelude::*;

verus! {

pub open spec fn is_digit(c: char) -> bool {
    '0' <= c && c <= '9'
}

/// The number that the decimal digits `s` write (zero for no digits).
pub open spec fn decimal_value(s: Seq<char>) -> nat
    decreases s.len(),
{
    if s.len() == 0 {
        0
    } else {
        decimal_value(s.drop_last()) * 10 + ((s.last() as int) - ('0' as int)) as nat
    }
}

/// A line without its leading `+`, if it has one.
pub open spec fn unsigned_part(line: Seq<char>) -> Seq<char> {
    if line.len() > 0 && line[0] == '+' {
        line.drop_first()
    } else {
        line
    }
}

/// The score that one line of the record holds: an optional `+` and then
/// one or more decimal digits whose value fits in a `u64`.  `None` for any
/// other line.
pub open spec fn parse_score(line: Seq<char>) -> Option<u64> {
    let digits = unsigned_part(line);
    if digits.len() > 0 && (forall|i: int| 0 <= i < digits.len() ==> is_digit(#[trigger] digits[i]))
        && decimal_value(digits) <= u64::MAX {
        Some(decimal_value(digits) as u64)
    } else {
        None
    }
}

/// The lines of `s`, split at each `'\n'`: `k` newlines make `k + 1` lines,
/// some of them perhaps empty.
pub open spec fn lines(s: Seq<char>) -> Seq<Seq<char>>
    decreases s.len(),
{
    if s.len() == 0 {
        seq![Seq::empty()]
    } else {
        let prev = lines(s.drop_last());
        if s.last() == '\n' {
            prev.push(Seq::empty())
        } else {
            prev.update(prev.len() - 1, prev.last().push(s.last()))
        }
    }
}

/// The larger of two scores; `None` when either is not a score.
pub open spec fn larger(a: Option<u64>, b: Option<u64>) -> Option<u64> {
    match (a, b) {
        (Some(x), Some(y)) => Some(
            if x < y {
                y
            } else {
                x
            },
        ),
        _ => None,
    }
}

/// The highest score among the lines `ls`, zero for none; `None` when one
/// of them is not a score.
pub open spec fn best_of(ls: Seq<Seq<char>>) -> Option<u64>
    decreases ls.len(),
{
    if ls.len() == 0 {
        Some(0)
    } else {
        larger(best_of(ls.drop_last()), parse_score(ls.last()))
    }
}

/// The highest score that the record `text` holds: zero for an empty record.
pub open spec fn highscore(text: Seq<char>) -> Option<u64> {
    if text.len() == 0 {
        Some(0)
    } else {
        best_of(lines(text))
    }
}

/// Appending digits never makes a decimal number smaller.
proof fn lemma_decimal_grows(t: Seq<char>, u: Seq<char>)
    requires
        forall|i: int| 0 <= i < u.len() ==> is_digit(#[trigger] u[i]),
    ensures
        decimal_value(t + u) >= decimal_value(t),
    decreases u.len(),
{
    if u.len() > 0 {
        let v = u.drop_last();
        assert((t + u).drop_last() == t + v);
        assert((t + u).last() == u.last());
        lemma_decimal_grows(t, v);
    } else {
        assert(t + u == t);
    }
}

/// The score that the characters `line` write, as `parse_score` says.
fn parse_line(line: &Vec<char>) -> (r: Option<u64>)
    ensures
        r == parse_score(line@),
{
    let n = line.len();
    let mut start: usize = 0;
    if n > 0 && line[0] == '+' {
        start = 1;
    }
    let ghost digits = line@.subrange(start as int, n as int);
    assert(digits == unsigned_part(line@));
    if start == n {
        return None;
    }
    let mut value: u64 = 0;
    let mut i: usize = start;
    while i < n
        invariant
            n == line@.len(),
            start <= i <= n,
            digits == line@.subrange(start as int, n as int),
            digits == unsigned_part(line@),
            forall|j: int| start <= j < i ==> is_digit(#[trigger] line@[j]),
            value == decimal_value(line@.subrange(start as int, i as int)),
        decreases n - i,
    {
        let c = line[i];
        let ghost done = line@.subrange(start as int, i as int);
        assert(line@.subrange(start as int, i + 1) == done.push(c));
        assert(digits[i - start] == c);
        if c < '0' || c > '9' {
            assert(!is_digit(digits[i - start]));
            assert(parse_score(line@) is None);
            return None;
        }
        let d = (c as u32 - '0' as u32) as u64;
        assert(d == (c as int) - ('0' as int));
        assert(done.push(c).drop_last() == done);
        assert(decimal_value(done.push(c)) == value * 10 + d);
        if value > (u64::MAX - d) / 10 {
            proof {
                assert(forall|j: int| start <= j <= i ==> is_digit(#[trigger] line@[j]));
                let rest = line@.subrange(i + 1, n as int);
                assert(digits == done.push(c) + rest);
                if forall|j: int| 0 <= j < digits.len() ==> is_digit(#[trigger] digits[j]) {
                    assert forall|j: int| 0 <= j < rest.len() implies is_digit(#[trigger] rest[j]) by {
                        assert(rest[j] == digits[j + i + 1 - start]);
                    }
                    lemma_decimal_grows(done.push(c), rest);
                    assert(decimal_value(done.push(c)) == value * 10 + d);
                    assert(value * 10 + d > u64::MAX) by (nonlinear_arith)
                        requires
                            value > (u64::MAX - d) / 10,
                            d <= 9,
                    ;
                }
            }
            assert(parse_score(line@) is None);
            return None;
        }
        value = value * 10 + d;
        i += 1;
    }
    assert(line@.subrange(start as int, n as int) == digits);
    Some(value)
}

/// The highest score that the record `file_str` holds, zero for an empty
/// record, or `None` when a line of it is not a score.
pub fn get_highscore(file_str: &str) -> (r: Option<u64>)
    ensures
        r == highscore(file_str@),
{
    let n = file_str.unicode_len();
    if n == 0 {
        return Some(0);
    }
    let ghost s = file_str@;
    let mut best: Option<u64> = Some(0);
    let mut cur: Vec<char> = Vec::new();
    let mut i: usize = 0;
    proof {
        assert(s.take(0) == Seq::<char>::empty());
    }
    while i < n
        invariant
            n == s.len(),
            s == file_str@,
            i <= n,
            lines(s.take(i as int)).len() >= 1,
            cur@ == lines(s.take(i as int)).last(),
            best == best_of(lines(s.take(i as int)).drop_last()),
        decreases n - i,
    {
        let c = file_str.get_char(i);
        let ghost t = s.take(i as int);
        assert(s.take(i + 1).drop_last() == t);
        assert(s.take(i + 1).last() == c);
        let ghost ls = lines(t);
        if c == '\n' {
            let v = parse_line(&cur);
            assert(ls.drop_last().push(ls.last()) == ls);
            best = match (best, v) {
                (Some(x), Some(y)) => Some(
                    if x < y {
                        y
                    } else {
                        x
                    },
                ),
                _ => None,
            };
            cur = Vec::new();
            assert(lines(s.take(i + 1)).drop_last() == ls);
        } else {
            cur.push(c);
            assert(lines(s.take(i + 1)).drop_last() == ls.drop_last());
        }
        i += 1;
    }
    assert(s.take(n as int) == s);
    let v = parse_line(&cur);
    let ghost ls = lines(s);
    assert(ls.drop_last().push(ls.last()) == ls);
    match (best, v) {
        (Some(x), Some(y)) => Some(
            if x < y {
                y
            } else {
                x
            },
        ),
        _ => None,
    }
}

} // verus!
