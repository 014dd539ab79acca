//! The conditions by which a row is looked up: `column=value`, several of
//! them joined by ` AND `. A value is a whole number, or a text between
//! single quotes.

use crate::text::{chars_of, lemma_span_is, span};
use vstd::prelude::*;

verus! {

/// What a condition compares a column with.
#[derive(Debug)]
pub enum Value {
    Number(i64),
    Text(String),
}

/// A [`Value`] as contracts see it.
pub enum ValueView {
    Number(i64),
    Text(Seq<char>),
}

/// One condition: the column named holds the value.
#[derive(Debug)]
pub struct Condition {
    pub column: String,
    pub value: Value,
}

/// A [`Condition`] as contracts see it.
pub struct ConditionView {
    pub column: Seq<char>,
    pub value: ValueView,
}

impl View for Value {
    type V = ValueView;

    open spec fn view(&self) -> ValueView {
        match self {
            Value::Number(n) => ValueView::Number(*n),
            Value::Text(t) => ValueView::Text(t@),
        }
    }
}

impl View for Condition {
    type V = ConditionView;

    open spec fn view(&self) -> ConditionView {
        ConditionView { column: self.column@, value: self.value@ }
    }
}

impl DeepView for Condition {
    type V = ConditionView;

    open spec fn deep_view(&self) -> ConditionView {
        self@
    }
}

/// The predicate "the character may stand in a column's name".
pub open spec fn column_char() -> spec_fn(char) -> bool {
    |c: char| ('a' <= c <= 'z') || c == '_'
}

/// The predicate "the character is a decimal digit".
pub open spec fn digit() -> spec_fn(char) -> bool {
    |c: char| '0' <= c <= '9'
}

/// The predicate "the character is no single quote".
pub open spec fn unquoted() -> spec_fn(char) -> bool {
    |c: char| c != '\''
}

/// What joins two conditions.
pub open spec fn and_word() -> Seq<char> {
    seq![' ', 'A', 'N', 'D', ' ']
}

/// The number that a sequence of decimal digits writes.
pub open spec fn number_of(digits: Seq<char>) -> int
    decreases digits.len(),
{
    if digits.len() == 0 {
        0
    } else {
        10 * number_of(digits.drop_last()) + (digits.last() as int - '0' as int)
    }
}

/// The value that `s` starts with, and how many characters it takes: a text
/// between single quotes, which holds no single quote itself, or a run of
/// digits, after a minus sign or without, that writes a number of 64 bits.
pub open spec fn parse_value(s: Seq<char>) -> Option<(ValueView, int)> {
    if s.len() > 0 && s[0] == '\'' {
        let n = span(s.skip(1), unquoted()) as int;
        if n + 1 < s.len() {
            Some((ValueView::Text(s.subrange(1, n + 1)), n + 2))
        } else {
            None
        }
    } else {
        let sign: int = if s.len() > 0 && s[0] == '-' {
            1
        } else {
            0
        };
        let n = span(s.skip(sign), digit()) as int;
        let magnitude = number_of(s.subrange(sign, sign + n));
        let v = if sign == 1 {
            -magnitude
        } else {
            magnitude
        };
        if n > 0 && i64::MIN <= v <= i64::MAX {
            Some((ValueView::Number(v as i64), sign + n))
        } else {
            None
        }
    }
}

/// The condition that `s` starts with, and how many characters it takes: a
/// column's name, an equals sign and a value.
pub open spec fn parse_condition(s: Seq<char>) -> Option<(ConditionView, int)> {
    let n = span(s, column_char()) as int;
    if 0 < n < s.len() && s[n] == '=' {
        match parse_value(s.skip(n + 1)) {
            Some((v, m)) => Some((ConditionView { column: s.take(n), value: v }, n + 1 + m)),
            None => None,
        }
    } else {
        None
    }
}

/// The conditions that `s` is made of, if it is made of conditions joined by
/// ` AND ` and of nothing else.
pub open spec fn parse_conditions(s: Seq<char>) -> Option<Seq<ConditionView>>
    decreases s.len(),
{
    match parse_condition(s) {
        None => None,
        Some((c, n)) => if n == s.len() {
            Some(seq![c])
        } else if 0 < n && n + 5 <= s.len() && s.subrange(n, n + 5) == and_word() {
            match parse_conditions(s.skip(n + 5)) {
                Some(rest) => Some(seq![c] + rest),
                None => None,
            }
        } else {
            None
        },
    }
}

/// A number only grows with the digits that are written behind it.
proof fn lemma_number_grows(digits: Seq<char>, k: int)
    requires
        0 <= k <= digits.len(),
        forall|i: int| 0 <= i < digits.len() ==> digit()(#[trigger] digits[i]),
    ensures
        0 <= number_of(digits.take(k)) <= number_of(digits),
    decreases digits.len() - k,
{
    if k == digits.len() {
        assert(digits.take(k) =~= digits);
        lemma_number_positive(digits);
    } else {
        lemma_number_grows(digits, k + 1);
        let longer = digits.take(k + 1);
        assert(longer.drop_last() =~= digits.take(k));
    }
}

/// Digits write no negative number.
proof fn lemma_number_positive(digits: Seq<char>)
    requires
        forall|i: int| 0 <= i < digits.len() ==> digit()(#[trigger] digits[i]),
    ensures
        0 <= number_of(digits),
    decreases digits.len(),
{
    if digits.len() > 0 {
        let front = digits.drop_last();
        lemma_number_positive(front);
    }
}

/// The kinds of character that the parser reads runs of.
enum Run {
    Column,
    Digits,
    Unquoted,
}

impl Run {
    /// The predicate that the characters of a run satisfy.
    spec fn accepts(self) -> spec_fn(char) -> bool {
        match self {
            Run::Column => column_char(),
            Run::Digits => digit(),
            Run::Unquoted => unquoted(),
        }
    }

    /// Whether `c` may stand in a run of this kind.
    fn takes(&self, c: char) -> (r: bool)
        ensures
            r == self.accepts()(c),
    {
        match self {
            Run::Column => ('a' <= c && c <= 'z') || c == '_',
            Run::Digits => '0' <= c && c <= '9',
            Run::Unquoted => c != '\'',
        }
    }
}

/// The end of the longest run of one kind that starts at `from`.
fn run_end(chars: &Vec<char>, from: usize, run: Run) -> (to: usize)
    requires
        from <= chars@.len(),
    ensures
        from <= to <= chars@.len(),
        to - from == span(chars@.skip(from as int), run.accepts()),
        forall|k: int| from <= k < to ==> run.accepts()(#[trigger] chars@[k]),
{
    let mut to: usize = from;
    while to < chars.len() && run.takes(chars[to])
        invariant
            from <= to <= chars@.len(),
            forall|k: int| from <= k < to ==> run.accepts()(#[trigger] chars@[k]),
        decreases chars@.len() - to,
    {
        to += 1;
    }
    proof {
        let rest = chars@.skip(from as int);
        lemma_span_is(rest, run.accepts(), to - from);
    }
    to
}

/// The number that the digits from `from` to `to` write, with a minus sign
/// before it if `negative` says so, where it is a number of 64 bits.
fn read_number(chars: &Vec<char>, from: usize, to: usize, negative: bool) -> (r: Option<i64>)
    requires
        from <= to <= chars@.len(),
        forall|k: int| from <= k < to ==> digit()(#[trigger] chars@[k]),
    ensures
        ({
            let m = number_of(chars@.subrange(from as int, to as int));
            let v = if negative {
                -m
            } else {
                m
            };
            match r {
                Some(x) => x == v,
                None => !(i64::MIN <= v <= i64::MAX),
            }
        }),
{
    let ghost all = chars@.subrange(from as int, to as int);
    let limit: i128 = 0x8000_0000_0000_0000;
    let mut acc: i128 = 0;
    let mut k: usize = from;
    while k < to
        invariant
            from <= k <= to <= chars@.len(),
            all == chars@.subrange(from as int, to as int),
            limit == 0x8000_0000_0000_0000,
            forall|j: int| from <= j < to ==> digit()(#[trigger] chars@[j]),
            acc == number_of(chars@.subrange(from as int, k as int)),
            0 <= acc <= limit,
        decreases to - k,
    {
        let c: char = chars[k];
        let d: i128 = (c as u32 - '0' as u32) as i128;
        proof {
            let longer = chars@.subrange(from as int, k + 1);
            assert(longer.drop_last() =~= chars@.subrange(from as int, k as int));
        }
        acc = acc * 10 + d;
        k += 1;
        if acc > limit {
            proof {
                lemma_number_grows(all, k - from);
                assert(all.take(k - from) =~= chars@.subrange(from as int, k as int));
            }
            return None;
        }
    }
    if negative {
        Some((-acc) as i64)
    } else if acc == limit {
        None
    } else {
        Some(acc as i64)
    }
}

/// Reads the value that starts at `at`, and returns it with the position
/// behind it.
fn read_value(text: &str, chars: &Vec<char>, at: usize) -> (r: Option<(Value, usize)>)
    requires
        chars@ == text@,
        at <= chars@.len(),
    ensures
        match parse_value(chars@.skip(at as int)) {
            Some((v, n)) => r is Some && r->Some_0.0@ == v && r->Some_0.1 == at + n && at + n
                <= chars@.len() && n > 0,
            None => r is None,
        },
{
    let ghost s = chars@.skip(at as int);
    let n: usize = chars.len();
    if at < n && chars[at] == '\'' {
        let close: usize = run_end(chars, at + 1, Run::Unquoted);
        proof {
            assert(s.skip(1) =~= chars@.skip(at + 1));
        }
        if close < n {
            let inner: String = text.substring_char(at + 1, close).to_owned();
            proof {
                assert(s.subrange(1, close - at) =~= chars@.subrange(at + 1, close as int));
            }
            Some((Value::Text(inner), close + 1))
        } else {
            None
        }
    } else {
        let negative: bool = at < n && chars[at] == '-';
        let start: usize = if negative {
            at + 1
        } else {
            at
        };
        let end: usize = run_end(chars, start, Run::Digits);
        proof {
            assert(s.skip(start - at) =~= chars@.skip(start as int));
            assert(s.subrange(start - at, end - at) =~= chars@.subrange(start as int, end as int));
        }
        if end == start {
            return None;
        }
        match read_number(chars, start, end, negative) {
            Some(v) => Some((Value::Number(v), end)),
            None => None,
        }
    }
}

/// Reads the condition that starts at `at`, and returns it with the position
/// behind it.
fn read_condition(text: &str, chars: &Vec<char>, at: usize) -> (r: Option<(Condition, usize)>)
    requires
        chars@ == text@,
        at <= chars@.len(),
    ensures
        match parse_condition(chars@.skip(at as int)) {
            Some((c, n)) => r is Some && r->Some_0.0@ == c && r->Some_0.1 == at + n && at + n
                <= chars@.len() && n > 0,
            None => r is None,
        },
{
    let ghost s = chars@.skip(at as int);
    let n: usize = chars.len();
    let end: usize = run_end(chars, at, Run::Column);
    if end == at || end >= n {
        return None;
    }
    if chars[end] != '=' {
        return None;
    }
    proof {
        assert(s.skip(end - at + 1) =~= chars@.skip(end + 1));
        assert(s.take(end - at) =~= chars@.subrange(at as int, end as int));
    }
    match read_value(text, chars, end + 1) {
        None => None,
        Some((value, to)) => {
            let column: String = text.substring_char(at, end).to_owned();
            Some((Condition { column, value }, to))
        },
    }
}

/// Whether ` AND ` stands at `at`.
fn and_at(chars: &Vec<char>, at: usize) -> (r: bool)
    requires
        at <= chars@.len(),
    ensures
        r == (at + 5 <= chars@.len() && chars@.subrange(at as int, at + 5) == and_word()),
{
    if chars.len() - at < 5 {
        return false;
    }
    let r = chars[at] == ' ' && chars[at + 1] == 'A' && chars[at + 2] == 'N' && chars[at + 3] == 'D'
        && chars[at + 4] == ' ';
    proof {
        let w = chars@.subrange(at as int, at + 5);
        if r {
            assert(w =~= and_word());
        }
    }
    r
}

/// Reads `query` as conditions joined by ` AND `.
pub fn read_conditions(query: &str) -> (r: Option<Vec<Condition>>)
    ensures
        match parse_conditions(query@) {
            Some(conditions) => r is Some && r->Some_0.deep_view() == conditions,
            None => r is None,
        },
{
    let chars = chars_of(query);
    let n: usize = chars.len();
    let ghost whole = query@;
    let mut out: Vec<Condition> = Vec::new();
    let mut at: usize = 0;
    proof {
        assert(whole.skip(0) =~= whole);
    }
    loop
        invariant
            chars@ == query@,
            whole == query@,
            n == chars@.len(),
            at <= n,
            match parse_conditions(whole.skip(at as int)) {
                Some(rest) => parse_conditions(whole) == Some(out.deep_view() + rest),
                None => parse_conditions(whole) is None,
            },
        decreases n - at,
    {
        let ghost s = whole.skip(at as int);
        match read_condition(query, &chars, at) {
            None => {
                return None;
            },
            Some((c, to)) => {
                out.push(c);
                if to == n {
                    return Some(out);
                }
                proof {
                    if to + 5 <= n {
                        assert(s.subrange(to - at, to - at + 5) =~= chars@.subrange(
                            to as int,
                            to + 5,
                        ));
                    }
                }
                if !and_at(&chars, to) {
                    return None;
                }
                proof {
                    assert(s.skip(to - at + 5) =~= whole.skip(to + 5));
                    match parse_conditions(whole.skip(to + 5)) {
                        Some(rest) => {
                        },
                        None => {},
                    }
                }
                at = to + 5;
            },
        }
    }
}

} // verus!
