use vstd::prelude::*;

verus! {

/// `line` without its terminating `'\n'`, where it has one.
pub open spec fn strip_terminator(line: Seq<char>) -> Seq<char> {
    if line.len() > 0 && line.last() == '\n' {
        line.drop_last()
    } else {
        line
    }
}

pub open spec fn is_digit(c: char) -> bool {
    '0' <= c && c <= '9'
}

pub open spec fn all_digits(s: Seq<char>) -> bool {
    forall|i: int| 0 <= i < s.len() ==> is_digit(#[trigger] s[i])
}

/// The number that a string of decimal digits writes.
pub open spec fn digits_value(s: Seq<char>) -> int
    decreases s.len(),
{
    if s.len() == 0 {
        0
    } else {
        digits_value(s.drop_last()) * 10 + (s.last() as u32 - '0' as u32)
    }
}

/// The integer written by `s`: an optional sign, then one or more decimal
/// digits, and nothing else.
pub open spec fn integer_text_value(s: Seq<char>) -> Option<int> {
    if s.len() > 0 && (s[0] == '-' || s[0] == '+') {
        let body = s.drop_first();
        if body.len() > 0 && all_digits(body) {
            if s[0] == '-' {
                Some(-digits_value(body))
            } else {
                Some(digits_value(body))
            }
        } else {
            None
        }
    } else if s.len() > 0 && all_digits(s) {
        Some(digits_value(s))
    } else {
        None
    }
}

/// The value that an input line gives: the integer it writes, once its
/// terminator is stripped, where that fits a machine integer; 0 otherwise.
pub open spec fn input_value(line: Seq<char>) -> isize {
    match integer_text_value(strip_terminator(line)) {
        Some(v) => if isize::MIN <= v <= isize::MAX {
            v as isize
        } else {
            0
        },
        None => 0,
    }
}

proof fn lemma_digits_nonneg(s: Seq<char>)
    requires
        all_digits(s),
    ensures
        digits_value(s) >= 0,
    decreases s.len(),
{
    if s.len() > 0 {
        assert(is_digit(s[s.len() - 1]));
        lemma_digits_nonneg(s.drop_last());
    }
}

proof fn lemma_digits_prefix_le(s: Seq<char>, j: int)
    requires
        all_digits(s),
        0 <= j <= s.len(),
    ensures
        digits_value(s.take(j)) <= digits_value(s),
    decreases s.len(),
{
    if j < s.len() {
        assert(s == s.take(s.len() as int));
        let p = s.drop_last();
        assert(is_digit(s[s.len() - 1]));
        assert(all_digits(p));
        lemma_digits_nonneg(p);
        lemma_digits_prefix_le(p, j);
        assert(p.take(j) == s.take(j));
    } else {
        assert(s.take(j) == s);
    }
}

/// `digits_value(s)`, negated where `neg`.
pub open spec fn signed_digits_value(s: Seq<char>, neg: bool) -> int {
    if neg {
        -digits_value(s)
    } else {
        digits_value(s)
    }
}

/// Reads the digits of `chars[start..end]` as a number, negated where `neg`;
/// `None` where one is not a digit or the number does not fit.
fn read_digits(chars: &Vec<char>, start: usize, end: usize, neg: bool) -> (r: Option<isize>)
    requires
        start <= end <= chars@.len(),
    ensures
        ({
            let body = chars@.subrange(start as int, end as int);
            let v = signed_digits_value(body, neg);
            match r {
                Some(x) => all_digits(body) && x == v,
                None => !all_digits(body) || !(isize::MIN <= v <= isize::MAX),
            }
        }),
{
    let ghost body = chars@.subrange(start as int, end as int);
    let mut acc: isize = 0;
    let mut i: usize = start;
    while i < end
        invariant
            start <= i <= end <= chars@.len(),
            body == chars@.subrange(start as int, end as int),
            all_digits(body.take(i - start)),
            acc == signed_digits_value(body.take(i - start), neg),
        decreases end - i,
    {
        let c = chars[i];
        assert(c == body[i - start]);
        if !('0' <= c && c <= '9') {
            assert(!is_digit(body[i - start]));
            return None;
        }
        let d: isize = (c as u32 - '0' as u32) as isize;
        let ghost k: int = i - start;
        assert(body.take(k + 1).drop_last() == body.take(k));
        assert(all_digits(body.take(k + 1)));
        assert(digits_value(body.take(k + 1)) == digits_value(body.take(k)) * 10 + d);
        let scaled = acc.checked_mul(10);
        let next = match scaled {
            Some(m) => if neg {
                m.checked_sub(d)
            } else {
                m.checked_add(d)
            },
            None => None,
        };
        match next {
            Some(v) => {
                acc = v;
            },
            None => {
                proof {
                    lemma_digits_nonneg(body.take(k));
                    if all_digits(body) {
                        lemma_digits_prefix_le(body, k + 1);
                    }
                }
                return None;
            },
        }
        i = i + 1;
    }
    assert(body.take(end - start) == body);
    Some(acc)
}

/// Reads the integer that an input line holds, 0 where it holds none or one
/// that does not fit.
pub fn parse_input(line: &str) -> (r: isize)
    ensures
        r == input_value(line@),
{
    let mut chars: Vec<char> = Vec::new();
    for c in it: line.chars()
        invariant
            it.seq() == line@,
            chars@ == line@.take(it.index() as int),
    {
        chars.push(c);
    }
    assert(chars@ == line@);
    let mut end: usize = chars.len();
    if end > 0 && chars[end - 1] == '\n' {
        end = end - 1;
    }
    let ghost text = chars@.take(end as int);
    assert(text == strip_terminator(line@));
    if end == 0 {
        return 0;
    }
    let neg: bool = chars[0] == '-';
    let start: usize = if chars[0] == '-' || chars[0] == '+' {
        1
    } else {
        0
    };
    let ghost body = chars@.subrange(start as int, end as int);
    assert(start == 1 ==> body == text.drop_first());
    assert(start == 0 ==> body == text);
    if start == end {
        return 0;
    }
    match read_digits(&chars, start, end, neg) {
        Some(v) => v,
        None => 0,
    }
}

} // verus!
