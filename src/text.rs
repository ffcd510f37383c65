//! Small text utilities shared by the modules: prefix tests, splitting on a
//! separator, and reading integers.
use crate::names::push_char;
use vstd::prelude::*;
use vstd::string::*;

verus! {

/// The characters of a sequence of strings.
pub open spec fn strs_view(v: Seq<String>) -> Seq<Seq<char>> {
    Seq::new(v.len(), |i: int| v[i]@)
}

pub fn starts_with(s: &str, p: &str) -> (r: bool)
    ensures
        r == p@.is_prefix_of(s@),
{
    let n = s.unicode_len();
    let m = p.unicode_len();
    if m > n {
        return false;
    }
    let mut i: usize = 0;
    while i < m
        invariant
            n == s@.len(),
            m == p@.len(),
            m <= n,
            i <= m,
            forall|j: int| 0 <= j < i ==> s@[j] == p@[j],
        decreases m - i,
    {
        if s.get_char(i) != p.get_char(i) {
            return false;
        }
        i = i + 1;
    }
    true
}

/// The characters of `s` from index `from` on.
pub fn suffix_from(s: &str, from: usize) -> (r: String)
    requires
        from <= s@.len(),
    ensures
        r@ == s@.subrange(from as int, s@.len() as int),
{
    let n = s.unicode_len();
    let mut out = String::new();
    let mut i: usize = from;
    while i < n
        invariant
            n == s@.len(),
            from <= i <= n,
            out@ == s@.subrange(from as int, i as int),
        decreases n - i,
    {
        let c = s.get_char(i);
        push_char(&mut out, c);
        proof {
            assert(s@.subrange(from as int, i + 1) =~= s@.subrange(from as int, i as int).push(c));
        }
        i = i + 1;
    }
    out
}

/// The pieces of `s` between occurrences of `sep`, as `str::split` gives them.
pub open spec fn split_on(s: Seq<char>, sep: char) -> Seq<Seq<char>>
    decreases s.len(),
{
    if s.len() == 0 {
        seq![Seq::<char>::empty()]
    } else {
        let parts = split_on(s.drop_last(), sep);
        if s.last() == sep {
            parts.push(Seq::<char>::empty())
        } else {
            parts.update(parts.len() - 1, parts.last().push(s.last()))
        }
    }
}

/// Splits `s` at every `sep`.
pub fn split_chars(s: &str, sep: char) -> (r: Vec<String>)
    ensures
        strs_view(r@) == split_on(s@, sep),
{
    let n = s.unicode_len();
    let mut parts: Vec<String> = Vec::new();
    let mut cur = String::new();
    let mut i: usize = 0;
    proof {
        assert(s@.subrange(0, 0) =~= Seq::<char>::empty());
    }
    while i < n
        invariant
            n == s@.len(),
            i <= n,
            strs_view(parts@).push(cur@) == split_on(s@.subrange(0, i as int), sep),
        decreases n - i,
    {
        let c = s.get_char(i);
        let ghost prev = s@.subrange(0, i as int);
        proof {
            let t = s@.subrange(0, i + 1);
            assert(t.drop_last() =~= prev);
            assert(t.last() == c);
        }
        if c == sep {
            let done = cur;
            parts.push(done);
            cur = String::new();
            proof {
                assert(strs_view(parts@).push(cur@) =~= split_on(prev, sep).push(Seq::<char>::empty()));
            }
        } else {
            let ghost old_cur = cur@;
            push_char(&mut cur, c);
            proof {
                let sp = split_on(prev, sep);
                assert(strs_view(parts@).push(cur@) =~= sp.update(sp.len() - 1, sp.last().push(c)));
            }
        }
        i = i + 1;
    }
    proof {
        assert(s@.subrange(0, n as int) =~= s@);
    }
    parts.push(cur);
    proof {
        assert(strs_view(parts@) =~= split_on(s@, sep));
    }
    parts
}

pub open spec fn is_digit(c: char) -> bool {
    '0' <= c <= '9'
}

pub open spec fn all_digits(s: Seq<char>) -> bool {
    forall|i: int| 0 <= i < s.len() ==> is_digit(#[trigger] s[i])
}

pub open spec fn digits_value(s: Seq<char>) -> int
    decreases s.len(),
{
    if s.len() == 0 {
        0
    } else {
        digits_value(s.drop_last()) * 10 + (s.last() as int - '0' as int)
    }
}

pub open spec fn pow10(n: nat) -> int
    decreases n,
{
    if n == 0 {
        1
    } else {
        10 * pow10((n - 1) as nat)
    }
}

/// Longest run of digits read as a number.
pub const MAX_DIGITS: usize = 18;

/// The integer a text spells: an optional `-` then 1 to 18 decimal digits.
pub open spec fn integer_value(s: Seq<char>) -> Option<int> {
    if s.len() > 0 && s[0] == '-' {
        let d = s.drop_first();
        if 1 <= d.len() <= MAX_DIGITS && all_digits(d) {
            Some(-digits_value(d))
        } else {
            None
        }
    } else if 1 <= s.len() <= MAX_DIGITS && all_digits(s) {
        Some(digits_value(s))
    } else {
        None
    }
}

proof fn lemma_digits_bound(s: Seq<char>)
    requires
        all_digits(s),
    ensures
        0 <= digits_value(s) < pow10(s.len()),
    decreases s.len(),
{
    if s.len() > 0 {
        let p = s.drop_last();
        assert(all_digits(p)) by {
            assert forall|i: int| 0 <= i < p.len() implies is_digit(#[trigger] p[i]) by {
                assert(p[i] == s[i]);
            }
        }
        lemma_digits_bound(p);
        assert(is_digit(s[s.len() - 1]));
        let v = digits_value(p);
        let d = s.last() as int - '0' as int;
        let b = pow10(p.len());
        assert(0 <= v * 10 + d < 10 * b) by (nonlinear_arith)
            requires
                0 <= v < b,
                0 <= d <= 9,
        ;
    }
}

proof fn lemma_pow10_monotone(a: nat, b: nat)
    requires
        a <= b,
    ensures
        1 <= pow10(a) <= pow10(b),
    decreases b,
{
    if b > 0 {
        if a < b {
            lemma_pow10_monotone(a, (b - 1) as nat);
        } else {
            lemma_pow10_monotone(0, (b - 1) as nat);
        }
    }
}

proof fn lemma_pow10_18()
    ensures
        pow10(18) == 1_000_000_000_000_000_000,
{
    reveal_with_fuel(pow10, 19);
}

/// Reads the digits of `s` from `from` to its end.
fn read_digits(s: &str, from: usize) -> (r: Option<i64>)
    requires
        from <= s@.len(),
    ensures
        ({
            let d = s@.subrange(from as int, s@.len() as int);
            &&& r is Some <==> 1 <= d.len() <= MAX_DIGITS && all_digits(d)
            &&& r matches Some(v) ==> v as int == digits_value(d) && 0 <= v < 1_000_000_000_000_000_000
        }),
{
    let n = s.unicode_len();
    let ghost d = s@.subrange(from as int, s@.len() as int);
    if n - from < 1 || n - from > MAX_DIGITS {
        return None;
    }
    proof {
        lemma_pow10_18();
    }
    let mut v: i64 = 0;
    let mut i: usize = from;
    while i < n
        invariant
            n == s@.len(),
            from <= i <= n,
            n - from <= MAX_DIGITS,
            d == s@.subrange(from as int, n as int),
            pow10(18) == 1_000_000_000_000_000_000,
            all_digits(s@.subrange(from as int, i as int)),
            v == digits_value(s@.subrange(from as int, i as int)),
        decreases n - i,
    {
        let c = s.get_char(i);
        if !('0' <= c && c <= '9') {
            proof {
                assert(d[i - from] == c);
            }
            return None;
        }
        let ghost pre = s@.subrange(from as int, i as int);
        let ghost next = s@.subrange(from as int, i + 1);
        proof {
            assert(next.drop_last() =~= pre);
            assert(next.last() == c);
            assert(all_digits(next)) by {
                assert forall|j: int| 0 <= j < next.len() implies is_digit(#[trigger] next[j]) by {
                    if j < pre.len() {
                        assert(next[j] == pre[j]);
                    }
                }
            }
            lemma_digits_bound(next);
            lemma_pow10_monotone(next.len(), 18);
        }
        v = v * 10 + (c as i64 - '0' as i64);
        i = i + 1;
    }
    proof {
        lemma_digits_bound(d);
        lemma_pow10_monotone(d.len(), 18);
    }
    Some(v)
}

/// Reads a text as an integer, when it spells one.
pub fn parse_integer(s: &str) -> (r: Option<i64>)
    ensures
        r matches Some(v) ==> integer_value(s@) == Some(v as int),
        r is None ==> integer_value(s@) is None,
{
    let n = s.unicode_len();
    let neg = n > 0 && s.get_char(0) == '-';
    assert(neg == (s@.len() > 0 && s@[0] == '-'));
    if neg {
        let r = read_digits(s, 1);
        proof {
            assert(s@.subrange(1, s@.len() as int) =~= s@.drop_first());
        }
        match r {
            Some(v) => {
                assert(integer_value(s@) == Some(-(v as int)));
                Some(-v)
            },
            None => None,
        }
    } else {
        let r = read_digits(s, 0);
        proof {
            assert(s@.subrange(0, s@.len() as int) =~= s@);
        }
        match r {
            Some(v) => {
                assert(integer_value(s@) == Some(v as int));
                Some(v)
            },
            None => None,
        }
    }
}

} // verus!
