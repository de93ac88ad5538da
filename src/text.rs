//! Text as sequences of characters.

use vstd::prelude::*;

verus! {

/// Relies on str::chars: the characters of `s`, in order.
#[verifier::external_body]
pub fn chars_of(s: &str) -> (r: Vec<char>)
    ensures
        r@ == s@,
{
    s.chars().collect()
}

/// Relies on String's FromIterator<char>: the string of the characters of `v`.
#[verifier::external_body]
pub fn string_of(v: &[char]) -> (r: String)
    ensures
        r@ == v@,
{
    v.iter().collect()
}

/// Whether `a` holds exactly the characters of `b`.
pub fn chars_eq_str(a: &Vec<char>, b: &str) -> (r: bool)
    ensures
        r == (a@ == b@),
{
    let bc = chars_of(b);
    chars_eq(a, &bc)
}

/// Whether two character vectors are equal.
pub fn chars_eq(a: &Vec<char>, b: &Vec<char>) -> (r: bool)
    ensures
        r == (a@ == b@),
{
    if a.len() != b.len() {
        return false;
    }
    let mut i: usize = 0;
    while i < a.len()
        invariant
            a@.len() == b@.len(),
            i <= a@.len(),
            a@.subrange(0, i as int) == b@.subrange(0, i as int),
        decreases a@.len() - i,
    {
        if a[i] != b[i] {
            return false;
        }
        i = i + 1;
        assert(a@.subrange(0, i as int) =~= a@.subrange(0, i - 1).push(a@[i - 1]));
        assert(b@.subrange(0, i as int) =~= b@.subrange(0, i - 1).push(b@[i - 1]));
    }
    assert(a@ =~= a@.subrange(0, i as int));
    assert(b@ =~= b@.subrange(0, i as int));
    true
}

} // verus!

verus! {

/// Index of the first `c` in `s`, if any.
pub open spec fn find_char(s: Seq<char>, c: char) -> Option<int>
    decreases s.len(),
{
    if s.len() == 0 {
        None
    } else if s[0] == c {
        Some(0)
    } else {
        match find_char(s.drop_first(), c) {
            Some(i) => Some(i + 1),
            None => None,
        }
    }
}

/// A line without the carriage return that ended it.
pub open spec fn strip_cr(l: Seq<char>) -> Seq<char> {
    if l.len() > 0 && l.last() == '\r' {
        l.drop_last()
    } else {
        l
    }
}

/// The lines of a text: split at `\n`, a `\r` before the `\n` removed, the
/// last line ending optional.
pub open spec fn lines_of(s: Seq<char>) -> Seq<Seq<char>>
    decreases s.len(),
{
    if s.len() == 0 {
        Seq::empty()
    } else {
        match find_char(s, '\n') {
            None => seq![s],
            Some(i) => {
                if 0 <= i < s.len() {
                    seq![strip_cr(s.subrange(0, i))] + lines_of(s.subrange(i + 1, s.len() as int))
                } else {
                    Seq::empty()
                }
            },
        }
    }
}

pub proof fn lemma_find_char_range(s: Seq<char>, c: char)
    ensures
        match find_char(s, c) {
            Some(i) => 0 <= i < s.len() && s[i] == c && forall|j: int| 0 <= j < i ==> s[j] != c,
            None => forall|j: int| 0 <= j < s.len() ==> s[j] != c,
        },
    decreases s.len(),
{
    if s.len() > 0 && s[0] != c {
        lemma_find_char_range(s.drop_first(), c);
        match find_char(s.drop_first(), c) {
            Some(i) => {
                assert forall|j: int| 0 <= j < i + 1 implies s[j] != c by {
                    if j > 0 {
                        assert(s[j] == s.drop_first()[j - 1]);
                    }
                }
            },
            None => {
                assert forall|j: int| 0 <= j < s.len() implies s[j] != c by {
                    if j > 0 {
                        assert(s[j] == s.drop_first()[j - 1]);
                    }
                }
            },
        }
    }
}

pub proof fn lemma_find_char_unique(s: Seq<char>, c: char, i: int)
    requires
        0 <= i <= s.len(),
        forall|j: int| 0 <= j < i ==> s[j] != c,
        i < s.len() ==> s[i] == c,
    ensures
        find_char(s, c) == (if i < s.len() {
            Some(i)
        } else {
            None::<int>
        }),
    decreases s.len(),
{
    lemma_find_char_range(s, c);
}

/// Splits a text into its lines, as `str::lines` does.
pub fn split_lines(s: &Vec<char>) -> (r: Vec<Vec<char>>)
    ensures
        r@.map_values(|l: Vec<char>| l@) == lines_of(s@),
{
    let mut out: Vec<Vec<char>> = Vec::new();
    let mut cur: Vec<char> = Vec::new();
    let mut start: usize = 0;
    let mut i: usize = 0;
    let ghost all = s@;
    assert(s@.subrange(0, s@.len() as int) =~= s@);
    assert(out@.map_values(|l: Vec<char>| l@) =~= Seq::<Seq<char>>::empty());
    assert(Seq::<Seq<char>>::empty() + lines_of(s@) =~= lines_of(s@));
    while i < s.len()
        invariant
            start <= i <= s@.len(),
            all == s@,
            cur@ == s@.subrange(start as int, i as int),
            forall|j: int| start <= j < i ==> s@[j] != '\n',
            out@.map_values(|l: Vec<char>| l@) + lines_of(s@.subrange(start as int, s@.len() as int))
                == lines_of(s@),
        decreases s@.len() - i,
    {
        let c = s[i];
        if c == '\n' {
            let ghost rest = s@.subrange(start as int, s@.len() as int);
            proof {
                lemma_find_char_unique(rest, '\n', i - start);
                assert(rest.subrange(0, i - start) =~= cur@);
                assert(rest.subrange(i - start + 1, rest.len() as int) =~= s@.subrange(
                    i + 1,
                    s@.len() as int,
                ));
            }
            let mut line = cur;
            if line.len() > 0 && line[line.len() - 1] == '\r' {
                line.pop();
            }
            proof {
                assert(line@ == strip_cr(rest.subrange(0, i - start)));
            }
            let ghost before = out@.map_values(|l: Vec<char>| l@);
            out.push(line);
            proof {
                assert(out@.map_values(|l: Vec<char>| l@) =~= before.push(line@));
                assert(lines_of(rest) == seq![line@] + lines_of(
                    s@.subrange(i + 1, s@.len() as int),
                ));
                assert(before.push(line@) + lines_of(s@.subrange(i + 1, s@.len() as int))
                    =~= before + lines_of(rest));
            }
            cur = Vec::new();
            start = i + 1;
        } else {
            cur.push(c);
        }
        i = i + 1;
        assert(cur@ =~= s@.subrange(start as int, i as int));
    }
    if start < s.len() {
        let ghost rest = s@.subrange(start as int, s@.len() as int);
        proof {
            lemma_find_char_unique(rest, '\n', rest.len() as int);
            assert(rest =~= cur@);
        }
        let ghost before = out@.map_values(|l: Vec<char>| l@);
        out.push(cur);
        proof {
            assert(out@.map_values(|l: Vec<char>| l@) =~= before + lines_of(rest));
        }
    } else {
        assert(s@.subrange(start as int, s@.len() as int) =~= Seq::<char>::empty());
        assert(out@.map_values(|l: Vec<char>| l@) =~= lines_of(s@));
    }
    out
}

} // verus!

verus! {

/// Whether `p` occurs in `s` at index `i`.
pub open spec fn occurs_at(s: Seq<char>, p: Seq<char>, i: int) -> bool {
    0 <= i && i + p.len() <= s.len() && s.subrange(i, i + p.len()) == p
}

/// Whether `p` occurs anywhere in `s`.
pub open spec fn contains(s: Seq<char>, p: Seq<char>) -> bool {
    exists|i: int| occurs_at(s, p, i)
}

/// Whether `s` begins with `p`.
pub open spec fn starts_with(s: Seq<char>, p: Seq<char>) -> bool {
    occurs_at(s, p, 0)
}

/// Whether `p` occurs in `s` at index `i`.
pub fn occurs_at_exec(s: &Vec<char>, p: &Vec<char>, i: usize) -> (r: bool)
    ensures
        r == occurs_at(s@, p@, i as int),
{
    if i > s.len() || p.len() > s.len() - i {
        return false;
    }
    let slen = s.len();
    let mut k: usize = 0;
    while k < p.len()
        invariant
            k <= p@.len(),
            slen == s@.len(),
            i + p@.len() <= s@.len(),
            forall|j: int| 0 <= j < k ==> s@[i + j] == p@[j],
        decreases p@.len() - k,
    {
        if s[i + k] != p[k] {
            assert(s@.subrange(i as int, i + p@.len())[k as int] != p@[k as int]);
            return false;
        }
        k = k + 1;
    }
    assert(s@.subrange(i as int, i + p@.len()) =~= p@);
    true
}

/// Whether `p` occurs anywhere in `s`.
pub fn contains_exec(s: &Vec<char>, p: &Vec<char>) -> (r: bool)
    ensures
        r == contains(s@, p@),
{
    let mut i: usize = 0;
    loop
        invariant
            i <= s@.len(),
            forall|j: int| 0 <= j < i ==> !occurs_at(s@, p@, j),
        ensures
            i == s@.len(),
            forall|j: int| 0 <= j <= i ==> !occurs_at(s@, p@, j),
        decreases s@.len() - i,
    {
        if occurs_at_exec(s, p, i) {
            return true;
        }
        if i == s.len() {
            break;
        }
        i = i + 1;
    }
    assert forall|j: int| !occurs_at(s@, p@, j) by {
        if j > i {
            assert(j > s@.len());
        }
    }
    false
}

/// `s` with every occurrence of the non-empty `p` replaced by `r`, scanning
/// from the left and not overlapping, as `str::replace` does.
pub open spec fn replace_all(s: Seq<char>, p: Seq<char>, r: Seq<char>) -> Seq<char>
    decreases s.len(),
{
    if p.len() == 0 || s.len() < p.len() {
        s
    } else if s.subrange(0, p.len() as int) == p {
        r + replace_all(s.subrange(p.len() as int, s.len() as int), p, r)
    } else {
        seq![s[0]] + replace_all(s.drop_first(), p, r)
    }
}

/// Replaces every occurrence of the non-empty `p` in `s` by `r`.
pub fn replace_exec(s: &Vec<char>, p: &Vec<char>, r: &Vec<char>) -> (out: Vec<char>)
    requires
        p@.len() > 0,
    ensures
        out@ == replace_all(s@, p@, r@),
{
    let mut out: Vec<char> = Vec::new();
    let mut i: usize = 0;
    assert(s@.subrange(0, s@.len() as int) =~= s@);
    while i < s.len()
        invariant
            i <= s@.len(),
            p@.len() > 0,
            out@ + replace_all(s@.subrange(i as int, s@.len() as int), p@, r@) == replace_all(
                s@,
                p@,
                r@,
            ),
        decreases s@.len() - i,
    {
        let ghost rest = s@.subrange(i as int, s@.len() as int);
        let ghost before = out@;
        if occurs_at_exec(s, p, i) {
            proof {
                assert(rest.subrange(0, p@.len() as int) =~= s@.subrange(i as int, i + p@.len()));
                assert(rest.subrange(p@.len() as int, rest.len() as int) =~= s@.subrange(
                    i + p@.len(),
                    s@.len() as int,
                ));
            }
            let mut k: usize = 0;
            while k < r.len()
                invariant
                    k <= r@.len(),
                    out@ == before + r@.subrange(0, k as int),
                decreases r@.len() - k,
            {
                out.push(r[k]);
                k = k + 1;
                assert(out@ =~= before + r@.subrange(0, k as int));
            }
            assert(r@.subrange(0, r@.len() as int) =~= r@);
            assert(out@ + replace_all(s@.subrange(i + p@.len(), s@.len() as int), p@, r@) =~= before
                + replace_all(rest, p@, r@));
            i = i + p.len();
        } else {
            proof {
                if rest.len() >= p@.len() {
                    assert(rest.subrange(0, p@.len() as int) =~= s@.subrange(
                        i as int,
                        i + p@.len(),
                    ));
                }
                assert(rest.drop_first() =~= s@.subrange(i + 1, s@.len() as int));
            }
            if s.len() - i < p.len() {
                let st = i;
                while i < s.len()
                    invariant
                        st <= i <= s@.len(),
                        rest == s@.subrange(st as int, s@.len() as int),
                        out@ == before + s@.subrange(st as int, i as int),
                    decreases s@.len() - i,
                {
                    out.push(s[i]);
                    i = i + 1;
                    assert(out@ =~= before + s@.subrange(st as int, i as int));
                }
                assert(out@ =~= before + rest);
                assert(s@.subrange(i as int, s@.len() as int) =~= Seq::<char>::empty());
                assert(out@ + replace_all(s@.subrange(i as int, s@.len() as int), p@, r@) =~= out@);
            } else {
                out.push(s[i]);
                assert(out@ + replace_all(s@.subrange(i + 1, s@.len() as int), p@, r@) =~= before
                    + replace_all(rest, p@, r@));
                i = i + 1;
            }
        }
    }
    assert(s@.subrange(i as int, s@.len() as int) =~= Seq::<char>::empty());
    assert(out@ + replace_all(s@.subrange(i as int, s@.len() as int), p@, r@) =~= out@);
    out
}

/// The character of decimal digit `d`.
pub open spec fn digit_char(d: nat) -> char {
    if d == 0 {
        '0'
    } else if d == 1 {
        '1'
    } else if d == 2 {
        '2'
    } else if d == 3 {
        '3'
    } else if d == 4 {
        '4'
    } else if d == 5 {
        '5'
    } else if d == 6 {
        '6'
    } else if d == 7 {
        '7'
    } else if d == 8 {
        '8'
    } else {
        '9'
    }
}

/// The value of a decimal digit character.
pub open spec fn digit_value(c: char) -> nat {
    (c as u32 - '0' as u32) as nat
}

pub open spec fn is_digit(c: char) -> bool {
    '0' <= c <= '9'
}

/// The decimal representation of `n`, without leading zeros.
pub open spec fn decimal(n: nat) -> Seq<char>
    decreases n,
{
    if n < 10 {
        seq![digit_char(n)]
    } else {
        decimal(n / 10).push(digit_char(n % 10))
    }
}

/// Whether `s` is a non-empty run of decimal digits.
pub open spec fn all_digits(s: Seq<char>) -> bool {
    s.len() > 0 && forall|i: int| 0 <= i < s.len() ==> is_digit(s[i])
}

/// The value of a run of decimal digits.
pub open spec fn digits_value(s: Seq<char>) -> nat
    decreases s.len(),
{
    if s.len() == 0 {
        0
    } else {
        digits_value(s.drop_last()) * 10 + digit_value(s.last())
    }
}

fn digit_of(d: u64) -> (c: char)
    requires
        d < 10,
    ensures
        c == digit_char(d as nat),
{
    if d == 0 {
        '0'
    } else if d == 1 {
        '1'
    } else if d == 2 {
        '2'
    } else if d == 3 {
        '3'
    } else if d == 4 {
        '4'
    } else if d == 5 {
        '5'
    } else if d == 6 {
        '6'
    } else if d == 7 {
        '7'
    } else if d == 8 {
        '8'
    } else {
        '9'
    }
}

/// Appends the decimal representation of `n`.
pub fn push_decimal(out: &mut Vec<char>, n: u64)
    ensures
        final(out)@ == old(out)@ + decimal(n as nat),
    decreases n,
{
    if n >= 10 {
        push_decimal(out, n / 10);
    }
    out.push(digit_of(n % 10));
    assert(final(out)@ =~= old(out)@ + decimal(n as nat)) by {
        if n >= 10 {
            assert(decimal(n as nat) == decimal((n / 10) as nat).push(digit_char((n % 10) as nat)));
        }
    };
}

/// Appends the characters of `s`.
pub fn push_str(out: &mut Vec<char>, s: &str)
    ensures
        final(out)@ == old(out)@ + s@,
{
    let c = chars_of(s);
    let mut i: usize = 0;
    while i < c.len()
        invariant
            i <= c@.len(),
            c@ == s@,
            out@ == old(out)@ + c@.subrange(0, i as int),
        decreases c@.len() - i,
    {
        out.push(c[i]);
        i = i + 1;
        assert(out@ =~= old(out)@ + c@.subrange(0, i as int));
    }
    assert(c@.subrange(0, i as int) =~= c@);
}

/// Reads a run of decimal digits as a `u64`: `None` for an empty run, a
/// character that is not a digit, or a value above `u64::MAX`.
pub fn parse_u64(s: &[char]) -> (r: Option<u64>)
    ensures
        r == (if all_digits(s@) && digits_value(s@) <= u64::MAX {
            Some(digits_value(s@) as u64)
        } else {
            None::<u64>
        }),
{
    if s.len() == 0 {
        return None;
    }
    let mut v: u64 = 0;
    let mut i: usize = 0;
    while i < s.len()
        invariant
            i <= s@.len(),
            v as nat == digits_value(s@.subrange(0, i as int)),
            forall|j: int| 0 <= j < i ==> is_digit(s@[j]),
        decreases s@.len() - i,
    {
        let c = s[i];
        if !('0' <= c && c <= '9') {
            return None;
        }
        let d = (c as u32 - '0' as u32) as u64;
        assert(s@.subrange(0, i + 1).drop_last() =~= s@.subrange(0, i as int));
        if v > (u64::MAX - d) / 10 {
            proof {
                lemma_digits_value_prefix_mono(s@, i + 1);
                let m = u64::MAX as int;
                assert(v * 10 + d > m) by (nonlinear_arith)
                    requires
                        v > (m - d) / 10,
                        0 <= d <= 9,
                        m > 9,
                ;
            }
            return None;
        }
        v = v * 10 + d;
        i = i + 1;
    }
    assert(s@.subrange(0, i as int) =~= s@);
    Some(v)
}

proof fn lemma_digits_value_prefix_mono(s: Seq<char>, k: int)
    requires
        0 <= k <= s.len(),
    ensures
        digits_value(s.subrange(0, k)) <= digits_value(s),
    decreases s.len() - k,
{
    if k == s.len() {
        assert(s.subrange(0, k) =~= s);
    } else {
        lemma_digits_value_prefix_mono(s, k + 1);
        assert(s.subrange(0, k + 1).drop_last() =~= s.subrange(0, k));
        let x = digits_value(s.subrange(0, k));
        let d = digit_value(s.subrange(0, k + 1).last());
        assert(x <= x * 10 + d) by (nonlinear_arith);
    }
}

} // verus!

verus! {

/// Whether one of `x`, `y` is a prefix of the other.
pub open spec fn prefix_compatible(x: Seq<char>, y: Seq<char>) -> bool {
    let n = if x.len() < y.len() {
        x.len()
    } else {
        y.len()
    };
    x.subrange(0, n as int) == y.subrange(0, n as int)
}

/// No suffix of `b` that starts at `lo` or later is prefix-compatible with `r`.
pub open spec fn no_compatible_suffix(r: Seq<char>, b: Seq<char>, lo: int) -> bool {
    forall|k: int| lo <= k < b.len() ==> !prefix_compatible(r, #[trigger] b.subrange(k, b.len() as int))
}

/// No occurrence of `q` that starts inside `r` reaches past its end.
pub open spec fn no_straddle(r: Seq<char>, q: Seq<char>) -> bool {
    forall|i: int|
        0 <= i < r.len() && r.len() - i < q.len() ==> #[trigger] r.subrange(i, r.len() as int)
            != q.subrange(0, r.len() - i)
}

/// A replacement result begins with a suffix of `b` only where the input
/// does, when no such suffix is prefix-compatible with the replacement.
pub proof fn lemma_replace_prefix(s: Seq<char>, p: Seq<char>, r: Seq<char>, b: Seq<char>, k: int)
    requires
        p.len() > 0,
        0 <= k < b.len(),
        no_compatible_suffix(r, b, k),
        starts_with(replace_all(s, p, r), b.subrange(k, b.len() as int)),
    ensures
        starts_with(s, b.subrange(k, b.len() as int)),
    decreases s.len(),
{
    let w = b.subrange(k, b.len() as int);
    let t = replace_all(s, p, r);
    if s.len() < p.len() {
    } else if s.subrange(0, p.len() as int) == p {
        let n = if r.len() < w.len() {
            r.len()
        } else {
            w.len()
        };
        assert(t == r + replace_all(s.subrange(p.len() as int, s.len() as int), p, r));
        assert(t.subrange(0, w.len() as int) == w);
        assert(r.subrange(0, n as int) =~= t.subrange(0, n as int));
        assert(w.subrange(0, n as int) =~= t.subrange(0, n as int));
        assert(r.subrange(0, n as int) == w.subrange(0, n as int));
        assert(prefix_compatible(r, w));
    } else {
        let s1 = s.drop_first();
        let t1 = replace_all(s1, p, r);
        assert(t == seq![s[0]] + t1);
        assert(t[0] == w[0]) by {
            assert(t.subrange(0, w.len() as int)[0] == t[0]);
        }
        if w.len() > 1 {
            let w1 = b.subrange(k + 1, b.len() as int);
            assert(t1.subrange(0, w1.len() as int) =~= t.subrange(1, w.len() as int));
            assert(t.subrange(1, w.len() as int) =~= w.subrange(1, w.len() as int));
            assert(w.subrange(1, w.len() as int) =~= w1);
            assert forall|kk: int| k + 1 <= kk < b.len() implies !prefix_compatible(
                r,
                #[trigger] b.subrange(kk, b.len() as int),
            ) by {}
            lemma_replace_prefix(s1, p, r, b, k + 1);
            assert(s.subrange(0, w.len() as int) =~= seq![s[0]] + s1.subrange(0, w1.len() as int));
            assert(w =~= seq![w[0]] + w1);
        }
        assert(s.subrange(0, w.len() as int) =~= w);
    }
}

/// Shifting an occurrence into a longer sequence.
proof fn lemma_occurs_shift(a: Seq<char>, t: Seq<char>, q: Seq<char>, i: int)
    requires
        occurs_at(t, q, i),
    ensures
        occurs_at(a + t, q, i + a.len()),
{
    assert((a + t).subrange(i + a.len(), i + a.len() + q.len()) =~= t.subrange(i, i + q.len()));
}

/// Replacing never brings in `q` when the replacement neither holds it, nor
/// begins a straddling occurrence of it, nor is prefix-compatible with one
/// of its proper suffixes.
pub proof fn lemma_replace_avoids(s: Seq<char>, p: Seq<char>, r: Seq<char>, q: Seq<char>)
    requires
        p.len() > 0,
        q.len() > 0,
        !contains(s, q),
        !contains(r, q),
        no_straddle(r, q),
        no_compatible_suffix(r, q, 1),
    ensures
        !contains(replace_all(s, p, r), q),
    decreases s.len(),
{
    let t = replace_all(s, p, r);
    if s.len() < p.len() {
    } else if s.subrange(0, p.len() as int) == p {
        let s1 = s.subrange(p.len() as int, s.len() as int);
        let t1 = replace_all(s1, p, r);
        assert(s =~= p + s1);
        assert forall|i: int| !occurs_at(s1, q, i) by {
            if occurs_at(s1, q, i) {
                lemma_occurs_shift(p, s1, q, i);
            }
        }
        lemma_replace_avoids(s1, p, r, q);
        assert(t == r + t1);
        assert forall|i: int| !occurs_at(t, q, i) by {
            if occurs_at(t, q, i) {
                if i + q.len() <= r.len() {
                    assert(r.subrange(i, i + q.len()) =~= t.subrange(i, i + q.len()));
                    assert(occurs_at(r, q, i));
                } else if i < r.len() {
                    assert(r.subrange(i, r.len() as int) =~= q.subrange(0, r.len() - i)) by {
                        assert(r.subrange(i, r.len() as int) =~= t.subrange(i, i + q.len()).subrange(
                            0,
                            r.len() - i,
                        ));
                    }
                } else {
                    assert(t1.subrange(i - r.len(), i - r.len() + q.len()) =~= t.subrange(
                        i,
                        i + q.len(),
                    ));
                    assert(occurs_at(t1, q, i - r.len()));
                }
            }
        }
    } else {
        let s1 = s.drop_first();
        let t1 = replace_all(s1, p, r);
        assert(s =~= seq![s[0]] + s1);
        assert forall|i: int| !occurs_at(s1, q, i) by {
            if occurs_at(s1, q, i) {
                lemma_occurs_shift(seq![s[0]], s1, q, i);
            }
        }
        lemma_replace_avoids(s1, p, r, q);
        assert(t == seq![s[0]] + t1);
        assert forall|i: int| !occurs_at(t, q, i) by {
            if occurs_at(t, q, i) {
                if i == 0 {
                    assert(t.subrange(0, q.len() as int)[0] == t[0]);
                    if q.len() > 1 {
                        assert(t1.subrange(0, q.len() - 1) =~= t.subrange(1, q.len() as int));
                        assert(t.subrange(1, q.len() as int) =~= q.subrange(1, q.len() as int));
                        lemma_replace_prefix(s1, p, r, q, 1);
                        assert(s.subrange(0, q.len() as int) =~= seq![s[0]] + s1.subrange(
                            0,
                            q.len() - 1,
                        ));
                        assert(q =~= seq![q[0]] + q.subrange(1, q.len() as int));
                    }
                    assert(s.subrange(0, q.len() as int) =~= q);
                    assert(occurs_at(s, q, 0));
                } else {
                    assert(t1.subrange(i - 1, i - 1 + q.len()) =~= t.subrange(i, i + q.len()));
                    assert(occurs_at(t1, q, i - 1));
                }
            }
        }
    }
}

/// After replacing `p`, no `p` is left, when the replacement neither holds
/// `p`, nor begins a straddling occurrence of it, nor is prefix-compatible
/// with one of its proper suffixes.
pub proof fn lemma_replace_removes(s: Seq<char>, p: Seq<char>, r: Seq<char>)
    requires
        p.len() > 0,
        !contains(r, p),
        no_straddle(r, p),
        no_compatible_suffix(r, p, 1),
    ensures
        !contains(replace_all(s, p, r), p),
    decreases s.len(),
{
    let t = replace_all(s, p, r);
    if s.len() < p.len() {
    } else if s.subrange(0, p.len() as int) == p {
        let s1 = s.subrange(p.len() as int, s.len() as int);
        let t1 = replace_all(s1, p, r);
        lemma_replace_removes(s1, p, r);
        assert(t == r + t1);
        assert forall|i: int| !occurs_at(t, p, i) by {
            if occurs_at(t, p, i) {
                if i + p.len() <= r.len() {
                    assert(r.subrange(i, i + p.len()) =~= t.subrange(i, i + p.len()));
                    assert(occurs_at(r, p, i));
                } else if i < r.len() {
                    assert(r.subrange(i, r.len() as int) =~= p.subrange(0, r.len() - i)) by {
                        assert(r.subrange(i, r.len() as int) =~= t.subrange(i, i + p.len()).subrange(
                            0,
                            r.len() - i,
                        ));
                    }
                } else {
                    assert(t1.subrange(i - r.len(), i - r.len() + p.len()) =~= t.subrange(
                        i,
                        i + p.len(),
                    ));
                    assert(occurs_at(t1, p, i - r.len()));
                }
            }
        }
    } else {
        let s1 = s.drop_first();
        let t1 = replace_all(s1, p, r);
        lemma_replace_removes(s1, p, r);
        assert(t == seq![s[0]] + t1);
        assert forall|i: int| !occurs_at(t, p, i) by {
            if occurs_at(t, p, i) {
                if i == 0 {
                    assert(t.subrange(0, p.len() as int)[0] == t[0]);
                    if p.len() > 1 {
                        assert(t1.subrange(0, p.len() - 1) =~= t.subrange(1, p.len() as int));
                        assert(t.subrange(1, p.len() as int) =~= p.subrange(1, p.len() as int));
                        lemma_replace_prefix(s1, p, r, p, 1);
                        assert(s.subrange(0, p.len() as int) =~= seq![s[0]] + s1.subrange(
                            0,
                            p.len() - 1,
                        ));
                        assert(p =~= seq![p[0]] + p.subrange(1, p.len() as int));
                    }
                    assert(s.subrange(0, p.len() as int) =~= p);
                } else {
                    assert(t1.subrange(i - 1, i - 1 + p.len()) =~= t.subrange(i, i + p.len()));
                    assert(occurs_at(t1, p, i - 1));
                }
            }
        }
    }
}

/// A text without `p` is left as it is.
pub proof fn lemma_replace_absent(t: Seq<char>, p: Seq<char>, r: Seq<char>)
    requires
        p.len() > 0,
        !contains(t, p),
    ensures
        replace_all(t, p, r) == t,
    decreases t.len(),
{
    if t.len() >= p.len() {
        assert(!occurs_at(t, p, 0));
        let t1 = t.drop_first();
        assert(t =~= seq![t[0]] + t1);
        assert forall|i: int| !occurs_at(t1, p, i) by {
            if occurs_at(t1, p, i) {
                lemma_occurs_shift(seq![t[0]], t1, p, i);
            }
        }
        lemma_replace_absent(t1, p, r);
    }
}

} // verus!
