//! Whitespace trimming and small string builders.
use vstd::prelude::*;

verus! {

/// Unicode `White_Space`, the set `char::is_whitespace` and `str::trim`
/// go by.
pub open spec fn spec_is_whitespace(c: char) -> bool {
    let n = c as u32;
    (0x09 <= n && n <= 0x0d) || n == 0x20 || n == 0x85 || n == 0xa0 || n == 0x1680 || (0x2000
        <= n && n <= 0x200a) || n == 0x2028 || n == 0x2029 || n == 0x202f || n == 0x205f || n
        == 0x3000
}

/// Whether `c` is Unicode whitespace.
pub fn is_whitespace(c: char) -> (r: bool)
    ensures
        r == spec_is_whitespace(c),
{
    let n = c as u32;
    (0x09 <= n && n <= 0x0d) || n == 0x20 || n == 0x85 || n == 0xa0 || n == 0x1680 || (0x2000
        <= n && n <= 0x200a) || n == 0x2028 || n == 0x2029 || n == 0x202f || n == 0x205f || n
        == 0x3000
}

/// `s` without its leading whitespace.
pub open spec fn spec_trim_start(s: Seq<char>) -> Seq<char>
    decreases s.len(),
{
    if s.len() > 0 && spec_is_whitespace(s[0]) {
        spec_trim_start(s.drop_first())
    } else {
        s
    }
}

/// `s` without its trailing whitespace.
pub open spec fn spec_trim_end(s: Seq<char>) -> Seq<char>
    decreases s.len(),
{
    if s.len() > 0 && spec_is_whitespace(s.last()) {
        spec_trim_end(s.drop_last())
    } else {
        s
    }
}

/// `s` without leading and trailing whitespace.
pub open spec fn spec_trim(s: Seq<char>) -> Seq<char> {
    spec_trim_end(spec_trim_start(s))
}

proof fn lemma_trim_start_step(s: Seq<char>, i: int)
    requires
        0 <= i < s.len(),
        spec_is_whitespace(s[i]),
    ensures
        spec_trim_start(s.subrange(i, s.len() as int)) == spec_trim_start(
            s.subrange(i + 1, s.len() as int),
        ),
{
    assert(s.subrange(i, s.len() as int).drop_first() =~= s.subrange(i + 1, s.len() as int));
}

proof fn lemma_trim_end_step(s: Seq<char>, j: int)
    requires
        0 < j <= s.len(),
        spec_is_whitespace(s[j - 1]),
    ensures
        spec_trim_end(s.subrange(0, j)) == spec_trim_end(s.subrange(0, j - 1)),
{
    assert(s.subrange(0, j).drop_last() =~= s.subrange(0, j - 1));
}

/// `s` with leading and trailing Unicode whitespace removed.
pub fn trim_whitespace(s: &str) -> (r: &str)
    ensures
        r@ == spec_trim(s@),
{
    let n = s.unicode_len();
    let mut start: usize = 0;
    assert(s@.subrange(0, n as int) =~= s@);
    while start < n && is_whitespace(s.get_char(start))
        invariant
            start <= n,
            n == s@.len(),
            spec_trim_start(s@) == spec_trim_start(s@.subrange(start as int, n as int)),
        decreases n - start,
    {
        proof {
            lemma_trim_start_step(s@, start as int);
        }
        start = start + 1;
    }
    let ghost t = s@.subrange(start as int, n as int);
    assert(spec_trim_start(t) == t);
    let mut end: usize = n;
    assert(t.subrange(0, (end - start) as int) =~= t);
    while end > start && is_whitespace(s.get_char(end - 1))
        invariant
            start <= end <= n,
            n == s@.len(),
            t == s@.subrange(start as int, n as int),
            spec_trim_end(t) == spec_trim_end(t.subrange(0, (end - start) as int)),
        decreases end - start,
    {
        proof {
            lemma_trim_end_step(t, (end - start) as int);
            assert(t.subrange(0, (end - start) as int - 1) =~= t.subrange(
                0,
                (end - 1 - start) as int,
            ));
        }
        end = end - 1;
    }
    let ghost u = t.subrange(0, (end - start) as int);
    assert(u =~= s@.subrange(start as int, end as int));
    assert(spec_trim_end(u) == u);
    s.substring_char(start, end)
}

/// The ASCII digit for `0 <= d < 10`.
pub open spec fn digit_char(d: int) -> char {
    (48 + d) as char
}

/// The decimal text of `n`, without leading zeros.
pub open spec fn spec_decimal(n: nat) -> Seq<char>
    decreases n,
{
    if n < 10 {
        seq![digit_char(n as int)]
    } else {
        spec_decimal(n / 10).push(digit_char((n % 10) as int))
    }
}

/// Appends the digit `d` to `out`.
pub fn push_digit(out: &mut String, d: u64)
    requires
        d < 10,
    ensures
        final(out)@ == old(out)@.push(digit_char(d as int)),
{
    let digits = "0123456789";
    proof {
        reveal_strlit("0123456789");
    }
    let du = d as usize;
    let one = digits.substring_char(du, du + 1);
    assert(one@ =~= seq![digits@[du as int]]);
    assert(digits@[du as int] == digit_char(d as int)) by {
        assert(digits@ =~= seq!['0', '1', '2', '3', '4', '5', '6', '7', '8', '9']);
    }
    out.append(one);
}

/// Appends the decimal text of `n` to `out`.
pub fn push_decimal(out: &mut String, n: u64)
    ensures
        final(out)@ == old(out)@ + spec_decimal(n as nat),
    decreases n,
{
    if n >= 10 {
        push_decimal(out, n / 10);
    }
    push_digit(out, n % 10);
    assert(out@ =~= old(out)@ + spec_decimal(n as nat));
}

/// Appends exactly two decimal digits of `n < 100` (zero padded).
pub fn push_two_digits(out: &mut String, n: u64)
    requires
        n < 100,
    ensures
        final(out)@ == old(out)@ + seq![digit_char((n / 10) as int), digit_char((n % 10) as int)],
{
    push_digit(out, n / 10);
    push_digit(out, n % 10);
    assert(out@ =~= old(out)@ + seq![digit_char((n / 10) as int), digit_char((n % 10) as int)]);
}

/// `s` with trailing Unicode whitespace removed.
pub fn trim_end_whitespace(s: &str) -> (r: &str)
    ensures
        r@ == spec_trim_end(s@),
{
    let n = s.unicode_len();
    let mut end: usize = n;
    assert(s@.subrange(0, n as int) =~= s@);
    while end > 0 && is_whitespace(s.get_char(end - 1))
        invariant
            end <= n,
            n == s@.len(),
            spec_trim_end(s@) == spec_trim_end(s@.subrange(0, end as int)),
        decreases end,
    {
        proof {
            lemma_trim_end_step(s@, end as int);
        }
        end = end - 1;
    }
    assert(spec_trim_end(s@.subrange(0, end as int)) == s@.subrange(0, end as int));
    s.substring_char(0, end)
}

/// Whether two strings hold the same characters.
pub fn str_eq(a: &str, b: &str) -> (r: bool)
    ensures
        r == (a@ == b@),
{
    let n = a.unicode_len();
    if n != b.unicode_len() {
        return false;
    }
    let mut i: usize = 0;
    while i < n
        invariant
            i <= n,
            n == a@.len(),
            n == b@.len(),
            forall|j: int| 0 <= j < i ==> a@[j] == b@[j],
        decreases n - i,
    {
        if a.get_char(i) != b.get_char(i) {
            return false;
        }
        i = i + 1;
    }
    assert(a@ =~= b@);
    true
}

/// The first position at or after `k` where `n` occurs in `h`.
pub open spec fn spec_find_from(h: Seq<char>, n: Seq<char>, k: int) -> Option<int>
    decreases h.len() + 1 - k,
{
    if k < 0 || k + n.len() > h.len() {
        None
    } else if h.subrange(k, k + n.len()) == n {
        Some(k)
    } else {
        spec_find_from(h, n, k + 1)
    }
}

/// The first position where `n` occurs in `h` (`str::find`, counted in
/// characters).
pub open spec fn spec_find(h: Seq<char>, n: Seq<char>) -> Option<int> {
    spec_find_from(h, n, 0)
}

/// When `n` occurs at `m` and at no earlier position, `spec_find` gives
/// `m`.
pub proof fn lemma_find_first(h: Seq<char>, n: Seq<char>, m: int)
    requires
        0 <= m,
        m + n.len() <= h.len(),
        h.subrange(m, m + n.len()) == n,
        forall|k: int| 0 <= k < m ==> #[trigger] h.subrange(k, k + n.len()) != n,
    ensures
        spec_find(h, n) == Some(m),
{
    lemma_find_from_first(h, n, m, 0);
}

proof fn lemma_find_from_first(h: Seq<char>, n: Seq<char>, m: int, k: int)
    requires
        0 <= k <= m,
        m + n.len() <= h.len(),
        h.subrange(m, m + n.len()) == n,
        forall|i: int| 0 <= i < m ==> #[trigger] h.subrange(i, i + n.len()) != n,
    ensures
        spec_find_from(h, n, k) == Some(m),
    decreases m - k,
{
    if k < m {
        assert(h.subrange(k, k + n.len()) != n);
        lemma_find_from_first(h, n, m, k + 1);
    }
}

/// Whether `n` occurs in `h` at position `k`.
fn occurs_at(h: &str, hn: usize, n: &str, nn: usize, k: usize) -> (r: bool)
    requires
        hn == h@.len(),
        nn == n@.len(),
        k + nn <= hn,
    ensures
        r == (h@.subrange(k as int, k + nn) == n@),
{
    let mut i: usize = 0;
    while i < nn
        invariant
            i <= nn,
            hn == h@.len(),
            nn == n@.len(),
            k + nn <= hn,
            forall|j: int| 0 <= j < i ==> h@[k + j] == n@[j],
        decreases nn - i,
    {
        if h.get_char(k + i) != n.get_char(i) {
            assert(h@.subrange(k as int, k + nn)[i as int] != n@[i as int]);
            return false;
        }
        i = i + 1;
    }
    assert(h@.subrange(k as int, k + nn) =~= n@);
    true
}

/// The character position of the first occurrence of `n` in `h`.
pub fn find_str(h: &str, n: &str) -> (r: Option<usize>)
    ensures
        match r {
            Some(i) => spec_find(h@, n@) == Some(i as int),
            None => spec_find(h@, n@) is None,
        },
{
    let hn = h.unicode_len();
    let nn = n.unicode_len();
    if nn > hn {
        return None;
    }
    let mut k: usize = 0;
    while k <= hn - nn
        invariant
            nn <= hn,
            hn == h@.len(),
            nn == n@.len(),
            k <= hn - nn + 1,
            spec_find(h@, n@) == spec_find_from(h@, n@, k as int),
        decreases hn - nn + 1 - k,
    {
        if occurs_at(h, hn, n, nn, k) {
            return Some(k);
        }
        if k == hn - nn {
            assert(spec_find_from(h@, n@, k as int + 1) is None);
            return None;
        }
        k = k + 1;
    }
    None
}

} // verus!
