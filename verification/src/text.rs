//! Character-level helpers on strings: building, decimal rendering, and
//! the few comparisons the explorer needs.

use vstd::prelude::*;

verus! {

pub assume_specification[ String::push ](s: &mut String, ch: char)
    ensures
        final(s)@ == old(s)@.push(ch),
;

pub assume_specification[ String::pop ](s: &mut String) -> (r: Option<char>)
    ensures
        old(s)@.len() > 0 ==> r == Some(old(s)@.last()) && final(s)@ == old(s)@.drop_last(),
        old(s)@.len() == 0 ==> r is None && final(s)@ == old(s)@,
;

/// The decimal digit character for `d` (0..=9).
pub open spec fn digit_char(d: int) -> char {
    ((d + 48) as u8) as char
}

/// The decimal rendering of `n`, without leading zeros (`"0"` for zero).
pub open spec fn decimal(n: nat) -> Seq<char>
    decreases n,
{
    if n < 10 {
        seq![digit_char(n as int)]
    } else {
        decimal(n / 10).push(digit_char((n % 10) as int))
    }
}

/// `s` preceded by as many `'0'` as needed to reach `width` characters.
pub open spec fn zero_pad(s: Seq<char>, width: nat) -> Seq<char> {
    if s.len() >= width {
        s
    } else {
        Seq::new((width - s.len()) as nat, |i: int| '0') + s
    }
}

/// The characters of `s`, in order.
pub fn chars_of(s: &str) -> (v: Vec<char>)
    ensures
        v@ == s@,
{
    let mut v: Vec<char> = Vec::new();
    for c in it: s.chars()
        invariant
            v@ == it.seq().take(it.index() as int),
    {
        v.push(c);
    }
    v
}

/// Appends the characters of `v` to `s`.
pub fn push_chars(s: &mut String, v: &[char])
    ensures
        final(s)@ == old(s)@ + v@,
{
    let mut i: usize = 0;
    while i < v.len()
        invariant
            i <= v.len(),
            s@ == old(s)@ + v@.take(i as int),
        decreases v.len() - i,
    {
        s.push(v[i]);
        i = i + 1;
        assert(v@.take(i as int) == v@.take(i - 1).push(v@[i - 1]));
    }
    assert(v@.take(v.len() as int) == v@);
}

/// Appends `t` to `s`.
pub fn push_str(s: &mut String, t: &str)
    ensures
        final(s)@ == old(s)@ + t@,
{
    let v = chars_of(t);
    push_chars(s, v.as_slice());
}

/// A new string holding the characters of `v`.
pub fn string_of(v: &[char]) -> (s: String)
    ensures
        s@ == v@,
{
    let mut s = String::new();
    push_chars(&mut s, v);
    s
}

/// A new string with the characters of `t`.
pub fn owned(t: &str) -> (s: String)
    ensures
        s@ == t@,
{
    let mut s = String::new();
    push_str(&mut s, t);
    s
}

/// Appends the decimal rendering of `n`.
pub fn push_decimal(s: &mut String, n: u64)
    ensures
        final(s)@ == old(s)@ + decimal(n as nat),
    decreases n,
{
    if n >= 10 {
        push_decimal(s, n / 10);
    }
    let d: u8 = (n % 10) as u8;
    s.push((d + 48) as char);
}

/// Appends the decimal rendering of `n`, zero-padded on the left to `width`.
pub fn push_padded(s: &mut String, n: u64, width: usize)
    ensures
        final(s)@ == old(s)@ + zero_pad(decimal(n as nat), width as nat),
{
    let mut digits = String::new();
    push_decimal(&mut digits, n);
    let v = chars_of(digits.as_str());
    let mut k: usize = v.len();
    let ghost start = s@;
    while k < width
        invariant
            v.len() <= k <= width || (k == v.len() && k >= width),
            s@ == start + Seq::new((k - v.len()) as nat, |i: int| '0'),
        decreases width - k,
    {
        s.push('0');
        k = k + 1;
        assert(s@ == start + Seq::new((k - v.len()) as nat, |i: int| '0'));
    }
    push_chars(s, v.as_slice());
}

/// Index of the last `c` in `f`, or -1.
pub open spec fn last_index(f: Seq<char>, c: char) -> int
    decreases f.len(),
{
    if f.len() == 0 {
        -1
    } else if f.last() == c {
        f.len() - 1
    } else {
        last_index(f.drop_last(), c)
    }
}

pub proof fn lemma_last_index(f: Seq<char>, c: char)
    ensures
        -1 <= last_index(f, c) < f.len(),
        last_index(f, c) >= 0 ==> f[last_index(f, c)] == c,
        forall|j: int| last_index(f, c) < j < f.len() ==> f[j] != c,
    decreases f.len(),
{
    if f.len() > 0 && f.last() != c {
        let g = f.drop_last();
        lemma_last_index(g, c);
        assert forall|j: int| last_index(f, c) < j < f.len() implies f[j] != c by {
            if j < f.len() - 1 {
                assert(f[j] == g[j]);
            }
        }
    }
}

/// Position of the last `c` in `f`, if any.
pub fn find_last(f: &[char], c: char) -> (r: Option<usize>)
    ensures
        match r {
            Some(k) => last_index(f@, c) == k && k < f@.len(),
            None => last_index(f@, c) == -1,
        },
{
    proof { lemma_last_index(f@, c); }
    let mut i: usize = f.len();
    assert(f@.take(i as int) == f@);
    while i > 0
        invariant
            i <= f.len(),
            last_index(f@, c) == last_index(f@.take(i as int), c),
        decreases i,
    {
        assert(f@.take(i as int).drop_last() == f@.take(i - 1));
        if f[i - 1] == c {
            return Some(i - 1);
        }
        i = i - 1;
    }
    None
}

/// The characters of `v` in `from..to`, as a new string.
pub fn slice_string(v: &[char], from: usize, to: usize) -> (r: String)
    requires
        from <= to <= v.len(),
    ensures
        r@ == v@.subrange(from as int, to as int),
{
    let mut s = String::new();
    let mut k: usize = from;
    while k < to
        invariant
            from <= k <= to <= v.len(),
            s@ == v@.subrange(from as int, k as int),
        decreases to - k,
    {
        s.push(v[k]);
        k = k + 1;
    }
    s
}

/// Index of the first `c` in `f`, or -1.
pub open spec fn first_index(f: Seq<char>, c: char) -> int
    decreases f.len(),
{
    if f.len() == 0 {
        -1
    } else if f[0] == c {
        0
    } else if first_index(f.drop_first(), c) < 0 {
        -1
    } else {
        1 + first_index(f.drop_first(), c)
    }
}

pub proof fn lemma_first_index(f: Seq<char>, c: char)
    ensures
        -1 <= first_index(f, c) < f.len(),
        first_index(f, c) >= 0 ==> f[first_index(f, c)] == c,
        forall|j: int| 0 <= j < f.len() && (first_index(f, c) < 0 || j < first_index(f, c)) ==> f[j] != c,
    decreases f.len(),
{
    if f.len() > 0 && f[0] != c {
        let g = f.drop_first();
        lemma_first_index(g, c);
        assert forall|j: int| 0 <= j < f.len() && (first_index(f, c) < 0 || j < first_index(f, c)) implies f[j] != c by {
            if j > 0 {
                assert(f[j] == g[j - 1]);
            }
        }
    }
}

/// Position of the first `c` in `f`, if any.
pub fn find_first(f: &[char], c: char) -> (r: Option<usize>)
    ensures
        match r {
            Some(k) => first_index(f@, c) == k && k < f@.len() && f@[k as int] == c,
            None => first_index(f@, c) == -1,
        },
{
    proof { lemma_first_index(f@, c); }
    let mut i: usize = 0;
    while i < f.len()
        invariant
            i <= f.len(),
            forall|j: int| 0 <= j < i ==> f@[j] != c,
            -1 <= first_index(f@, c) < f.len(),
            first_index(f@, c) >= 0 ==> f@[first_index(f@, c)] == c,
            forall|j: int| 0 <= j < f.len() && (first_index(f@, c) < 0 || j < first_index(f@, c)) ==> f@[j] != c,
        decreases f.len() - i,
    {
        if f[i] == c {
            return Some(i);
        }
        i = i + 1;
    }
    None
}

/// `p` is a prefix of `s`.
pub open spec fn has_prefix(s: Seq<char>, p: Seq<char>) -> bool {
    p.len() <= s.len() && s.take(p.len() as int) == p
}

/// Whether `p` is a prefix of `s`.
pub fn is_prefix(s: &[char], p: &[char]) -> (r: bool)
    ensures
        r == has_prefix(s@, p@),
{
    if p.len() > s.len() {
        return false;
    }
    let mut i: usize = 0;
    while i < p.len()
        invariant
            i <= p.len() <= s.len(),
            s@.take(i as int) == p@.take(i as int),
        decreases p.len() - i,
    {
        if s[i] != p[i] {
            assert(s@.take(p.len() as int)[i as int] != p@[i as int]);
            return false;
        }
        i = i + 1;
        assert(s@.take(i as int) =~= p@.take(i as int));
    }
    assert(p@.take(p.len() as int) =~= p@);
    true
}

/// `t` occurs in `s`.
pub open spec fn contains_text(s: Seq<char>, t: Seq<char>) -> bool {
    exists|i: int| 0 <= i && i + t.len() <= s.len() && #[trigger] s.subrange(i, i + t.len()) == t
}

/// Whether `t` occurs in `s`.
pub fn contains(s: &str, t: &str) -> (r: bool)
    ensures
        r == contains_text(s@, t@),
{
    let sv = chars_of(s);
    let tv = chars_of(t);
    if tv.len() > sv.len() {
        return false;
    }
    if tv.len() == 0 {
        assert(s@.subrange(0int, 0int + t@.len()) =~= t@);
        return true;
    }
    let n: usize = sv.len() - tv.len();
    let mut i: usize = 0;
    while i <= n
        invariant
            0 < tv.len() <= sv.len(),
            n == sv.len() - tv.len(),
            i <= n + 1,
            sv@ == s@,
            tv@ == t@,
            forall|j: int| 0 <= j < i && j + tv.len() <= sv.len() ==> #[trigger] sv@.subrange(j, j + tv.len()) != tv@,
        decreases sv.len() - i,
    {
        let mut k: usize = 0;
        let mut same = true;
        assert(sv@.subrange(i as int, i as int) =~= tv@.take(0));
        while k < tv.len()
            invariant
                i + tv.len() <= sv.len(),
                k <= tv.len(),
                same == (sv@.subrange(i as int, i + k) == tv@.take(k as int)),
            decreases tv.len() - k,
        {
            if sv[i + k] != tv[k] {
                if same {
                    assert(sv@.subrange(i as int, i + k + 1)[k as int] != tv@.take(k + 1)[k as int]);
                }
                same = false;
            } else if same {
                assert(sv@.subrange(i as int, i + k + 1) =~= sv@.subrange(i as int, i + k).push(sv@[i + k]));
                assert(tv@.take(k + 1) =~= tv@.take(k as int).push(tv@[k as int]));
            }
            k = k + 1;
            if !same {
                assert(sv@.subrange(i as int, i + k) != tv@.take(k as int)) by {
                    if sv@.subrange(i as int, i + k) == tv@.take(k as int) {
                        assert(sv@.subrange(i as int, i + k - 1) =~= sv@.subrange(i as int, i + k).take(k - 1));
                        assert(tv@.take(k - 1) =~= tv@.take(k as int).take(k - 1));
                    }
                }
            }
        }
        assert(tv@.take(tv.len() as int) =~= tv@);
        if same {
            return true;
        }
        i = i + 1;
    }
    proof {
        assert forall|j: int| 0 <= j && j + t@.len() <= s@.len() implies #[trigger] s@.subrange(j, j + t@.len()) != t@ by {
            assert(j < i);
        }
    }
    false
}

/// `p` ends `s`.
pub open spec fn has_suffix(s: Seq<char>, p: Seq<char>) -> bool {
    p.len() <= s.len() && s.skip(s.len() - p.len()) == p
}

/// Whether `p` ends `s`.
pub fn ends_with(s: &str, p: &str) -> (r: bool)
    ensures
        r == has_suffix(s@, p@),
{
    let sv = chars_of(s);
    let pv = chars_of(p);
    if pv.len() > sv.len() {
        return false;
    }
    let off: usize = sv.len() - pv.len();
    let mut i: usize = 0;
    while i < pv.len()
        invariant
            off + pv.len() == sv.len(),
            i <= pv.len(),
            sv@ == s@,
            pv@ == p@,
            forall|j: int| 0 <= j < i ==> sv@[off + j] == pv@[j],
        decreases pv.len() - i,
    {
        if sv[off + i] != pv[i] {
            assert(sv@.skip(off as int)[i as int] != pv@[i as int]);
            return false;
        }
        i = i + 1;
    }
    assert(sv@.skip(off as int) =~= pv@);
    true
}

} // verus!
