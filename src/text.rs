use vstd::prelude::*;

use crate::config::Bucket;

verus! {

/// The character of a decimal digit.
pub open spec fn digit_char(d: nat) -> char {
    if d == 0 {
        '0'
    } else if d == 1 {
        '1'
    } else if d == 2 {
        '2'
    } else if d == 3 {
        '3'
    } else if d == 4 {
        '4'
    } else if d == 5 {
        '5'
    } else if d == 6 {
        '6'
    } else if d == 7 {
        '7'
    } else if d == 8 {
        '8'
    } else {
        '9'
    }
}

/// The decimal digits of `n`, most significant first, without leading zeros.
pub open spec fn decimal(n: nat) -> Seq<char>
    decreases n,
{
    if n < 10 {
        seq![digit_char(n)]
    } else {
        decimal(n / 10) + seq![digit_char(n % 10)]
    }
}

/// The first entry of `entries` named `name`, if any.
pub open spec fn lookup_bucket(entries: Seq<(String, Bucket)>, name: Seq<char>) -> Option<Bucket>
    decreases entries.len(),
{
    if entries.len() == 0 {
        None
    } else if entries[0].0@ == name {
        Some(entries[0].1)
    } else {
        lookup_bucket(entries.drop_first(), name)
    }
}

/// Skipping entries with other names does not change the lookup.
pub proof fn lemma_lookup_skip(entries: Seq<(String, Bucket)>, name: Seq<char>, i: int)
    requires
        0 <= i <= entries.len(),
        forall|k: int| 0 <= k < i ==> entries[k].0@ != name,
    ensures
        lookup_bucket(entries, name) == lookup_bucket(entries.skip(i), name),
    decreases i,
{
    if i > 0 {
        assert(entries.drop_first().skip(i - 1) =~= entries.skip(i));
        assert forall|k: int| 0 <= k < i - 1 implies entries.drop_first()[k].0@ != name by {
            assert(entries.drop_first()[k] == entries[k + 1]);
        }
        lemma_lookup_skip(entries.drop_first(), name, i - 1);
    } else {
        assert(entries.skip(0) =~= entries);
    }
}

/// The text of one decimal digit.
fn digit_text(d: u32) -> (r: &'static str)
    requires
        d < 10,
    ensures
        r@ == seq![digit_char(d as nat)],
{
    proof {
        reveal_strlit("0");
        reveal_strlit("1");
        reveal_strlit("2");
        reveal_strlit("3");
        reveal_strlit("4");
        reveal_strlit("5");
        reveal_strlit("6");
        reveal_strlit("7");
        reveal_strlit("8");
        reveal_strlit("9");
    }
    if d == 0 {
        "0"
    } else if d == 1 {
        "1"
    } else if d == 2 {
        "2"
    } else if d == 3 {
        "3"
    } else if d == 4 {
        "4"
    } else if d == 5 {
        "5"
    } else if d == 6 {
        "6"
    } else if d == 7 {
        "7"
    } else if d == 8 {
        "8"
    } else {
        "9"
    }
}

/// Appends the decimal digits of `n` to `s`.
pub fn push_decimal(s: &mut String, n: u64)
    ensures
        final(s)@ == old(s)@ + decimal(n as nat),
    decreases n,
{
    if n < 10 {
        s.append(digit_text(n as u32));
    } else {
        push_decimal(s, n / 10);
        s.append(digit_text((n % 10) as u32));
        assert(s@ =~= old(s)@ + decimal(n as nat));
    }
}

/// Whether `s` begins with `prefix`, character by character.
pub fn starts_with(s: &str, prefix: &str) -> (r: bool)
    ensures
        r == (prefix@.len() <= s@.len() && s@.subrange(0, prefix@.len() as int) == prefix@),
{
    let n = prefix.unicode_len();
    let m = s.unicode_len();
    if n > m {
        return false;
    }
    let mut i: usize = 0;
    while i < n
        invariant
            n == prefix@.len(),
            m == s@.len(),
            n <= m,
            i <= n,
            forall|k: int| 0 <= k < i ==> s@[k] == prefix@[k],
        decreases n - i,
    {
        if s.get_char(i) != prefix.get_char(i) {
            assert(s@.subrange(0, n as int)[i as int] != prefix@[i as int]);
            return false;
        }
        i = i + 1;
    }
    assert(s@.subrange(0, n as int) =~= prefix@);
    true
}

/// Whether the last character of `s` is `c`.
pub fn ends_with_char(s: &str, c: char) -> (r: bool)
    ensures
        r == (s@.len() > 0 && s@.last() == c),
{
    let n = s.unicode_len();
    if n == 0 {
        false
    } else {
        s.get_char(n - 1) == c
    }
}

/// Lexicographic order on character sequences, by code point.
pub open spec fn seq_less(a: Seq<char>, b: Seq<char>) -> bool
    decreases a.len(),
{
    if b.len() == 0 {
        false
    } else if a.len() == 0 {
        true
    } else if a[0] != b[0] {
        (a[0] as u32) < (b[0] as u32)
    } else {
        seq_less(a.drop_first(), b.drop_first())
    }
}

/// Whether `a` comes strictly before `b` in code-point order.
pub fn text_less(a: &str, b: &str) -> (r: bool)
    ensures
        r == seq_less(a@, b@),
{
    let n = a.unicode_len();
    let m = b.unicode_len();
    let mut i: usize = 0;
    assert(a@.skip(0) =~= a@);
    assert(b@.skip(0) =~= b@);
    while i < n && i < m
        invariant
            n == a@.len(),
            m == b@.len(),
            i <= n,
            i <= m,
            forall|k: int| 0 <= k < i ==> a@[k] == b@[k],
            seq_less(a@, b@) == seq_less(a@.skip(i as int), b@.skip(i as int)),
        decreases n - i,
    {
        let x = a.get_char(i);
        let y = b.get_char(i);
        proof {
            assert(a@.skip(i as int)[0] == x);
            assert(b@.skip(i as int)[0] == y);
        }
        if x != y {
            return (x as u32) < (y as u32);
        }
        proof {
            assert(a@.skip(i as int).drop_first() =~= a@.skip(i + 1));
            assert(b@.skip(i as int).drop_first() =~= b@.skip(i + 1));
        }
        i = i + 1;
    }
    m > i
}

/// Whether `s` ends with `suffix`, character by character.
pub fn ends_with(s: &str, suffix: &str) -> (r: bool)
    ensures
        r == (suffix@.len() <= s@.len() && s@.subrange(s@.len() - suffix@.len(), s@.len() as int)
            == suffix@),
{
    let n = suffix.unicode_len();
    let m = s.unicode_len();
    if n > m {
        return false;
    }
    let d = m - n;
    let mut i: usize = 0;
    while i < n
        invariant
            n == suffix@.len(),
            m == s@.len(),
            d == m - n,
            i <= n,
            forall|k: int| 0 <= k < i ==> s@[d + k] == suffix@[k],
        decreases n - i,
    {
        if s.get_char(d + i) != suffix.get_char(i) {
            assert(s@.subrange(d as int, m as int)[i as int] != suffix@[i as int]);
            return false;
        }
        i = i + 1;
    }
    assert(s@.subrange(d as int, m as int) =~= suffix@);
    true
}

/// Whether `c` occurs in `s`.
pub fn has_char(s: &str, c: char) -> (r: bool)
    ensures
        r == s@.contains(c),
{
    let n = s.unicode_len();
    let mut i: usize = 0;
    while i < n
        invariant
            n == s@.len(),
            i <= n,
            forall|k: int| 0 <= k < i ==> s@[k] != c,
        decreases n - i,
    {
        if s.get_char(i) == c {
            return true;
        }
        i = i + 1;
    }
    false
}

/// Whether `a` and `b` hold the same text.
pub fn same_text(a: &str, b: &str) -> (r: bool)
    ensures
        r == (a@ == b@),
{
    String::from_str(a) == String::from_str(b)
}

} // verus!
