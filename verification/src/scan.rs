use vstd::prelude::*;

verus! {

/// Whitespace as the row grammar understands it (the ASCII whitespace class).
pub open spec fn is_space(c: char) -> bool {
    c == ' ' || c == '\t' || c == '\n' || c == '\r' || c == '\u{b}' || c == '\u{c}'
}

/// Decimal digit test.
pub open spec fn is_digit(c: char) -> bool {
    '0' <= c && c <= '9'
}

/// The pattern `pat` occurs in `s` starting at position `i`.
pub open spec fn matches_at(s: Seq<char>, i: int, pat: Seq<char>) -> bool {
    0 <= i && i + pat.len() <= s.len() && s.subrange(i, i + pat.len()) == pat
}

/// Position of the first occurrence of `pat` in `s` at or after `i`.
pub open spec fn spec_find(s: Seq<char>, i: int, pat: Seq<char>) -> Option<int>
    decreases s.len() - i,
{
    if i < 0 || i > s.len() {
        Option::None
    } else if matches_at(s, i, pat) {
        Option::Some(i)
    } else if i == s.len() {
        Option::None
    } else {
        spec_find(s, i + 1, pat)
    }
}

/// `pat` occurs somewhere in `s`.
pub open spec fn contains_seq(s: Seq<char>, pat: Seq<char>) -> bool {
    spec_find(s, 0, pat) is Some
}

/// First position at or after `i` holding a non-whitespace character
/// (or the end of `s`).
pub open spec fn spec_skip_ws(s: Seq<char>, i: int) -> int
    decreases s.len() - i,
{
    if i < 0 || i >= s.len() {
        i
    } else if is_space(s[i]) {
        spec_skip_ws(s, i + 1)
    } else {
        i
    }
}

/// First position at or after `i` holding `'<'` (or the end of `s`).
pub open spec fn spec_until_lt(s: Seq<char>, i: int) -> int
    decreases s.len() - i,
{
    if i < 0 || i >= s.len() {
        i
    } else if s[i] == '<' {
        i
    } else {
        spec_until_lt(s, i + 1)
    }
}

/// New end position after dropping trailing whitespace from `s[..i]`.
pub open spec fn spec_rskip_ws(s: Seq<char>, i: int) -> int
    decreases i,
{
    if i <= 0 || i > s.len() {
        if i > s.len() {
            i
        } else {
            0
        }
    } else if is_space(s[i - 1]) {
        spec_rskip_ws(s, i - 1)
    } else {
        i
    }
}

/// `s` with leading and trailing whitespace removed.
pub open spec fn spec_trim(s: Seq<char>) -> Seq<char> {
    let a = spec_skip_ws(s, 0);
    let b = spec_rskip_ws(s, s.len() as int);
    if a <= b {
        s.subrange(a, b)
    } else {
        Seq::empty()
    }
}

/// Number of `':'` characters in `s`.
pub open spec fn colon_count(s: Seq<char>) -> int
    decreases s.len(),
{
    if s.len() == 0 {
        0
    } else {
        colon_count(s.drop_last()) + if s.last() == ':' { 1int } else { 0int }
    }
}

pub fn space_char(c: char) -> (r: bool)
    ensures
        r == is_space(c),
{
    c == ' ' || c == '\t' || c == '\n' || c == '\r' || c == '\u{b}' || c == '\u{c}'
}

pub fn digit_char(c: char) -> (r: bool)
    ensures
        r == is_digit(c),
{
    '0' <= c && c <= '9'
}

/// Whether `pat` occurs in `s` exactly at position `i`.
pub fn starts_with_at(s: &str, i: usize, pat: &str) -> (r: bool)
    ensures
        r == matches_at(s@, i as int, pat@),
{
    let sl: usize = s.unicode_len();
    let n: usize = pat.unicode_len();
    if i > sl || n > sl - i {
        return false;
    }
    let mut k: usize = 0;
    while k < n
        invariant
            i + n <= s@.len(),
            i + n <= usize::MAX,
            n == pat@.len(),
            k <= n,
            forall|j: int| 0 <= j < k ==> s@[i + j] == pat@[j],
        decreases n - k,
    {
        if s.get_char(i + k) != pat.get_char(k) {
            assert(s@.subrange(i as int, i + n) != pat@) by {
                assert(s@.subrange(i as int, i + n)[k as int] != pat@[k as int]);
            }
            return false;
        }
        k += 1;
    }
    assert(s@.subrange(i as int, i + n) =~= pat@);
    true
}

/// Position of the first occurrence of `pat` at or after `from`.
pub fn find_from(s: &str, from: usize, pat: &str) -> (r: Option<usize>)
    requires
        from <= s@.len(),
    ensures
        match r {
            Option::Some(j) => from <= j <= s@.len() && s@.len() <= usize::MAX && matches_at(
                s@,
                j as int,
                pat@,
            ) && spec_find(s@, from as int, pat@) == Option::Some(j as int),
            Option::None => spec_find(s@, from as int, pat@) is None,
        },
{
    let sl: usize = s.unicode_len();
    let mut i: usize = from;
    loop
        invariant
            from <= i <= sl,
            sl == s@.len(),
            spec_find(s@, from as int, pat@) == spec_find(s@, i as int, pat@),
        decreases sl - i,
    {
        if starts_with_at(s, i, pat) {
            return Option::Some(i);
        }
        if i == sl {
            return Option::None;
        }
        i += 1;
    }
}

/// First non-whitespace position at or after `from`.
pub fn skip_ws(s: &str, from: usize) -> (r: usize)
    requires
        from <= s@.len(),
    ensures
        r == spec_skip_ws(s@, from as int),
        from <= r <= s@.len(),
{
    let sl: usize = s.unicode_len();
    let mut i: usize = from;
    loop
        invariant
            from <= i <= sl,
            sl == s@.len(),
            spec_skip_ws(s@, from as int) == spec_skip_ws(s@, i as int),
        decreases sl - i,
    {
        if i == sl {
            return i;
        }
        if !space_char(s.get_char(i)) {
            return i;
        }
        i += 1;
    }
}

/// First position at or after `from` holding `'<'` (or the end).
pub fn until_lt(s: &str, from: usize) -> (r: usize)
    requires
        from <= s@.len(),
    ensures
        r == spec_until_lt(s@, from as int),
        from <= r <= s@.len(),
{
    let sl: usize = s.unicode_len();
    let mut i: usize = from;
    loop
        invariant
            from <= i <= sl,
            sl == s@.len(),
            spec_until_lt(s@, from as int) == spec_until_lt(s@, i as int),
        decreases sl - i,
    {
        if i == sl {
            return i;
        }
        if s.get_char(i) == '<' {
            return i;
        }
        i += 1;
    }
}

/// The characters `s[from..to]` as an owned string.
pub fn substring_string(s: &str, from: usize, to: usize) -> (r: String)
    requires
        from <= to <= s@.len(),
    ensures
        r@ == s@.subrange(from as int, to as int),
{
    s.substring_char(from, to).to_owned()
}

/// Dropping trailing whitespace never moves the end position forward.
proof fn lemma_rskip_le(s: Seq<char>, i: int)
    requires
        0 <= i <= s.len(),
    ensures
        0 <= spec_rskip_ws(s, i) <= i,
    decreases i,
{
    if i > 0 && is_space(s[i - 1]) {
        lemma_rskip_le(s, i - 1);
    }
}

/// The characters `s[from..to]`, trimmed of surrounding whitespace,
/// as an owned string.
pub fn trim_substring(s: &str, from: usize, to: usize) -> (r: String)
    requires
        from <= to <= s@.len(),
    ensures
        r@ == spec_trim(s@.subrange(from as int, to as int)),
{
    let ghost sub = s@.subrange(from as int, to as int);
    let mut a: usize = from;
    while a < to && space_char(s.get_char(a))
        invariant
            from <= a <= to <= s@.len(),
            sub == s@.subrange(from as int, to as int),
            spec_skip_ws(sub, 0) == spec_skip_ws(sub, a - from),
        decreases to - a,
    {
        assert(sub[a - from] == s@[a as int]);
        a += 1;
    }
    assert(spec_skip_ws(sub, 0) == a - from) by {
        if a < to {
            assert(sub[a - from] == s@[a as int]);
        }
    }
    let mut b: usize = to;
    while b > a && space_char(s.get_char(b - 1))
        invariant
            from <= a <= b <= to <= s@.len(),
            sub == s@.subrange(from as int, to as int),
            spec_rskip_ws(sub, (to - from) as int) == spec_rskip_ws(sub, (b - from) as int),
        decreases b,
    {
        assert(sub[b - from - 1] == s@[b - 1]);
        b -= 1;
    }
    let ghost bv = spec_rskip_ws(sub, (to - from) as int);
    let r = substring_string(s, a, b);
    proof {
        if b > a {
            // the loop stopped on a non-space character, so the trimmed end is here
            assert(sub[b - from - 1] == s@[b - 1]);
            assert(bv == b - from);
            assert(r@ =~= spec_trim(sub)) by {
                assert(forall|j: int| 0 <= j < b - a ==> sub.subrange(a - from, b - from)[j]
                    == s@.subrange(a as int, b as int)[j]);
                assert(sub.subrange(a - from, b - from) =~= s@.subrange(a as int, b as int));
            }
        } else {
            // everything from the first non-space position on is whitespace:
            // both sides are the empty sequence
            assert(bv == spec_rskip_ws(sub, (a - from) as int));
            lemma_rskip_le(sub, (a - from) as int);
            assert(r@ =~= Seq::<char>::empty());
            if (a - from) as int <= bv {
                assert(bv == a - from);
                assert(spec_trim(sub) =~= Seq::<char>::empty());
            }
        }
    }
    r
}

/// Equality of the character contents of two strings.
pub fn str_eq(a: &str, b: &str) -> (r: bool)
    ensures
        r == (a@ == b@),
{
    let n: usize = a.unicode_len();
    if n != b.unicode_len() {
        return false;
    }
    let r = starts_with_at(a, 0, b);
    proof {
        assert(a@.subrange(0, n as int) =~= a@);
    }
    r
}

/// Whether `pat` occurs anywhere in `s`.
pub fn contains_str(s: &str, pat: &str) -> (r: bool)
    ensures
        r == contains_seq(s@, pat@),
{
    match find_from(s, 0, pat) {
        Option::Some(_) => true,
        Option::None => false,
    }
}

/// Number of colons in `s`.
pub fn count_colons(s: &str) -> (r: usize)
    ensures
        r == colon_count(s@),
{
    let n: usize = s.unicode_len();
    let mut i: usize = 0;
    let mut c: usize = 0;
    while i < n
        invariant
            i <= n,
            n == s@.len(),
            c <= i,
            c == colon_count(s@.subrange(0, i as int)),
        decreases n - i,
    {
        let ghost pre = s@.subrange(0, i as int);
        let ghost post = s@.subrange(0, i + 1);
        assert(post.drop_last() =~= pre);
        assert(post.last() == s@[i as int]);
        if s.get_char(i) == ':' {
            c += 1;
        }
        i += 1;
    }
    proof {
        assert(s@.subrange(0, n as int) =~= s@);
    }
    c
}

} // verus!
