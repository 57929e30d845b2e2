use vstd::prelude::*;
use crate::scan::is_digit;
use crate::scan::digit_char;

verus! {

/// First position at or after `i` holding a non-digit character (or the end).
pub open spec fn spec_digits_end(s: Seq<char>, i: int) -> int
    decreases s.len() - i,
{
    if i < 0 || i >= s.len() {
        i
    } else if is_digit(s[i]) {
        spec_digits_end(s, i + 1)
    } else {
        i
    }
}

/// Numeric value of the digit run `s[i..j]`.
pub open spec fn spec_digits_val(s: Seq<char>, i: int, j: int) -> int
    decreases j - i,
{
    if i >= j {
        0
    } else {
        spec_digits_val(s, i, j - 1) * 10 + (s[j - 1] as u32 - 48)
    }
}

/// A numeric component that does not fit the machine word has failed to
/// parse and counts as zero.
pub open spec fn fit_u64(v: int) -> int {
    if 0 <= v <= u64::MAX as int {
        v
    } else {
        0
    }
}

/// Milliseconds contributed by the fraction digits `s[a..b]`: the first three
/// digits weighted by 100, 10 and 1; later digits are rounded down away.
pub open spec fn spec_frac_ms(s: Seq<char>, a: int, b: int) -> int {
    (if a < b {
        (s[a] as u32 - 48) * 100
    } else {
        0
    }) + (if a + 1 < b {
        (s[a + 1] as u32 - 48) * 10
    } else {
        0
    }) + (if a + 2 < b {
        (s[a + 2] as u32 - 48) as int
    } else {
        0
    })
}

/// One left-to-right pass over the token from position `i`, classifying each
/// unit suffix exactly once (a two-character millisecond-style suffix is
/// recognised before the one-character minute or second suffixes, and such a
/// token contributes nothing). `m` and `sc` carry the first minutes component
/// (whole minutes) and the first seconds component (milliseconds) found so
/// far; later components of the same unit are ignored.
pub open spec fn spec_dur_scan(s: Seq<char>, i: int, m: Option<int>, sc: Option<int>) -> (
    Option<int>,
    Option<int>,
)
    decreases s.len() - i,
{
    if i < 0 || i >= s.len() {
        (m, sc)
    } else if !is_digit(s[i]) {
        spec_dur_scan(s, i + 1, m, sc)
    } else {
        // a digit run always extends past its first digit and stays inside
        // the token; the fallbacks only keep the recursion well founded
        let j0 = spec_digits_end(s, i);
        let j = if i < j0 && j0 <= s.len() {
            j0
        } else {
            i + 1
        };
        let frac = j + 1 < s.len() && s[j] == '.' && is_digit(s[j + 1]);
        let k0 = if frac {
            spec_digits_end(s, j + 1)
        } else {
            j
        };
        let k = if j < k0 && k0 <= s.len() {
            k0
        } else {
            j
        };
        if k + 1 < s.len() && s[k] == 'm' && s[k + 1] == 's' {
            spec_dur_scan(s, k + 2, m, sc)
        } else if k < s.len() && s[k] == 'm' {
            let mv = if m is Some {
                m
            } else if frac {
                // a fractional count fails to parse as whole minutes
                Option::Some(0int)
            } else {
                Option::Some(fit_u64(spec_digits_val(s, i, j)))
            };
            spec_dur_scan(s, k + 1, mv, sc)
        } else if k < s.len() && s[k] == 's' {
            let sv = if sc is Some {
                sc
            } else {
                Option::Some(
                    fit_u64(spec_digits_val(s, i, j)) * 1000 + if frac {
                        spec_frac_ms(s, j + 1, k)
                    } else {
                        0
                    },
                )
            };
            spec_dur_scan(s, k + 1, m, sv)
        } else {
            spec_dur_scan(s, k, m, sc)
        }
    }
}

/// Millisecond count denoted by the whole token: minutes contribute
/// `minutes * 60000`, seconds contribute `round_down(seconds * 1000)`, an
/// absent component contributes zero, and the sum saturates at `u64::MAX`.
pub open spec fn spec_parse_duration(s: Seq<char>) -> int {
    let (m, sc) = spec_dur_scan(s, 0, Option::None, Option::None);
    let total = 60000 * (if m is Some {
        m->0
    } else {
        0
    }) + (if sc is Some {
        sc->0
    } else {
        0
    });
    if total > u64::MAX as int {
        u64::MAX as int
    } else {
        total
    }
}

/// End of the digit run starting at `from`, with every skipped character known
/// to be a digit.
fn digits_end(s: &str, from: usize) -> (r: usize)
    requires
        from <= s@.len(),
    ensures
        r == spec_digits_end(s@, from as int),
        from <= r <= s@.len(),
        forall|t: int| from <= t < r ==> is_digit(s@[t]),
        r < s@.len() ==> !is_digit(s@[r as int]),
{
    let sl: usize = s.unicode_len();
    let mut i: usize = from;
    loop
        invariant
            from <= i <= sl,
            sl == s@.len(),
            spec_digits_end(s@, from as int) == spec_digits_end(s@, i as int),
            forall|t: int| from <= t < i ==> is_digit(s@[t]),
        decreases sl - i,
    {
        if i == sl {
            return i;
        }
        if !digit_char(s.get_char(i)) {
            return i;
        }
        i += 1;
    }
}

/// Value of the digit run `s[i..j]` if it fits the machine word.
fn digits_val_u64(s: &str, i: usize, j: usize) -> (r: Option<u64>)
    requires
        i <= j <= s@.len(),
        forall|t: int| i <= t < j ==> is_digit(s@[t]),
    ensures
        match r {
            Option::Some(v) => v as int == spec_digits_val(s@, i as int, j as int),
            Option::None => spec_digits_val(s@, i as int, j as int) > u64::MAX as int,
        },
{
    let mut acc: u64 = 0;
    let mut over: bool = false;
    let mut t: usize = i;
    while t < j
        invariant
            i <= t <= j <= s@.len(),
            forall|k: int| i <= k < j ==> is_digit(s@[k]),
            !over ==> acc as int == spec_digits_val(s@, i as int, t as int),
            over ==> spec_digits_val(s@, i as int, t as int) > u64::MAX as int,
        decreases j - t,
    {
        let c = s.get_char(t);
        assert(is_digit(s@[t as int]));
        let d: u64 = (c as u32 - 48) as u64;
        assert(d <= 9);
        proof {
            lemma_digits_val_nonneg(s@, i as int, t as int);
        }
        if over || acc > (u64::MAX - d) / 10 {
            proof {
                if !over {
                    assert(acc as int * 10 + d as int > u64::MAX as int) by (nonlinear_arith)
                        requires
                            acc as int > (u64::MAX as int - d as int) / 10,
                            0 <= d as int <= 9,
                    ;
                }
                assert(spec_digits_val(s@, i as int, t + 1) == spec_digits_val(
                    s@,
                    i as int,
                    t as int,
                ) * 10 + d as int);
                if over {
                    assert(spec_digits_val(s@, i as int, t as int) * 10 > u64::MAX as int * 10)
                        by (nonlinear_arith)
                        requires
                            spec_digits_val(s@, i as int, t as int) > u64::MAX as int,
                    ;
                }
            }
            over = true;
        } else {
            proof {
                assert(acc as int * 10 + d as int <= u64::MAX as int) by (nonlinear_arith)
                    requires
                        acc as int <= (u64::MAX as int - d as int) / 10,
                        0 <= d as int <= 9,
                ;
            }
            acc = acc * 10 + d;
        }
        t += 1;
    }
    if over {
        Option::None
    } else {
        Option::Some(acc)
    }
}

/// The digit value of a well-formed digit run is never negative.
proof fn lemma_digits_val_nonneg(s: Seq<char>, i: int, j: int)
    requires
        j <= s.len(),
        forall|t: int| i <= t < j ==> is_digit(s[t]),
    ensures
        spec_digits_val(s, i, j) >= 0,
    decreases j - i,
{
    if i < j {
        lemma_digits_val_nonneg(s, i, j - 1);
        assert(is_digit(s[j - 1]));
        assert(spec_digits_val(s, i, j - 1) * 10 >= 0) by (nonlinear_arith)
            requires
                spec_digits_val(s, i, j - 1) >= 0,
        ;
    }
}

/// Millisecond count denoted by a human-readable elapsed-time token such as
/// `1m13.54s`, `45.2s` or `0s`. A malformed numeric component degrades to
/// zero rather than failing; the result saturates at `u64::MAX`.
pub fn parse_duration(s: &str) -> (r: u64)
    ensures
        r as int == spec_parse_duration(s@),
{
    let sl: usize = s.unicode_len();
    let mut i: usize = 0;
    let mut m_set: bool = false;
    let mut m_val: u64 = 0;
    let mut s_set: bool = false;
    let mut s_val: u64 = 0;
    let mut s_fr: u64 = 0;
    let ghost mut m_opt = Option::<int>::None;
    let ghost mut s_opt = Option::<int>::None;
    while i < sl
        invariant
            i <= sl,
            sl == s@.len(),
            m_set <==> m_opt is Some,
            s_set <==> s_opt is Some,
            m_set ==> m_opt->0 == m_val as int,
            s_set ==> s_opt->0 == s_val as int * 1000 + s_fr as int && s_fr <= 999,
            !m_set ==> m_val == 0,
            !s_set ==> s_val == 0 && s_fr == 0,
            spec_dur_scan(s@, 0, Option::None, Option::None) == spec_dur_scan(
                s@,
                i as int,
                m_opt,
                s_opt,
            ),
        decreases sl - i,
    {
        let c = s.get_char(i);
        if !digit_char(c) {
            i += 1;
            continue ;
        }
        let j = digits_end(s, i);
        assert(i < j);
        let frac = sl - j > 1 && s.get_char(j) == '.' && digit_char(s.get_char(j + 1));
        let k = if frac {
            digits_end(s, j + 1)
        } else {
            j
        };
        let ghost old_i = i as int;
        if sl - k > 1 && s.get_char(k) == 'm' && s.get_char(k + 1) == 's' {
            // a millisecond-style suffix: one token, no contribution
            i = k + 2;
        } else if k < sl && s.get_char(k) == 'm' {
            if !m_set {
                m_set = true;
                m_val = if frac {
                    0
                } else {
                    match digits_val_u64(s, i, j) {
                        Option::Some(v) => v,
                        Option::None => 0,
                    }
                };
                proof {
                    m_opt = Option::Some(m_val as int);
                }
            }
            i = k + 1;
        } else if k < sl && s.get_char(k) == 's' {
            if !s_set {
                s_set = true;
                s_val = match digits_val_u64(s, i, j) {
                    Option::Some(v) => v,
                    Option::None => 0,
                };
                s_fr = if frac {
                    frac_digits(s, j + 1, k)
                } else {
                    0
                };
                proof {
                    s_opt = Option::Some(s_val as int * 1000 + s_fr as int);
                }
            }
            i = k + 1;
        } else {
            i = k;
        }
    }
    proof {
        assert(spec_dur_scan(s@, i as int, m_opt, s_opt) == (m_opt, s_opt));
    }
    let total: u128 = 60000u128 * (m_val as u128) + (s_val as u128) * 1000 + (s_fr as u128);
    let ghost mc = if m_opt is Some {
        m_opt->0
    } else {
        0int
    };
    let ghost sc = if s_opt is Some {
        s_opt->0
    } else {
        0int
    };
    assert(total as int == 60000 * mc + sc);
    if total > u64::MAX as u128 {
        u64::MAX
    } else {
        total as u64
    }
}

/// The first three fraction digits of `s[a..b]` as a milliseconds weight.
fn frac_digits(s: &str, a: usize, b: usize) -> (r: u64)
    requires
        a <= b <= s@.len(),
        forall|t: int| a <= t < b ==> is_digit(s@[t]),
    ensures
        r as int == spec_frac_ms(s@, a as int, b as int),
        r <= 999,
{
    let mut r: u64 = 0;
    if a < b {
        r += ((s.get_char(a) as u32 - 48) as u64) * 100;
    }
    if b > a && b - a >= 2 {
        r += ((s.get_char(a + 1) as u32 - 48) as u64) * 10;
    }
    if b > a && b - a >= 3 {
        r += (s.get_char(a + 2) as u32 - 48) as u64;
    }
    r
}

} // verus!
