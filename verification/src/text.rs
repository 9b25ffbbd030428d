//! Verified text helpers: decimal rendering, zero padding, literal
//! find-replace and length-capped truncation.
//!
//! Everything here is pure; the specs are stated over `Seq<char>` views.

use vstd::prelude::*;
use vstd::string::*;

verus! {

/// The decimal digit character for one digit value.
pub open spec fn digit_char(d: int) -> char {
    if d == 0 {
        '0'
    } else if d == 1 {
        '1'
    } else if d == 2 {
        '2'
    } else if d == 3 {
        '3'
    } else if d == 4 {
        '4'
    } else if d == 5 {
        '5'
    } else if d == 6 {
        '6'
    } else if d == 7 {
        '7'
    } else if d == 8 {
        '8'
    } else {
        '9'
    }
}

/// The decimal rendering of a natural number, without sign or padding.
pub open spec fn dec_chars(n: nat) -> Seq<char>
    decreases n,
{
    if n < 10 {
        seq![digit_char(n as int)]
    } else {
        dec_chars(n / 10) + seq![digit_char((n % 10) as int)]
    }
}

/// The decimal rendering of an integer: a leading `-` for negatives.
pub open spec fn int_chars(n: int) -> Seq<char> {
    if n < 0 {
        seq!['-'] + dec_chars((-n) as nat)
    } else {
        dec_chars(n as nat)
    }
}

/// `s` left-padded with `'0'` up to width `w`; unchanged when already as wide.
pub open spec fn zero_pad(s: Seq<char>, w: int) -> Seq<char> {
    if s.len() >= w {
        s
    } else {
        Seq::new((w - s.len()) as nat, |i: int| '0') + s
    }
}

fn digit_to_str(d: u64) -> (r: &'static str)
    requires
        d < 10,
    ensures
        r@ == seq![digit_char(d as int)],
{
    if d == 0 {
        proof {
            reveal_strlit("0");
            assert("0"@ =~= seq![digit_char(0)]);
        }
        "0"
    } else if d == 1 {
        proof {
            reveal_strlit("1");
            assert("1"@ =~= seq![digit_char(1)]);
        }
        "1"
    } else if d == 2 {
        proof {
            reveal_strlit("2");
            assert("2"@ =~= seq![digit_char(2)]);
        }
        "2"
    } else if d == 3 {
        proof {
            reveal_strlit("3");
            assert("3"@ =~= seq![digit_char(3)]);
        }
        "3"
    } else if d == 4 {
        proof {
            reveal_strlit("4");
            assert("4"@ =~= seq![digit_char(4)]);
        }
        "4"
    } else if d == 5 {
        proof {
            reveal_strlit("5");
            assert("5"@ =~= seq![digit_char(5)]);
        }
        "5"
    } else if d == 6 {
        proof {
            reveal_strlit("6");
            assert("6"@ =~= seq![digit_char(6)]);
        }
        "6"
    } else if d == 7 {
        proof {
            reveal_strlit("7");
            assert("7"@ =~= seq![digit_char(7)]);
        }
        "7"
    } else if d == 8 {
        proof {
            reveal_strlit("8");
            assert("8"@ =~= seq![digit_char(8)]);
        }
        "8"
    } else {
        proof {
            reveal_strlit("9");
            assert("9"@ =~= seq![digit_char(9)]);
        }
        "9"
    }
}

/// Renders `n` in decimal.
pub fn u64_to_string(n: u64) -> (s: String)
    ensures
        s@ == dec_chars(n as nat),
    decreases n,
{
    if n < 10 {
        String::from_str(digit_to_str(n))
    } else {
        let mut s = u64_to_string(n / 10);
        s.append(digit_to_str(n % 10));
        s
    }
}

/// Renders `n` in decimal, with a leading `-` when negative.
pub fn i32_to_string(n: i32) -> (s: String)
    ensures
        s@ == int_chars(n as int),
{
    if n < 0 {
        let mag: u64 = (-(n as i64)) as u64;
        let mut s = String::from_str("-");
        proof {
            reveal_strlit("-");
            assert("-"@ =~= seq!['-']);
        }
        s.append(u64_to_string(mag).as_str());
        s
    } else {
        u64_to_string(n as u64)
    }
}

/// Renders `n` in decimal.
pub fn usize_to_string(n: usize) -> (s: String)
    ensures
        s@ == dec_chars(n as nat),
{
    u64_to_string(n as u64)
}

/// Left-pads `s` with `'0'` to width `width`.
pub fn zero_pad_str(s: &str, width: usize) -> (r: String)
    ensures
        r@ == zero_pad(s@, width as int),
{
    let n = s.unicode_len();
    let mut r = String::new();
    if width > n {
        let pad = width - n;
        let mut k: usize = 0;
        while k < pad
            invariant
                k <= pad,
                r@ =~= Seq::new(k as nat, |i: int| '0'),
            decreases pad - k,
        {
            proof {
                reveal_strlit("0");
            }
            r.append("0");
            proof {
                assert("0"@ =~= seq!['0']);
                assert(r@ =~= Seq::new((k + 1) as nat, |i: int| '0'));
            }
            k = k + 1;
        }
    }
    r.append(s);
    proof {
        if n < width {
            assert(r@ =~= zero_pad(s@, width as int));
        } else {
            assert(r@ =~= s@);
        }
    }
    r
}

/// True exactly when the two string slices hold the same characters.
pub fn str_eq(a: &str, b: &str) -> (r: bool)
    ensures
        r == (a@ == b@),
{
    let la = a.unicode_len();
    let lb = b.unicode_len();
    if la != lb {
        return false;
    }
    let mut i: usize = 0;
    while i < la
        invariant
            la == a@.len(),
            la == b@.len(),
            i <= la,
            forall|j: int| 0 <= j < i ==> a@[j] == b@[j],
        decreases la - i,
    {
        if a.get_char(i) != b.get_char(i) {
            return false;
        }
        i = i + 1;
    }
    proof {
        assert(a@ =~= b@);
    }
    true
}

/// True exactly when `pat` occurs in `s` starting at character `i`.
fn matches_at(s: &str, i: usize, pat: &str) -> (r: bool)
    requires
        i + pat@.len() <= s@.len(),
    ensures
        r == (s@.subrange(i as int, i + pat@.len()) == pat@),
{
    let n = s.unicode_len();
    let m = pat.unicode_len();
    let mut j: usize = 0;
    while j < m
        invariant
            n == s@.len(),
            m == pat@.len(),
            i + m <= n,
            j <= m,
            forall|k: int| 0 <= k < j ==> s@[i + k] == pat@[k],
        decreases m - j,
    {
        if s.get_char(i + j) != pat.get_char(j) {
            proof {
                assert(s@.subrange(i as int, i + pat@.len())[j as int] != pat@[j as int]);
            }
            return false;
        }
        j = j + 1;
    }
    proof {
        assert(s@.subrange(i as int, i + pat@.len()) =~= pat@);
    }
    true
}

/// `s` with every non-overlapping occurrence of `pat` replaced by `rep`,
/// scanning left to right.
pub open spec fn replace_seq(s: Seq<char>, pat: Seq<char>, rep: Seq<char>) -> Seq<char>
    decreases s.len(),
{
    if pat.len() == 0 || s.len() < pat.len() {
        s
    } else if s.take(pat.len() as int) == pat {
        rep + replace_seq(s.skip(pat.len() as int), pat, rep)
    } else {
        seq![s[0]] + replace_seq(s.skip(1), pat, rep)
    }
}

/// Replaces every non-overlapping occurrence of `pat` in `s` by `rep`,
/// scanning left to right.
pub fn replace_all(s: &str, pat: &str, rep: &str) -> (r: String)
    requires
        pat@.len() >= 1,
    ensures
        r@ == replace_seq(s@, pat@, rep@),
{
    let n = s.unicode_len();
    let m = pat.unicode_len();
    let mut out = String::new();
    let mut i: usize = 0;
    proof {
        assert(s@.skip(0) =~= s@);
        assert(out@ + replace_seq(s@, pat@, rep@) =~= replace_seq(s@, pat@, rep@));
    }
    while i < n
        invariant
            n == s@.len(),
            m == pat@.len(),
            m >= 1,
            i <= n,
            replace_seq(s@, pat@, rep@) == out@ + replace_seq(
                s@.skip(i as int),
                pat@,
                rep@,
            ),
        decreases n - i,
    {
        let ghost suf = s@.skip(i as int);
        if m <= n - i && matches_at(s, i, pat) {
            proof {
                assert(suf.take(m as int) =~= s@.subrange(i as int, i + m));
                assert(suf.skip(m as int) =~= s@.skip(i + m));
                assert(replace_seq(suf, pat@, rep@) == rep@ + replace_seq(
                    s@.skip(i + m),
                    pat@,
                    rep@,
                ));
            }
            out.append(rep);
            i = i + m;
            proof {
                assert(replace_seq(s@, pat@, rep@) =~= out@ + replace_seq(
                    s@.skip(i as int),
                    pat@,
                    rep@,
                ));
            }
        } else {
            proof {
                assert(suf.skip(1) =~= s@.skip(i + 1));
                if m <= n - i {
                    assert(suf.take(m as int) =~= s@.subrange(i as int, i + m));
                    assert(suf.take(m as int) != pat@);
                    assert(replace_seq(suf, pat@, rep@) == seq![suf[0]] + replace_seq(
                        s@.skip(i + 1),
                        pat@,
                        rep@,
                    ));
                } else {
                    assert(suf.len() < m);
                    assert(replace_seq(suf, pat@, rep@) == suf);
                    assert(replace_seq(s@.skip(i + 1), pat@, rep@) == s@.skip(i + 1));
                    assert(seq![suf[0]] + s@.skip(i + 1) =~= suf);
                }
            }
            let c = s.substring_char(i, i + 1);
            proof {
                assert(c@ =~= seq![suf[0]]);
            }
            out.append(c);
            i = i + 1;
            proof {
                assert(replace_seq(s@, pat@, rep@) =~= out@ + replace_seq(
                    s@.skip(i as int),
                    pat@,
                    rep@,
                ));
            }
        }
    }
    proof {
        assert(s@.skip(n as int) =~= Seq::<char>::empty());
        assert(replace_seq(Seq::<char>::empty(), pat@, rep@) == Seq::<char>::empty());
        assert(out@ + Seq::<char>::empty() =~= out@);
    }
    out
}

/// The three-character ellipsis appended by truncation.
pub open spec fn dots() -> Seq<char> {
    seq!['.', '.', '.']
}

/// The truncate-and-ellipsis rule: unchanged when no limit is given or the
/// text fits; the first `t - 3` characters plus `...` when it does not; the
/// first `t` characters of `...` when the limit itself is below three.
pub open spec fn shortened(s: Seq<char>, target: Option<usize>) -> Seq<char> {
    match target {
        Option::None => s,
        Option::Some(t) => if (t as int) < 3 {
            dots().take(t as int)
        } else if s.len() > t {
            s.take(t as int - 3) + dots()
        } else {
            s
        },
    }
}

/// Truncation round-trip: for any text and limit of at least three, the
/// truncated result has exactly the limit's length when the text exceeds
/// it, and is the text itself, unchanged, when it does not.
pub proof fn lemma_shorten_exact(s: Seq<char>, l: usize)
    requires
        l >= 3,
    ensures
        s.len() > l ==> shortened(s, Some(l)).len() == l,
        s.len() <= l ==> shortened(s, Some(l)) == s,
{
}

/// Truncates `s` to at most `target_len` characters, marking a cut with a
/// trailing `...`.
pub fn shorten_string_if_needed(s: &str, target_len: Option<usize>) -> (r: String)
    ensures
        r@ == shortened(s@, target_len),
{
    let t: usize = match target_len {
        Option::None => {
            return String::from_str(s);
        },
        Option::Some(t) => t,
    };
    proof {
        reveal_strlit("...");
        assert("..."@ =~= dots());
    }
    if t < 3 {
        let d = "...";
        String::from_str(d.substring_char(0, t))
    } else if s.unicode_len() > t {
        let mut r = String::from_str(s.substring_char(0, t - 3));
        r.append("...");
        proof {
            assert(s@.subrange(0, t as int - 3) =~= s@.take(t as int - 3));
        }
        r
    } else {
        String::from_str(s)
    }
}

} // verus!
