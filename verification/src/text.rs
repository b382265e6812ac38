use vstd::prelude::*;
use vstd::string::StrSliceExecFns;
use vstd::string::StringExecFns;

verus! {

/// The entries of `ts` joined with a comma and a space between them.
pub open spec fn comma_join(ts: Seq<Seq<char>>) -> Seq<char>
    decreases ts.len(),
{
    if ts.len() == 0 {
        Seq::empty()
    } else if ts.len() == 1 {
        ts[0]
    } else {
        comma_join(ts.drop_last()) + ", "@ + ts.last()
    }
}

/// The labels joined with a comma and a space between them.
pub fn joined_labels(labels: &Vec<String>) -> (r: String)
    ensures
        r@ == comma_join(labels@.map_values(|s: String| s@)),
{
    let ghost texts = labels@.map_values(|s: String| s@);
    let mut out = String::new();
    let mut i: usize = 0;
    while i < labels.len()
        invariant
            i <= labels@.len(),
            texts == labels@.map_values(|s: String| s@),
            out@ == comma_join(texts.take(i as int)),
        decreases labels@.len() - i,
    {
        if i > 0 {
            out.append(", ");
        }
        out.append(labels[i].as_str());
        proof {
            assert(texts.take(i + 1).drop_last() =~= texts.take(i as int));
            assert(texts.take(i + 1).last() == texts[i as int]);
            if i == 0 {
                assert(Seq::<char>::empty() + texts[0] =~= texts[0]);
            }
        }
        i += 1;
    }
    proof {
        assert(texts.take(texts.len() as int) =~= texts);
    }
    out
}

/// Whether `c` is a decimal digit.
pub open spec fn is_digit(c: char) -> bool {
    48 <= c as u32 <= 57
}

/// Whether every character of `s` is a decimal digit.
pub open spec fn all_digits(s: Seq<char>) -> bool {
    forall|i: int| 0 <= i < s.len() ==> is_digit(#[trigger] s[i])
}

/// The decimal digit character for `n`, which must be below ten.
pub open spec fn dec_digit(n: nat) -> char {
    if n == 0 {
        '0'
    } else if n == 1 {
        '1'
    } else if n == 2 {
        '2'
    } else if n == 3 {
        '3'
    } else if n == 4 {
        '4'
    } else if n == 5 {
        '5'
    } else if n == 6 {
        '6'
    } else if n == 7 {
        '7'
    } else if n == 8 {
        '8'
    } else {
        '9'
    }
}

/// The decimal representation of `n`, most significant digit first, with no
/// leading zeros except for the number zero itself.
pub open spec fn dec_rep(n: nat) -> Seq<char>
    decreases n,
{
    if n < 10 {
        seq![dec_digit(n)]
    } else {
        dec_rep(n / 10) + seq![dec_digit(n % 10)]
    }
}

/// The digit of `d`, below ten, as a string slice.
fn digit_str(d: usize) -> (r: &'static str)
    requires
        d < 10,
    ensures
        r@ == seq![dec_digit(d as nat)],
{
    let r = if d == 0 {
        "0"
    } else if d == 1 {
        "1"
    } else if d == 2 {
        "2"
    } else if d == 3 {
        "3"
    } else if d == 4 {
        "4"
    } else if d == 5 {
        "5"
    } else if d == 6 {
        "6"
    } else if d == 7 {
        "7"
    } else if d == 8 {
        "8"
    } else {
        "9"
    };
    proof {
        reveal_strlit("0");
        reveal_strlit("1");
        reveal_strlit("2");
        reveal_strlit("3");
        reveal_strlit("4");
        reveal_strlit("5");
        reveal_strlit("6");
        reveal_strlit("7");
        reveal_strlit("8");
        reveal_strlit("9");
        assert(r@ =~= seq![dec_digit(d as nat)]);
    }
    r
}

/// Appends the decimal representation of `n` to `out`.
fn push_decimal(out: &mut String, n: usize)
    ensures
        final(out)@ == old(out)@ + dec_rep(n as nat),
    decreases n,
{
    let ghost entry = out@;
    if n >= 10 {
        push_decimal(out, n / 10);
    }
    out.append(digit_str(n % 10));
    proof {
        if n >= 10 {
            assert(entry + dec_rep((n / 10) as nat) + seq![dec_digit((n % 10) as nat)] =~= entry
                + dec_rep(n as nat));
        } else {
            assert(entry + seq![dec_digit(n as nat)] =~= entry + dec_rep(n as nat));
        }
    }
}

/// The decimal representation of `n` as a string.
pub fn decimal_string(n: usize) -> (r: String)
    ensures
        r@ == dec_rep(n as nat),
{
    let mut out = String::new();
    push_decimal(&mut out, n);
    proof {
        assert(Seq::<char>::empty() + dec_rep(n as nat) =~= dec_rep(n as nat));
    }
    out
}

/// Whether `pat` occurs in `s` starting at character position `i`.
fn matches_at(s: &str, i: usize, pat: &str) -> (b: bool)
    ensures
        b == (i + pat@.len() <= s@.len() && s@.subrange(i as int, i + pat@.len()) == pat@),
{
    let n = s.unicode_len();
    let m = pat.unicode_len();
    if i > n || m > n - i {
        return false;
    }
    let mut j: usize = 0;
    while j < m
        invariant
            j <= m,
            i + m <= n,
            n == s@.len(),
            m == pat@.len(),
            forall|k: int| 0 <= k < j ==> s@[i + k] == pat@[k],
        decreases m - j,
    {
        if s.get_char(i + j) != pat.get_char(j) {
            proof {
                assert(s@.subrange(i as int, i + pat@.len())[j as int] == s@[i + j]);
            }
            return false;
        }
        j += 1;
    }
    proof {
        assert(s@.subrange(i as int, i + pat@.len()) =~= pat@);
    }
    true
}

/// The first position at or after `from` whose character is not a decimal
/// digit, or the length of `s` when digits reach its end.
fn scan_digits(s: &str, from: usize) -> (j: usize)
    requires
        from <= s@.len(),
    ensures
        from <= j <= s@.len(),
        forall|k: int| from <= k < j ==> is_digit(#[trigger] s@[k]),
        j < s@.len() ==> !is_digit(s@[j as int]),
{
    let n = s.unicode_len();
    let mut j = from;
    while j < n
        invariant
            from <= j <= n,
            n == s@.len(),
            forall|k: int| from <= k < j ==> is_digit(#[trigger] s@[k]),
        decreases n - j,
    {
        let c = s.get_char(j);
        let u = c as u32;
        if u < 48 || u > 57 {
            return j;
        }
        j += 1;
    }
    j
}

/// One way of reading `t` as a location annotation: the text `" at line "`,
/// then digits up to position `n1`, then `" column "`, then at least one
/// digit reaching the end of `t`.
pub open spec fn location_witness(t: Seq<char>, n1: int) -> bool {
    &&& 9 < n1
    &&& n1 + 8 < t.len()
    &&& t.subrange(0, 9) == " at line "@
    &&& all_digits(t.subrange(9, n1))
    &&& t.subrange(n1, n1 + 8) == " column "@
    &&& all_digits(t.subrange(n1 + 8, t.len() as int))
}

/// Whether `t` is a location annotation: the text `" at line "`, then at
/// least one digit, then `" column "`, then at least one digit reaching the
/// end of `t`.
pub open spec fn location_suffix(t: Seq<char>) -> bool {
    exists|n1: int| location_witness(t, n1)
}

/// A scan for digits that starts right after `" at line "` stops exactly at
/// the end of the witness's first digit run, since the space that opens
/// `" column "` is not a digit.
proof fn lemma_scan_stops_at_witness(t: Seq<char>, n1: int, jr: int)
    requires
        location_witness(t, n1),
        9 <= jr <= t.len(),
        forall|x: int| 9 <= x < jr ==> is_digit(#[trigger] t[x]),
        jr < t.len() ==> !is_digit(t[jr]),
    ensures
        jr == n1,
{
    reveal_strlit(" column ");
    assert forall|x: int| 9 <= x < n1 implies is_digit(#[trigger] t[x]) by {
        assert(t.subrange(9, n1)[x - 9] == t[x]);
    }
    assert(t[n1] == " column "@[0]) by {
        assert(t.subrange(n1, n1 + 8)[0] == t[n1]);
    }
    assert(!is_digit(t[n1]));
    if jr < n1 {
        assert(is_digit(t[jr]));
    }
    if jr > n1 {
        assert(is_digit(t[n1]));
    }
}

/// Whether a location annotation starts at character position `i` of `s`
/// and runs to its end.
fn location_suffix_at(s: &str, i: usize) -> (b: bool)
    requires
        i <= s@.len(),
    ensures
        b == location_suffix(s@.skip(i as int)),
{
    proof {
        reveal_strlit(" at line ");
        reveal_strlit(" column ");
    }
    let ghost t = s@.skip(i as int);
    proof {
        assert(forall|x: int| 0 <= x < t.len() ==> #[trigger] t[x] == s@[i + x]);
    }
    let n = s.unicode_len();
    if !matches_at(s, i, " at line ") {
        proof {
            if location_suffix(t) {
                let n1 = choose|n1: int| location_witness(t, n1);
                assert(s@.subrange(i as int, i + 9) =~= t.subrange(0, 9));
            }
        }
        return false;
    }
    let j = scan_digits(s, i + 9);
    proof {
        assert(forall|x: int| 9 <= x < j - i ==> is_digit(#[trigger] t[x]));
    }
    if j == i + 9 || !matches_at(s, j, " column ") {
        proof {
            if location_suffix(t) {
                let n1 = choose|n1: int| location_witness(t, n1);
                lemma_scan_stops_at_witness(t, n1, j - i);
                assert(is_digit(t[9])) by {
                    assert(t.subrange(9, n1)[0] == t[9]);
                }
                assert(j != i + 9);
                assert(s@.subrange(j as int, j + 8) =~= t.subrange(n1, n1 + 8));
                assert(false);
            }
        }
        return false;
    }
    let k = scan_digits(s, j + 8);
    proof {
        assert(forall|x: int| j - i + 8 <= x < k - i ==> is_digit(#[trigger] t[x]));
    }
    if k == j + 8 || k != n {
        proof {
            if location_suffix(t) {
                let n1 = choose|n1: int| location_witness(t, n1);
                lemma_scan_stops_at_witness(t, n1, j - i);
                assert forall|x: int| n1 + 8 <= x < t.len() implies is_digit(
                    #[trigger] t[x],
                ) by {
                    assert(t.subrange(n1 + 8, t.len() as int)[x - (n1 + 8)] == t[x]);
                }
                assert(is_digit(t[n1 + 8]));
                assert(k != j + 8);
                assert(k == n) by {
                    if k < n {
                        assert(is_digit(t[k - i]));
                    }
                }
                assert(false);
            }
        }
        return false;
    }
    proof {
        let n1 = j - i;
        assert(t.subrange(0, 9) =~= s@.subrange(i as int, i + 9));
        assert(all_digits(t.subrange(9, n1))) by {
            assert(forall|x: int| 0 <= x < n1 - 9 ==> #[trigger] t.subrange(9, n1)[x] == t[9 + x]);
        }
        assert(t.subrange(n1, n1 + 8) =~= s@.subrange(j as int, j + 8));
        assert(all_digits(t.subrange(n1 + 8, t.len() as int))) by {
            assert(forall|x: int|
                0 <= x < t.len() - (n1 + 8) ==> #[trigger] t.subrange(n1 + 8, t.len() as int)[x]
                    == t[n1 + 8 + x]);
        }
        assert(location_witness(t, n1));
    }
    true
}

/// The position where the stripped text ends: the first position at or
/// after `i` where a location annotation runs to the end of `s`, or the
/// length of `s` when there is none.
pub open spec fn strip_from(s: Seq<char>, i: int) -> int
    decreases s.len() - i,
{
    if i < 0 || i >= s.len() {
        s.len() as int
    } else if location_suffix(s.skip(i)) {
        i
    } else {
        strip_from(s, i + 1)
    }
}

/// `s` with its location annotation removed: everything before the first
/// position where such an annotation runs to the end of `s`.
pub open spec fn strip_location_spec(s: Seq<char>) -> Seq<char> {
    s.take(strip_from(s, 0))
}

/// Removes a trailing location annotation of the form
/// `" at line 7 column 12"` from `s`; without one, `s` is kept whole.
pub fn strip_location(s: &str) -> (r: String)
    ensures
        r@ == strip_location_spec(s@),
{
    let n = s.unicode_len();
    let mut i: usize = 0;
    while i < n
        invariant
            i <= n,
            n == s@.len(),
            strip_from(s@, 0) == strip_from(s@, i as int),
        decreases n - i,
    {
        if location_suffix_at(s, i) {
            proof {
                assert(strip_from(s@, i as int) == i);
            }
            return s.substring_char(0, i).to_owned();
        }
        i += 1;
    }
    proof {
        assert(strip_from(s@, i as int) == s@.len());
        assert(s@.take(s@.len() as int) =~= s@);
    }
    s.to_owned()
}

} // verus!
