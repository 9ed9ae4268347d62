//! Character-sequence helpers shared by the naming and path logic.
use vstd::prelude::*;

verus! {

/// `s` with every non-overlapping occurrence of `tok`, scanned left to right,
/// replaced by `rep`.
pub open spec fn replaced(s: Seq<char>, tok: Seq<char>, rep: Seq<char>) -> Seq<char>
    decreases s.len(),
{
    if s.len() == 0 {
        Seq::empty()
    } else if 0 < tok.len() <= s.len() && s.subrange(0, tok.len() as int) == tok {
        rep + replaced(s.subrange(tok.len() as int, s.len() as int), tok, rep)
    } else {
        seq![s[0]] + replaced(s.subrange(1, s.len() as int), tok, rep)
    }
}

/// View of an optional string.
pub open spec fn opt_view(o: Option<String>) -> Option<Seq<char>> {
    match o {
        Some(s) => Some(s@),
        None => None,
    }
}

/// Whether `suffix` is a suffix of `s`.
pub open spec fn has_suffix(s: Seq<char>, suffix: Seq<char>) -> bool {
    suffix.len() <= s.len() && s.subrange(s.len() - suffix.len(), s.len() as int) == suffix
}

/// Whether `prefix` is a prefix of `s`.
pub open spec fn has_prefix(s: Seq<char>, prefix: Seq<char>) -> bool {
    prefix.len() <= s.len() && s.subrange(0, prefix.len() as int) == prefix
}

/// The decimal digit character for `d < 10`.
pub open spec fn digit_char(d: nat) -> char {
    ((d + 48) as u8) as char
}

/// Decimal notation of `n`, without leading zeros.
pub open spec fn decimal(n: nat) -> Seq<char>
    decreases n,
{
    if n < 10 {
        seq![digit_char(n)]
    } else {
        decimal(n / 10) + seq![digit_char(n % 10)]
    }
}

/// `digits` left-padded with `'0'` to at least four characters.
pub open spec fn pad4(digits: Seq<char>) -> Seq<char> {
    if digits.len() < 4 {
        Seq::new((4 - digits.len()) as nat, |i: int| '0') + digits
    } else {
        digits
    }
}

/// Whether the characters at `s[at..at + tok.len()]` are exactly `tok`.
pub fn matches_at(s: &str, at: usize, tok: &str) -> (r: bool)
    requires
        at <= s@.len(),
    ensures
        r == (at + tok@.len() <= s@.len() && s@.subrange(at as int, at + tok@.len()) == tok@),
{
    let n = s.unicode_len();
    let k = tok.unicode_len();
    if k > n - at {
        return false;
    }
    let mut j: usize = 0;
    while j < k
        invariant
            at + k <= n,
            n == s@.len(),
            k == tok@.len(),
            j <= k,
            forall|m: int| 0 <= m < j ==> s@[at + m] == tok@[m],
        decreases k - j,
    {
        if s.get_char(at + j) != tok.get_char(j) {
            assert(s@.subrange(at as int, at + k)[j as int] != tok@[j as int]);
            return false;
        }
        j += 1;
    }
    assert(s@.subrange(at as int, at + k) =~= tok@);
    true
}

/// Whether `s` ends with `suffix` (exact, case-sensitive).
pub fn ends_with(s: &str, suffix: &str) -> (r: bool)
    ensures
        r == has_suffix(s@, suffix@),
{
    let n = s.unicode_len();
    let k = suffix.unicode_len();
    if k > n {
        return false;
    }
    matches_at(s, n - k, suffix)
}

/// Whether `a` and `b` hold the same characters.
pub fn same_text(a: &str, b: &str) -> (r: bool)
    ensures
        r == (a@ == b@),
{
    if a.unicode_len() != b.unicode_len() {
        return false;
    }
    let r = matches_at(a, 0, b);
    assert(a@.subrange(0, b@.len() as int) =~= a@);
    r
}

/// Replaces every non-overlapping occurrence of `tok` in `s` by `rep`.
pub fn replace_all(s: &str, tok: &str, rep: &str) -> (r: String)
    requires
        tok@.len() > 0,
    ensures
        r@ == replaced(s@, tok@, rep@),
{
    let n = s.unicode_len();
    let k = tok.unicode_len();
    let mut out = String::new();
    let mut i: usize = 0;
    assert(s@.subrange(0, n as int) =~= s@);
    assert(out@ + replaced(s@, tok@, rep@) =~= replaced(s@, tok@, rep@));
    while i < n
        invariant
            n == s@.len(),
            k == tok@.len(),
            k > 0,
            i <= n,
            out@ + replaced(s@.subrange(i as int, n as int), tok@, rep@) == replaced(s@, tok@, rep@),
        decreases n - i,
    {
        let ghost rest = s@.subrange(i as int, n as int);
        if matches_at(s, i, tok) {
            assert(rest.subrange(0, k as int) =~= s@.subrange(i as int, i + k));
            assert(rest.subrange(k as int, rest.len() as int) =~= s@.subrange(i + k, n as int));
            out.append(rep);
            i = i + k;
        } else {
            assert(rest.len() < k || rest.subrange(0, k as int) != tok@) by {
                if rest.len() >= k {
                    assert(rest.subrange(0, k as int) =~= s@.subrange(i as int, i + k));
                }
            }
            assert(rest.subrange(1, rest.len() as int) =~= s@.subrange(i + 1, n as int));
            out.append(s.substring_char(i, i + 1));
            assert(s@.subrange(i as int, i + 1) =~= seq![rest[0]]);
            i = i + 1;
        }
    }
    assert(out@ + replaced(s@.subrange(n as int, n as int), tok@, rep@) == out@ + Seq::<char>::empty());
    assert(out@ + Seq::<char>::empty() =~= out@);
    out
}

/// The one-character string for the decimal digit `d`.
fn digit_str(d: u64) -> (r: &'static str)
    requires
        d < 10,
    ensures
        r@ == seq![digit_char(d as nat)],
{
    proof {
        reveal_strlit("0");
        reveal_strlit("1");
        reveal_strlit("2");
        reveal_strlit("3");
        reveal_strlit("4");
        reveal_strlit("5");
        reveal_strlit("6");
        reveal_strlit("7");
        reveal_strlit("8");
        reveal_strlit("9");
    }
    let r = match d {
        0 => "0",
        1 => "1",
        2 => "2",
        3 => "3",
        4 => "4",
        5 => "5",
        6 => "6",
        7 => "7",
        8 => "8",
        _ => "9",
    };
    assert(r@ =~= seq![digit_char(d as nat)]);
    r
}

/// Appends the decimal notation of `n` to `out`.
pub fn push_decimal(out: &mut String, n: u64)
    ensures
        final(out)@ == old(out)@ + decimal(n as nat),
    decreases n,
{
    if n >= 10 {
        push_decimal(out, n / 10);
    }
    out.append(digit_str(n % 10));
    proof {
        if n >= 10 {
            assert(final(out)@ =~= old(out)@ + decimal(n as nat));
        } else {
            assert(final(out)@ =~= old(out)@ + decimal(n as nat));
        }
    }
}

/// Decimal notation of `n`.
pub fn decimal_string(n: u64) -> (r: String)
    ensures
        r@ == decimal(n as nat),
{
    let mut out = String::new();
    push_decimal(&mut out, n);
    assert(out@ =~= decimal(n as nat));
    out
}

/// Decimal notation of `n`, zero-padded to at least four digits.
pub fn padded_decimal_string(n: u64) -> (r: String)
    ensures
        r@ == pad4(decimal(n as nat)),
{
    let digits = decimal_string(n);
    let len = digits.as_str().unicode_len();
    if len >= 4 {
        return digits;
    }
    let mut out = String::new();
    let mut j: usize = len;
    proof {
        reveal_strlit("0");
    }
    while j < 4
        invariant
            len <= j <= 4,
            out@ =~= Seq::new((j - len) as nat, |i: int| '0'),
        decreases 4 - j,
    {
        proof {
            reveal_strlit("0");
        }
        out.append("0");
        j += 1;
    }
    out.append(digits.as_str());
    assert(out@ =~= pad4(decimal(n as nat)));
    out
}

/// A name for what `str::to_lowercase` returns on a character sequence.
pub uninterp spec fn lower_of(s: Seq<char>) -> Seq<char>;

/// Relies on `str::to_lowercase`: the result depends on the characters alone,
/// and the empty string stays empty.
#[verifier::external_body]
pub(crate) fn to_lowercase(s: &str) -> (r: String)
    ensures
        r@ == lower_of(s@),
        s@.len() == 0 ==> r@.len() == 0,
{
    s.to_lowercase()
}

/// A name for what `str::trim` returns on a character sequence.
pub uninterp spec fn trim_of(s: Seq<char>) -> Seq<char>;

/// Relies on `str::trim`: the result depends on the characters alone, is no
/// longer than the input, and the empty string stays empty.
#[verifier::external_body]
pub(crate) fn trim(s: &str) -> (r: &str)
    ensures
        r@ == trim_of(s@),
        r@.len() <= s@.len(),
{
    s.trim()
}

} // verus!
