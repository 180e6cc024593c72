use vstd::prelude::*;

verus! {

pub open spec fn is_digit(c: char) -> bool {
    '0' <= c && c <= '9'
}

pub open spec fn is_sign(c: char) -> bool {
    c == '+' || c == '-'
}

/// Digits with at most one point and at least one digit: `12`, `1.`, `.5`, `1.5`.
pub open spec fn is_mantissa(m: Seq<char>) -> bool {
    &&& forall|i: int| 0 <= i < m.len() ==> is_digit(#[trigger] m[i]) || m[i] == '.'
    &&& exists|i: int| 0 <= i < m.len() && is_digit(#[trigger] m[i])
    &&& forall|i: int, j: int|
        0 <= i < m.len() && 0 <= j < m.len() && #[trigger] m[i] == '.' && #[trigger] m[j] == '.'
            ==> i == j
}

pub open spec fn all_digits(d: Seq<char>) -> bool {
    forall|i: int| 0 <= i < d.len() ==> is_digit(#[trigger] d[i])
}

/// `e` without its leading sign, if any.
pub open spec fn unsigned(e: Seq<char>) -> Seq<char> {
    if e.len() > 0 && is_sign(e[0]) {
        e.drop_first()
    } else {
        e
    }
}

/// An exponent after its `e`: an optional sign and at least one digit.
pub open spec fn is_exponent(e: Seq<char>) -> bool {
    unsigned(e).len() > 0 && all_digits(unsigned(e))
}

/// A decimal number: a mantissa, then optionally `e` or `E` and an exponent.
pub open spec fn is_number(b: Seq<char>) -> bool {
    is_mantissa(b) || exists|k: int|
        0 <= k < b.len() && is_mantissa(b.take(k)) && (#[trigger] b[k] == 'e' || b[k] == 'E')
            && is_exponent(b.skip(k + 1))
}

/// `s` spells the word written `lo` in lower case and `up` in upper case,
/// each letter in either case.
pub open spec fn spells(s: Seq<char>, lo: Seq<char>, up: Seq<char>) -> bool {
    s.len() == lo.len() && s.len() == up.len() && forall|i: int|
        0 <= i < s.len() ==> #[trigger] s[i] == lo[i] || s[i] == up[i]
}

/// The text of a floating-point number as `f64`'s `FromStr` accepts it: an
/// optional sign, then `inf`, `infinity`, `nan` (in any case) or a number.
pub open spec fn is_float_text(s: Seq<char>) -> bool {
    let b = if s.len() > 0 && is_sign(s[0]) {
        s.drop_first()
    } else {
        s
    };
    spells(b, seq!['i', 'n', 'f'], seq!['I', 'N', 'F']) || spells(
        b,
        seq!['i', 'n', 'f', 'i', 'n', 'i', 't', 'y'],
        seq!['I', 'N', 'F', 'I', 'N', 'I', 'T', 'Y'],
    ) || spells(b, seq!['n', 'a', 'n'], seq!['N', 'A', 'N']) || is_number(b)
}

fn digit(c: char) -> (r: bool)
    ensures
        r == is_digit(c),
{
    '0' <= c && c <= '9'
}

fn sign(c: char) -> (r: bool)
    ensures
        r == is_sign(c),
{
    c == '+' || c == '-'
}

/// Whether `s[a..b]` is a mantissa.
fn mantissa(s: &[char], a: usize, b: usize) -> (r: bool)
    requires
        a <= b <= s@.len(),
    ensures
        r == is_mantissa(s@.subrange(a as int, b as int)),
{
    let ghost m = s@.subrange(a as int, b as int);
    let mut i: usize = a;
    let mut dot: Option<usize> = None;
    let mut any_digit = false;
    while i < b
        invariant
            a <= i <= b <= s@.len(),
            m == s@.subrange(a as int, b as int),
            forall|j: int| 0 <= j < i - a ==> is_digit(#[trigger] m[j]) || m[j] == '.',
            any_digit <==> exists|j: int| 0 <= j < i - a && is_digit(#[trigger] m[j]),
            dot is None ==> forall|j: int| 0 <= j < i - a ==> #[trigger] m[j] != '.',
            dot is Some ==> {
                let d = dot->0 as int;
                &&& 0 <= d < i - a
                &&& m[d] == '.'
                &&& forall|j: int| 0 <= j < i - a && #[trigger] m[j] == '.' ==> j == d
            },
        decreases b - i,
    {
        let c = s[i];
        assert(m[i - a] == c);
        if digit(c) {
            any_digit = true;
        } else if c == '.' {
            if dot.is_some() {
                assert(m[dot->0 as int] == '.' && m[i - a] == '.');
                return false;
            }
            dot = Some(i - a);
        } else {
            return false;
        }
        i = i + 1;
    }
    any_digit
}

/// Whether `s[a..b]` is an exponent.
fn exponent(s: &[char], a: usize, b: usize) -> (r: bool)
    requires
        a <= b <= s@.len(),
    ensures
        r == is_exponent(s@.subrange(a as int, b as int)),
{
    let ghost e = s@.subrange(a as int, b as int);
    let mut i = a;
    if a < b {
        assert(e[0] == s[a as int]);
    }
    let ghost d = unsigned(e);
    if a < b && sign(s[a]) {
        i = a + 1;
    }
    assert(d =~= s@.subrange(i as int, b as int));
    if i == b {
        return false;
    }
    let start = i;
    while i < b
        invariant
            start <= i <= b <= s@.len(),
            d == s@.subrange(start as int, b as int),
            e == s@.subrange(a as int, b as int),
            d == unsigned(e),
            forall|j: int| 0 <= j < i - start ==> is_digit(#[trigger] d[j]),
        decreases b - i,
    {
        assert(d[i - start] == s[i as int]);
        if !digit(s[i]) {
            assert(!is_digit(d[i - start]));
            assert(!is_exponent(e));
            return false;
        }
        i = i + 1;
    }
    true
}

/// Whether `s[a..b]` spells the word `lo` / `up`.
fn spells_word(s: &[char], a: usize, b: usize, lo: &[char], up: &[char]) -> (r: bool)
    requires
        a <= b <= s@.len(),
        lo@.len() == up@.len(),
    ensures
        r == spells(s@.subrange(a as int, b as int), lo@, up@),
{
    let ghost t = s@.subrange(a as int, b as int);
    if b - a != lo.len() {
        return false;
    }
    let mut i: usize = 0;
    while i < lo.len()
        invariant
            a <= b <= s@.len(),
            b - a == lo@.len(),
            lo@.len() == up@.len(),
            t == s@.subrange(a as int, b as int),
            i <= lo@.len(),
            forall|j: int| 0 <= j < i ==> #[trigger] t[j] == lo@[j] || t[j] == up@[j],
        decreases lo@.len() - i,
    {
        let c = s[a + i];
        assert(t[i as int] == c);
        if !(c == lo[i] || c == up[i]) {
            return false;
        }
        i = i + 1;
    }
    true
}

/// Whether `s[a..b]` is a number, mantissa and optional exponent.
fn number(s: &[char], a: usize, b: usize) -> (r: bool)
    requires
        a <= b <= s@.len(),
    ensures
        r == is_number(s@.subrange(a as int, b as int)),
{
    let ghost t = s@.subrange(a as int, b as int);
    let mut k: usize = a;
    while k < b && s[k] != 'e' && s[k] != 'E'
        invariant
            a <= k <= b <= s@.len(),
            t == s@.subrange(a as int, b as int),
            forall|j: int| 0 <= j < k - a ==> #[trigger] t[j] != 'e' && t[j] != 'E',
        decreases b - k,
    {
        assert(t[k - a] == s[k as int]);
        k = k + 1;
    }
    if k == b {
        assert(t =~= s@.subrange(a as int, k as int));
        let r = mantissa(s, a, b);
        if !r {
            assert forall|kk: int|
                0 <= kk < t.len() && is_mantissa(t.take(kk)) && (#[trigger] t[kk] == 'e' || t[kk]
                    == 'E') implies !is_exponent(t.skip(kk + 1)) by {
                assert(t[kk] != 'e' && t[kk] != 'E');
            }
        }
        return r;
    }
    let ghost kk = k - a;
    assert(t[kk] == s[k as int]);
    assert(t.take(kk) =~= s@.subrange(a as int, k as int));
    assert(t.skip(kk + 1) =~= s@.subrange(k + 1, b as int));
    let m = mantissa(s, a, k);
    let e = exponent(s, k + 1, b);
    proof {
        // The mantissa holds no `e`, so the exponent can only start at `k`.
        assert(!is_mantissa(t)) by {
            assert(t[kk] == 'e' || t[kk] == 'E');
        }
        assert forall|j: int|
            0 <= j < t.len() && is_mantissa(t.take(j)) && (#[trigger] t[j] == 'e' || t[j] == 'E')
                implies j == kk by {
            if j > kk {
                assert(t.take(j)[kk] == t[kk]);
            }
        }
    }
    m && e
}

/// Whether `s` is the text of a floating-point number (see `is_float_text`).
pub fn float_text(s: &[char]) -> (r: bool)
    ensures
        r == is_float_text(s@),
{
    let n = s.len();
    let a: usize = if n > 0 && sign(s[0]) {
        1
    } else {
        0
    };
    proof {
        if a == 1 {
            assert(s@.drop_first() =~= s@.subrange(1, n as int));
        } else {
            assert(s@ =~= s@.subrange(0, n as int));
        }
    }
    let inf: [char; 3] = ['i', 'n', 'f'];
    let inf_up: [char; 3] = ['I', 'N', 'F'];
    let infinity: [char; 8] = ['i', 'n', 'f', 'i', 'n', 'i', 't', 'y'];
    let infinity_up: [char; 8] = ['I', 'N', 'F', 'I', 'N', 'I', 'T', 'Y'];
    let nan: [char; 3] = ['n', 'a', 'n'];
    let nan_up: [char; 3] = ['N', 'A', 'N'];
    assert(inf@ =~= seq!['i', 'n', 'f']);
    assert(inf_up@ =~= seq!['I', 'N', 'F']);
    assert(infinity@ =~= seq!['i', 'n', 'f', 'i', 'n', 'i', 't', 'y']);
    assert(infinity_up@ =~= seq!['I', 'N', 'F', 'I', 'N', 'I', 'T', 'Y']);
    assert(nan@ =~= seq!['n', 'a', 'n']);
    assert(nan_up@ =~= seq!['N', 'A', 'N']);
    spells_word(s, a, n, &inf, &inf_up) || spells_word(s, a, n, &infinity, &infinity_up)
        || spells_word(s, a, n, &nan, &nan_up) || number(s, a, n)
}

} // verus!
