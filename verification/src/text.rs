//! Character-level helpers shared by the library's parsers and formatters.
use vstd::prelude::*;
use vstd::string::*;

verus! {

/// `pat` occurs in `s` starting at position `k`.
pub open spec fn occurs_at(s: Seq<char>, pat: Seq<char>, k: int) -> bool {
    0 <= k && k + pat.len() <= s.len() && s.subrange(k, k + pat.len()) == pat
}

/// `pat` occurs somewhere in `s` (the empty pattern occurs in every sequence).
pub open spec fn contains_seq(s: Seq<char>, pat: Seq<char>) -> bool {
    exists|k: int| occurs_at(s, pat, k)
}

/// The pieces of `s` between occurrences of `sep`, in order (as `str::split`
/// with a single-character separator). A text without `sep` is one piece.
pub open spec fn pieces(s: Seq<char>, sep: char) -> Seq<Seq<char>>
    decreases s.len(),
{
    match s.index_of_first(sep) {
        Some(j) => {
            proof {
                s.index_of_first_ensures(sep);
            }
            seq![s.take(j)] + pieces(s.skip(j + 1), sep)
        },
        None => seq![s],
    }
}

/// The pieces of `s` between newline characters. A trailing newline leaves
/// an empty last piece.
pub open spec fn newline_segments(s: Seq<char>) -> Seq<Seq<char>> {
    pieces(s, '\n')
}

/// Splitting at the first separator: the first piece is the text before it.
pub proof fn lemma_pieces_at_sep(s: Seq<char>, sep: char, j: int)
    requires
        0 <= j < s.len(),
        s[j] == sep,
        forall|t: int| 0 <= t < j ==> s[t] != sep,
    ensures
        pieces(s, sep) == seq![s.take(j)] + pieces(s.skip(j + 1), sep),
{
    s.index_of_first_ensures(sep);
    assert(s.contains(sep));
    match s.index_of_first(sep) {
        Some(k) => {
            assert(k == j);
        },
        None => {},
    }
}

/// A text without the separator is a single piece.
pub proof fn lemma_pieces_no_sep(s: Seq<char>, sep: char)
    requires
        forall|t: int| 0 <= t < s.len() ==> s[t] != sep,
    ensures
        pieces(s, sep) == seq![s],
{
    s.index_of_first_ensures(sep);
    match s.index_of_first(sep) {
        Some(k) => {
            assert(s[k] == sep);
        },
        None => {},
    }
}

/// The characters of `s`, in order, as a vector.
pub fn chars_of(s: &str) -> (out: Vec<char>)
    ensures
        out@ == s@,
{
    let mut out: Vec<char> = Vec::new();
    for c in it: s.chars()
        invariant
            out@ == it.seq().take(it.index() as int),
            it.seq() == s@,
    {
        out.push(c);
    }
    out
}

/// Whether `pat` matches `v` at position `k`.
fn matches_at(v: &Vec<char>, k: usize, hi: usize, pat: &[char]) -> (r: bool)
    requires
        k <= hi <= v@.len(),
    ensures
        r == (k + pat@.len() <= hi && v@.subrange(k as int, k + pat@.len()) == pat@),
{
    if pat.len() > hi - k {
        return false;
    }
    let mut j: usize = 0;
    while j < pat.len()
        invariant
            k + pat@.len() <= hi <= v@.len(),
            j <= pat@.len(),
            forall|t: int| 0 <= t < j ==> v@[k + t] == pat@[t],
        decreases pat@.len() - j,
    {
        if v[k + j] != pat[j] {
            assert(v@.subrange(k as int, k + pat@.len())[j as int] != pat@[j as int]);
            return false;
        }
        j = j + 1;
    }
    assert(v@.subrange(k as int, k + pat@.len()) =~= pat@);
    true
}

/// Whether `pat` occurs inside the window `v[lo..hi]`.
pub fn range_contains(v: &Vec<char>, lo: usize, hi: usize, pat: &[char]) -> (r: bool)
    requires
        lo <= hi <= v@.len(),
    ensures
        r == contains_seq(v@.subrange(lo as int, hi as int), pat@),
{
    let ghost w = v@.subrange(lo as int, hi as int);
    if pat.len() == 0 {
        assert(w.subrange(0, 0) =~= pat@);
        assert(occurs_at(w, pat@, 0));
        return true;
    }
    if pat.len() > hi - lo {
        assert forall|t: int| !occurs_at(w, pat@, t) by {}
        return false;
    }
    let count: usize = hi - lo - pat.len() + 1;
    let mut n: usize = 0;
    while n < count
        invariant
            lo <= hi <= v@.len(),
            0 < pat@.len() <= hi - lo,
            count == hi - lo - pat@.len() + 1,
            n <= count,
            w == v@.subrange(lo as int, hi as int),
            forall|t: int| 0 <= t < n ==> !occurs_at(w, pat@, t),
        decreases count - n,
    {
        let k = lo + n;
        if matches_at(v, k, hi, pat) {
            assert(w.subrange(n as int, n + pat@.len()) =~= v@.subrange(k as int, k + pat@.len()));
            assert(occurs_at(w, pat@, n as int));
            return true;
        }
        assert(!occurs_at(w, pat@, n as int)) by {
            if occurs_at(w, pat@, n as int) {
                assert(w.subrange(n as int, n + pat@.len()) =~= v@.subrange(k as int, k + pat@.len()));
            }
        }
        n = n + 1;
    }
    assert forall|t: int| !occurs_at(w, pat@, t) by {
        if 0 <= t && t < n {
        }
    }
    false
}

/// The decimal digit character for `d` (`0 <= d < 10`).
pub open spec fn digit_char(d: nat) -> char {
    seq!['0', '1', '2', '3', '4', '5', '6', '7', '8', '9'][d as int]
}

/// The decimal notation of `n`, most significant digit first, no leading zeros.
pub open spec fn decimal(n: nat) -> Seq<char>
    decreases n,
{
    if n < 10 {
        seq![digit_char(n)]
    } else {
        decimal(n / 10).push(digit_char(n % 10))
    }
}

/// Decimal notation of a signed number: a minus sign before the magnitude.
pub open spec fn signed_decimal(n: int) -> Seq<char> {
    if n < 0 {
        seq!['-'] + decimal((-n) as nat)
    } else {
        decimal(n as nat)
    }
}

/// Calls `String::push`, which appends one character; the contract claims
/// the view grows by exactly that character.
#[verifier::external_body]
pub(crate) fn push_char(s: &mut String, c: char)
    ensures
        final(s)@ == old(s)@.push(c),
{
    s.push(c);
}

/// Appends `t` to `s`.
pub fn push_str(s: &mut String, t: &str)
    ensures
        final(s)@ == old(s)@ + t@,
{
    s.append(t);
}

/// Appends the decimal notation of `n` to `s`.
pub fn push_decimal(s: &mut String, n: u64)
    ensures
        final(s)@ == old(s)@ + decimal(n as nat),
    decreases n,
{
    let digits = ['0', '1', '2', '3', '4', '5', '6', '7', '8', '9'];
    assert(digits@ =~= seq!['0', '1', '2', '3', '4', '5', '6', '7', '8', '9']);
    if n < 10 {
        push_char(s, digits[n as usize]);
        assert(decimal(n as nat) =~= seq![digit_char(n as nat)]);
    } else {
        push_decimal(s, n / 10);
        push_char(s, digits[(n % 10) as usize]);
    }
}

/// Appends the decimal notation of the signed number `n` to `s`.
pub fn push_signed_decimal(s: &mut String, n: i64)
    ensures
        final(s)@ == old(s)@ + signed_decimal(n as int),
{
    if n < 0 {
        push_char(s, '-');
        let magnitude: u64 = ((-(n + 1)) as u64) + 1;
        push_decimal(s, magnitude);
        assert(final(s)@ =~= old(s)@ + (seq!['-'] + decimal((-n) as nat)));
    } else {
        push_decimal(s, n as u64);
    }
}

/// The Unicode `White_Space` characters, the set `str::trim` removes.
pub open spec fn is_white_space(c: char) -> bool {
    ('\u{9}' <= c && c <= '\u{d}') || c == ' ' || c == '\u{85}' || c == '\u{a0}' || c == '\u{1680}'
        || ('\u{2000}' <= c && c <= '\u{200a}') || c == '\u{2028}' || c == '\u{2029}' || c == '\u{202f}'
        || c == '\u{205f}' || c == '\u{3000}'
}

/// `s` without its leading white space.
pub open spec fn trim_start(s: Seq<char>) -> Seq<char>
    decreases s.len(),
{
    if s.len() > 0 && is_white_space(s[0]) {
        trim_start(s.drop_first())
    } else {
        s
    }
}

/// `s` without its trailing white space.
pub open spec fn trim_end(s: Seq<char>) -> Seq<char>
    decreases s.len(),
{
    if s.len() > 0 && is_white_space(s.last()) {
        trim_end(s.drop_last())
    } else {
        s
    }
}

/// `s` without leading and trailing white space.
pub open spec fn trim(s: Seq<char>) -> Seq<char> {
    trim_end(trim_start(s))
}

/// Whether `c` is white space.
pub fn white_space(c: char) -> (b: bool)
    ensures
        b == is_white_space(c),
{
    ('\u{9}' <= c && c <= '\u{d}') || c == ' ' || c == '\u{85}' || c == '\u{a0}' || c == '\u{1680}'
        || ('\u{2000}' <= c && c <= '\u{200a}') || c == '\u{2028}' || c == '\u{2029}' || c == '\u{202f}'
        || c == '\u{205f}' || c == '\u{3000}'
}

proof fn lemma_trim_start_skip(s: Seq<char>, a: int)
    requires
        0 <= a <= s.len(),
        forall|t: int| 0 <= t < a ==> is_white_space(s[t]),
    ensures
        trim_start(s) == trim_start(s.skip(a)),
    decreases a,
{
    if a > 0 {
        assert(s.skip(1) =~= s.drop_first());
        lemma_trim_start_skip(s.drop_first(), a - 1);
        assert(s.drop_first().skip(a - 1) =~= s.skip(a));
    } else {
        assert(s.skip(0) =~= s);
    }
}

proof fn lemma_trim_end_take(s: Seq<char>, b: int)
    requires
        0 <= b <= s.len(),
        forall|t: int| b <= t < s.len() ==> is_white_space(s[t]),
    ensures
        trim_end(s) == trim_end(s.take(b)),
    decreases s.len() - b,
{
    if b < s.len() {
        assert(s.drop_last() =~= s.take(s.len() - 1));
        lemma_trim_end_take(s.drop_last(), b);
        assert(s.drop_last().take(b) =~= s.take(b));
    } else {
        assert(s.take(b) =~= s);
    }
}

/// The characters of `v[lo..hi]` without leading and trailing white space.
pub fn trimmed(v: &Vec<char>, lo: usize, hi: usize) -> (r: Vec<char>)
    requires
        lo <= hi <= v@.len(),
    ensures
        r@ == trim(v@.subrange(lo as int, hi as int)),
{
    let ghost w = v@.subrange(lo as int, hi as int);
    let mut a = lo;
    while a < hi && white_space(v[a])
        invariant
            lo <= a <= hi <= v@.len(),
            w == v@.subrange(lo as int, hi as int),
            forall|t: int| lo <= t < a ==> is_white_space(v@[t]),
        decreases hi - a,
    {
        a = a + 1;
    }
    proof {
        lemma_trim_start_skip(w, a - lo);
        let u = w.skip(a - lo);
        if u.len() > 0 {
            assert(u[0] == v@[a as int]);
        }
        assert(trim_start(u) == u);
    }
    let mut b = hi;
    while b > a && white_space(v[b - 1])
        invariant
            lo <= a <= b <= hi <= v@.len(),
            forall|t: int| b <= t < hi ==> is_white_space(v@[t]),
        decreases b - a,
    {
        b = b - 1;
    }
    let ghost u = w.skip(a - lo);
    proof {
        lemma_trim_end_take(u, b - a);
        let x = u.take(b - a);
        assert(x =~= v@.subrange(a as int, b as int));
        if x.len() > 0 {
            assert(x.last() == v@[b - 1]);
        }
        assert(trim_end(x) == x);
    }
    let mut r: Vec<char> = Vec::new();
    let mut k = a;
    while k < b
        invariant
            a <= k <= b <= v@.len(),
            r@ == v@.subrange(a as int, k as int),
        decreases b - k,
    {
        r.push(v[k]);
        k = k + 1;
        assert(r@ =~= v@.subrange(a as int, k as int));
    }
    r
}

/// The value of a non-empty run of decimal digits.
pub open spec fn digits_value(d: Seq<char>) -> nat
    decreases d.len(),
{
    if d.len() == 0 {
        0
    } else {
        digits_value(d.drop_last()) * 10 + ((d.last() as nat) - ('0' as nat)) as nat
    }
}

pub open spec fn is_digit(c: char) -> bool {
    '0' <= c && c <= '9'
}

/// The text after an optional leading `+`.
pub open spec fn unsigned_digits(s: Seq<char>) -> Seq<char> {
    if s.len() > 0 && s[0] == '+' {
        s.drop_first()
    } else {
        s
    }
}

/// Every character is an ASCII digit.
pub open spec fn all_digits(d: Seq<char>) -> bool {
    forall|i: int| 0 <= i < d.len() ==> is_digit(#[trigger] d[i])
}

/// What `u32::from_str` accepts: an optional `+`, then one or more ASCII
/// digits whose value fits in 32 bits.
pub open spec fn parse_u32_spec(s: Seq<char>) -> Option<u32> {
    let d = unsigned_digits(s);
    if d.len() > 0 && all_digits(d) && digits_value(d) <= u32::MAX {
        Some(digits_value(d) as u32)
    } else {
        None
    }
}

pub proof fn lemma_digits_prefix_le(d: Seq<char>, k: int)
    requires
        0 <= k <= d.len(),
        forall|i: int| 0 <= i < d.len() ==> is_digit(#[trigger] d[i]),
    ensures
        digits_value(d.take(k)) <= digits_value(d),
    decreases d.len() - k,
{
    if k < d.len() {
        assert(d.drop_last().take(k) =~= d.take(k));
        assert forall|i: int| 0 <= i < d.drop_last().len() implies is_digit(#[trigger] d.drop_last()[i]) by {
            assert(d.drop_last()[i] == d[i]);
        }
        lemma_digits_prefix_le(d.drop_last(), k);
    } else {
        assert(d.take(k) =~= d);
    }
}

/// Parse a whole character vector as an unsigned 32-bit decimal number.
pub fn parse_u32(v: &Vec<char>) -> (r: Option<u32>)
    ensures
        r == parse_u32_spec(v@),
{
    let mut i: usize = 0;
    if v.len() > 0 && v[0] == '+' {
        i = 1;
    }
    let ghost d = unsigned_digits(v@);
    assert(d =~= v@.skip(i as int));
    if i >= v.len() {
        return None;
    }
    let start = i;
    let mut acc: u32 = 0;
    while i < v.len()
        invariant
            start <= i <= v@.len(),
            start < v@.len(),
            d == v@.skip(start as int),
            d == unsigned_digits(v@),
            forall|t: int| start <= t < i ==> is_digit(#[trigger] v@[t]),
            acc as nat == digits_value(v@.subrange(start as int, i as int)),
        decreases v@.len() - i,
    {
        let c = v[i];
        if !('0' <= c && c <= '9') {
            assert(d[i - start] == v@[i as int]);
            assert(!is_digit(d[i - start]));
            return None;
        }
        let digit: u32 = (c as u32) - ('0' as u32);
        assert(v@.subrange(start as int, i + 1).drop_last() =~= v@.subrange(start as int, i as int));
        if acc > (u32::MAX - digit) / 10 {
            proof {
                let p = v@.subrange(start as int, i + 1);
                assert(digits_value(p) == acc * 10 + digit);
                assert(digits_value(p) > u32::MAX) by (nonlinear_arith)
                    requires
                        digits_value(p) == acc * 10 + digit,
                        acc > (u32::MAX - digit) / 10,
                        digit <= 9,
                ;
                if all_digits(d) {
                    lemma_digits_prefix_le(d, i + 1 - start);
                    assert(d.take(i + 1 - start) =~= p);
                }
            }
            return None;
        }
        acc = acc * 10 + digit;
        i = i + 1;
    }
    assert(v@.subrange(start as int, v@.len() as int) =~= d);
    Some(acc)
}

/// The pieces of `v` between occurrences of `sep`.
pub fn split_chars(v: &Vec<char>, sep: char) -> (r: Vec<Vec<char>>)
    ensures
        r@.len() == pieces(v@, sep).len(),
        forall|i: int| 0 <= i < r@.len() ==> (#[trigger] r@[i])@ == pieces(v@, sep)[i],
{
    let mut r: Vec<Vec<char>> = Vec::new();
    let mut cur: Vec<char> = Vec::new();
    let mut start: usize = 0;
    let mut i: usize = 0;
    assert(v@.skip(0) =~= v@);
    while i < v.len()
        invariant
            start <= i <= v@.len(),
            forall|t: int| start <= t < i ==> v@[t] != sep,
            cur@ == v@.subrange(start as int, i as int),
            r@.len() + pieces(v@.skip(start as int), sep).len() == pieces(v@, sep).len(),
            forall|k: int| 0 <= k < r@.len() ==> (#[trigger] r@[k])@ == pieces(v@, sep)[k],
            forall|k: int| 0 <= k < pieces(v@.skip(start as int), sep).len() ==>
                #[trigger] pieces(v@.skip(start as int), sep)[k] == pieces(v@, sep)[r@.len() + k],
        decreases v@.len() - i,
    {
        if v[i] == sep {
            proof {
                let rest = v@.skip(start as int);
                lemma_pieces_at_sep(rest, sep, i - start);
                assert(rest.take(i - start) =~= cur@);
                assert(rest.skip(i - start + 1) =~= v@.skip(i + 1));
                assert(pieces(rest, sep)[0] == cur@);
                assert forall|k: int| 0 <= k < pieces(v@.skip(i + 1), sep).len() implies
                    #[trigger] pieces(v@.skip(i + 1), sep)[k] == pieces(v@, sep)[r@.len() + 1 + k] by {
                    assert(pieces(rest, sep)[k + 1] == pieces(v@.skip(i + 1), sep)[k]);
                }
            }
            let ghost old_r = r@;
            r.push(cur);
            cur = Vec::new();
            start = i + 1;
            proof {
                assert forall|k: int| 0 <= k < r@.len() implies (#[trigger] r@[k])@ == pieces(v@, sep)[k] by {
                    if k < old_r.len() {
                        assert(r@[k] == old_r[k]);
                    }
                }
            }
            assert(cur@ =~= v@.subrange(start as int, (i + 1) as int));
        } else {
            cur.push(v[i]);
            assert(cur@ =~= v@.subrange(start as int, (i + 1) as int));
        }
        i = i + 1;
    }
    proof {
        let rest = v@.skip(start as int);
        lemma_pieces_no_sep(rest, sep);
        assert(rest =~= cur@);
    }
    let ghost old_r = r@;
    r.push(cur);
    proof {
        assert forall|k: int| 0 <= k < r@.len() implies (#[trigger] r@[k])@ == pieces(v@, sep)[k] by {
            if k < old_r.len() {
                assert(r@[k] == old_r[k]);
            } else {
                assert(pieces(v@.skip(start as int), sep)[0] == pieces(v@, sep)[old_r.len() as int]);
            }
        }
    }
    r
}

/// The texts `ns` joined with `sep` between neighbours (as `join`).
pub open spec fn joined(ns: Seq<Seq<char>>, sep: Seq<char>) -> Seq<char>
    decreases ns.len(),
{
    if ns.len() == 0 {
        Seq::empty()
    } else if ns.len() == 1 {
        ns[0]
    } else {
        joined(ns.drop_last(), sep) + sep + ns.last()
    }
}

/// The views of a vector of strings.
pub open spec fn string_views(v: Seq<String>) -> Seq<Seq<char>> {
    v.map_values(|s: String| s@)
}

/// Appends the strings of `v` joined with `sep`.
pub fn push_joined(out: &mut String, v: &Vec<String>, sep: &str)
    ensures
        final(out)@ == old(out)@ + joined(string_views(v@), sep@),
{
    let mut i: usize = 0;
    while i < v.len()
        invariant
            i <= v@.len(),
            out@ == old(out)@ + joined(string_views(v@.take(i as int)), sep@),
        decreases v@.len() - i,
    {
        let ghost prev = string_views(v@.take(i as int));
        let ghost next = string_views(v@.take(i + 1));
        proof {
            assert(next.drop_last() =~= prev);
            assert(next.last() == v@[i as int]@);
        }
        if i > 0 {
            push_str(out, sep);
        }
        push_str(out, v[i].as_str());
        proof {
            if i == 0 {
                assert(next.len() == 1);
                assert(joined(prev, sep@) =~= Seq::<char>::empty());
            }
        }
        i = i + 1;
        assert(out@ =~= old(out)@ + joined(next, sep@));
    }
    assert(v@.take(v@.len() as int) =~= v@);
}

} // verus!
