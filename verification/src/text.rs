//! Character-level helpers shared by the identity types and the wire codec:
//! character classes, decimal rendering and scanning, string escaping, and
//! conversions between `String` and `Vec<char>`.
use vstd::prelude::*;
use vstd::std_specs::iter::IteratorSpec;

verus! {

broadcast use vstd::string::group_string_axioms, vstd::string::next_postcondition;

pub open spec fn digit_val(c: char) -> int {
    if c == '0' { 0 } else if c == '1' { 1 } else if c == '2' { 2 } else if c == '3' { 3 }
    else if c == '4' { 4 } else if c == '5' { 5 } else if c == '6' { 6 } else if c == '7' { 7 }
    else if c == '8' { 8 } else if c == '9' { 9 } else { 10 }
}

pub open spec fn is_digit_char(c: char) -> bool {
    digit_val(c) < 10
}

pub open spec fn is_lower_hex_char(c: char) -> bool {
    is_digit_char(c) || c == 'a' || c == 'b' || c == 'c' || c == 'd' || c == 'e' || c == 'f'
}

/// Digit value of `c`, or 10 when `c` is not a decimal digit.
pub fn digit_of(c: char) -> (r: u64)
    ensures
        r as int == digit_val(c),
{
    match c {
        '0' => 0, '1' => 1, '2' => 2, '3' => 3, '4' => 4,
        '5' => 5, '6' => 6, '7' => 7, '8' => 8, '9' => 9,
        _ => 10,
    }
}

pub fn is_lower_hex(c: char) -> (r: bool)
    ensures
        r == is_lower_hex_char(c),
{
    digit_of(c) < 10 || c == 'a' || c == 'b' || c == 'c' || c == 'd' || c == 'e' || c == 'f'
}

/// The characters of `s`, in order.
pub fn chars_of_str(s: &str) -> (r: Vec<char>)
    ensures
        r@ == s@,
{
    let mut it = s.chars();
    let mut out: Vec<char> = Vec::new();
    loop
        invariant
            it.obeys_prophetic_iter_laws(),
            out@ + it.remaining() == s@,
        ensures
            out@ == s@,
        decreases s@.len() - out@.len(),
    {
        match it.next() {
            Some(c) => {
                proof {
                    assert(out@.push(c) + it.remaining() =~= s@);
                }
                out.push(c);
            },
            None => {
                proof {
                    assert(out@ =~= s@);
                }
                break ;
            },
        }
    }
    out
}

/// Relies on `String::push`: appends the given character to the end.
#[verifier::external_body]
fn push_char(s: &mut String, c: char)
    ensures
        final(s)@ == old(s)@.push(c),
{
    s.push(c);
}

/// The string holding exactly the characters of `v`, in order.
pub fn string_of_chars(v: &Vec<char>) -> (r: String)
    ensures
        r@ == v@,
{
    let mut out = String::new();
    let mut i: usize = 0;
    while i < v.len()
        invariant
            i <= v@.len(),
            out@ == v@.take(i as int),
        decreases v@.len() - i,
    {
        push_char(&mut out, v[i]);
        proof {
            assert(v@.take(i as int).push(v@[i as int]) =~= v@.take(i as int + 1));
        }
        i += 1;
    }
    proof {
        assert(v@.take(v@.len() as int) =~= v@);
    }
    out
}

pub open spec fn digit_char(d: int) -> char {
    if d == 0 { '0' } else if d == 1 { '1' } else if d == 2 { '2' } else if d == 3 { '3' }
    else if d == 4 { '4' } else if d == 5 { '5' } else if d == 6 { '6' } else if d == 7 { '7' }
    else if d == 8 { '8' } else { '9' }
}

/// The digit character of `d`.
pub fn digit_char_of(d: u64) -> (r: char)
    requires
        d < 10,
    ensures
        r == digit_char(d as int),
{
    match d {
        0 => '0', 1 => '1', 2 => '2', 3 => '3', 4 => '4',
        5 => '5', 6 => '6', 7 => '7', 8 => '8', _ => '9',
    }
}

pub open spec fn pow10(e: nat) -> int
    decreases e,
{
    if e == 0 {
        1
    } else {
        10 * pow10((e - 1) as nat)
    }
}

/// The decimal rendering of `n`, most significant digit first, no sign and
/// no leading zero (except for zero itself).
pub open spec fn dec_of(n: int) -> Seq<char>
    recommends
        0 <= n,
    decreases n,
{
    if n < 10 {
        seq![digit_char(n)]
    } else {
        dec_of(n / 10).push(digit_char(n % 10))
    }
}

pub open spec fn all_digits(s: Seq<char>) -> bool {
    forall|k: int| 0 <= k < s.len() ==> is_digit_char(#[trigger] s[k])
}

/// The number a digit string denotes.
pub open spec fn digits_val(s: Seq<char>) -> int
    decreases s.len(),
{
    if s.len() == 0 {
        0
    } else {
        digits_val(s.drop_last()) * 10 + digit_val(s.last())
    }
}

pub proof fn lemma_pow10_pos(e: nat)
    ensures
        pow10(e) >= 1,
    decreases e,
{
    if e > 0 {
        lemma_pow10_pos((e - 1) as nat);
    }
}

/// The decimal rendering of `n` denotes `n`, holds only digits, and has as
/// many digits as `n` needs.
pub proof fn lemma_dec_of_props(n: int)
    requires
        0 <= n,
    ensures
        dec_of(n).len() >= 1,
        all_digits(dec_of(n)),
        digits_val(dec_of(n)) == n,
        n < pow10(dec_of(n).len() as nat),
    decreases n,
{
    if n < 10 {
        assert(digit_val(digit_char(n)) == n);
        let s = dec_of(n);
        assert(s.len() == 1);
        assert(s.drop_last() =~= Seq::<char>::empty());
        assert(digits_val(Seq::<char>::empty()) == 0);
        assert(s.last() == digit_char(n));
        assert(digits_val(s) == n);
        assert(pow10(1) == 10 * pow10(0));
    } else {
        lemma_dec_of_props(n / 10);
        let s = dec_of(n);
        let hi = dec_of(n / 10);
        assert(s == hi.push(digit_char(n % 10)));
        assert(s.drop_last() =~= hi);
        assert(s.last() == digit_char(n % 10));
        assert(digit_val(digit_char(n % 10)) == n % 10);
        assert(digits_val(s) == digits_val(hi) * 10 + n % 10);
        assert((n / 10) * 10 + n % 10 == n) by {
            vstd::arithmetic::div_mod::lemma_fundamental_div_mod(n, 10);
        }
        assert(n / 10 <= pow10(hi.len() as nat) - 1);
        assert((n / 10) * 10 <= (pow10(hi.len() as nat) - 1) * 10) by (nonlinear_arith)
            requires
                n / 10 <= pow10(hi.len() as nat) - 1,
        ;
        assert(n < pow10(s.len() as nat));
    }
}

/// A digit string read from the front: leading digit times its weight plus
/// the rest.
pub proof fn lemma_digits_val_front(s: Seq<char>)
    requires
        s.len() >= 1,
    ensures
        digits_val(s) == digit_val(s[0]) * pow10((s.len() - 1) as nat) + digits_val(
            s.drop_first(),
        ),
    decreases s.len(),
{
    if s.len() == 1 {
        assert(s.drop_last() =~= Seq::<char>::empty());
        assert(s.drop_first() =~= Seq::<char>::empty());
        assert(s.last() == s[0]);
    } else {
        let t = s.drop_last();
        lemma_digits_val_front(t);
        assert(t[0] == s[0]);
        assert(t.drop_first() =~= s.drop_first().drop_last());
        assert(s.drop_first().last() == s.last());
        assert(digits_val(s.drop_first()) == digits_val(s.drop_first().drop_last()) * 10
            + digit_val(s.last()));
        let w = pow10((t.len() - 1) as nat);
        assert(digits_val(s) == (digit_val(s[0]) * w + digits_val(t.drop_first())) * 10
            + digit_val(s.last()));
        assert((digit_val(s[0]) * w + digits_val(t.drop_first())) * 10 == digit_val(s[0]) * (w
            * 10) + digits_val(t.drop_first()) * 10) by (nonlinear_arith);
        assert(w * 10 == pow10((s.len() - 1) as nat));
    }
}

pub proof fn lemma_digits_val_nonneg(s: Seq<char>)
    requires
        all_digits(s),
    ensures
        digits_val(s) >= 0,
    decreases s.len(),
{
    if s.len() > 0 {
        lemma_digits_val_nonneg(s.drop_last());
        assert(digits_val(s.drop_last()) * 10 >= 0) by (nonlinear_arith)
            requires
                digits_val(s.drop_last()) >= 0,
        ;
    }
}

/// Scanning decimal digits left to right from position `i`, with `acc`
/// already read: stops before the first non-digit, refuses a value that
/// would not fit.
pub open spec fn spec_scan_num(v: Seq<char>, i: int, acc: int) -> Option<(int, int)>
    decreases v.len() - i,
{
    if i < 0 || i >= v.len() || !is_digit_char(v[i]) {
        Some((acc, i))
    } else {
        let acc2 = acc * 10 + digit_val(v[i]);
        if acc2 > u64::MAX {
            None
        } else {
            spec_scan_num(v, i + 1, acc2)
        }
    }
}

/// A number at position `i`: at least one digit, value within `u64`.
pub open spec fn spec_scan_u64(v: Seq<char>, i: int) -> Option<(u64, int)> {
    if 0 <= i < v.len() && is_digit_char(v[i]) {
        match spec_scan_num(v, i, 0) {
            Some((val, j)) => Some((val as u64, j)),
            None => None,
        }
    } else {
        None
    }
}

/// Scanning a region that holds exactly the digit string `s`, bounded by a
/// non-digit (or the end), accumulates its value onto `acc`.
pub proof fn lemma_scan_digit_region(v: Seq<char>, i: int, acc: int, s: Seq<char>)
    requires
        0 <= i,
        i + s.len() <= v.len(),
        v.subrange(i, i + s.len()) == s,
        all_digits(s),
        0 <= acc,
        i + s.len() == v.len() || !is_digit_char(v[i + s.len()]),
        acc * pow10(s.len() as nat) + digits_val(s) <= u64::MAX,
    ensures
        spec_scan_num(v, i, acc) == Some((acc * pow10(s.len() as nat) + digits_val(s), i + s.len())),
    decreases s.len(),
{
    lemma_digits_val_nonneg(s);
    if s.len() == 0 {
        assert(pow10(0) == 1);
    } else {
        assert(v[i] == s[0]);
        assert(is_digit_char(v[i]));
        let d = digit_val(s[0]);
        let acc2 = acc * 10 + d;
        let rest = s.drop_first();
        let w = pow10(rest.len() as nat);
        lemma_digits_val_front(s);
        lemma_digits_val_nonneg(rest);
        lemma_pow10_pos(rest.len() as nat);
        assert(acc * pow10(s.len() as nat) == (acc * 10) * w) by (nonlinear_arith)
            requires
                pow10(s.len() as nat) == 10 * pow10(rest.len() as nat),
                w == pow10(rest.len() as nat),
        ;
        assert(acc2 * w == (acc * 10) * w + d * w) by (nonlinear_arith)
            requires
                acc2 == acc * 10 + d,
        ;
        assert(acc2 * w + digits_val(rest) == acc * pow10(s.len() as nat) + digits_val(s));
        assert(acc2 <= acc2 * w) by (nonlinear_arith)
            requires
                acc2 >= 0,
                w >= 1,
        ;
        assert(acc2 <= u64::MAX);
        assert(v.subrange(i + 1, i + 1 + rest.len()) =~= rest);
        lemma_scan_digit_region(v, i + 1, acc2, rest);
    }
}

/// Scanning at a position where the decimal rendering of `n` sits, bounded
/// by a non-digit (or the end), yields exactly `n`.
pub proof fn lemma_scan_dec_of(v: Seq<char>, i: int, n: u64)
    requires
        0 <= i,
        i + dec_of(n as int).len() <= v.len(),
        v.subrange(i, i + dec_of(n as int).len()) == dec_of(n as int),
        i + dec_of(n as int).len() == v.len() || !is_digit_char(v[i + dec_of(n as int).len()]),
    ensures
        spec_scan_u64(v, i) == Some((n, i + dec_of(n as int).len())),
{
    let s = dec_of(n as int);
    lemma_dec_of_props(n as int);
    assert(v[i] == s[0]);
    assert(is_digit_char(v[i]));
    lemma_pow10_pos(s.len() as nat);
    lemma_scan_digit_region(v, i, 0, s);
}

/// Renders `n` in decimal, most significant digit first.
pub fn render_u64(n: u64) -> (r: Vec<char>)
    ensures
        r@ == dec_of(n as int),
    decreases n,
{
    if n < 10 {
        let mut v: Vec<char> = Vec::new();
        v.push(digit_char_of(n));
        proof {
            assert(v@ =~= dec_of(n as int));
        }
        v
    } else {
        let mut v = render_u64(n / 10);
        v.push(digit_char_of(n % 10));
        v
    }
}

/// Reads a decimal number at position `i`, exactly as `spec_scan_u64` does.
pub fn scan_u64(v: &Vec<char>, i: usize) -> (r: Option<(u64, usize)>)
    requires
        i <= v@.len(),
    ensures
        r matches Some(p) ==> spec_scan_u64(v@, i as int) == Some((p.0, p.1 as int)) && i <= p.1
            <= v@.len(),
        r is None ==> spec_scan_u64(v@, i as int) is None,
{
    if i == v.len() || digit_of(v[i]) >= 10 {
        return None;
    }
    let mut j: usize = i;
    let mut acc: u64 = 0;
    loop
        invariant
            i <= j <= v@.len(),
            spec_scan_num(v@, i as int, 0) == spec_scan_num(v@, j as int, acc as int),
        ensures
            spec_scan_num(v@, i as int, 0) == Some((acc as int, j as int)),
            i <= j <= v@.len(),
        decreases v@.len() - j,
    {
        if j == v.len() {
            break ;
        }
        let d = digit_of(v[j]);
        if d >= 10 {
            break ;
        }
        let wide: u128 = (acc as u128) * 10 + (d as u128);
        if wide > u64::MAX as u128 {
            return None;
        }
        acc = wide as u64;
        j += 1;
    }
    Some((acc, j))
}

/// The characters written with a leading backslash: the two that JSON
/// requires plus the common control characters.
pub open spec fn is_escaped_char(c: char) -> bool {
    c == '"' || c == '\\' || c == '\n' || c == '\r' || c == '\t'
}

/// The character standing after the backslash in an escape.
pub open spec fn esc_code(c: char) -> char {
    if c == '\n' {
        'n'
    } else if c == '\r' {
        'r'
    } else if c == '\t' {
        't'
    } else {
        c
    }
}

/// What an escape decodes to, from the character after its backslash.
pub open spec fn unesc_code(e: char) -> char {
    if e == 'n' {
        '\n'
    } else if e == 'r' {
        '\r'
    } else if e == 't' {
        '\t'
    } else {
        e
    }
}

/// One character, escaped for a quoted string: quote, backslash, newline,
/// carriage return and tab take a backslash escape, everything else stands
/// as itself.
pub open spec fn esc_char(c: char) -> Seq<char> {
    if is_escaped_char(c) {
        seq!['\\', esc_code(c)]
    } else {
        seq![c]
    }
}

/// A whole string, escaped.
pub open spec fn esc_of(s: Seq<char>) -> Seq<char>
    decreases s.len(),
{
    if s.len() == 0 {
        Seq::empty()
    } else {
        esc_char(s[0]) + esc_of(s.drop_first())
    }
}

pub proof fn lemma_esc_of_push(s: Seq<char>, c: char)
    ensures
        esc_of(s.push(c)) == esc_of(s) + esc_char(c),
    decreases s.len(),
{
    if s.len() == 0 {
        assert(s.push(c)[0] == c);
        assert(s.push(c).drop_first() =~= Seq::<char>::empty());
        assert(esc_of(Seq::<char>::empty()) == Seq::<char>::empty());
        assert(esc_of(s.push(c)) == esc_char(c) + Seq::<char>::empty());
        assert(esc_char(c) + Seq::<char>::empty() =~= esc_char(c));
        assert(Seq::<char>::empty() + esc_char(c) =~= esc_char(c));
        assert(esc_of(s.push(c)) =~= esc_of(s) + esc_char(c));
    } else {
        assert(s.push(c)[0] == s[0]);
        assert(s.push(c).drop_first() =~= s.drop_first().push(c));
        lemma_esc_of_push(s.drop_first(), c);
        assert(esc_of(s.push(c)) == esc_char(s[0]) + (esc_of(s.drop_first()) + esc_char(c)));
        assert(esc_char(s[0]) + (esc_of(s.drop_first()) + esc_char(c)) =~= (esc_char(s[0])
            + esc_of(s.drop_first())) + esc_char(c));
    }
}

/// Appends the escaped form of `s` to `out`.
pub fn push_escaped(out: &mut Vec<char>, s: &Vec<char>)
    ensures
        final(out)@ == old(out)@ + esc_of(s@),
{
    let mut k: usize = 0;
    while k < s.len()
        invariant
            k <= s@.len(),
            out@ == old(out)@ + esc_of(s@.take(k as int)),
        decreases s@.len() - k,
    {
        let c = s[k];
        proof {
            assert(s@.take(k as int + 1) =~= s@.take(k as int).push(c));
            lemma_esc_of_push(s@.take(k as int), c);
        }
        if c == '"' || c == '\\' || c == '\n' || c == '\r' || c == '\t' {
            let code = match c {
                '\n' => 'n',
                '\r' => 'r',
                '\t' => 't',
                _ => c,
            };
            out.push('\\');
            out.push(code);
        } else {
            out.push(c);
        }
        proof {
            assert(out@ =~= old(out)@ + esc_of(s@.take(k as int + 1)));
        }
        k += 1;
    }
    proof {
        assert(s@.take(s@.len() as int) =~= s@);
    }
}

/// Scans a quoted string's body starting at `i` (just past the opening
/// quote): unescapes up to the closing quote and returns the content with
/// the position just past that quote.
pub open spec fn spec_scan_string(v: Seq<char>, i: int) -> Option<(Seq<char>, int)>
    decreases v.len() - i,
{
    if i < 0 || i >= v.len() {
        None
    } else if v[i] == '"' {
        Some((Seq::empty(), i + 1))
    } else if v[i] == '\\' {
        if i + 1 < v.len() {
            match spec_scan_string(v, i + 2) {
                Some((s, j)) => Some((seq![unesc_code(v[i + 1])] + s, j)),
                None => None,
            }
        } else {
            None
        }
    } else {
        match spec_scan_string(v, i + 1) {
            Some((s, j)) => Some((seq![v[i]] + s, j)),
            None => None,
        }
    }
}

/// A slice of a matched region matches the same slice of its text.
pub proof fn lemma_subrange_of_region(v: Seq<char>, i: int, a: Seq<char>, off: int, len: int)
    requires
        0 <= i,
        i + a.len() <= v.len(),
        v.subrange(i, i + a.len()) == a,
        0 <= off,
        0 <= len,
        off + len <= a.len(),
    ensures
        v.subrange(i + off, i + off + len) == a.subrange(off, off + len),
{
    assert forall|t: int| 0 <= t < len implies #[trigger] v.subrange(i + off, i + off + len)[t]
        == a.subrange(off, off + len)[t] by {
        assert(a[off + t] == v.subrange(i, i + a.len())[off + t]);
    }
    assert(v.subrange(i + off, i + off + len) =~= a.subrange(off, off + len));
}

/// A region holding `a + b` splits into a region holding `a` and, right
/// after it, one holding `b`.
pub proof fn lemma_region_concat(v: Seq<char>, i: int, a: Seq<char>, b: Seq<char>)
    requires
        0 <= i,
        i + a.len() + b.len() <= v.len(),
        v.subrange(i, i + a.len() + b.len()) == a + b,
    ensures
        v.subrange(i, i + a.len()) == a,
        v.subrange(i + a.len(), i + a.len() + b.len()) == b,
{
    lemma_subrange_of_region(v, i, a + b, 0, a.len() as int);
    assert((a + b).subrange(0, a.len() as int) =~= a);
    lemma_subrange_of_region(v, i, a + b, a.len() as int, b.len() as int);
    assert((a + b).subrange(a.len() as int, a.len() as int + b.len() as int) =~= b);
}

/// Scanning the escaped form of `s` followed by a closing quote recovers
/// exactly `s`.
pub proof fn lemma_scan_escaped(v: Seq<char>, i: int, s: Seq<char>)
    requires
        0 <= i,
        i + esc_of(s).len() + 1 <= v.len(),
        v.subrange(i, i + esc_of(s).len()) == esc_of(s),
        v[i + esc_of(s).len()] == '"',
    ensures
        spec_scan_string(v, i) == Some((s, i + esc_of(s).len() + 1)),
    decreases s.len(),
{
    if s.len() == 0 {
        assert(v[i] == '"');
    } else {
        let c = s[0];
        let rest = s.drop_first();
        let e = esc_of(s);
        assert(e == esc_char(c) + esc_of(rest));
        if is_escaped_char(c) {
            assert(e[0] == v.subrange(i, i + e.len())[0]);
            assert(e[1] == v.subrange(i, i + e.len())[1]);
            assert(v[i] == '\\');
            assert(v[i + 1] == esc_code(c));
            assert(unesc_code(esc_code(c)) == c);
            lemma_subrange_of_region(v, i, e, 2, esc_of(rest).len() as int);
            assert(e.subrange(2, 2 + esc_of(rest).len() as int) =~= esc_of(rest));
            lemma_scan_escaped(v, i + 2, rest);
            assert(seq![unesc_code(v[i + 1])] + rest =~= s);
        } else {
            assert(e[0] == v.subrange(i, i + e.len())[0]);
            assert(v[i] == c);
            assert(v[i] != '"' && v[i] != '\\');
            lemma_subrange_of_region(v, i, e, 1, esc_of(rest).len() as int);
            assert(e.subrange(1, 1 + esc_of(rest).len() as int) =~= esc_of(rest));
            lemma_scan_escaped(v, i + 1, rest);
            assert(seq![v[i]] + rest =~= s);
        }
    }
}

/// Reads a quoted string's body at `i`, exactly as `spec_scan_string` does.
pub fn scan_string(v: &Vec<char>, i: usize) -> (r: Option<(Vec<char>, usize)>)
    requires
        i <= v@.len(),
    ensures
        r matches Some(p) ==> spec_scan_string(v@, i as int) == Some((p.0@, p.1 as int)) && i < p.1
            <= v@.len(),
        r is None ==> spec_scan_string(v@, i as int) is None,
{
    let mut j: usize = i;
    let mut acc: Vec<char> = Vec::new();
    loop
        invariant
            i <= j <= v@.len(),
            spec_scan_string(v@, i as int) == (match spec_scan_string(v@, j as int) {
                Some((s, k)) => Some((acc@ + s, k)),
                None => None::<(Seq<char>, int)>,
            }),
        decreases v@.len() - j,
    {
        if j == v.len() {
            return None;
        }
        let c = v[j];
        if c == '"' {
            proof {
                assert(acc@ + Seq::<char>::empty() =~= acc@);
            }
            return Some((acc, j + 1));
        }
        if c == '\\' {
            if j + 1 == v.len() {
                return None;
            }
            let code_char = v[j + 1];
            let decoded = match code_char {
                'n' => '\n',
                'r' => '\r',
                't' => '\t',
                _ => code_char,
            };
            proof {
                assert(decoded == unesc_code(code_char));
                match spec_scan_string(v@, j as int + 2) {
                    Some((s, k)) => {
                        assert(acc@ + (seq![unesc_code(code_char)] + s) =~= acc@.push(decoded) + s);
                    },
                    None => {},
                }
            }
            acc.push(decoded);
            j += 2;
        } else {
            proof {
                match spec_scan_string(v@, j as int + 1) {
                    Some((s, k)) => {
                        assert(acc@ + (seq![c] + s) =~= acc@.push(c) + s);
                    },
                    None => {},
                }
            }
            acc.push(c);
            j += 1;
        }
    }
}

/// Whether the fixed text `lit` sits at position `i` of `v`; on a match the
/// position just past it.
pub open spec fn spec_expect(v: Seq<char>, i: int, lit: Seq<char>) -> Option<int> {
    if 0 <= i && i + lit.len() <= v.len() && v.subrange(i, i + lit.len()) == lit {
        Some(i + lit.len())
    } else {
        None
    }
}

/// Matches the fixed text `lit` at position `i`, exactly as `spec_expect`
/// does.
pub fn expect_lit(v: &Vec<char>, i: usize, lit: &Vec<char>) -> (r: Option<usize>)
    requires
        i <= v@.len(),
    ensures
        r matches Some(j) ==> spec_expect(v@, i as int, lit@) == Some(j as int) && i <= j
            <= v@.len(),
        r is None ==> spec_expect(v@, i as int, lit@) is None,
{
    let vlen = v.len();
    if lit.len() > vlen - i {
        return None;
    }
    let mut k: usize = 0;
    while k < lit.len()
        invariant
            vlen == v@.len(),
            i + lit@.len() <= vlen,
            k <= lit@.len(),
            forall|t: int| 0 <= t < k ==> v@[i + t] == lit@[t],
        decreases lit@.len() - k,
    {
        proof {
            assert(i + k < vlen);
        }
        if v[i + k] != lit[k] {
            proof {
                assert(v@.subrange(i as int, i as int + lit@.len())[k as int] != lit@[k as int]);
            }
            return None;
        }
        k += 1;
    }
    proof {
        assert(v@.subrange(i as int, i as int + lit@.len()) =~= lit@);
    }
    Some(i + lit.len())
}

} // verus!
