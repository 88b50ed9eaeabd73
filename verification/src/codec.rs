//! Character-level building blocks of the serialized record format:
//! string escaping, decimal numbers, literal pieces, and the proofs that
//! parsing inverts printing.

use vstd::prelude::*;

verus! {

// ---------------------------------------------------------------------------
// Conversions between `String` and `Vec<char>`.
//
// The codec works on character vectors; these two trusted items move a value
// across the boundary without changing its characters.
// ---------------------------------------------------------------------------

/// Relies on `str::chars`: iterating a string slice yields exactly the
/// characters of its view, in order.
#[verifier::external_body]
pub(crate) fn str_to_chars(s: &str) -> (r: Vec<char>)
    ensures
        r@ == s@,
{
    s.chars().collect()
}

/// Relies on `String`'s `FromIterator<char>`: collecting characters builds
/// the string of exactly those characters, in order.
#[verifier::external_body]
pub(crate) fn chars_to_string(v: &Vec<char>) -> (r: String)
    ensures
        r@ == v@,
{
    v.iter().collect()
}

// ---------------------------------------------------------------------------
// String escaping.
// ---------------------------------------------------------------------------

/// The escape sequence a character is written as inside a quoted string:
/// quotes and backslashes take a leading backslash, everything else stands
/// for itself.
pub open spec fn esc_char(c: char) -> Seq<char> {
    if c == '"' {
        seq!['\\', '"']
    } else if c == '\\' {
        seq!['\\', '\\']
    } else {
        seq![c]
    }
}

/// The escaped form of a whole string.
pub open spec fn esc(s: Seq<char>) -> Seq<char>
    decreases s.len(),
{
    if s.len() == 0 {
        Seq::empty()
    } else {
        esc_char(s[0]) + esc(s.skip(1))
    }
}

/// Escaping distributes over concatenation.
pub proof fn lemma_esc_append(a: Seq<char>, b: Seq<char>)
    ensures
        esc(a + b) == esc(a) + esc(b),
    decreases a.len(),
{
    if a.len() == 0 {
        assert(a + b =~= b);
        assert(esc(a) + esc(b) =~= esc(b));
    } else {
        lemma_esc_append(a.skip(1), b);
        assert((a + b).skip(1) =~= a.skip(1) + b);
        assert(esc(a + b) =~= esc(a) + esc(b));
    }
}

/// Appends the escaped form of `s` to `out`.
pub fn push_escaped(out: &mut Vec<char>, s: &Vec<char>)
    ensures
        final(out)@ == old(out)@ + esc(s@),
{
    let ghost orig = out@;
    let mut i: usize = 0;
    while i < s.len()
        invariant
            i <= s@.len(),
            out@ == orig + esc(s@.take(i as int)),
        decreases s@.len() - i,
    {
        let c = s[i];
        if c == '"' {
            out.push('\\');
            out.push('"');
        } else if c == '\\' {
            out.push('\\');
            out.push('\\');
        } else {
            out.push(c);
        }
        proof {
            let ghost ci = s@[i as int];
            assert(s@.take(i + 1) =~= s@.take(i as int) + seq![ci]);
            lemma_esc_append(s@.take(i as int), seq![ci]);
            assert(seq![ci].skip(1) =~= Seq::<char>::empty());
            assert(esc(Seq::<char>::empty()) =~= Seq::<char>::empty());
            assert(esc(seq![ci]) =~= esc_char(ci));
            assert(out@ =~= orig + esc(s@.take(i + 1)));
        }
        i += 1;
    }
    proof {
        assert(s@.take(s@.len() as int) =~= s@);
    }
}

// ---------------------------------------------------------------------------
// Quoted-string parsing.
// ---------------------------------------------------------------------------

/// The character a named escape code stands for, if the code is accepted.
pub open spec fn spec_escape_code(c: char) -> Option<char> {
    if c == '"' {
        Some('"')
    } else if c == '\\' {
        Some('\\')
    } else if c == '/' {
        Some('/')
    } else if c == 'b' {
        Some('\u{8}')
    } else if c == 'f' {
        Some('\u{c}')
    } else if c == 'n' {
        Some('\n')
    } else if c == 'r' {
        Some('\r')
    } else if c == 't' {
        Some('\t')
    } else {
        None
    }
}

/// Parses the body of a quoted string starting at `i`, which must sit just
/// after the opening quote; yields the decoded characters and the position
/// just after the closing quote.
pub open spec fn spec_parse_str_body(s: Seq<char>, i: int) -> Option<(Seq<char>, int)>
    decreases s.len() - i,
    when 0 <= i <= s.len()
{
    if i >= s.len() {
        None
    } else if s[i] == '"' {
        Some((Seq::empty(), i + 1))
    } else if s[i] == '\\' {
        if i + 1 < s.len() {
            match spec_escape_code(s[i + 1]) {
                Some(c) => match spec_parse_str_body(s, i + 2) {
                    Some((rest, j)) => Some((seq![c] + rest, j)),
                    None => None,
                },
                None => None,
            }
        } else {
            None
        }
    } else {
        match spec_parse_str_body(s, i + 1) {
            Some((rest, j)) => Some((seq![s[i]] + rest, j)),
            None => None,
        }
    }
}

/// A successful string-body parse ends within the input, past its start.
pub proof fn lemma_parse_str_body_bounds(s: Seq<char>, i: int)
    requires
        0 <= i <= s.len(),
        spec_parse_str_body(s, i) is Some,
    ensures
        i < spec_parse_str_body(s, i)->Some_0.1 <= s.len(),
    decreases s.len() - i,
{
    if s[i] == '"' {
    } else if s[i] == '\\' {
        lemma_parse_str_body_bounds(s, i + 2);
    } else {
        lemma_parse_str_body_bounds(s, i + 1);
    }
}

/// Executable twin of [`spec_parse_str_body`].
pub fn parse_str_body(s: &Vec<char>, i: usize) -> (r: Option<(Vec<char>, usize)>)
    requires
        i <= s@.len(),
    ensures
        match r {
            Some(p) => spec_parse_str_body(s@, i as int) == Some((p.0@, p.1 as int)),
            None => spec_parse_str_body(s@, i as int) is None,
        },
    decreases s@.len() - i,
{
    if i >= s.len() {
        return None;
    }
    let c = s[i];
    if c == '"' {
        return Some((Vec::new(), i + 1));
    }
    if c == '\\' {
        if i + 1 >= s.len() {
            return None;
        }
        let e = s[i + 1];
        let decoded: char = if e == '"' {
            '"'
        } else if e == '\\' {
            '\\'
        } else if e == '/' {
            '/'
        } else if e == 'b' {
            '\u{8}'
        } else if e == 'f' {
            '\u{c}'
        } else if e == 'n' {
            '\n'
        } else if e == 'r' {
            '\r'
        } else if e == 't' {
            '\t'
        } else {
            return None;
        };
        match parse_str_body(s, i + 2) {
            Some((mut rest, j)) => {
                rest.insert(0, decoded);
                proof {
                    assert(rest@ =~= seq![decoded] + rest@.skip(1));
                }
                return Some((rest, j));
            },
            None => {
                return None;
            },
        }
    }
    match parse_str_body(s, i + 1) {
        Some((mut rest, j)) => {
            rest.insert(0, c);
            proof {
                assert(rest@ =~= seq![c] + rest@.skip(1));
            }
            Some((rest, j))
        },
        None => None,
    }
}

/// Parsing a string body inverts escaping: if the escaped form of `x`
/// followed by a closing quote sits at `i`, the parse recovers `x` and
/// stops just past that quote.
pub proof fn lemma_parse_esc(s: Seq<char>, i: int, x: Seq<char>)
    requires
        0 <= i,
        i + esc(x).len() + 1 <= s.len(),
        s.subrange(i, i + esc(x).len()) == esc(x),
        s[i + esc(x).len()] == '"',
    ensures
        spec_parse_str_body(s, i) == Some((x, i + esc(x).len() + 1)),
    decreases x.len(),
{
    if x.len() == 0 {
        assert(s[i] == '"');
    } else {
        let c = x[0];
        let tail = x.skip(1);
        assert(esc(x) == esc_char(c) + esc(tail));
        let k = esc_char(c).len() as int;
        let el = esc(x).len() as int;
        assert(s.subrange(i, i + el)[0] == s[i]);
        assert(s[i] == esc_char(c)[0]);
        if k == 2 {
            assert(s.subrange(i, i + el)[1] == s[i + 1]);
            assert(s[i + 1] == esc_char(c)[1]);
        }
        assert forall|m: int|
            0 <= m < esc(tail).len() implies s.subrange(i + k, i + k + esc(tail).len())[m] == esc(
            tail,
        )[m] by {
            assert(s.subrange(i + k, i + k + esc(tail).len())[m] == s[i + k + m]);
            assert(s.subrange(i, i + el)[k + m] == s[i + k + m]);
            assert(esc(x)[k + m] == esc(tail)[m]);
        }
        assert(s.subrange(i + k, i + k + esc(tail).len()) =~= esc(tail));
        lemma_parse_esc(s, i + k, tail);
        if c == '"' {
            assert(s[i] == '\\' && s[i + 1] == '"');
            assert(seq!['"'] + tail =~= x);
        } else if c == '\\' {
            assert(s[i] == '\\' && s[i + 1] == '\\');
            assert(seq!['\\'] + tail =~= x);
        } else {
            assert(s[i] == c);
            assert(c != '"' && c != '\\');
            assert(seq![c] + tail =~= x);
        }
    }
}

// ---------------------------------------------------------------------------
// Decimal numbers.
// ---------------------------------------------------------------------------

/// The character of a single decimal digit.
pub open spec fn digit_char(d: int) -> char {
    if d == 0 {
        '0'
    } else if d == 1 {
        '1'
    } else if d == 2 {
        '2'
    } else if d == 3 {
        '3'
    } else if d == 4 {
        '4'
    } else if d == 5 {
        '5'
    } else if d == 6 {
        '6'
    } else if d == 7 {
        '7'
    } else if d == 8 {
        '8'
    } else {
        '9'
    }
}

/// The value of a decimal digit character, if it is one.
pub open spec fn spec_digit_val(c: char) -> Option<u32> {
    if c == '0' {
        Some(0u32)
    } else if c == '1' {
        Some(1u32)
    } else if c == '2' {
        Some(2u32)
    } else if c == '3' {
        Some(3u32)
    } else if c == '4' {
        Some(4u32)
    } else if c == '5' {
        Some(5u32)
    } else if c == '6' {
        Some(6u32)
    } else if c == '7' {
        Some(7u32)
    } else if c == '8' {
        Some(8u32)
    } else if c == '9' {
        Some(9u32)
    } else {
        None
    }
}

/// The canonical decimal form of a number: no sign, no leading zeros.
pub open spec fn dec_digits(n: int) -> Seq<char>
    decreases n,
    when n >= 0
{
    if n < 10 {
        seq![digit_char(n)]
    } else {
        dec_digits(n / 10) + seq![digit_char(n % 10)]
    }
}

/// Appends the decimal form of `n` to `out`.
pub fn push_u32(out: &mut Vec<char>, n: u32)
    ensures
        final(out)@ == old(out)@ + dec_digits(n as int),
    decreases n,
{
    if n >= 10 {
        push_u32(out, n / 10);
    }
    let d = n % 10;
    let c: char = if d == 0 {
        '0'
    } else if d == 1 {
        '1'
    } else if d == 2 {
        '2'
    } else if d == 3 {
        '3'
    } else if d == 4 {
        '4'
    } else if d == 5 {
        '5'
    } else if d == 6 {
        '6'
    } else if d == 7 {
        '7'
    } else if d == 8 {
        '8'
    } else {
        '9'
    };
    out.push(c);
    proof {
        if n < 10 {
            assert(out@ =~= old(out)@ + dec_digits(n as int));
        } else {
            assert(out@ =~= old(out)@ + (dec_digits(n as int / 10) + seq![digit_char(n as int % 10)]));
        }
    }
}

/// Parses a maximal run of decimal digits starting at `i`, folding them
/// onto `acc`; rejects runs whose value does not fit in 32 bits.
pub open spec fn spec_parse_u32_from(s: Seq<char>, i: int, acc: u32) -> Option<(u32, int)>
    decreases s.len() - i,
    when 0 <= i <= s.len()
{
    if i < s.len() && spec_digit_val(s[i]) is Some {
        let d = spec_digit_val(s[i])->Some_0;
        if acc <= (u32::MAX - d) / 10 {
            spec_parse_u32_from(s, i + 1, (acc * 10 + d) as u32)
        } else {
            None
        }
    } else {
        Some((acc, i))
    }
}

/// Parses a decimal number at `i`: at least one digit, value within 32 bits.
pub open spec fn spec_parse_u32(s: Seq<char>, i: int) -> Option<(u32, int)> {
    if 0 <= i < s.len() && spec_digit_val(s[i]) is Some {
        spec_parse_u32_from(s, i, 0)
    } else {
        None
    }
}

/// Executable twin of [`spec_parse_u32`].
pub fn parse_u32(s: &Vec<char>, i: usize) -> (r: Option<(u32, usize)>)
    requires
        i <= s@.len(),
    ensures
        match r {
            Some(p) => spec_parse_u32(s@, i as int) == Some((p.0, p.1 as int)) && i < p.1
                <= s@.len(),
            None => spec_parse_u32(s@, i as int) is None,
        },
{
    if i >= s.len() {
        return None;
    }
    let first = digit_val(s[i]);
    if first.is_none() {
        return None;
    }
    let mut acc: u32 = 0;
    let mut j: usize = i;
    loop
        invariant
            i <= j <= s@.len(),
            i < s@.len(),
            spec_digit_val(s@[i as int]) is Some,
            spec_parse_u32_from(s@, i as int, 0) == spec_parse_u32_from(s@, j as int, acc),
        ensures
            i < j <= s@.len(),
            spec_parse_u32_from(s@, i as int, 0) == Some((acc, j as int)),
        decreases s@.len() - j,
    {
        if j < s.len() {
            match digit_val(s[j]) {
                Some(d) => {
                    if acc <= (u32::MAX - d) / 10 {
                        acc = acc * 10 + d;
                        j += 1;
                    } else {
                        return None;
                    }
                },
                None => {
                    break ;
                },
            }
        } else {
            break ;
        }
    }
    Some((acc, j))
}

fn digit_val(c: char) -> (r: Option<u32>)
    ensures
        r == spec_digit_val(c),
{
    if c == '0' {
        Some(0)
    } else if c == '1' {
        Some(1)
    } else if c == '2' {
        Some(2)
    } else if c == '3' {
        Some(3)
    } else if c == '4' {
        Some(4)
    } else if c == '5' {
        Some(5)
    } else if c == '6' {
        Some(6)
    } else if c == '7' {
        Some(7)
    } else if c == '8' {
        Some(8)
    } else if c == '9' {
        Some(9)
    } else {
        None
    }
}

// Folding the digit run `ds` onto `acc`, exactly as the parser does.
spec fn seq_val_acc(ds: Seq<char>, acc: u32) -> Option<u32>
    decreases ds.len(),
{
    if ds.len() == 0 {
        Some(acc)
    } else {
        match spec_digit_val(ds[0]) {
            Some(d) => if acc <= (u32::MAX - d) / 10 {
                seq_val_acc(ds.skip(1), (acc * 10 + d) as u32)
            } else {
                None
            },
            None => None,
        }
    }
}

proof fn lemma_seq_val_acc_append(a: Seq<char>, b: Seq<char>, acc: u32)
    ensures
        seq_val_acc(a + b, acc) == match seq_val_acc(a, acc) {
            Some(m) => seq_val_acc(b, m),
            None => None,
        },
    decreases a.len(),
{
    if a.len() == 0 {
        assert(a + b =~= b);
    } else {
        assert((a + b).skip(1) =~= a.skip(1) + b);
        assert((a + b)[0] == a[0]);
        match spec_digit_val(a[0]) {
            Some(d) => {
                if acc <= (u32::MAX - d) / 10 {
                    lemma_seq_val_acc_append(a.skip(1), b, (acc * 10 + d) as u32);
                }
            },
            None => {},
        }
    }
}

proof fn lemma_parse_u32_from_digits(s: Seq<char>, i: int, j: int, acc: u32)
    requires
        0 <= i <= j <= s.len(),
        forall|m: int| i <= m < j ==> spec_digit_val(s[m]) is Some,
        j == s.len() || spec_digit_val(s[j]) is None,
    ensures
        spec_parse_u32_from(s, i, acc) == match seq_val_acc(s.subrange(i, j), acc) {
            Some(v) => Some((v, j)),
            None => None::<(u32, int)>,
        },
    decreases j - i,
{
    if i == j {
        assert(s.subrange(i, j) =~= Seq::<char>::empty());
    } else {
        assert(spec_digit_val(s[i]) is Some);
        let d = spec_digit_val(s[i])->Some_0;
        let ds = s.subrange(i, j);
        assert(ds[0] == s[i]);
        assert(ds.skip(1) =~= s.subrange(i + 1, j));
        if acc <= (u32::MAX - d) / 10 {
            lemma_parse_u32_from_digits(s, i + 1, j, (acc * 10 + d) as u32);
        }
    }
}

proof fn lemma_seq_val_acc_dec_digits(n: int, acc: u32)
    requires
        0 <= n,
        acc * pow10(dec_digits(n).len() as int) + n <= u32::MAX,
    ensures
        seq_val_acc(dec_digits(n), acc) == Some(
            ((acc * pow10(dec_digits(n).len() as int) + n) as u32),
        ),
    decreases n,
{
    lemma_dec_digits_all_digits(n);
    if n < 10 {
        assert(dec_digits(n) =~= seq![digit_char(n)]);
        assert(spec_digit_val(digit_char(n)) == Some(n as u32));
        assert(pow10(0) == 1);
        assert(pow10(1) == 10);
        assert(acc <= (u32::MAX - n) / 10) by {
            assert(acc * 10 + n <= u32::MAX);
            assert(acc <= (u32::MAX - n as u32) / 10) by (nonlinear_arith)
                requires
                    acc * 10 + n <= u32::MAX,
                    0 <= n < 10,
            ;
        }
        assert(seq![digit_char(n)].skip(1) =~= Seq::<char>::empty());
        assert(seq_val_acc(Seq::<char>::empty(), (acc * 10 + n) as u32) == Some(
            (acc * 10 + n) as u32,
        ));
    } else {
        let hi = n / 10;
        let lo = n % 10;
        let len = dec_digits(n).len() as int;
        assert(dec_digits(n) == dec_digits(hi) + seq![digit_char(lo)]);
        assert(dec_digits(hi).len() == len - 1);
        lemma_pow10_pos(len - 1);
        assert(pow10(len) == 10 * pow10(len - 1));
        assert(acc * pow10(len - 1) + hi <= u32::MAX) by (nonlinear_arith)
            requires
                acc * pow10(len) + n <= u32::MAX,
                pow10(len) == 10 * pow10(len - 1),
                pow10(len - 1) >= 1,
                hi == n / 10,
                lo == n % 10,
                n >= 10,
                acc >= 0,
        ;
        lemma_seq_val_acc_dec_digits(hi, acc);
        let m = (acc * pow10(len - 1) + hi) as u32;
        lemma_seq_val_acc_append(dec_digits(hi), seq![digit_char(lo)], acc);
        assert(spec_digit_val(digit_char(lo)) == Some(lo as u32));
        assert(m * 10 + lo == acc * pow10(len) + n) by (nonlinear_arith)
            requires
                m == acc * pow10(len - 1) + hi,
                pow10(len) == 10 * pow10(len - 1),
                hi == n / 10,
                lo == n % 10,
                n >= 10,
        ;
        assert(m <= (u32::MAX - lo as u32) / 10) by (nonlinear_arith)
            requires
                m * 10 + lo <= u32::MAX,
                0 <= lo < 10,
                m >= 0,
        ;
        assert(seq![digit_char(lo)].skip(1) =~= Seq::<char>::empty());
        assert(spec_digit_val(digit_char(lo)) == Some(lo as u32));
        assert(seq_val_acc(Seq::<char>::empty(), (m * 10 + lo) as u32) == Some((m * 10 + lo) as u32));
        assert(seq_val_acc(seq![digit_char(lo)], m) == Some((m * 10 + lo as u32) as u32));
    }
}

spec fn pow10(k: int) -> int
    decreases k,
    when k >= 0
{
    if k == 0 {
        1
    } else {
        10 * pow10(k - 1)
    }
}

proof fn lemma_pow10_pos(k: int)
    requires
        k >= 0,
    ensures
        pow10(k) >= 1,
    decreases k,
{
    if k > 0 {
        lemma_pow10_pos(k - 1);
    }
}

proof fn lemma_dec_digits_all_digits(n: int)
    requires
        n >= 0,
    ensures
        dec_digits(n).len() >= 1,
        forall|m: int|
            0 <= m < dec_digits(n).len() ==> spec_digit_val(#[trigger] dec_digits(n)[m]) is Some,
    decreases n,
{
    if n < 10 {
    } else {
        lemma_dec_digits_all_digits(n / 10);
        assert(forall|m: int|
            0 <= m < dec_digits(n / 10).len() ==> dec_digits(n)[m] == dec_digits(n / 10)[m]);
    }
}

/// Parsing a number inverts printing: if the decimal form of `n` sits at `i`
/// followed by a non-digit, the parse recovers `n`.
pub proof fn lemma_parse_dec_digits(s: Seq<char>, i: int, n: u32)
    requires
        0 <= i,
        i + dec_digits(n as int).len() <= s.len(),
        s.subrange(i, i + dec_digits(n as int).len()) == dec_digits(n as int),
        i + dec_digits(n as int).len() == s.len() || spec_digit_val(
            s[i + dec_digits(n as int).len()],
        ) is None,
    ensures
        spec_parse_u32(s, i) == Some((n, i + dec_digits(n as int).len())),
{
    let len = dec_digits(n as int).len() as int;
    lemma_dec_digits_all_digits(n as int);
    lemma_pow10_pos(len);
    assert forall|m: int| i <= m < i + len implies spec_digit_val(s[m]) is Some by {
        assert(s.subrange(i, i + len)[m - i] == s[m]);
        assert(spec_digit_val(dec_digits(n as int)[m - i]) is Some);
    }
    lemma_parse_u32_from_digits(s, i, i + len, 0);
    assert(0 * pow10(len) + n as int == n as int) by (nonlinear_arith);
    lemma_seq_val_acc_dec_digits(n as int, 0);
    assert(s.subrange(i, i + len) == dec_digits(n as int));
    assert(spec_digit_val(s[i]) is Some);
}

// ---------------------------------------------------------------------------
// Literal pieces.
// ---------------------------------------------------------------------------

/// Accepts the exact characters of `lit` at position `i`.
pub open spec fn spec_eat_lit(s: Seq<char>, i: int, lit: Seq<char>) -> Option<int> {
    if 0 <= i && i + lit.len() <= s.len() && s.subrange(i, i + lit.len()) == lit {
        Some(i + lit.len())
    } else {
        None
    }
}

/// Executable twin of [`spec_eat_lit`].
pub fn eat_lit(s: &Vec<char>, i: usize, lit: &str) -> (r: Option<usize>)
    requires
        i <= s@.len(),
    ensures
        match r {
            Some(j) => spec_eat_lit(s@, i as int, lit@) == Some(j as int) && i <= j <= s@.len(),
            None => spec_eat_lit(s@, i as int, lit@) is None,
        },
{
    let l = str_to_chars(lit);
    if s.len() - i < l.len() {
        proof {
            assert(i + lit@.len() > s@.len());
        }
        return None;
    }
    let mut k: usize = 0;
    while k < l.len()
        invariant
            k <= l@.len(),
            i + l@.len() <= s@.len(),
            s@.len() <= usize::MAX,
            l@ == lit@,
            i <= s@.len(),
            forall|m: int| 0 <= m < k ==> s@[i + m] == l@[m],
        decreases l@.len() - k,
    {
        if s[i + k] != l[k] {
            proof {
                assert(s@.subrange(i as int, i + lit@.len())[k as int] != lit@[k as int]);
            }
            return None;
        }
        k += 1;
    }
    proof {
        assert(s@.subrange(i as int, i + lit@.len()) =~= lit@);
    }
    Some(i + l.len())
}

/// Appends the characters of `lit` to `out`.
pub fn push_str_chars(out: &mut Vec<char>, lit: &str)
    ensures
        final(out)@ == old(out)@ + lit@,
{
    let mut l = str_to_chars(lit);
    out.append(&mut l);
}

/// A quoted, escaped string as it appears on the wire.
pub open spec fn quoted(s: Seq<char>) -> Seq<char> {
    seq!['"'] + esc(s) + seq!['"']
}

/// Appends the quoted, escaped form of `s` to `out`.
pub fn push_quoted(out: &mut Vec<char>, s: &Vec<char>)
    ensures
        final(out)@ == old(out)@ + quoted(s@),
{
    out.push('"');
    push_escaped(out, s);
    out.push('"');
    proof {
        assert(out@ =~= old(out)@ + quoted(s@));
    }
}

/// Parses a quoted string at `i`: an opening quote, a string body, and the
/// closing quote consumed by the body parse.
pub open spec fn spec_parse_quoted(s: Seq<char>, i: int) -> Option<(Seq<char>, int)> {
    if 0 <= i < s.len() && s[i] == '"' {
        spec_parse_str_body(s, i + 1)
    } else {
        None
    }
}

/// Executable twin of [`spec_parse_quoted`].
pub fn parse_quoted(s: &Vec<char>, i: usize) -> (r: Option<(Vec<char>, usize)>)
    requires
        i <= s@.len(),
    ensures
        match r {
            Some(p) => spec_parse_quoted(s@, i as int) == Some((p.0@, p.1 as int)) && i < p.1
                <= s@.len(),
            None => spec_parse_quoted(s@, i as int) is None,
        },
{
    if i >= s.len() {
        return None;
    }
    if s[i] != '"' {
        return None;
    }
    let r = parse_str_body(s, i + 1);
    proof {
        if spec_parse_str_body(s@, i + 1) is Some {
            lemma_parse_str_body_bounds(s@, i + 1);
        }
    }
    r
}

/// The middle part of a concatenation is recovered by `subrange`.
pub proof fn lemma_subrange_concat(pre: Seq<char>, mid: Seq<char>, post: Seq<char>)
    ensures
        (pre + mid + post).subrange(pre.len() as int, (pre.len() + mid.len()) as int) == mid,
{
    let s = pre + mid + post;
    assert forall|m: int|
        0 <= m < mid.len() implies s.subrange(pre.len() as int, (pre.len() + mid.len()) as int)[m]
        == mid[m] by {
        assert(s[pre.len() + m] == mid[m]);
    }
    assert(s.subrange(pre.len() as int, (pre.len() + mid.len()) as int) =~= mid);
}

/// Parsing a quoted string inverts printing it.
pub proof fn lemma_parse_quoted_exact(s: Seq<char>, i: int, x: Seq<char>)
    requires
        0 <= i,
        i + quoted(x).len() <= s.len(),
        s.subrange(i, i + quoted(x).len()) == quoted(x),
    ensures
        spec_parse_quoted(s, i) == Some((x, i + quoted(x).len())),
{
    let q = quoted(x);
    assert(s.subrange(i, i + q.len())[0] == s[i]);
    assert(q[0] == '"');
    assert forall|m: int|
        0 <= m < esc(x).len() implies s.subrange(i + 1, i + 1 + esc(x).len())[m] == esc(x)[m] by {
        assert(s.subrange(i + 1, i + 1 + esc(x).len())[m] == s[i + 1 + m]);
        assert(s.subrange(i, i + q.len())[m + 1] == s[i + 1 + m]);
        assert(q[m + 1] == esc(x)[m]);
    }
    assert(s.subrange(i + 1, i + 1 + esc(x).len()) =~= esc(x));
    assert(s.subrange(i, i + q.len())[q.len() - 1] == s[i + q.len() - 1]);
    assert(q[q.len() - 1] == '"');
    lemma_parse_esc(s, i + 1, x);
}

} // verus!
