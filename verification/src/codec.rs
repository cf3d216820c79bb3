//! Primitives for the persisted text format: escaping of string values,
//! decimal numerals, and the basic parsing combinators, each with a
//! specification-level definition, an executable counterpart, and the
//! lemmas that connect writing with reading back.

use vstd::prelude::*;
use vstd::string::StringExecFns;
use vstd::string::StrSliceExecFns;

verus! {

/// Relies on std's `String::push`: appends exactly one character.
#[verifier::external_body]
pub(crate) fn push_char(s: &mut String, c: char)
    ensures
        final(s)@ == old(s)@ + seq![c],
{
    s.push(c);
}

/// Characters that are written in escaped form inside a quoted value.
pub open spec fn escapes(c: char) -> bool {
    c == '"' || c == '\\' || c == '\n' || c == '\r' || c == '\t'
}

/// How one character of a value is written inside a quoted value.
pub open spec fn escape_char(c: char) -> Seq<char> {
    if c == '"' {
        seq!['\\', '"']
    } else if c == '\\' {
        seq!['\\', '\\']
    } else if c == '\n' {
        seq!['\\', 'n']
    } else if c == '\r' {
        seq!['\\', 'r']
    } else if c == '\t' {
        seq!['\\', 't']
    } else {
        seq![c]
    }
}

/// How a whole value is written inside a quoted value.
pub open spec fn escape_seq(s: Seq<char>) -> Seq<char>
    decreases s.len(),
{
    if s.len() == 0 {
        Seq::empty()
    } else {
        escape_char(s[0]) + escape_seq(s.drop_first())
    }
}

/// The character a code after a backslash stands for, if any.
pub open spec fn unescape_code(c: char) -> Option<char> {
    if c == '"' {
        Some('"')
    } else if c == '\\' {
        Some('\\')
    } else if c == 'n' {
        Some('\n')
    } else if c == 'r' {
        Some('\r')
    } else if c == 't' {
        Some('\t')
    } else {
        None
    }
}

/// Consumes an exact literal from the front of the input and yields the
/// remainder.
pub open spec fn parse_lit(s: Seq<char>, lit: Seq<char>) -> Option<Seq<char>> {
    if lit.len() <= s.len() && s.take(lit.len() as int) == lit {
        Some(s.skip(lit.len() as int))
    } else {
        None
    }
}

/// Consumes an escaped value up to and including its closing quote and
/// yields the unescaped value and the remainder.
pub open spec fn parse_string_body(s: Seq<char>) -> Option<(Seq<char>, Seq<char>)>
    decreases s.len(),
{
    if s.len() == 0 {
        None
    } else if s[0] == '"' {
        Some((Seq::empty(), s.drop_first()))
    } else if s[0] == '\\' {
        if s.len() < 2 {
            None
        } else {
            match unescape_code(s[1]) {
                None => None,
                Some(c) => match parse_string_body(s.skip(2)) {
                    None => None,
                    Some(p) => Some((seq![c] + p.0, p.1)),
                },
            }
        }
    } else {
        match parse_string_body(s.drop_first()) {
            None => None,
            Some(p) => Some((seq![s[0]] + p.0, p.1)),
        }
    }
}

/// Whether a character is a decimal digit.
pub open spec fn is_digit(c: char) -> bool {
    48 <= c as u32 && c as u32 <= 57
}

/// The value of one decimal digit.
pub open spec fn digit_val(c: char) -> nat {
    (c as u32 - 48) as nat
}

/// The digit character for a value below ten.
pub open spec fn digit_char(d: nat) -> char {
    if d == 0 {
        '0'
    } else if d == 1 {
        '1'
    } else if d == 2 {
        '2'
    } else if d == 3 {
        '3'
    } else if d == 4 {
        '4'
    } else if d == 5 {
        '5'
    } else if d == 6 {
        '6'
    } else if d == 7 {
        '7'
    } else if d == 8 {
        '8'
    } else {
        '9'
    }
}

/// The decimal numeral of a number, most significant digit first.
pub open spec fn dec_digits(n: nat) -> Seq<char>
    decreases n,
{
    if n < 10 {
        seq![digit_char(n)]
    } else {
        dec_digits(n / 10) + seq![digit_char(n % 10)]
    }
}

/// Length of the longest digit prefix of the input.
pub open spec fn digit_run(s: Seq<char>) -> nat
    decreases s.len(),
{
    if s.len() == 0 || !is_digit(s[0]) {
        0
    } else {
        (1 + digit_run(s.drop_first())) as nat
    }
}

/// The value of an all-digit sequence, most significant digit first.
pub open spec fn digits_val(s: Seq<char>) -> nat
    decreases s.len(),
{
    if s.len() == 0 {
        0
    } else {
        digits_val(s.drop_last()) * 10 + digit_val(s.last())
    }
}

/// Consumes the longest digit prefix as one number and yields the
/// remainder; fails when there is no digit or the value does not fit.
pub open spec fn parse_u64(s: Seq<char>) -> Option<(u64, Seq<char>)> {
    let k = digit_run(s);
    if k == 0 {
        None
    } else if digits_val(s.take(k as int)) > u64::MAX {
        None
    } else {
        Some(((digits_val(s.take(k as int)) as u64), s.skip(k as int)))
    }
}

/// A literal consumes exactly itself.
pub proof fn lemma_parse_lit_exact(lit: Seq<char>, rest: Seq<char>)
    ensures
        parse_lit(lit + rest, lit) == Some(rest),
{
    assert((lit + rest).take(lit.len() as int) =~= lit);
    assert((lit + rest).skip(lit.len() as int) =~= rest);
}

/// Appending one character extends its escaped form at the end.
pub proof fn lemma_escape_push(a: Seq<char>, x: char)
    ensures
        escape_seq(a.push(x)) == escape_seq(a) + escape_char(x),
    decreases a.len(),
{
    if a.len() == 0 {
        assert(a.push(x)[0] == x);
        assert(a.push(x).drop_first() =~= Seq::<char>::empty());
        assert(escape_seq(a.push(x)) == escape_char(x) + escape_seq(Seq::<char>::empty()));
        assert(escape_seq(Seq::<char>::empty()) == Seq::<char>::empty());
        assert(escape_seq(a) == Seq::<char>::empty());
        assert(escape_seq(a.push(x)) =~= escape_seq(a) + escape_char(x));
    } else {
        assert(a.push(x)[0] == a[0]);
        assert(a.push(x).drop_first() =~= a.drop_first().push(x));
        assert(escape_seq(a.push(x)) == escape_char(a[0]) + escape_seq(a.drop_first().push(x)));
        lemma_escape_push(a.drop_first(), x);
        assert(escape_seq(a) == escape_char(a[0]) + escape_seq(a.drop_first()));
        assert(escape_seq(a.push(x)) =~= escape_seq(a) + escape_char(x));
    }
}

/// Reading an escaped value back through its closing quote recovers the
/// value and leaves the rest untouched.
pub proof fn lemma_parse_escaped(v: Seq<char>, rest: Seq<char>)
    ensures
        parse_string_body(escape_seq(v) + seq!['"'] + rest) == Some((v, rest)),
    decreases v.len(),
{
    let s = escape_seq(v) + seq!['"'] + rest;
    if v.len() == 0 {
        assert(s =~= seq!['"'] + rest);
        assert(s[0] == '"');
        assert(s.drop_first() =~= rest);
        assert(parse_string_body(s) == Some((Seq::<char>::empty(), rest)));
    } else {
        let c = v[0];
        let e = escape_char(c);
        let s2 = escape_seq(v.drop_first()) + seq!['"'] + rest;
        assert(escape_seq(v) == e + escape_seq(v.drop_first()));
        assert(s =~= e + s2);
        lemma_parse_escaped(v.drop_first(), rest);
        assert(seq![c] + v.drop_first() =~= v);
        if escapes(c) {
            assert(e.len() == 2 && e[0] == '\\' && unescape_code(e[1]) == Some(c));
            assert(s[0] == '\\');
            assert(s[1] == e[1]);
            assert(s.skip(2) =~= s2);
            assert(parse_string_body(s) == Some((v, rest)));
        } else {
            assert(e =~= seq![c]);
            assert(s[0] == c);
            assert(c != '"' && c != '\\');
            assert(s.drop_first() =~= s2);
            assert(parse_string_body(s) == Some((v, rest)));
        }
    }
}

/// A numeral consists of digits only, and has at least one.
pub proof fn lemma_dec_digits_digits(n: nat)
    ensures
        dec_digits(n).len() >= 1,
        forall|i: int| 0 <= i < dec_digits(n).len() ==> is_digit(#[trigger] dec_digits(n)[i]),
    decreases n,
{
    if n < 10 {
    } else {
        lemma_dec_digits_digits(n / 10);
        assert(forall|i: int|
            0 <= i < dec_digits(n).len() ==> is_digit(#[trigger] dec_digits(n)[i]));
    }
}

/// Reading the digits of a numeral yields the number it was written from.
pub proof fn lemma_digits_val_dec(n: nat)
    ensures
        digits_val(dec_digits(n)) == n,
    decreases n,
{
    if n < 10 {
        let d = dec_digits(n);
        assert(d == seq![digit_char(n)]);
        assert(d.last() == digit_char(n));
        assert(d.drop_last() =~= Seq::<char>::empty());
        assert(digits_val(Seq::<char>::empty()) == 0);
        assert(digits_val(d) == 0 * 10 + digit_val(digit_char(n)));
        assert(digit_val(digit_char(n)) == n);
    } else {
        lemma_digits_val_dec(n / 10);
        let d = dec_digits(n);
        assert(d == dec_digits(n / 10) + seq![digit_char(n % 10)]);
        assert(d.drop_last() =~= dec_digits(n / 10));
        assert(d.last() == digit_char(n % 10));
        assert(digits_val(d) == digits_val(dec_digits(n / 10)) * 10 + digit_val(
            digit_char(n % 10),
        ));
        assert(digit_val(digit_char(n % 10)) == n % 10);
        assert(n / 10 * 10 + n % 10 == n);
    }
}

/// The digit run of an all-digit sequence followed by a non-digit is
/// exactly the all-digit part.
pub proof fn lemma_digit_run_concat(a: Seq<char>, b: Seq<char>)
    requires
        forall|i: int| 0 <= i < a.len() ==> is_digit(#[trigger] a[i]),
        b.len() > 0,
        !is_digit(b[0]),
    ensures
        digit_run(a + b) == a.len(),
    decreases a.len(),
{
    if a.len() == 0 {
        assert(a + b =~= b);
    } else {
        lemma_digit_run_concat(a.drop_first(), b);
        assert((a + b).drop_first() =~= a.drop_first() + b);
        assert((a + b)[0] == a[0]);
    }
}

/// The exact digit run length of a sequence, characterized pointwise.
pub proof fn lemma_digit_run_exact(s: Seq<char>, m: int)
    requires
        0 <= m <= s.len(),
        forall|i: int| 0 <= i < m ==> is_digit(#[trigger] s[i]),
        m == s.len() || !is_digit(s[m]),
    ensures
        digit_run(s) == m,
    decreases s.len(),
{
    if m == 0 {
    } else {
        assert(is_digit(s[0]));
        lemma_digit_run_exact(s.drop_first(), m - 1);
    }
}

/// Dropping the last digit cannot increase the value.
pub proof fn lemma_digits_val_drop_last(s: Seq<char>)
    requires
        s.len() > 0,
    ensures
        digits_val(s.drop_last()) <= digits_val(s),
{
    let v = digits_val(s.drop_last());
    assert(v * 10 >= v) by (nonlinear_arith);
}

/// A prefix of a digit sequence is worth no more than the whole.
pub proof fn lemma_digits_val_prefix(s: Seq<char>, m: int)
    requires
        0 <= m <= s.len(),
    ensures
        digits_val(s.take(m)) <= digits_val(s),
    decreases s.len() - m,
{
    if m == s.len() {
        assert(s.take(m) =~= s);
    } else {
        lemma_digits_val_prefix(s, m + 1);
        assert(s.take(m + 1).drop_last() =~= s.take(m));
        lemma_digits_val_drop_last(s.take(m + 1));
    }
}

/// Reading a numeral followed by a non-digit recovers the number and the
/// rest.
pub proof fn lemma_parse_u64_round(n: u64, rest: Seq<char>)
    requires
        rest.len() > 0,
        !is_digit(rest[0]),
    ensures
        parse_u64(dec_digits(n as nat) + rest) == Some((n, rest)),
{
    let d = dec_digits(n as nat);
    let s = d + rest;
    lemma_dec_digits_digits(n as nat);
    lemma_digit_run_concat(d, rest);
    lemma_digits_val_dec(n as nat);
    assert(s.take(d.len() as int) =~= d);
    assert(s.skip(d.len() as int) =~= rest);
}

/// Appends the escaped form of a value.
pub(crate) fn append_escaped(out: &mut String, s: &str)
    ensures
        final(out)@ == old(out)@ + escape_seq(s@),
{
    let n = s.unicode_len();
    let mut i: usize = 0;
    while i < n
        invariant
            i <= n,
            n == s@.len(),
            out@ == old(out)@ + escape_seq(s@.take(i as int)),
        decreases n - i,
    {
        let c = s.get_char(i);
        let ghost pre = out@;
        if c == '"' {
            out.append("\\\"");
            proof {
                reveal_strlit("\\\"");
                assert("\\\""@ =~= escape_char(c));
            }
        } else if c == '\\' {
            out.append("\\\\");
            proof {
                reveal_strlit("\\\\");
                assert("\\\\"@ =~= escape_char(c));
            }
        } else if c == '\n' {
            out.append("\\n");
            proof {
                reveal_strlit("\\n");
                assert("\\n"@ =~= escape_char(c));
            }
        } else if c == '\r' {
            out.append("\\r");
            proof {
                reveal_strlit("\\r");
                assert("\\r"@ =~= escape_char(c));
            }
        } else if c == '\t' {
            out.append("\\t");
            proof {
                reveal_strlit("\\t");
                assert("\\t"@ =~= escape_char(c));
            }
        } else {
            push_char(out, c);
            proof {
                assert(seq![c] =~= escape_char(c));
            }
        }
        proof {
            assert(out@ == pre + escape_char(c));
            assert(s@.take(i + 1) =~= s@.take(i as int).push(c));
            lemma_escape_push(s@.take(i as int), c);
            assert(out@ =~= old(out)@ + escape_seq(s@.take(i + 1)));
        }
        i = i + 1;
    }
    proof {
        assert(s@.take(n as int) =~= s@);
    }
}

/// Appends one digit character.
fn append_digit(out: &mut String, d: u64)
    requires
        d < 10,
    ensures
        final(out)@ == old(out)@ + seq![digit_char(d as nat)],
{
    if d == 0 {
        push_char(out, '0');
    } else if d == 1 {
        push_char(out, '1');
    } else if d == 2 {
        push_char(out, '2');
    } else if d == 3 {
        push_char(out, '3');
    } else if d == 4 {
        push_char(out, '4');
    } else if d == 5 {
        push_char(out, '5');
    } else if d == 6 {
        push_char(out, '6');
    } else if d == 7 {
        push_char(out, '7');
    } else if d == 8 {
        push_char(out, '8');
    } else {
        push_char(out, '9');
    }
}

/// Appends the decimal numeral of a number.
pub(crate) fn append_u64(out: &mut String, n: u64)
    ensures
        final(out)@ == old(out)@ + dec_digits(n as nat),
    decreases n,
{
    if n < 10 {
        append_digit(out, n);
    } else {
        let ghost pre = out@;
        append_u64(out, n / 10);
        append_digit(out, n % 10);
        proof {
            assert(out@ =~= pre + dec_digits(n as nat));
        }
    }
}

/// Collects the characters of a string slice.
pub(crate) fn str_chars(s: &str) -> (r: Vec<char>)
    ensures
        r@ == s@,
{
    let n = s.unicode_len();
    let mut v: Vec<char> = Vec::new();
    let mut i: usize = 0;
    while i < n
        invariant
            i <= n,
            n == s@.len(),
            v@ == s@.take(i as int),
        decreases n - i,
    {
        v.push(s.get_char(i));
        proof {
            assert(s@.take(i + 1) =~= s@.take(i as int).push(s@[i as int]));
        }
        i = i + 1;
    }
    proof {
        assert(s@.take(n as int) =~= s@);
    }
    v
}

/// Whether a character is a decimal digit.
fn is_digit_exec(c: char) -> (r: bool)
    ensures
        r == is_digit(c),
{
    let u = c as u32;
    48 <= u && u <= 57
}

/// The character a code after a backslash stands for, if any.
fn unescape_exec(c: char) -> (r: Option<char>)
    ensures
        r == unescape_code(c),
{
    if c == '"' {
        Some('"')
    } else if c == '\\' {
        Some('\\')
    } else if c == 'n' {
        Some('\n')
    } else if c == 'r' {
        Some('\r')
    } else if c == 't' {
        Some('\t')
    } else {
        None
    }
}

/// Consumes an exact literal at position `i`; yields the position after it.
pub(crate) fn p_lit(v: &Vec<char>, i: usize, lit: &str) -> (r: Option<usize>)
    requires
        i <= v@.len(),
    ensures
        match r {
            Some(j) => i <= j <= v@.len() && parse_lit(v@.skip(i as int), lit@) == Some(
                v@.skip(j as int),
            ),
            None => parse_lit(v@.skip(i as int), lit@) is None,
        },
{
    let n = lit.unicode_len();
    let vl = v.len();
    if n > vl - i {
        return None;
    }
    let mut k: usize = 0;
    while k < n
        invariant
            k <= n,
            n == lit@.len(),
            i <= v@.len(),
            vl == v@.len(),
            n <= v@.len() - i,
            forall|m: int| 0 <= m < k ==> v@[i + m] == lit@[m],
        decreases n - k,
    {
        if v[i + k] != lit.get_char(k) {
            proof {
                assert(v@.skip(i as int)[k as int] != lit@[k as int]);
                assert(v@.skip(i as int).take(n as int)[k as int] != lit@[k as int]);
            }
            return None;
        }
        k = k + 1;
    }
    proof {
        assert(v@.skip(i as int).take(n as int) =~= lit@);
        assert(v@.skip(i as int).skip(n as int) =~= v@.skip(i + n));
    }
    Some(i + n)
}

/// Consumes an escaped value through its closing quote at position `i`,
/// appending the unescaped value to `out`; yields the position after the
/// quote.
pub(crate) fn p_string(v: &Vec<char>, i: usize, out: &mut String) -> (r: Option<usize>)
    requires
        i <= v@.len(),
    ensures
        match r {
            Some(j) => i < j <= v@.len() && parse_string_body(v@.skip(i as int)) is Some
                && final(out)@ == old(out)@ + (parse_string_body(v@.skip(i as int))->0).0 && v@.skip(
                j as int,
            ) == (parse_string_body(v@.skip(i as int))->0).1,
            None => parse_string_body(v@.skip(i as int)) is None,
        },
    decreases v@.len() - i,
{
    let ghost s = v@.skip(i as int);
    if i >= v.len() {
        return None;
    }
    let c = v[i];
    proof {
        assert(s[0] == v@[i as int]);
    }
    if c == '"' {
        proof {
            assert(s.drop_first() =~= v@.skip(i + 1));
            assert(out@ =~= out@ + Seq::<char>::empty());
        }
        return Some(i + 1);
    }
    if c == '\\' {
        if i + 1 >= v.len() {
            proof {
                assert(s.len() < 2);
            }
            return None;
        }
        let code = v[i + 1];
        proof {
            assert(s[1] == v@[i + 1]);
        }
        match unescape_exec(code) {
            None => {
                return None;
            },
            Some(ch) => {
                push_char(out, ch);
                let ghost mid = out@;
                proof {
                    assert(s.skip(2) =~= v@.skip(i + 2));
                }
                match p_string(v, i + 2, out) {
                    None => {
                        return None;
                    },
                    Some(j) => {
                        proof {
                            let tail = (parse_string_body(s.skip(2))->0).0;
                            assert(out@ == (old(out)@ + seq![ch]) + tail);
                            assert(out@ =~= old(out)@ + (seq![ch] + tail));
                        }
                        return Some(j);
                    },
                }
            },
        }
    } else {
        push_char(out, c);
        proof {
            assert(s.drop_first() =~= v@.skip(i + 1));
        }
        match p_string(v, i + 1, out) {
            None => {
                return None;
            },
            Some(j) => {
                proof {
                    let tail = (parse_string_body(s.drop_first())->0).0;
                    assert(out@ == (old(out)@ + seq![c]) + tail);
                    assert(out@ =~= old(out)@ + (seq![c] + tail));
                }
                return Some(j);
            },
        }
    }
}

/// Consumes the longest digit run at position `i` as one number; yields
/// the value and the position after it.
pub(crate) fn p_u64(v: &Vec<char>, i: usize) -> (r: Option<(u64, usize)>)
    requires
        i <= v@.len(),
    ensures
        match r {
            Some(p) => i < p.1 <= v@.len() && parse_u64(v@.skip(i as int)) == Some(
                (p.0, v@.skip(p.1 as int)),
            ),
            None => parse_u64(v@.skip(i as int)) is None,
        },
{
    let ghost s = v@.skip(i as int);
    let mut k: usize = i;
    while k < v.len() && is_digit_exec(v[k])
        invariant
            i <= k <= v@.len(),
            s == v@.skip(i as int),
            forall|m: int| i <= m < k ==> is_digit(#[trigger] v@[m]),
        decreases v@.len() - k,
    {
        k = k + 1;
    }
    proof {
        assert(forall|m: int| 0 <= m < k - i ==> is_digit(#[trigger] s[m]));
        assert(k - i == s.len() || !is_digit(s[k - i]));
        lemma_digit_run_exact(s, k - i);
    }
    if k == i {
        return None;
    }
    let ghost run = s.take(k - i);
    let mut acc: u128 = 0;
    let mut j: usize = i;
    while j < k
        invariant
            i <= j <= k <= v@.len(),
            s == v@.skip(i as int),
            run == s.take(k - i),
            digit_run(s) == k - i,
            forall|m: int| i <= m < k ==> is_digit(#[trigger] v@[m]),
            acc == digits_val(s.take(j - i)),
            acc <= u64::MAX,
        decreases k - j,
    {
        let u = v[j] as u32;
        proof {
            assert(is_digit(v@[j as int]));
        }
        let d: u128 = (u - 48) as u128;
        acc = acc * 10 + d;
        proof {
            assert(s.take(j + 1 - i).drop_last() =~= s.take(j - i));
            assert(s.take(j + 1 - i).last() == s[j - i]);
            assert(s[j - i] == v@[j as int]);
            assert(acc == digits_val(s.take(j + 1 - i)));
        }
        if acc > u64::MAX as u128 {
            proof {
                lemma_digits_val_prefix(run, j + 1 - i);
                assert(run.take(j + 1 - i) =~= s.take(j + 1 - i));
                assert(digits_val(run) > u64::MAX);
            }
            return None;
        }
        j = j + 1;
    }
    proof {
        assert(s.take(k - i) =~= run);
        assert(s.skip(k - i) =~= v@.skip(k as int));
    }
    Some(((acc as u64), k))
}

} // verus!
