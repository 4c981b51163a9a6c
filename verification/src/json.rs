//! The textual building blocks of the engine's wire format: decimal
//! numbers, JSON string escaping, and their parsers, each proved to invert
//! the printer.
//!
//! Printers are stated by spec functions over character sequences; the
//! executable printers append exactly those sequences, and the parsers
//! return exactly what the corresponding spec parser returns.

use vstd::prelude::*;

verus! {

// ---------------------------------------------------------------------------
// character classes
// ---------------------------------------------------------------------------

/// A decimal digit.
pub open spec fn is_digit(c: char) -> bool {
    48 <= (c as u32) && (c as u32) <= 57
}

/// The numeric value of a decimal digit.
pub open spec fn digit_val(c: char) -> int {
    (c as u32) - 48
}

/// The digit character of a value below ten.
pub open spec fn digit_char(d: int) -> char {
    ((48 + d) as u32) as char
}

/// The digit character, executable; its table is the spec function's.
pub fn digit_char_ex(d: u8) -> (c: char)
    requires
        d < 10,
    ensures
        c == digit_char(d as int),
        is_digit(c),
        digit_val(c) == d as int,
{
    match d {
        0 => '0',
        1 => '1',
        2 => '2',
        3 => '3',
        4 => '4',
        5 => '5',
        6 => '6',
        7 => '7',
        8 => '8',
        _ => '9',
    }
}

/// The lower-case hexadecimal digit of a value below sixteen.
pub open spec fn hex_char(d: int) -> char {
    if d < 10 {
        ((48 + d) as u32) as char
    } else {
        ((87 + d) as u32) as char
    }
}

/// The value of a hexadecimal digit, upper or lower case; anything else
/// has no value.
pub open spec fn hex_val(c: char) -> Option<int> {
    let v = c as u32;
    if 48 <= v && v <= 57 {
        Some((v - 48) as int)
    } else if 97 <= v && v <= 102 {
        Some((v - 87) as int)
    } else if 65 <= v && v <= 70 {
        Some((v - 55) as int)
    } else {
        None
    }
}

/// Hexadecimal digit printing, executable.
pub fn hex_char_ex(d: u8) -> (c: char)
    requires
        d < 16,
    ensures
        c == hex_char(d as int),
        hex_val(c) == Some(d as int),
{
    match d {
        0 => '0',
        1 => '1',
        2 => '2',
        3 => '3',
        4 => '4',
        5 => '5',
        6 => '6',
        7 => '7',
        8 => '8',
        9 => '9',
        10 => 'a',
        11 => 'b',
        12 => 'c',
        13 => 'd',
        14 => 'e',
        _ => 'f',
    }
}

/// Hexadecimal digit reading, executable.
pub fn hex_val_ex(c: char) -> (r: Option<u32>)
    ensures
        match r {
            Some(v) => hex_val(c) == Some(v as int) && v < 16,
            None => hex_val(c) is None,
        },
{
    let v = c as u32;
    if 48 <= v && v <= 57 {
        Some(v - 48)
    } else if 97 <= v && v <= 102 {
        Some(v - 87)
    } else if 65 <= v && v <= 70 {
        Some(v - 55)
    } else {
        None
    }
}

// ---------------------------------------------------------------------------
// natural numbers in decimal
// ---------------------------------------------------------------------------

/// The decimal digits of a natural number, most significant first.
pub open spec fn spec_print_nat(n: nat) -> Seq<char>
    decreases n,
{
    if n < 10 {
        seq![digit_char(n as int)]
    } else {
        spec_print_nat(n / 10).push(digit_char((n % 10) as int))
    }
}

/// The value of a sequence of digit characters.
pub open spec fn dec_val(s: Seq<char>) -> int
    decreases s.len(),
{
    if s.len() == 0 {
        0
    } else {
        dec_val(s.drop_last()) * 10 + digit_val(s.last())
    }
}

/// Every character of a printed natural number is a digit, and there is
/// at least one.
pub proof fn lemma_print_nat_digits(n: nat)
    ensures
        spec_print_nat(n).len() >= 1,
        forall|i: int| 0 <= i < spec_print_nat(n).len() ==> is_digit(#[trigger] spec_print_nat(n)[i]),
    decreases n,
{
    if n >= 10 {
        lemma_print_nat_digits(n / 10);
    }
}

/// Reading the printed digits of a natural number gives the number back.
pub proof fn lemma_dec_val_print_nat(n: nat)
    ensures
        dec_val(spec_print_nat(n)) == n,
    decreases n,
{
    let s = spec_print_nat(n);
    if n < 10 {
        assert(s.drop_last() =~= Seq::<char>::empty());
        assert(dec_val(s.drop_last()) == 0);
        assert(dec_val(s) == dec_val(s.drop_last()) * 10 + digit_val(s.last()));
        assert(digit_val(digit_char(n as int)) == n);
    } else {
        lemma_dec_val_print_nat(n / 10);
        assert(s.drop_last() =~= spec_print_nat(n / 10));
        assert(dec_val(s) == dec_val(s.drop_last()) * 10 + digit_val(s.last()));
        assert(s.last() == digit_char((n % 10) as int));
        assert(digit_val(digit_char((n % 10) as int)) == n % 10);
    }
}

/// The value of a digit sequence is not negative.
pub proof fn lemma_dec_val_nonneg(s: Seq<char>)
    requires
        forall|i: int| 0 <= i < s.len() ==> is_digit(#[trigger] s[i]),
    ensures
        dec_val(s) >= 0,
    decreases s.len(),
{
    if s.len() > 0 {
        lemma_dec_val_nonneg(s.drop_last());
    }
}

/// Where the run of digit characters that starts at `pos` ends.
pub open spec fn digit_run_end(s: Seq<char>, pos: int) -> int
    decreases s.len() - pos,
{
    if pos < s.len() && is_digit(s[pos]) {
        digit_run_end(s, pos + 1)
    } else {
        pos
    }
}

/// The digit run ends exactly at the first position that is out of range
/// or holds a non-digit.
pub proof fn lemma_digit_run_end(s: Seq<char>, pos: int, end: int)
    requires
        0 <= pos <= end <= s.len(),
        forall|i: int| pos <= i < end ==> is_digit(#[trigger] s[i]),
        end == s.len() || !is_digit(s[end]),
    ensures
        digit_run_end(s, pos) == end,
    decreases end - pos,
{
    if pos < end {
        lemma_digit_run_end(s, pos + 1, end);
    }
}

/// Basic bounds of the digit run.
pub proof fn lemma_digit_run_bounds(s: Seq<char>, pos: int)
    requires
        0 <= pos <= s.len(),
    ensures
        pos <= digit_run_end(s, pos) <= s.len(),
        forall|i: int| pos <= i < digit_run_end(s, pos) ==> is_digit(#[trigger] s[i]),
        digit_run_end(s, pos) == s.len() || !is_digit(s[digit_run_end(s, pos)]),
    decreases s.len() - pos,
{
    if pos < s.len() && is_digit(s[pos]) {
        lemma_digit_run_bounds(s, pos + 1);
    }
}

/// What parsing a decimal natural number at `pos` yields: its value and
/// the position after its digits, or nothing where no digit stands.
pub open spec fn spec_parse_nat(s: Seq<char>, pos: int) -> Option<(int, int)> {
    let end = digit_run_end(s, pos);
    if end > pos {
        Some((dec_val(s.subrange(pos, end)), end))
    } else {
        None
    }
}

/// Parsing right after printing a natural number gives the number back,
/// provided no further digit follows directly.
pub proof fn lemma_parse_print_nat(s: Seq<char>, pos: int, n: nat)
    requires
        0 <= pos,
        pos + spec_print_nat(n).len() <= s.len(),
        s.subrange(pos, pos + spec_print_nat(n).len() as int) == spec_print_nat(n),
        pos + spec_print_nat(n).len() == s.len() || !is_digit(
            s[pos + spec_print_nat(n).len() as int],
        ),
    ensures
        spec_parse_nat(s, pos) == Some((n as int, pos + spec_print_nat(n).len() as int)),
{
    let l = spec_print_nat(n).len() as int;
    lemma_print_nat_digits(n);
    assert(forall|i: int| pos <= i < pos + l ==> is_digit(#[trigger] s[i])) by {
        assert(forall|i: int| pos <= i < pos + l ==> s[i] == spec_print_nat(n)[i - pos]);
    }
    lemma_digit_run_end(s, pos, pos + l);
    lemma_dec_val_print_nat(n);
}

/// Appending one more digit multiplies the value by ten and adds it.
pub proof fn lemma_dec_val_snoc(s: Seq<char>, pos: int, i: int)
    requires
        0 <= pos <= i < s.len(),
    ensures
        dec_val(s.subrange(pos, i + 1)) == dec_val(s.subrange(pos, i)) * 10 + digit_val(s[i]),
{
    assert(s.subrange(pos, i + 1).drop_last() =~= s.subrange(pos, i));
    assert(s.subrange(pos, i + 1).last() == s[i]);
}

/// Extending a digit run never shrinks the value.
pub proof fn lemma_dec_val_monotone(s: Seq<char>, pos: int, i: int, end: int)
    requires
        0 <= pos <= i <= end <= s.len(),
        forall|j: int| pos <= j < end ==> is_digit(#[trigger] s[j]),
    ensures
        dec_val(s.subrange(pos, end)) >= dec_val(s.subrange(pos, i)),
    decreases end - i,
{
    if i < end {
        lemma_dec_val_monotone(s, pos, i + 1, end);
        lemma_dec_val_snoc(s, pos, i);
        lemma_dec_val_nonneg(s.subrange(pos, i));
    }
}

/// The digit test, executable.
#[inline]
pub fn char_is_digit(c: char) -> (r: bool)
    ensures
        r == is_digit(c),
{
    (c as u32) >= 48 && (c as u32) <= 57
}

/// Parses a decimal natural number, reporting overflow as failure.
pub fn parse_nat(s: &Vec<char>, pos: usize) -> (r: Option<(u64, usize)>)
    requires
        pos <= s@.len(),
    ensures
        match r {
            Some((v, end)) => spec_parse_nat(s@, pos as int) == Some((v as int, end as int))
                && pos < end <= s@.len(),
            None => spec_parse_nat(s@, pos as int) is None || (spec_parse_nat(
                s@,
                pos as int,
            ) matches Some((v, _)) && v > u64::MAX),
        },
{
    proof {
        lemma_digit_run_bounds(s@, pos as int);
    }
    let ghost end = digit_run_end(s@, pos as int);
    if pos >= s.len() {
        return None;
    }
    let mut i: usize = pos;
    let mut acc: u64 = 0;
    while i < s.len() && char_is_digit(s[i])
        invariant
            pos <= i <= s@.len(),
            i <= end <= s@.len(),
            forall|j: int| pos <= j < i ==> is_digit(#[trigger] s@[j]),
            acc as int == dec_val(s@.subrange(pos as int, i as int)),
            i < end ==> is_digit(s@[i as int]),
            i == end || i < s@.len(),
            end == digit_run_end(s@, pos as int),
        decreases s@.len() - i,
    {
        proof {
            lemma_digit_run_bounds(s@, pos as int);
            assert(i < end);
        }
        let d: u64 = (s[i] as u32 - 48) as u64;
        proof {
            lemma_dec_val_snoc(s@, pos as int, i as int);
        }
        if acc > (u64::MAX - d) / 10 {
            proof {
                lemma_dec_val_monotone(s@, pos as int, i as int + 1, end);
                assert(dec_val(s@.subrange(pos as int, end)) > u64::MAX);
            }
            return None;
        }
        acc = acc * 10 + d;
        i += 1;
        proof {
            if i < end {
                lemma_digit_run_bounds(s@, pos as int);
            }
        }
    }
    proof {
        lemma_digit_run_end(s@, pos as int, i as int);
    }
    if i == pos {
        None
    } else {
        Some((acc, i))
    }
}

/// Prints a natural number in decimal onto the output.
pub fn print_u64(out: &mut Vec<char>, n: u64)
    ensures
        final(out)@ == old(out)@ + spec_print_nat(n as nat),
    decreases n,
{
    let ghost pre = out@;
    if n < 10 {
        out.push(digit_char_ex(n as u8));
        proof {
            assert(out@ =~= pre + spec_print_nat(n as nat));
        }
    } else {
        print_u64(out, n / 10);
        out.push(digit_char_ex((n % 10) as u8));
        proof {
            assert(out@ =~= pre + spec_print_nat(n as nat));
        }
    }
}

// ---------------------------------------------------------------------------
// thousandths as decimals
// ---------------------------------------------------------------------------

/// The fraction digits of a value below one thousand, trailing zeros
/// trimmed; the value must not be zero when all three digits are zero is
/// handled by the caller printing no fraction at all.
pub open spec fn frac3_digits(f: int) -> Seq<char> {
    let d1 = f / 100;
    let r = f % 100;
    let d2 = r / 10;
    let d3 = r % 10;
    if r == 0 {
        seq![digit_char(d1)]
    } else if d3 == 0 {
        seq![digit_char(d1), digit_char(d2)]
    } else {
        seq![digit_char(d1), digit_char(d2), digit_char(d3)]
    }
}

/// A value in thousandths, printed as a decimal number: sign, whole part,
/// and a fraction part only where the fraction is not zero.
pub open spec fn spec_print_milli(m: int) -> Seq<char> {
    let a = if m < 0 {
        -m
    } else {
        m
    };
    let sign: Seq<char> = if m < 0 {
        seq!['-']
    } else {
        Seq::empty()
    };
    let whole = sign + spec_print_nat((a / 1000) as nat);
    if a % 1000 == 0 {
        whole
    } else {
        whole + seq!['.'] + frac3_digits(a % 1000)
    }
}

/// Parses up to three fraction digits, scaled to thousandths.
pub open spec fn spec_parse_frac3(s: Seq<char>, pos: int) -> Option<(int, int)> {
    let end = digit_run_end(s, pos);
    let k = end - pos;
    if k == 1 {
        Some((dec_val(s.subrange(pos, end)) * 100, end))
    } else if k == 2 {
        Some((dec_val(s.subrange(pos, end)) * 10, end))
    } else if k == 3 {
        Some((dec_val(s.subrange(pos, end)), end))
    } else {
        None
    }
}

/// Parses a decimal number into thousandths: optional sign, whole part,
/// optional fraction of at most three digits.
pub open spec fn spec_parse_milli(s: Seq<char>, pos: int) -> Option<(int, int)> {
    let neg = 0 <= pos < s.len() && s[pos] == '-';
    let p0 = if neg {
        pos + 1
    } else {
        pos
    };
    match spec_parse_nat(s, p0) {
        None => None,
        Some((units, p1)) => {
            if p1 < s.len() && s[p1] == '.' {
                match spec_parse_frac3(s, p1 + 1) {
                    None => None,
                    Some((f, p2)) => Some(
                        (
                            if neg {
                                -(units * 1000 + f)
                            } else {
                                units * 1000 + f
                            },
                            p2,
                        ),
                    ),
                }
            } else {
                Some(
                    (
                        if neg {
                            -(units * 1000)
                        } else {
                            units * 1000
                        },
                        p1,
                    ),
                )
            }
        },
    }
}

/// The value of one digit character.
pub proof fn lemma_dec_val1(c1: char)
    ensures
        dec_val(seq![c1]) == digit_val(c1),
{
    assert(seq![c1].drop_last() =~= Seq::<char>::empty());
    assert(dec_val(Seq::<char>::empty()) == 0);
    assert(seq![c1].last() == c1);
}

/// The value of two digit characters.
pub proof fn lemma_dec_val2(c1: char, c2: char)
    ensures
        dec_val(seq![c1, c2]) == digit_val(c1) * 10 + digit_val(c2),
{
    assert(seq![c1, c2].drop_last() =~= seq![c1]);
    assert(seq![c1, c2].last() == c2);
    lemma_dec_val1(c1);
}

/// The value of three digit characters.
pub proof fn lemma_dec_val3(c1: char, c2: char, c3: char)
    ensures
        dec_val(seq![c1, c2, c3]) == (digit_val(c1) * 10 + digit_val(c2)) * 10 + digit_val(c3),
{
    assert(seq![c1, c2, c3].drop_last() =~= seq![c1, c2]);
    assert(seq![c1, c2, c3].last() == c3);
    lemma_dec_val2(c1, c2);
}

/// Parsing right after printing thousandths gives the value back, provided
/// neither a digit nor a dot follows directly.
pub proof fn lemma_parse_print_milli(s: Seq<char>, pos: int, m: int)
    requires
        0 <= pos,
        pos + spec_print_milli(m).len() <= s.len(),
        s.subrange(pos, pos + spec_print_milli(m).len() as int) == spec_print_milli(m),
        pos + spec_print_milli(m).len() == s.len() || (!is_digit(
            s[pos + spec_print_milli(m).len() as int],
        ) && s[pos + spec_print_milli(m).len() as int] != '.'),
    ensures
        spec_parse_milli(s, pos) == Some((m, pos + spec_print_milli(m).len() as int)),
{
    let p = spec_print_milli(m);
    let l = p.len() as int;
    let a = if m < 0 {
        -m
    } else {
        m
    };
    let u = (a / 1000) as nat;
    let f = a % 1000;
    let un = spec_print_nat(u);
    let ul = un.len() as int;
    let p0 = if m < 0 {
        pos + 1
    } else {
        pos
    };
    lemma_print_nat_digits(u);
    vstd::arithmetic::div_mod::lemma_fundamental_div_mod(a, 1000);
    // the sign
    if m < 0 {
        assert(s[pos] == p[0]);
        assert(p[0] == '-');
    } else {
        assert(!is_digit('-')) by {
            assert(('-' as u32) == 45);
        }
        if pos < s.len() {
            if f == 0 {
                if l > 0 {
                    assert(s[pos] == p[0]);
                }
            } else {
                assert(s[pos] == p[0]);
            }
            assert(is_digit(s[pos]) ==> s[pos] != '-') by {
                assert(('-' as u32) == 45);
            }
        }
    }
    if m < 0 {
        assert(s[pos] == '-');
    } else {
        assert(!(0 <= pos < s.len() && s[pos] == '-')) by {
            assert(p[0] == un[0] || p[0] == '-');
            assert(is_digit(un[0]));
            assert(s[pos] == p[0]);
            assert(('-' as u32) == 45);
        }
    }
    // the whole part
    assert forall|i: int| 0 <= i < ul implies s.subrange(p0, p0 + ul)[i] == un[i] by {
        assert(s.subrange(p0, p0 + ul)[i] == s[p0 + i]);
        assert(s[p0 + i] == s.subrange(pos, pos + l)[p0 - pos + i]);
        assert(p[p0 - pos + i] == un[i]);
    }
    assert(s.subrange(p0, p0 + ul) =~= un);
    if f == 0 {
        assert(p0 + ul == pos + l);
        lemma_parse_print_nat(s, p0, u);
        assert(spec_parse_nat(s, p0) == Some((u as int, pos + l)));
        assert(u * 1000 == a);
        if pos + l < s.len() {
            assert(s[pos + l] != '.');
        }
    } else {
        // the dot and the fraction
        let fd = frac3_digits(f);
        let k = fd.len() as int;
        let fp = p0 + ul + 1;
        assert(p =~= (if m < 0 {
            seq!['-']
        } else {
            Seq::<char>::empty()
        }) + un + seq!['.'] + fd);
        assert(s[p0 + ul] == p[p0 - pos + ul]);
        assert(p[p0 - pos + ul] == '.');
        assert(!is_digit('.')) by {
            assert(('.' as u32) == 46);
        }
        lemma_parse_print_nat(s, p0, u);
        assert(spec_parse_nat(s, p0) == Some((u as int, p0 + ul)));
        // fraction digits stand in s at [fp, pos + l)
        vstd::arithmetic::div_mod::lemma_fundamental_div_mod(f, 100);
        vstd::arithmetic::div_mod::lemma_fundamental_div_mod(f % 100, 10);
        let d1 = f / 100;
        let r = f % 100;
        let d2 = r / 10;
        let d3 = r % 10;
        assert(fp + k == pos + l);
        assert(forall|i: int| 0 <= i < k ==> is_digit(#[trigger] fd[i]));
        assert forall|i: int| 0 <= i < k implies s.subrange(fp, fp + k)[i] == fd[i] by {
            assert(s.subrange(fp, fp + k)[i] == s[fp + i]);
            assert(s[fp + i] == s.subrange(pos, pos + l)[fp - pos + i]);
            assert(p[fp - pos + i] == fd[i]);
        }
        let sub = s.subrange(fp, fp + k);
        assert(sub =~= fd);
        assert forall|i: int| fp <= i < fp + k implies is_digit(#[trigger] s[i]) by {
            assert(s[i] == sub[i - fp]);
            assert(sub[i - fp] == fd[i - fp]);
        }
        lemma_digit_run_end(s, fp, fp + k);
        assert(digit_val(digit_char(d1)) == d1);
        assert(digit_val(digit_char(d2)) == d2);
        assert(digit_val(digit_char(d3)) == d3);
        if r == 0 {
            lemma_dec_val1(digit_char(d1));
            assert(dec_val(sub) == d1);
            assert(d1 * 100 == f);
        } else if d3 == 0 {
            lemma_dec_val2(digit_char(d1), digit_char(d2));
            assert(dec_val(sub) == d1 * 10 + d2);
            assert((d1 * 10 + d2) * 10 == f);
        } else {
            lemma_dec_val3(digit_char(d1), digit_char(d2), digit_char(d3));
            assert(dec_val(sub) == (d1 * 10 + d2) * 10 + d3);
            assert((d1 * 10 + d2) * 10 + d3 == f);
        }
        assert(spec_parse_frac3(s, fp) == Some((f, pos + l)));
        assert(u * 1000 + f == a);
    }
}

/// Prints a value in thousandths onto the output.
pub fn print_milli(out: &mut Vec<char>, m: i64)
    ensures
        final(out)@ == old(out)@ + spec_print_milli(m as int),
{
    let ghost pre = out@;
    let a: u64 = if m < 0 {
        out.push('-');
        (-(m as i128)) as u64
    } else {
        m as u64
    };
    print_u64(out, a / 1000);
    let f: u64 = a % 1000;
    if f != 0 {
        out.push('.');
        let d1 = (f / 100) as u8;
        let r = (f % 100) as u8;
        let d2 = r / 10;
        let d3 = r % 10;
        out.push(digit_char_ex(d1));
        if r != 0 {
            if d3 == 0 {
                out.push(digit_char_ex(d2));
            } else {
                out.push(digit_char_ex(d2));
                out.push(digit_char_ex(d3));
            }
            proof {
                assert(out@ =~= pre + spec_print_milli(m as int));
            }
        } else {
            proof {
                assert(out@ =~= pre + spec_print_milli(m as int));
            }
        }
    } else {
        proof {
            assert(out@ =~= pre + spec_print_milli(m as int));
        }
    }
}

/// Parses a decimal number into thousandths, failing where the value
/// cannot be held in a signed machine word.
pub fn parse_milli(s: &Vec<char>, pos: usize) -> (r: Option<(i64, usize)>)
    requires
        pos <= s@.len(),
    ensures
        match r {
            Some((v, end)) => spec_parse_milli(s@, pos as int) == Some((v as int, end as int))
                && pos < end <= s@.len(),
            None => match spec_parse_milli(s@, pos as int) {
                Some((v, _)) => v < i64::MIN || v > i64::MAX,
                None => true,
            },
        },
{
    let neg = pos < s.len() && s[pos] == '-';
    let p0 = if neg {
        pos + 1
    } else {
        pos
    };
    let (units, p1) = match parse_nat(s, p0) {
        Some(u) => u,
        None => {
            proof {
                match spec_parse_nat(s@, p0 as int) {
                    Some((v, p1)) => {
                        // the exec parser overflowed; the value is out of range
                        assert(v > u64::MAX);
                        if p1 < s@.len() && s@[p1] == '.' {
                            lemma_parse_frac3_range(s@, p1 + 1);
                        }
                        match spec_parse_milli(s@, pos as int) {
                            Some((w, _)) => {
                                assert(w < i64::MIN || w > i64::MAX);
                            },
                            None => {},
                        }
                    },
                    None => {},
                }
            }
            return None;
        },
    };
    let mut frac: u64 = 0;
    let mut end: usize = p1;
    if p1 < s.len() && s[p1] == '.' {
        match parse_frac3(s, p1 + 1) {
            Some((f, e)) => {
                frac = f;
                end = e;
            },
            None => {
                return None;
            },
        }
    }
    let v128: i128 = (units as i128) * 1000 + (frac as i128);
    let v128 = if neg {
        -v128
    } else {
        v128
    };
    if v128 < i64::MIN as i128 || v128 > i64::MAX as i128 {
        return None;
    }
    Some((v128 as i64, end))
}

/// Parses up to three fraction digits, scaled to thousandths, executable.
pub fn parse_frac3(s: &Vec<char>, pos: usize) -> (r: Option<(u64, usize)>)
    requires
        pos <= s@.len(),
    ensures
        match r {
            Some((v, end)) => spec_parse_frac3(s@, pos as int) == Some((v as int, end as int))
                && pos < end <= s@.len() && v < 1000,
            None => spec_parse_frac3(s@, pos as int) is None,
        },
{
    proof {
        lemma_digit_run_bounds(s@, pos as int);
    }
    match parse_nat(s, pos) {
        Some((v, end)) => {
            let k = end - pos;
            if k == 1 {
                proof {
                    lemma_dec_val_bounded(s@, pos as int, end as int);
                }
                Some((v * 100, end))
            } else if k == 2 {
                proof {
                    lemma_dec_val_bounded(s@, pos as int, end as int);
                }
                Some((v * 10, end))
            } else if k == 3 {
                proof {
                    lemma_dec_val_bounded(s@, pos as int, end as int);
                }
                Some((v, end))
            } else {
                None
            }
        },
        None => {
            proof {
                let end = digit_run_end(s@, pos as int);
                if end > pos && end - pos <= 3 {
                    // a run of at most three digits cannot overflow
                    lemma_dec_val_bounded(s@, pos as int, end);
                }
            }
            None
        },
    }
}

/// What a successful fraction parse yields is within one thousand.
pub proof fn lemma_parse_frac3_range(s: Seq<char>, pos: int)
    requires
        0 <= pos <= s.len(),
    ensures
        match spec_parse_frac3(s, pos) {
            Some((f, _)) => 0 <= f < 1000,
            None => true,
        },
{
    lemma_digit_run_bounds(s, pos);
    let end = digit_run_end(s, pos);
    if 1 <= end - pos <= 3 {
        lemma_dec_val_bounded(s, pos, end);
    }
}

/// A digit run reads below ten to the power of its length; stated here up
/// to three digits.
pub proof fn lemma_dec_val_bounded(s: Seq<char>, pos: int, end: int)
    requires
        0 <= pos <= end <= s.len(),
        end - pos <= 3,
        forall|i: int| pos <= i < end ==> is_digit(#[trigger] s[i]),
    ensures
        0 <= dec_val(s.subrange(pos, end)),
        dec_val(s.subrange(pos, end)) < if end - pos == 0 {
            1int
        } else if end - pos == 1 {
            10int
        } else if end - pos == 2 {
            100int
        } else {
            1000int
        },
    decreases end - pos,
{
    if end > pos {
        lemma_dec_val_bounded(s, pos, end - 1);
        assert(s.subrange(pos, end).drop_last() =~= s.subrange(pos, end - 1));
        let sub = s.subrange(pos, end);
        assert(dec_val(sub) == dec_val(sub.drop_last()) * 10 + digit_val(sub.last()));
        assert(sub.last() == s[end - 1]);
        assert(is_digit(s[end - 1]));
    } else {
        assert(s.subrange(pos, end) =~= Seq::<char>::empty());
    }
}

// ---------------------------------------------------------------------------
// strings
// ---------------------------------------------------------------------------

/// How one character is written inside a JSON string: the five short
/// escapes, a four-digit escape for the remaining control characters, and
/// everything else as itself.
pub open spec fn spec_escape_char(c: char) -> Seq<char> {
    if c == '"' {
        seq!['\\', '"']
    } else if c == '\\' {
        seq!['\\', '\\']
    } else if c == '\n' {
        seq!['\\', 'n']
    } else if c == '\r' {
        seq!['\\', 'r']
    } else if c == '\t' {
        seq!['\\', 't']
    } else if (c as u32) < 32 {
        seq![
            '\\',
            'u',
            '0',
            '0',
            hex_char(((c as u32) / 16) as int),
            hex_char(((c as u32) % 16) as int),
        ]
    } else {
        seq![c]
    }
}

/// A whole character sequence, escaped.
pub open spec fn spec_escape(s: Seq<char>) -> Seq<char>
    decreases s.len(),
{
    if s.len() == 0 {
        Seq::empty()
    } else {
        spec_escape_char(s[0]) + spec_escape(s.skip(1))
    }
}

/// A JSON string: quote, escaped content, quote.
pub open spec fn spec_print_string(s: Seq<char>) -> Seq<char> {
    seq!['"'] + spec_escape(s) + seq!['"']
}

/// Escaping distributes over concatenation.
pub proof fn lemma_escape_app(a: Seq<char>, b: Seq<char>)
    ensures
        spec_escape(a + b) == spec_escape(a) + spec_escape(b),
    decreases a.len(),
{
    if a.len() == 0 {
        assert(a + b =~= b);
        assert(spec_escape(a) + spec_escape(b) =~= spec_escape(b));
    } else {
        assert((a + b).skip(1) =~= a.skip(1) + b);
        lemma_escape_app(a.skip(1), b);
        assert((a + b)[0] == a[0]);
        assert(spec_escape(a + b) == spec_escape_char(a[0]) + (spec_escape(a.skip(1))
            + spec_escape(b)));
        assert(spec_escape_char(a[0]) + (spec_escape(a.skip(1)) + spec_escape(b))
            =~= (spec_escape_char(a[0]) + spec_escape(a.skip(1))) + spec_escape(b));
    }
}

/// The value of four hexadecimal digits, or nothing where one is missing.
pub open spec fn spec_hex4(s: Seq<char>, pos: int) -> Option<int> {
    if pos < 0 || pos + 4 > s.len() {
        None
    } else {
        match (hex_val(s[pos]), hex_val(s[pos + 1]), hex_val(s[pos + 2]), hex_val(s[pos + 3])) {
            (Some(a), Some(b), Some(c), Some(d)) => Some(((a * 16 + b) * 16 + c) * 16 + d),
            _ => None,
        }
    }
}

/// What a backslash escape at `pos` denotes: the character and the
/// position after the escape.  A high surrogate must be followed by a low
/// one; a lone surrogate denotes nothing.
pub open spec fn spec_parse_escape(s: Seq<char>, pos: int) -> Option<(char, int)> {
    if pos < 0 || pos + 2 > s.len() {
        None
    } else {
        let e = s[pos + 1];
        if e == '"' {
            Some(('"', pos + 2))
        } else if e == '\\' {
            Some(('\\', pos + 2))
        } else if e == '/' {
            Some(('/', pos + 2))
        } else if e == 'b' {
            Some(((8u32 as char), pos + 2))
        } else if e == 'f' {
            Some(((12u32 as char), pos + 2))
        } else if e == 'n' {
            Some(('\n', pos + 2))
        } else if e == 'r' {
            Some(('\r', pos + 2))
        } else if e == 't' {
            Some(('\t', pos + 2))
        } else if e == 'u' {
            spec_parse_unicode_escape(s, pos)
        } else {
            None
        }
    }
}

/// A four-digit escape, with surrogate pairing.
pub open spec fn spec_parse_unicode_escape(s: Seq<char>, pos: int) -> Option<(char, int)> {
    match spec_hex4(s, pos + 2) {
        None => None,
        Some(v1) => {
            if 0xD800 <= v1 < 0xDC00 {
                if pos + 8 <= s.len() && s[pos + 6] == '\\' && s[pos + 7] == 'u' {
                    match spec_hex4(s, pos + 8) {
                        None => None,
                        Some(v2) => {
                            if 0xDC00 <= v2 < 0xE000 {
                                Some(
                                    (
                                        (((0x10000 + (v1 - 0xD800) * 0x400 + (v2 - 0xDC00))
                                            as u32) as char),
                                        pos + 12,
                                    ),
                                )
                            } else {
                                None
                            }
                        },
                    }
                } else {
                    None
                }
            } else if 0xDC00 <= v1 < 0xE000 {
                None
            } else {
                Some(((v1 as u32 as char), pos + 6))
            }
        },
    }
}

/// What parsing string content at `pos` yields, the opening quote already
/// consumed: the content and the position after the closing quote.
pub open spec fn spec_parse_string_body(s: Seq<char>, pos: int) -> Option<(Seq<char>, int)>
    decreases s.len() - pos,
{
    if pos < 0 || pos >= s.len() {
        None
    } else {
        let c = s[pos];
        if c == '"' {
            Some((Seq::empty(), pos + 1))
        } else if c == '\\' {
            match spec_parse_escape(s, pos) {
                None => None,
                Some((ch, p)) => {
                    if pos < p <= s.len() {
                        match spec_parse_string_body(s, p) {
                            None => None,
                            Some((rest, e)) => Some((seq![ch] + rest, e)),
                        }
                    } else {
                        None
                    }
                },
            }
        } else if (c as u32) < 32 {
            None
        } else {
            match spec_parse_string_body(s, pos + 1) {
                None => None,
                Some((rest, e)) => Some((seq![c] + rest, e)),
            }
        }
    }
}

/// What parsing a whole JSON string at `pos` yields.
pub open spec fn spec_parse_string(s: Seq<char>, pos: int) -> Option<(Seq<char>, int)> {
    if 0 <= pos < s.len() && s[pos] == '"' {
        spec_parse_string_body(s, pos + 1)
    } else {
        None
    }
}

/// Reading a printed hexadecimal digit gives its value back.
pub proof fn lemma_hex_val_hex_char(v: int)
    requires
        0 <= v < 16,
    ensures
        hex_val(hex_char(v)) == Some(v),
{
}

/// Parsing string content right after escaped content and a closing quote
/// gives the content back.
#[verifier::rlimit(80)]
pub proof fn lemma_parse_body_of_escape(s: Seq<char>, pos: int, sv: Seq<char>)
    requires
        0 <= pos,
        pos + spec_escape(sv).len() + 1 <= s.len(),
        s.subrange(pos, pos + spec_escape(sv).len() as int) == spec_escape(sv),
        s[pos + spec_escape(sv).len() as int] == '"',
    ensures
        spec_parse_string_body(s, pos) == Some((sv, pos + spec_escape(sv).len() + 1)),
    decreases sv.len(),
{
    let esc = spec_escape(sv);
    let l = esc.len() as int;
    if sv.len() == 0 {
        assert(s[pos] == '"');
        assert(spec_parse_string_body(s, pos) == Some((Seq::<char>::empty(), pos + 1)));
        assert(Seq::<char>::empty() =~= sv);
    } else {
        let c = sv[0];
        let ec = spec_escape_char(c);
        let el = ec.len() as int;
        let rest = sv.skip(1);
        let erest = spec_escape(rest);
        assert(esc == ec + erest);
        assert forall|i: int| 0 <= i < el implies s[pos + i] == ec[i] by {
            assert(s[pos + i] == s.subrange(pos, pos + l)[i]);
            assert(esc[i] == ec[i]);
        }
        // the rest of the escaped content stands right after
        assert forall|i: int| 0 <= i < erest.len() implies s.subrange(
            pos + el,
            pos + el + erest.len() as int,
        )[i] == erest[i] by {
            assert(s.subrange(pos + el, pos + el + erest.len() as int)[i] == s[pos + el + i]);
            assert(s[pos + el + i] == s.subrange(pos, pos + l)[el + i]);
            assert(esc[el + i] == erest[i]);
        }
        assert(s.subrange(pos + el, pos + el + erest.len() as int) =~= erest);
        assert(s[pos + el + erest.len() as int] == '"') by {
            assert(pos + el + erest.len() as int == pos + l);
        }
        lemma_parse_body_of_escape(s, pos + el, rest);
        let after = pos + el + erest.len() + 1;
        assert(spec_parse_string_body(s, pos + el) == Some((rest, after)));
        let u = c as u32;
        assert(s[pos + 0] == ec[0]);
        assert(s[pos] == ec[0]);
        if ec.len() >= 2 {
            assert(s[pos + 1] == ec[1]);
        }
        if c == '"' || c == '\\' || c == '\n' || c == '\r' || c == '\t' {
            assert(s[pos] == '\\');
            assert(spec_parse_escape(s, pos) == Some((c, pos + 2)));
            assert(el == 2);
            assert(spec_parse_string_body(s, pos) == Some((seq![c] + rest, after)));
            assert(seq![c] + rest =~= sv);
        } else if u < 32 {
            assert(s[pos] == '\\');
            assert(s[pos + 1] == 'u');
            assert(s[pos + 2] == ec[2] && s[pos + 3] == ec[3] && s[pos + 4] == ec[4] && s[pos + 5]
                == ec[5]);
            assert(s[pos + 2] == '0');
            assert(s[pos + 3] == '0');
            assert(s[pos + 4] == hex_char((u / 16) as int));
            assert(s[pos + 5] == hex_char((u % 16) as int));
            assert(hex_val('0') == Some(0int)) by {
                assert(('0' as u32) == 48);
            }
            lemma_hex_val_hex_char((u / 16) as int);
            lemma_hex_val_hex_char((u % 16) as int);
            vstd::arithmetic::div_mod::lemma_fundamental_div_mod(u as int, 16);
            assert(spec_hex4(s, pos + 2) == Some(u as int));
            assert(u < 0xD800);
            assert(spec_parse_escape(s, pos) == Some(((u as char), pos + 6)));
            vstd::utf8::char_u32_cast(c, u);
            assert((u as char) == c);
            assert(el == 6);
            assert(spec_parse_string_body(s, pos) == Some((seq![c] + rest, after)));
            assert(seq![c] + rest =~= sv);
        } else {
            assert(ec == seq![c]);
            assert(el == 1);
            assert(s[pos] == c);
            assert(c != '"' && c != '\\');
            assert(spec_parse_string_body(s, pos) == Some((seq![c] + rest, after)));
            assert(seq![c] + rest =~= sv);
        }
    }
}

/// Parsing right after printing a JSON string gives the content back.
pub proof fn lemma_parse_print_string(s: Seq<char>, pos: int, sv: Seq<char>)
    requires
        0 <= pos,
        pos + spec_print_string(sv).len() <= s.len(),
        s.subrange(pos, pos + spec_print_string(sv).len() as int) == spec_print_string(sv),
    ensures
        spec_parse_string(s, pos) == Some((sv, pos + spec_print_string(sv).len() as int)),
{
    let p = spec_print_string(sv);
    let esc = spec_escape(sv);
    let l = p.len() as int;
    assert(l == esc.len() + 2);
    assert(s[pos] == '"') by {
        assert(s[pos] == s.subrange(pos, pos + l)[0]);
        assert(p[0] == '"');
    }
    assert forall|i: int| 0 <= i < esc.len() implies s.subrange(
        pos + 1,
        pos + 1 + esc.len() as int,
    )[i] == esc[i] by {
        assert(s.subrange(pos + 1, pos + 1 + esc.len() as int)[i] == s[pos + 1 + i]);
        assert(s[pos + 1 + i] == s.subrange(pos, pos + l)[1 + i]);
        assert(p[1 + i] == esc[i]);
    }
    assert(s.subrange(pos + 1, pos + 1 + esc.len() as int) =~= esc);
    assert(s[pos + 1 + esc.len() as int] == '"') by {
        assert(s[pos + 1 + esc.len() as int] == s.subrange(pos, pos + l)[l - 1]);
        assert(p[l - 1] == '"');
    }
    lemma_parse_body_of_escape(s, pos + 1, sv);
}

/// Escaping one more character extends the escaped prefix.
pub proof fn lemma_escape_take_snoc(s: Seq<char>, i: int)
    requires
        0 <= i < s.len(),
    ensures
        spec_escape(s.take(i + 1)) == spec_escape(s.take(i)) + spec_escape_char(s[i]),
{
    assert(s.take(i + 1) =~= s.take(i) + seq![s[i]]);
    lemma_escape_app(s.take(i), seq![s[i]]);
    assert(spec_escape(seq![s[i]]) =~= spec_escape_char(s[i])) by {
        assert(seq![s[i]].skip(1) =~= Seq::<char>::empty());
        assert(spec_escape(seq![s[i]]) == spec_escape_char(s[i]) + spec_escape(
            Seq::<char>::empty(),
        ));
    }
}

/// Appends the escaped content characters onto the output.
pub fn escape_into(out: &mut Vec<char>, s: &Vec<char>)
    ensures
        final(out)@ == old(out)@ + spec_escape(s@),
{
    let mut i: usize = 0;
    proof {
        assert(spec_escape(s@.take(0)) =~= Seq::<char>::empty());
        assert(out@ =~= out@ + spec_escape(s@.take(0)));
    }
    while i < s.len()
        invariant
            i <= s@.len(),
            out@ == old(out)@ + spec_escape(s@.take(i as int)),
        decreases s@.len() - i,
    {
        let c = s[i];
        let ghost pre = out@;
        let u = c as u32;
        if c == '"' {
            out.push('\\');
            out.push('"');
        } else if c == '\\' {
            out.push('\\');
            out.push('\\');
        } else if c == '\n' {
            out.push('\\');
            out.push('n');
        } else if c == '\r' {
            out.push('\\');
            out.push('r');
        } else if c == '\t' {
            out.push('\\');
            out.push('t');
        } else if u < 32 {
            out.push('\\');
            out.push('u');
            out.push('0');
            out.push('0');
            out.push(hex_char_ex((u / 16) as u8));
            out.push(hex_char_ex((u % 16) as u8));
        } else {
            out.push(c);
        }
        proof {
            assert(out@ =~= pre + spec_escape_char(c));
            lemma_escape_take_snoc(s@, i as int);
            assert(out@ =~= old(out)@ + spec_escape(s@.take(i as int + 1)));
        }
        i += 1;
    }
    proof {
        assert(s@.take(s@.len() as int) =~= s@);
    }
}

/// Appends a whole JSON string onto the output.
pub fn print_string_into(out: &mut Vec<char>, s: &Vec<char>)
    ensures
        final(out)@ == old(out)@ + spec_print_string(s@),
{
    out.push('"');
    escape_into(out, s);
    out.push('"');
    proof {
        assert(out@ =~= old(out)@ + spec_print_string(s@));
    }
}

/// Relies on char::from_u32: for a value that is a Unicode scalar it
/// returns the character with exactly that value.
#[verifier::external_body]
fn char_from_u32(v: u32) -> (r: char)
    requires
        v < 0xD800 || (0xE000 <= v && v <= 0x10FFFF),
    ensures
        r as u32 == v,
{
    char::from_u32(v).unwrap()
}

/// Reads four hexadecimal digits, executable.
pub fn hex4_ex(s: &Vec<char>, pos: usize) -> (r: Option<u32>)
    requires
        pos <= s@.len(),
    ensures
        match r {
            Some(v) => spec_hex4(s@, pos as int) == Some(v as int) && v < 0x10000,
            None => spec_hex4(s@, pos as int) is None,
        },
{
    if s.len() < 4 || pos > s.len() - 4 {
        return None;
    }
    let a = match hex_val_ex(s[pos]) {
        Some(v) => v,
        None => {
            return None;
        },
    };
    let b = match hex_val_ex(s[pos + 1]) {
        Some(v) => v,
        None => {
            return None;
        },
    };
    let c = match hex_val_ex(s[pos + 2]) {
        Some(v) => v,
        None => {
            return None;
        },
    };
    let d = match hex_val_ex(s[pos + 3]) {
        Some(v) => v,
        None => {
            return None;
        },
    };
    Some(((a * 16 + b) * 16 + c) * 16 + d)
}

/// Reads one backslash escape, executable.
pub fn parse_escape_ex(s: &Vec<char>, pos: usize) -> (r: Option<(char, usize)>)
    requires
        pos <= s@.len(),
    ensures
        match r {
            Some((c, p)) => spec_parse_escape(s@, pos as int) == Some((c, p as int)) && pos < p
                <= s@.len(),
            None => spec_parse_escape(s@, pos as int) is None,
        },
{
    if s.len() < 2 || pos > s.len() - 2 {
        return None;
    }
    let e = s[pos + 1];
    if e == '"' {
        Some(('"', pos + 2))
    } else if e == '\\' {
        Some(('\\', pos + 2))
    } else if e == '/' {
        Some(('/', pos + 2))
    } else if e == 'b' {
        let c = char_from_u32(8);
        proof {
            vstd::utf8::char_u32_cast(c, 8);
        }
        Some((c, pos + 2))
    } else if e == 'f' {
        let c = char_from_u32(12);
        proof {
            vstd::utf8::char_u32_cast(c, 12);
        }
        Some((c, pos + 2))
    } else if e == 'n' {
        Some(('\n', pos + 2))
    } else if e == 'r' {
        Some(('\r', pos + 2))
    } else if e == 't' {
        Some(('\t', pos + 2))
    } else if e == 'u' {
        let v1 = match hex4_ex(s, pos + 2) {
            Some(v) => v,
            None => {
                return None;
            },
        };
        if 0xD800 <= v1 && v1 < 0xDC00 {
            if s.len() >= 8 && pos <= s.len() - 8 && s[pos + 6] == '\\' && s[pos + 7] == 'u' {
                let v2 = match hex4_ex(s, pos + 8) {
                    Some(v) => v,
                    None => {
                        return None;
                    },
                };
                if 0xDC00 <= v2 && v2 < 0xE000 {
                    let v = 0x10000 + (v1 - 0xD800) * 0x400 + (v2 - 0xDC00);
                    let c = char_from_u32(v);
                    proof {
                        vstd::utf8::char_u32_cast(c, v);
                    }
                    Some((c, pos + 12))
                } else {
                    None
                }
            } else {
                None
            }
        } else if 0xDC00 <= v1 && v1 < 0xE000 {
            None
        } else {
            let c = char_from_u32(v1);
            proof {
                vstd::utf8::char_u32_cast(c, v1);
            }
            Some((c, pos + 6))
        }
    } else {
        None
    }
}

/// How a partial scan of string content relates the full parse to the
/// parse from the current position.
pub open spec fn body_scan_rel(s: Seq<char>, pos: int, acc: Seq<char>, cur: int) -> bool {
    match spec_parse_string_body(s, cur) {
        Some((t, e)) => spec_parse_string_body(s, pos) == Some((acc + t, e)),
        None => spec_parse_string_body(s, pos) is None,
    }
}

/// Reads string content up to and including the closing quote,
/// executable.
pub fn parse_string_body(s: &Vec<char>, pos: usize) -> (r: Option<(Vec<char>, usize)>)
    requires
        pos <= s@.len(),
    ensures
        match r {
            Some((t, end)) => spec_parse_string_body(s@, pos as int) == Some((t@, end as int))
                && pos < end <= s@.len(),
            None => spec_parse_string_body(s@, pos as int) is None,
        },
{
    let mut acc: Vec<char> = Vec::new();
    let mut cur: usize = pos;
    proof {
        assert(acc@ =~= Seq::<char>::empty());
    }
    loop
        invariant
            pos <= cur <= s@.len(),
            body_scan_rel(s@, pos as int, acc@, cur as int),
        decreases s@.len() - cur,
    {
        if cur >= s.len() {
            return None;
        }
        let c = s[cur];
        let u = c as u32;
        if c == '"' {
            proof {
                assert(spec_parse_string_body(s@, cur as int) == Some(
                    (Seq::<char>::empty(), cur + 1),
                ));
                assert(acc@ + Seq::<char>::empty() =~= acc@);
            }
            return Some((acc, cur + 1));
        } else if c == '\\' {
            let ghost pre = acc@;
            match parse_escape_ex(s, cur) {
                Some((ch, p)) => {
                    acc.push(ch);
                    proof {
                        match spec_parse_string_body(s@, p as int) {
                            Some((t, e)) => {
                                assert(spec_parse_string_body(s@, cur as int) == Some(
                                    (seq![ch] + t, e),
                                ));
                                assert(pre + (seq![ch] + t) =~= acc@ + t);
                            },
                            None => {
                                assert(spec_parse_string_body(s@, cur as int) is None);
                            },
                        }
                    }
                    cur = p;
                },
                None => {
                    return None;
                },
            }
        } else if u < 32 {
            return None;
        } else {
            let ghost pre = acc@;
            acc.push(c);
            proof {
                match spec_parse_string_body(s@, cur + 1) {
                    Some((t, e)) => {
                        assert(spec_parse_string_body(s@, cur as int) == Some((seq![c] + t, e)));
                        assert(pre + (seq![c] + t) =~= acc@ + t);
                    },
                    None => {
                        assert(spec_parse_string_body(s@, cur as int) is None);
                    },
                }
            }
            cur = cur + 1;
        }
    }
}

/// Reads a whole JSON string at `pos`, executable.
pub fn parse_string_ex(s: &Vec<char>, pos: usize) -> (r: Option<(Vec<char>, usize)>)
    requires
        pos <= s@.len(),
    ensures
        match r {
            Some((t, end)) => spec_parse_string(s@, pos as int) == Some((t@, end as int)) && pos
                < end <= s@.len(),
            None => spec_parse_string(s@, pos as int) is None,
        },
{
    if pos < s.len() && s[pos] == '"' {
        parse_string_body(s, pos + 1)
    } else {
        None
    }
}

// ---------------------------------------------------------------------------
// whitespace and skipped values
// ---------------------------------------------------------------------------

/// JSON whitespace.
pub open spec fn is_ws(c: char) -> bool {
    c == ' ' || c == '\t' || c == '\n' || c == '\r'
}

/// The first position at or after `pos` that holds no whitespace.
pub open spec fn spec_skip_ws(s: Seq<char>, pos: int) -> int
    decreases s.len() - pos,
{
    if 0 <= pos < s.len() && is_ws(s[pos]) {
        spec_skip_ws(s, pos + 1)
    } else {
        pos
    }
}

/// Whitespace skipping stays within bounds.
pub proof fn lemma_skip_ws_bounds(s: Seq<char>, pos: int)
    requires
        0 <= pos <= s.len(),
    ensures
        pos <= spec_skip_ws(s, pos) <= s.len(),
    decreases s.len() - pos,
{
    if pos < s.len() && is_ws(s[pos]) {
        lemma_skip_ws_bounds(s, pos + 1);
    }
}

/// Skips whitespace, executable.
pub fn skip_ws_ex(s: &Vec<char>, pos: usize) -> (r: usize)
    requires
        pos <= s@.len(),
    ensures
        r as int == spec_skip_ws(s@, pos as int),
        pos <= r <= s@.len(),
{
    let mut cur = pos;
    while cur < s.len() && (s[cur] == ' ' || s[cur] == '\t' || s[cur] == '\n' || s[cur] == '\r')
        invariant
            pos <= cur <= s@.len(),
            spec_skip_ws(s@, pos as int) == spec_skip_ws(s@, cur as int),
        decreases s@.len() - cur,
    {
        cur += 1;
    }
    cur
}

/// A character that may stand in a number.
pub open spec fn is_num_char(c: char) -> bool {
    is_digit(c) || c == '-' || c == '+' || c == '.' || c == 'e' || c == 'E'
}

/// Where the run of number characters that starts at `pos` ends.
pub open spec fn num_run_end(s: Seq<char>, pos: int) -> int
    decreases s.len() - pos,
{
    if 0 <= pos < s.len() && is_num_char(s[pos]) {
        num_run_end(s, pos + 1)
    } else {
        pos
    }
}

/// Bounds of the number run.
pub proof fn lemma_num_run_bounds(s: Seq<char>, pos: int)
    requires
        0 <= pos <= s.len(),
    ensures
        pos <= num_run_end(s, pos) <= s.len(),
    decreases s.len() - pos,
{
    if pos < s.len() && is_num_char(s[pos]) {
        lemma_num_run_bounds(s, pos + 1);
    }
}

/// Skips a number run, executable.
fn num_run_end_ex(s: &Vec<char>, pos: usize) -> (r: usize)
    requires
        pos <= s@.len(),
    ensures
        r as int == num_run_end(s@, pos as int),
        pos <= r <= s@.len(),
{
    let mut cur = pos;
    while cur < s.len() && (char_is_digit(s[cur]) || s[cur] == '-' || s[cur] == '+' || s[cur]
        == '.' || s[cur] == 'e' || s[cur] == 'E')
        invariant
            pos <= cur <= s@.len(),
            num_run_end(s@, pos as int) == num_run_end(s@, cur as int),
        decreases s@.len() - cur,
    {
        cur += 1;
    }
    cur
}

/// Whether the four characters of a literal keyword stand at `pos`.
pub open spec fn spec_match_lit(s: Seq<char>, pos: int, lit: Seq<char>) -> bool {
    0 <= pos && pos + lit.len() <= s.len() && s.subrange(pos, pos + lit.len() as int) == lit
}

/// Skips one JSON value of any shape, up to a nesting depth; the position
/// after it, or nothing where no value stands.  Numbers are taken as a
/// run of number characters, which accepts every number JSON allows.
pub open spec fn spec_skip_value(s: Seq<char>, pos: int, depth: nat) -> Option<int>
    decreases depth, s.len() - pos, 0int,
{
    if pos < 0 || pos >= s.len() {
        None
    } else {
        let c = s[pos];
        if c == '"' {
            match spec_parse_string_body(s, pos + 1) {
                Some((_, e)) => Some(e),
                None => None,
            }
        } else if c == '{' {
            if depth == 0 {
                None
            } else {
                let p = spec_skip_ws(s, pos + 1);
                if pos < p <= s.len() {
                    spec_skip_members(s, p, (depth - 1) as nat, true)
                } else {
                    None
                }
            }
        } else if c == '[' {
            if depth == 0 {
                None
            } else {
                let p = spec_skip_ws(s, pos + 1);
                if pos < p <= s.len() {
                    spec_skip_elements(s, p, (depth - 1) as nat, true)
                } else {
                    None
                }
            }
        } else if c == 't' {
            if spec_match_lit(s, pos, seq!['t', 'r', 'u', 'e']) {
                Some(pos + 4)
            } else {
                None
            }
        } else if c == 'f' {
            if spec_match_lit(s, pos, seq!['f', 'a', 'l', 's', 'e']) {
                Some(pos + 5)
            } else {
                None
            }
        } else if c == 'n' {
            if spec_match_lit(s, pos, seq!['n', 'u', 'l', 'l']) {
                Some(pos + 4)
            } else {
                None
            }
        } else if c == '-' || is_digit(c) {
            Some(num_run_end(s, pos))
        } else {
            None
        }
    }
}

/// Skips the members of an object, the opening brace and any whitespace
/// after it already consumed.
pub open spec fn spec_skip_members(s: Seq<char>, pos: int, depth: nat, first: bool) -> Option<int>
    decreases depth, s.len() - pos, 0int,
{
    if pos < 0 || pos >= s.len() {
        None
    } else if first && s[pos] == '}' {
        Some(pos + 1)
    } else if s[pos] == '"' {
        match spec_parse_string_body(s, pos + 1) {
            None => None,
            Some((_, p1)) => {
                let p2 = spec_skip_ws(s, p1);
                if pos < p2 < s.len() && s[p2] == ':' {
                    let p3 = spec_skip_ws(s, p2 + 1);
                    if pos < p3 <= s.len() {
                        match spec_skip_value(s, p3, depth) {
                            None => None,
                            Some(p4) => {
                                let p5 = spec_skip_ws(s, p4);
                                if pos < p5 < s.len() {
                                    if s[p5] == ',' {
                                        let p6 = spec_skip_ws(s, p5 + 1);
                                        if pos < p6 <= s.len() {
                                            spec_skip_members(s, p6, depth, false)
                                        } else {
                                            None
                                        }
                                    } else if s[p5] == '}' {
                                        Some(p5 + 1)
                                    } else {
                                        None
                                    }
                                } else {
                                    None
                                }
                            },
                        }
                    } else {
                        None
                    }
                } else {
                    None
                }
            },
        }
    } else {
        None
    }
}

/// Skips the elements of an array, the opening bracket and any whitespace
/// after it already consumed.
pub open spec fn spec_skip_elements(s: Seq<char>, pos: int, depth: nat, first: bool) -> Option<
    int,
>
    decreases depth, s.len() - pos, 1int,
{
    if pos < 0 || pos >= s.len() {
        None
    } else if first && s[pos] == ']' {
        Some(pos + 1)
    } else {
        match spec_skip_value(s, pos, depth) {
            None => None,
            Some(p1) => {
                let p2 = spec_skip_ws(s, p1);
                if pos < p2 < s.len() {
                    if s[p2] == ',' {
                        let p3 = spec_skip_ws(s, p2 + 1);
                        if pos < p3 <= s.len() {
                            spec_skip_elements(s, p3, depth, false)
                        } else {
                            None
                        }
                    } else if s[p2] == ']' {
                        Some(p2 + 1)
                    } else {
                        None
                    }
                } else {
                    None
                }
            },
        }
    }
}

/// Skips one JSON value, executable.
pub fn skip_value_ex(s: &Vec<char>, pos: usize, depth: u32) -> (r: Option<usize>)
    requires
        pos <= s@.len(),
    ensures
        match r {
            Some(p) => spec_skip_value(s@, pos as int, depth as nat) == Some(p as int) && pos < p
                <= s@.len(),
            None => spec_skip_value(s@, pos as int, depth as nat) is None,
        },
    decreases depth, 0int,
{
    if pos >= s.len() {
        return None;
    }
    let c = s[pos];
    if c == '"' {
        match parse_string_body(s, pos + 1) {
            Some((_, e)) => Some(e),
            None => None,
        }
    } else if c == '{' {
        if depth == 0 {
            return None;
        }
        let p = skip_ws_ex(s, pos + 1);
        skip_members_ex(s, p, depth - 1)
    } else if c == '[' {
        if depth == 0 {
            return None;
        }
        let p = skip_ws_ex(s, pos + 1);
        skip_elements_ex(s, p, depth - 1, true)
    } else if c == 't' {
        if s.len() - pos >= 4 && s[pos + 1] == 'r' && s[pos + 2] == 'u' && s[pos + 3] == 'e' {
            proof {
                assert(s@.subrange(pos as int, pos + 4) =~= seq!['t', 'r', 'u', 'e']);
            }
            Some(pos + 4)
        } else {
            proof {
                if pos + 4 <= s@.len() {
                    let sub = s@.subrange(pos as int, pos + 4);
                    assert(sub[0] == 't' && sub[1] == s@[pos + 1] && sub[2] == s@[pos + 2]
                        && sub[3] == s@[pos + 3]);
                }
            }
            None
        }
    } else if c == 'f' {
        if s.len() - pos >= 5 && s[pos + 1] == 'a' && s[pos + 2] == 'l' && s[pos + 3] == 's' && s[
            pos + 4] == 'e' {
            proof {
                assert(s@.subrange(pos as int, pos + 5) =~= seq!['f', 'a', 'l', 's', 'e']);
            }
            Some(pos + 5)
        } else {
            proof {
                if pos + 5 <= s@.len() {
                    let sub = s@.subrange(pos as int, pos + 5);
                    assert(sub[0] == 'f' && sub[1] == s@[pos + 1] && sub[2] == s@[pos + 2]
                        && sub[3] == s@[pos + 3] && sub[4] == s@[pos + 4]);
                }
            }
            None
        }
    } else if c == 'n' {
        if s.len() - pos >= 4 && s[pos + 1] == 'u' && s[pos + 2] == 'l' && s[pos + 3] == 'l' {
            proof {
                assert(s@.subrange(pos as int, pos + 4) =~= seq!['n', 'u', 'l', 'l']);
            }
            Some(pos + 4)
        } else {
            proof {
                if pos + 4 <= s@.len() {
                    let sub = s@.subrange(pos as int, pos + 4);
                    assert(sub[0] == 'n' && sub[1] == s@[pos + 1] && sub[2] == s@[pos + 2]
                        && sub[3] == s@[pos + 3]);
                }
            }
            None
        }
    } else if c == '-' || char_is_digit(c) {
        let e = num_run_end_ex(s, pos);
        proof {
            assert(is_num_char(s@[pos as int]));
            lemma_num_run_bounds(s@, pos as int + 1);
            assert(num_run_end(s@, pos as int) == num_run_end(s@, pos as int + 1));
        }
        Some(e)
    } else {
        None
    }
}

/// Skips object members, executable.
pub fn skip_members_ex(s: &Vec<char>, pos: usize, depth: u32) -> (r: Option<usize>)
    requires
        pos <= s@.len(),
    ensures
        match r {
            Some(p) => spec_skip_members(s@, pos as int, depth as nat, true) == Some(p as int)
                && pos < p <= s@.len(),
            None => spec_skip_members(s@, pos as int, depth as nat, true) is None,
        },
    decreases depth, 1int,
{
    let mut cur = pos;
    let mut first = true;
    loop
        invariant
            pos <= cur <= s@.len(),
            spec_skip_members(s@, pos as int, depth as nat, true) == spec_skip_members(
                s@,
                cur as int,
                depth as nat,
                first,
            ),
            cur == pos || !first,
        decreases s@.len() - cur,
    {
        if cur >= s.len() {
            return None;
        }
        if first && s[cur] == '}' {
            return Some(cur + 1);
        }
        if s[cur] != '"' {
            return None;
        }
        let p1 = match parse_string_body(s, cur + 1) {
            Some((_, p)) => p,
            None => {
                return None;
            },
        };
        let p2 = skip_ws_ex(s, p1);
        if p2 >= s.len() || s[p2] != ':' {
            return None;
        }
        let p3 = skip_ws_ex(s, p2 + 1);
        let p4 = match skip_value_ex(s, p3, depth) {
            Some(p) => p,
            None => {
                return None;
            },
        };
        let p5 = skip_ws_ex(s, p4);
        if p5 >= s.len() {
            return None;
        }
        if s[p5] == ',' {
            let p6 = skip_ws_ex(s, p5 + 1);
            cur = p6;
            first = false;
        } else if s[p5] == '}' {
            return Some(p5 + 1);
        } else {
            return None;
        }
    }
}

/// Skips array elements, executable.
pub fn skip_elements_ex(s: &Vec<char>, pos: usize, depth: u32, first0: bool) -> (r: Option<usize>)
    requires
        pos <= s@.len(),
    ensures
        match r {
            Some(p) => spec_skip_elements(s@, pos as int, depth as nat, first0) == Some(p as int)
                && pos < p <= s@.len(),
            None => spec_skip_elements(s@, pos as int, depth as nat, first0) is None,
        },
    decreases depth, 1int,
{
    let mut cur = pos;
    let mut first = first0;
    loop
        invariant
            pos <= cur <= s@.len(),
            spec_skip_elements(s@, pos as int, depth as nat, first0) == spec_skip_elements(
                s@,
                cur as int,
                depth as nat,
                first,
            ),
            cur == pos || !first,
        decreases s@.len() - cur,
    {
        if cur >= s.len() {
            return None;
        }
        if first && s[cur] == ']' {
            return Some(cur + 1);
        }
        let p1 = match skip_value_ex(s, cur, depth) {
            Some(p) => p,
            None => {
                return None;
            },
        };
        let p2 = skip_ws_ex(s, p1);
        if p2 >= s.len() {
            return None;
        }
        if s[p2] == ',' {
            let p3 = skip_ws_ex(s, p2 + 1);
            cur = p3;
            first = false;
        } else if s[p2] == ']' {
            return Some(p2 + 1);
        } else {
            return None;
        }
    }
}

} // verus!
