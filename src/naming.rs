//! The archive naming grammar: `<base>.<N>` or `<base>.<N>.gz`.

use vstd::prelude::*;

verus! {

/// An ASCII decimal digit.
pub open spec fn is_digit(c: char) -> bool {
    '0' <= c && c <= '9'
}

/// A non-empty run of ASCII decimal digits.
pub open spec fn is_digit_run(s: Seq<char>) -> bool {
    s.len() > 0 && forall|i: int| 0 <= i < s.len() ==> is_digit(#[trigger] s[i])
}

/// The value of a decimal digit.
pub open spec fn digit_value(c: char) -> nat {
    (c as nat - '0' as nat) as nat
}

/// The number written by a run of decimal digits (leading zeros allowed).
pub open spec fn decimal_value(s: Seq<char>) -> nat
    decreases s.len(),
{
    if s.len() == 0 {
        0
    } else {
        decimal_value(s.drop_last()) * 10 + digit_value(s.last())
    }
}

/// The decimal digit of value `d`, for `d` below ten.
pub open spec fn digit_char(d: nat) -> char {
    (('0' as nat) + d) as char
}

/// The shortest decimal spelling of `n`.
pub open spec fn decimal_digits(n: nat) -> Seq<char>
    decreases n,
{
    if n < 10 {
        seq![digit_char(n)]
    } else {
        decimal_digits(n / 10).push(digit_char(n % 10))
    }
}

/// What follows the number in an archive name.
pub open spec fn archive_suffix(compress: bool) -> Seq<char> {
    if compress {
        seq!['.', 'g', 'z']
    } else {
        Seq::empty()
    }
}

/// The part of `name` that stands where an archive name holds its number.
pub open spec fn number_part(base: Seq<char>, compress: bool, name: Seq<char>) -> Seq<char> {
    name.subrange(base.len() + 1int, name.len() - archive_suffix(compress).len())
}

/// `name` is `<base>.<digits>` (plain) or `<base>.<digits>.gz` (compressed).
pub open spec fn is_archive_name(base: Seq<char>, compress: bool, name: Seq<char>) -> bool {
    let sfx = archive_suffix(compress);
    &&& name.len() >= base.len() + 1 + sfx.len()
    &&& name.subrange(0, base.len() as int) == base
    &&& name[base.len() as int] == '.'
    &&& name.subrange(name.len() - sfx.len(), name.len() as int) == sfx
    &&& is_digit_run(number_part(base, compress, name))
}

/// The number that an archive name carries.
pub open spec fn archive_number(base: Seq<char>, compress: bool, name: Seq<char>) -> nat {
    decimal_value(number_part(base, compress, name))
}

/// The name of archive `n`.
pub open spec fn archive_name(base: Seq<char>, n: nat, compress: bool) -> Seq<char> {
    base + seq!['.'] + decimal_digits(n) + archive_suffix(compress)
}

/// The decimal spelling of `n` is a digit run that reads back as `n`.
pub proof fn lemma_decimal_digits(n: nat)
    ensures
        is_digit_run(decimal_digits(n)),
        decimal_value(decimal_digits(n)) == n,
    decreases n,
{
    if n >= 10 {
        lemma_decimal_digits(n / 10);
        let s = decimal_digits(n);
        assert(s.drop_last() =~= decimal_digits(n / 10));
        assert(digit_value(digit_char(n % 10)) == n % 10);
        assert(n == (n / 10) * 10 + n % 10) by (nonlinear_arith);
        assert(s.last() == digit_char(n % 10));
        assert(decimal_value(s) == decimal_value(s.drop_last()) * 10 + digit_value(s.last()));
        assert forall|i: int| 0 <= i < s.len() implies is_digit(#[trigger] s[i]) by {
            if i < s.len() - 1 {
                assert(s[i] == decimal_digits(n / 10)[i]);
            }
        }
    } else {
        assert(decimal_digits(n).drop_last() =~= Seq::<char>::empty());
        assert(digit_value(digit_char(n)) == n);
        let s = decimal_digits(n);
        assert(s.last() == digit_char(n));
        assert(decimal_value(s.drop_last()) == 0);
        assert(decimal_value(s) == decimal_value(s.drop_last()) * 10 + digit_value(s.last()));
    }
}

/// An archive name is recognised as one, and carries its number.
pub proof fn lemma_archive_name_round_trip(base: Seq<char>, n: nat, compress: bool)
    ensures
        is_archive_name(base, compress, archive_name(base, n, compress)),
        archive_number(base, compress, archive_name(base, n, compress)) == n,
{
    lemma_decimal_digits(n);
    let name = archive_name(base, n, compress);
    let sfx = archive_suffix(compress);
    assert(name.subrange(0, base.len() as int) =~= base);
    assert(name.subrange(name.len() - sfx.len(), name.len() as int) =~= sfx);
    assert(number_part(base, compress, name) =~= decimal_digits(n));
}

/// Appending one digit multiplies the value by ten and adds the digit.
proof fn lemma_decimal_push(s: Seq<char>, c: char)
    ensures
        decimal_value(s.push(c)) == decimal_value(s) * 10 + digit_value(c),
{
    assert(s.push(c).drop_last() =~= s);
}

/// How a file name relates to the archive grammar.
pub enum NameMatch {
    /// Not an archive name.
    NotArchive,
    /// An archive name and its number.
    Archive(u64),
    /// An archive name whose number does not fit in 64 bits.
    TooLarge,
}

/// Matches `name` against `<base>.<digits>` or, when `compress` holds,
/// against `<base>.<digits>.gz`.
pub fn match_archive_name(base: &str, compress: bool, name: &str) -> (r: NameMatch)
    ensures
        r is NotArchive <==> !is_archive_name(base@, compress, name@),
        r matches NameMatch::Archive(n) ==> n == archive_number(base@, compress, name@),
        r is TooLarge <==> (is_archive_name(base@, compress, name@) && archive_number(
            base@,
            compress,
            name@,
        ) > u64::MAX),
{
    let bl = base.unicode_len();
    let nl = name.unicode_len();
    let sl: usize = if compress { 3 } else { 0 };
    if nl < bl || nl - bl < 2 + sl {
        return NameMatch::NotArchive;
    }
    let mut i: usize = 0;
    while i < bl
        invariant
            bl == base@.len(),
            nl == name@.len(),
            bl <= nl,
            i <= bl,
            forall|k: int| 0 <= k < i ==> name@[k] == base@[k],
        decreases bl - i,
    {
        if name.get_char(i) != base.get_char(i) {
            assert(name@.subrange(0, bl as int)[i as int] != base@[i as int]);
            return NameMatch::NotArchive;
        }
        i = i + 1;
    }
    assert(name@.subrange(0, bl as int) =~= base@);
    if name.get_char(bl) != '.' {
        return NameMatch::NotArchive;
    }
    let sfx = Ghost(archive_suffix(compress));
    if compress {
        if name.get_char(nl - 3) != '.' || name.get_char(nl - 2) != 'g' || name.get_char(nl - 1)
            != 'z' {
            assert(name@.subrange(nl - 3, nl as int)[0] == name@[nl - 3]);
            assert(name@.subrange(nl - 3, nl as int)[1] == name@[nl - 2]);
            assert(name@.subrange(nl - 3, nl as int)[2] == name@[nl - 1]);
            return NameMatch::NotArchive;
        }
        assert(name@.subrange(nl - 3, nl as int) =~= sfx@);
    } else {
        assert(name@.subrange(nl as int, nl as int) =~= sfx@);
    }
    let end: usize = nl - sl;
    let start: usize = bl + 1;
    let ghost digits = number_part(base@, compress, name@);
    assert(digits.len() == end - start);
    let mut value: u64 = 0;
    let mut too_large = false;
    let mut j: usize = start;
    while j < end
        invariant
            start <= j <= end <= nl,
            nl == name@.len(),
            digits == name@.subrange(start as int, end as int),
            digits == number_part(base@, compress, name@),
            forall|k: int| 0 <= k < j - start ==> is_digit(#[trigger] digits[k]),
            !too_large ==> value == decimal_value(digits.subrange(0, j - start)),
            too_large ==> decimal_value(digits.subrange(0, j - start)) > u64::MAX,
        decreases end - j,
    {
        let c = name.get_char(j);
        if !('0' <= c && c <= '9') {
            assert(digits[j - start] == c);
            assert(!is_digit(digits[j - start]));
            assert(!is_digit_run(number_part(base@, compress, name@)));
            return NameMatch::NotArchive;
        }
        let ghost prefix = digits.subrange(0, j - start);
        assert(digits.subrange(0, j + 1 - start) =~= prefix.push(c));
        proof {
            lemma_decimal_push(prefix, c);
        }
        let d = (c as u32 - '0' as u32) as u64;
        if !too_large {
            if value > (u64::MAX - d) / 10 {
                too_large = true;
            } else {
                value = value * 10 + d;
            }
        }
        j = j + 1;
    }
    assert(digits.subrange(0, end - start) =~= digits);
    if too_large {
        NameMatch::TooLarge
    } else {
        NameMatch::Archive(value)
    }
}

/// Writes the shortest decimal spelling of `n` after what `s` holds.
fn push_decimal(s: &mut String, n: u64)
    ensures
        final(s)@ == old(s)@ + decimal_digits(n as nat),
    decreases n,
{
    if n >= 10 {
        push_decimal(s, n / 10);
    }
    let d = n % 10;
    let t: &str = if d == 0 {
        "0"
    } else if d == 1 {
        "1"
    } else if d == 2 {
        "2"
    } else if d == 3 {
        "3"
    } else if d == 4 {
        "4"
    } else if d == 5 {
        "5"
    } else if d == 6 {
        "6"
    } else if d == 7 {
        "7"
    } else if d == 8 {
        "8"
    } else {
        "9"
    };
    proof {
        reveal_strlit("0");
        reveal_strlit("1");
        reveal_strlit("2");
        reveal_strlit("3");
        reveal_strlit("4");
        reveal_strlit("5");
        reveal_strlit("6");
        reveal_strlit("7");
        reveal_strlit("8");
        reveal_strlit("9");
    }
    assert(t@ =~= seq![digit_char(d as nat)]);
    s.append(t);
}

/// The file name of archive `number`: `<base>.<number>`, with `.gz` after it
/// when `compress` holds.
pub fn archive_file_name(base: &str, number: u64, compress: bool) -> (r: String)
    ensures
        r@ == archive_name(base@, number as nat, compress),
{
    let mut s = String::from_str(base);
    s.append(".");
    push_decimal(&mut s, number);
    if compress {
        s.append(".gz");
    }
    proof {
        reveal_strlit(".");
        reveal_strlit(".gz");
    }
    assert(s@ =~= archive_name(base@, number as nat, compress));
    s
}

} // verus!
