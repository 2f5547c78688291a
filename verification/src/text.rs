//! Decimal numbers, hexadecimal dumps and the pieces of text that the tables are
//! made of.

use vstd::prelude::*;

verus! {

/// `String::push` of std: appends the character to the end of the string.
pub assume_specification[ String::push ](s: &mut String, c: char)
    ensures
        final(s)@ == old(s)@.push(c),
;

/// The character for a digit: `0` to `9`, then `a` to `f`.
pub open spec fn digit(d: nat) -> char {
    if d < 10 {
        ('0' as nat + d) as char
    } else {
        ('a' as nat + d - 10) as char
    }
}

/// A number in decimal, without leading zeros.
pub open spec fn decimal(n: nat) -> Seq<char>
    decreases n,
{
    if n < 10 {
        seq![digit(n)]
    } else {
        decimal(n / 10).push(digit(n % 10))
    }
}

/// The last `width` decimal digits of a number, leading zeros kept.
pub open spec fn padded(n: nat, width: nat) -> Seq<char>
    decreases width,
{
    if width == 0 {
        seq![]
    } else {
        padded(n / 10, (width - 1) as nat).push(digit(n % 10))
    }
}

/// Two lower-case hexadecimal digits for each byte.
pub open spec fn hex_digits(data: Seq<u8>) -> Seq<char> {
    Seq::new(
        2 * data.len(),
        |k: int|
            digit(
                (if k % 2 == 0 {
                    data[k / 2] / 16
                } else {
                    data[k / 2] % 16
                }) as nat,
            ),
    )
}

/// A text cut into pairs of characters, with one space between two pairs.
pub open spec fn in_pairs(s: Seq<char>) -> Seq<char> {
    Seq::new(
        if s.len() == 0 {
            0
        } else {
            (s.len() + (s.len() - 1) / 2) as nat
        },
        |k: int|
            if k % 3 == 2 {
                ' '
            } else {
                s[k - k / 3]
            },
    )
}

/// The bytes as the tables show them: pairs of hexadecimal digits, with one space
/// between two bytes.
pub open spec fn dump(data: Seq<u8>) -> Seq<char> {
    in_pairs(hex_digits(data))
}

/// The decimal digit of a number below ten.
fn digit_char(d: u64) -> (c: char)
    requires
        d < 10,
    ensures
        c == digit(d as nat),
{
    if d == 0 {
        '0'
    } else if d == 1 {
        '1'
    } else if d == 2 {
        '2'
    } else if d == 3 {
        '3'
    } else if d == 4 {
        '4'
    } else if d == 5 {
        '5'
    } else if d == 6 {
        '6'
    } else if d == 7 {
        '7'
    } else if d == 8 {
        '8'
    } else {
        '9'
    }
}

/// Appends a number in decimal.
pub fn push_decimal(out: &mut String, n: u64)
    ensures
        final(out)@ == old(out)@ + decimal(n as nat),
    decreases n,
{
    if n >= 10 {
        push_decimal(out, n / 10);
    }
    out.push(digit_char(n % 10));
}

/// A number in decimal.
pub fn decimal_text(n: u64) -> (text: String)
    ensures
        text@ == decimal(n as nat),
{
    let mut text = String::new();
    push_decimal(&mut text, n);
    text
}

/// `hex::encode`: each byte becomes two lower-case hexadecimal digits, the high half
/// first.
#[verifier::external_body]
fn hex_text(data: &Vec<u8>) -> (text: String)
    ensures
        text@ == hex_digits(data@),
{
    hex::encode(data)
}

/// Cuts a text into pairs of characters, with one space between two pairs.
pub fn pair_text(text: &str) -> (out: String)
    ensures
        out@ == in_pairs(text@),
{
    let mut out = String::new();
    // How many characters the pair that is being written has.
    let mut filled: u8 = 0;
    for c in it: text.chars()
        invariant
            it.seq() == text@,
            out@ == in_pairs(text@.take(it.index())),
            filled == if it.index() == 0 {
                0int
            } else {
                1 + (it.index() - 1) % 2
            },
    {
        if filled == 2 {
            out.push(' ');
            filled = 0;
        }
        out.push(c);
        filled = filled + 1;
    }
    out
}

/// The dump of some bytes.
pub fn dump_text(data: &Vec<u8>) -> (text: String)
    ensures
        text@ == dump(data@),
{
    pair_text(hex_text(data).as_str())
}

/// What a digit stands for, by its place behind `0` or behind `a`.
pub open spec fn digit_value(c: char) -> nat {
    if 'a' <= c {
        (c as nat - 'a' as nat + 10) as nat
    } else {
        (c as nat - '0' as nat) as nat
    }
}

/// Whether a text is made of decimal digits, and of one at least.
pub open spec fn is_number(s: Seq<char>) -> bool {
    s.len() > 0 && forall|i: int| 0 <= i < s.len() ==> '0' <= #[trigger] s[i] <= '9'
}

/// What decimal digits stand for: each counts ten times the one behind it.
pub open spec fn number(s: Seq<char>) -> nat
    decreases s.len(),
{
    if s.len() == 0 {
        0
    } else {
        10 * number(s.drop_last()) + digit_value(s.last())
    }
}

/// Ten times ten, so many times.
pub open spec fn power_of_ten(n: nat) -> nat
    decreases n,
{
    if n == 0 {
        1
    } else {
        10 * power_of_ten((n - 1) as nat)
    }
}

/// Whether three characters of a text show the byte at a place: two hexadecimal digits,
/// the high one first, and, where more bytes follow, a space.
pub open spec fn shows_byte(s: Seq<char>, data: Seq<u8>, i: int) -> bool {
    &&& digit_value(s[3 * i]) < 16
    &&& digit_value(s[3 * i + 1]) < 16
    &&& 16 * digit_value(s[3 * i]) + digit_value(s[3 * i + 1]) == data[i]
    &&& i + 1 < data.len() ==> s[3 * i + 2] == ' '
}

/// Whether a text shows some bytes, and nothing else.
pub open spec fn shows_bytes(s: Seq<char>, data: Seq<u8>) -> bool {
    &&& s.len() == if data.len() == 0 {
        0
    } else {
        3 * data.len() - 1
    }
    &&& forall|i: int| 0 <= i < data.len() ==> #[trigger] shows_byte(s, data, i)
}

/// A number in decimal reads as that number, and has no zero before its first digit.
pub proof fn decimal_reads_back(n: nat)
    ensures
        is_number(decimal(n)),
        number(decimal(n)) == n,
        n > 0 ==> decimal(n)[0] != '0',
    decreases n,
{
    assert('0' <= digit(n % 10) <= '9');
    assert(digit_value(digit(n % 10)) == n % 10);
    if n < 10 {
        assert(decimal(n).drop_last() == Seq::<char>::empty());
        assert(number(decimal(n).drop_last()) == 0);
    } else {
        decimal_reads_back(n / 10);
        assert(decimal(n).drop_last() == decimal(n / 10));
        assert(decimal(n)[0] == decimal(n / 10)[0]);
    }
}

/// A number that was padded to a width it fits in reads as that number.
pub proof fn padded_reads_back(n: nat, width: nat)
    requires
        n < power_of_ten(width),
        width > 0,
    ensures
        padded(n, width).len() == width,
        is_number(padded(n, width)),
        number(padded(n, width)) == n,
    decreases width,
{
    let before = (width - 1) as nat;
    assert('0' <= digit(n % 10) <= '9');
    assert(digit_value(digit(n % 10)) == n % 10);
    assert(padded(n, width).drop_last() == padded(n / 10, before));
    if before > 0 {
        padded_reads_back(n / 10, before);
    } else {
        assert(power_of_ten(1) == 10 * power_of_ten(0));
        assert(padded(n / 10, before) == Seq::<char>::empty());
        assert(number(padded(n / 10, before)) == 0);
    }
}

/// A dump shows the bytes that it was made of.
pub proof fn dumps_read_back(data: Seq<u8>)
    ensures
        shows_bytes(dump(data), data),
{
    let s = dump(data);
    assert(s.len() == if data.len() == 0 {
        0
    } else {
        3 * data.len() - 1
    }) by {
        if data.len() > 0 {
            dump_layout(data, 0);
        }
    }
    assert forall|i: int| 0 <= i < data.len() implies #[trigger] shows_byte(s, data, i) by {
        lemma_shows_byte(data, i);
    }
}

proof fn lemma_shows_byte(data: Seq<u8>, i: int)
    requires
        0 <= i < data.len(),
    ensures
        shows_byte(dump(data), data, i),
{
    dump_layout(data, i);
    let high = (data[i] / 16) as nat;
    let low = (data[i] % 16) as nat;
    assert(digit_value(digit(high)) == high);
    assert(digit_value(digit(low)) == low);
}

/// Cutting a text into pairs keeps its characters, in order: behind each two of them that
/// more follow stands one space, and there is nothing else.
pub proof fn pairs_keep_the_text(s: Seq<char>, k: int)
    requires
        0 <= k < s.len(),
    ensures
        in_pairs(s).len() == s.len() + (s.len() - 1) / 2,
        in_pairs(s)[k + k / 2] == s[k],
        k > 0 && k % 2 == 0 ==> in_pairs(s)[k + k / 2 - 1] == ' ',
{
}

/// Different digits are written differently.
proof fn lemma_digit_tells(a: nat, b: nat)
    requires
        a < 16,
        b < 16,
        digit(a) == digit(b),
    ensures
        a == b,
{
}

/// Different numbers are written differently in decimal.
pub proof fn decimal_tells_the_number(a: nat, b: nat)
    requires
        decimal(a) == decimal(b),
    ensures
        a == b,
    decreases a,
{
    lemma_decimal_not_empty(a / 10);
    lemma_decimal_not_empty(b / 10);
    assert(decimal(a).last() == digit(a % 10));
    assert(decimal(b).last() == digit(b % 10));
    lemma_digit_tells(a % 10, b % 10);
    if a >= 10 && b >= 10 {
        assert(decimal(a).drop_last() == decimal(a / 10));
        assert(decimal(b).drop_last() == decimal(b / 10));
        decimal_tells_the_number(a / 10, b / 10);
    } else {
        assert(a < 10 ==> decimal(a).len() == 1);
        assert(b < 10 ==> decimal(b).len() == 1);
    }
}

proof fn lemma_decimal_not_empty(n: nat)
    ensures
        decimal(n).len() >= 1,
    decreases n,
{
    if n >= 10 {
        lemma_decimal_not_empty(n / 10);
    }
}

/// A padded number has the width that was asked for.
pub proof fn padded_has_its_width(n: nat, width: nat)
    ensures
        padded(n, width).len() == width,
    decreases width,
{
    if width > 0 {
        padded_has_its_width(n / 10, (width - 1) as nat);
    }
}

/// Where the digits and the spaces of a dump stand: three characters for each byte, the
/// last of which falls away at the end.
pub proof fn dump_layout(data: Seq<u8>, i: int)
    requires
        0 <= i < data.len(),
    ensures
        dump(data).len() == 3 * data.len() - 1,
        dump(data)[3 * i] == digit((data[i] / 16) as nat),
        dump(data)[3 * i + 1] == digit((data[i] % 16) as nat),
        i + 1 < data.len() ==> dump(data)[3 * i + 2] == ' ',
{
}

/// Different bytes are dumped differently: a dump tells which bytes it was made of.
pub proof fn dump_tells_the_bytes(a: Seq<u8>, b: Seq<u8>)
    requires
        dump(a) == dump(b),
    ensures
        a == b,
{
    assert(a.len() == b.len()) by {
        if a.len() > 0 {
            dump_layout(a, 0);
        }
        if b.len() > 0 {
            dump_layout(b, 0);
        }
    }
    assert forall|i: int| 0 <= i < a.len() implies a[i] == b[i] by {
        dump_layout(a, i);
        dump_layout(b, i);
        lemma_digit_tells((a[i] / 16) as nat, (b[i] / 16) as nat);
        lemma_digit_tells((a[i] % 16) as nat, (b[i] % 16) as nat);
    }
}

} // verus!
