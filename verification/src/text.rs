//! Decimal numbers in names and messages.

use vstd::prelude::*;

verus! {

/// The character for a digit.
pub open spec fn digit(d: nat) -> char {
    if d == 0 {
        '0'
    } else if d == 1 {
        '1'
    } else if d == 2 {
        '2'
    } else if d == 3 {
        '3'
    } else if d == 4 {
        '4'
    } else if d == 5 {
        '5'
    } else if d == 6 {
        '6'
    } else if d == 7 {
        '7'
    } else if d == 8 {
        '8'
    } else {
        '9'
    }
}

/// A number in decimal, without leading zeros.
pub open spec fn decimal(n: nat) -> Seq<char>
    decreases n,
{
    if n < 10 {
        seq![digit(n)]
    } else {
        decimal(n / 10).push(digit(n % 10))
    }
}

/// Whether a character is an ASCII digit.
pub open spec fn is_digit(c: char) -> bool {
    '0' <= c && c <= '9'
}

/// Whether every character is an ASCII digit.
pub open spec fn all_digits(text: Seq<char>) -> bool {
    forall|i: int| 0 <= i < text.len() ==> is_digit(#[trigger] text[i])
}

/// The number a string of digits stands for.
pub open spec fn value(digits: Seq<char>) -> nat
    decreases digits.len(),
{
    if digits.len() == 0 {
        0
    } else {
        value(digits.drop_last()) * 10 + (digits.last() as nat - 48) as nat
    }
}

/// The 32-bit number a text stands for: digits only, with at most one plus sign
/// before them.
pub open spec fn parsed(text: Seq<char>) -> Option<u32> {
    let digits = if text.len() > 0 && text[0] == '+' {
        text.skip(1)
    } else {
        text
    };
    if digits.len() > 0 && all_digits(digits) && value(digits) <= u32::MAX {
        Some(value(digits) as u32)
    } else {
        None
    }
}

/// Whether a character is white space, by its Unicode property.
pub open spec fn is_space(c: char) -> bool {
    let n = c as int;
    ||| 9 <= n <= 13
    ||| n == 0x20
    ||| n == 0x85
    ||| n == 0xa0
    ||| n == 0x1680
    ||| 0x2000 <= n <= 0x200a
    ||| n == 0x2028
    ||| n == 0x2029
    ||| n == 0x202f
    ||| n == 0x205f
    ||| n == 0x3000
}

/// The text without the white space it begins with.
pub open spec fn trimmed(text: Seq<char>) -> Seq<char>
    decreases text.len(),
{
    if text.len() > 0 && is_space(text[0]) {
        trimmed(text.skip(1))
    } else {
        text
    }
}

/// Whether `text` begins with `prefix`.
pub open spec fn begins_with(text: Seq<char>, prefix: Seq<char>) -> bool {
    prefix.len() <= text.len() && text.take(prefix.len() as int) == prefix
}

/// The number behind `base` in a name such as `base 3`.
pub open spec fn number_in(name: Seq<char>, base: Seq<char>) -> Option<u32> {
    if begins_with(name, base) {
        parsed(trimmed(name.skip(base.len() as int)))
    } else {
        None
    }
}

/// The name made of `base` and a number.
pub open spec fn numbered(base: Seq<char>, n: nat) -> Seq<char> {
    base + " "@ + decimal(n)
}

/// The characters of a text.
pub(crate) fn chars_of(text: &str) -> (r: Vec<char>)
    ensures
        r@ == text@,
{
    let mut out: Vec<char> = Vec::new();
    for c in it: text.chars()
        invariant
            it.seq() == text@,
            out@ == text@.take(it.index()),
    {
        out.push(c);
        proof {
            assert(text@.take(it.index() + 1) =~= text@.take(it.index()).push(c));
        }
    }
    proof {
        assert(text@.take(text@.len() as int) =~= text@);
    }
    out
}

fn digit_text(d: u64) -> (r: &'static str)
    requires
        d < 10,
    ensures
        r@ == seq![digit(d as nat)],
{
    proof {
        reveal_strlit("0");
        reveal_strlit("1");
        reveal_strlit("2");
        reveal_strlit("3");
        reveal_strlit("4");
        reveal_strlit("5");
        reveal_strlit("6");
        reveal_strlit("7");
        reveal_strlit("8");
        reveal_strlit("9");
    }
    let r = if d == 0 {
        "0"
    } else if d == 1 {
        "1"
    } else if d == 2 {
        "2"
    } else if d == 3 {
        "3"
    } else if d == 4 {
        "4"
    } else if d == 5 {
        "5"
    } else if d == 6 {
        "6"
    } else if d == 7 {
        "7"
    } else if d == 8 {
        "8"
    } else {
        "9"
    };
    assert(r@ =~= seq![digit(d as nat)]);
    r
}

/// A number in decimal.
pub fn decimal_text(n: u64) -> (r: String)
    ensures
        r@ == decimal(n as nat),
    decreases n,
{
    if n < 10 {
        String::from_str(digit_text(n))
    } else {
        let mut s = decimal_text(n / 10);
        s.append(digit_text(n % 10));
        assert(s@ =~= decimal(n as nat));
        s
    }
}

/// The name made of `base` and a number.
pub fn numbered_name(base: &str, n: u32) -> (r: String)
    ensures
        r@ == numbered(base@, n as nat),
{
    let mut s = String::from_str(base);
    s.append(" ");
    s.append(decimal_text(n as u64).as_str());
    s
}

fn space(c: char) -> (r: bool)
    ensures
        r == is_space(c),
{
    let n: u32 = c as u32;
    (9 <= n && n <= 13) || n == 0x20 || n == 0x85 || n == 0xa0 || n == 0x1680 || (0x2000 <= n && n
        <= 0x200a) || n == 0x2028 || n == 0x2029 || n == 0x202f || n == 0x205f || n == 0x3000
}

/// Whether `text` begins with `prefix`.
fn prefixed(text: &Vec<char>, prefix: &Vec<char>) -> (r: bool)
    ensures
        r == begins_with(text@, prefix@),
{
    if prefix.len() > text.len() {
        return false;
    }
    let mut i: usize = 0;
    while i < prefix.len()
        invariant
            i <= prefix@.len() <= text@.len(),
            forall|j: int| 0 <= j < i ==> #[trigger] text@[j] == prefix@[j],
        decreases prefix@.len() - i,
    {
        if text[i] != prefix[i] {
            proof {
                assert(text@.take(prefix@.len() as int)[i as int] == text@[i as int]);
            }
            return false;
        }
        i += 1;
    }
    proof {
        assert(text@.take(prefix@.len() as int) =~= prefix@);
    }
    true
}

/// Read the digits of `text` from position `start` on as a 32-bit number.
fn read_digits(text: &Vec<char>, start: usize) -> (r: Option<u32>)
    requires
        start <= text@.len(),
    ensures
        ({
            let digits = text@.skip(start as int);
            r == (if digits.len() > 0 && all_digits(digits) && value(digits) <= u32::MAX {
                Some(value(digits) as u32)
            } else {
                None
            })
        }),
{
    let ghost digits = text@.skip(start as int);
    if start == text.len() {
        return None;
    }
    let mut total: u64 = 0;
    let mut i: usize = start;
    while i < text.len()
        invariant
            start <= i <= text@.len(),
            digits == text@.skip(start as int),
            total <= u32::MAX,
            total == value(digits.take(i - start)),
            forall|j: int| 0 <= j < i - start ==> is_digit(#[trigger] digits[j]),
        decreases text@.len() - i,
    {
        let c = text[i];
        assert(digits[i - start] == c);
        if c < '0' || '9' < c {
            assert(!is_digit(digits[i - start]));
            return None;
        }
        proof {
            assert(digits.take(i + 1 - start).drop_last() =~= digits.take(i - start));
        }
        total = total * 10 + (c as u64 - 48);
        if total > 0xffff_ffff {
            proof {
                lemma_value_grows(digits, i + 1 - start);
            }
            return None;
        }
        i += 1;
    }
    proof {
        assert(digits.take(i - start) =~= digits);
    }
    Some(total as u32)
}

/// The number behind `base` in `name`, if there is one: what follows the prefix,
/// without leading white space, read as a 32-bit number.
pub fn number_after(name: &str, base: &str) -> (r: Option<u32>)
    ensures
        r == number_in(name@, base@),
{
    let text = chars_of(name);
    let prefix = chars_of(base);
    if !prefixed(&text, &prefix) {
        return None;
    }
    let mut i: usize = prefix.len();
    while i < text.len() && space(text[i])
        invariant
            i <= text@.len(),
            trimmed(text@.skip(i as int)) == trimmed(text@.skip(prefix@.len() as int)),
        decreases text@.len() - i,
    {
        proof {
            assert(text@.skip(i as int).skip(1) =~= text@.skip(i + 1));
        }
        i += 1;
    }
    let ghost rest = text@.skip(i as int);
    proof {
        assert(trimmed(rest) == rest);
    }
    if i < text.len() && text[i] == '+' {
        i += 1;
        proof {
            assert(rest.skip(1) =~= text@.skip(i as int));
        }
    }
    read_digits(&text, i)
}

proof fn lemma_value_grows(digits: Seq<char>, k: int)
    requires
        0 <= k <= digits.len(),
    ensures
        value(digits.take(k)) <= value(digits),
    decreases digits.len(),
{
    if k < digits.len() {
        assert(digits.drop_last().take(k) =~= digits.take(k));
        lemma_value_grows(digits.drop_last(), k);
    } else {
        assert(digits.take(k) =~= digits);
    }
}

proof fn lemma_decimal_digits(n: nat)
    ensures
        decimal(n).len() > 0,
        forall|i: int| 0 <= i < decimal(n).len() ==> is_digit(#[trigger] decimal(n)[i]),
        value(decimal(n)) == n,
    decreases n,
{
    reveal_with_fuel(value, 2);
    if n >= 10 {
        lemma_decimal_digits(n / 10);
        assert(decimal(n).drop_last() =~= decimal(n / 10));
    } else {
        assert(decimal(n).drop_last() =~= seq![]);
    }
}

/// A numbered name holds its number: what [`numbered_name`] writes,
/// [`number_after`] reads back.
pub proof fn law_numbers_read_back(base: Seq<char>, n: u32)
    ensures
        number_in(numbered(base, n as nat), base) == Some(n),
{
    reveal_strlit(" ");
    let name = numbered(base, n as nat);
    let rest = " "@ + decimal(n as nat);
    assert(name.take(base.len() as int) =~= base);
    assert(name.skip(base.len() as int) =~= rest);
    assert(rest.skip(1) =~= decimal(n as nat));
    lemma_decimal_digits(n as nat);
    assert(is_digit(decimal(n as nat)[0]));
    reveal_with_fuel(trimmed, 3);
    assert(trimmed(rest) == decimal(n as nat));
}

/// A number is written with its digits, the last one last, and without zeros before
/// the first.
pub proof fn law_numbers_are_written_in_decimal(n: nat)
    ensures
        decimal(n).len() > 0,
        decimal(n).last() as int == 48 + n % 10,
        n >= 10 ==> decimal(n).drop_last() == decimal(n / 10),
        n < 10 ==> decimal(n).len() == 1,
        n > 0 ==> decimal(n)[0] != '0',
    decreases n,
{
    if n >= 10 {
        law_numbers_are_written_in_decimal(n / 10);
        assert(decimal(n).drop_last() =~= decimal(n / 10));
        assert(decimal(n)[0] == decimal(n / 10)[0]);
    }
}

/// A number is found only behind the base it is looked for, and it is what the digits
/// there stand for; a name with the base, a space and a number is made of just these.
pub proof fn law_numbers_stand_behind_their_base(name: Seq<char>, base: Seq<char>, n: nat)
    ensures
        number_in(name, base) is Some ==> base.is_prefix_of(name),
        number_in(name, base) matches Some(found) ==> {
            let rest = trimmed(name.skip(base.len() as int));
            &&& rest.len() > 0
            &&& found == value(rest) || (rest[0] == '+' && found == value(rest.skip(1)))
        },
        base.is_prefix_of(numbered(base, n)),
        numbered(base, n).len() == base.len() + 1 + decimal(n).len(),
        numbered(base, n)[base.len() as int] == ' ',
        numbered(base, n).skip(base.len() as int + 1) == decimal(n),
{
    reveal_strlit(" ");
    let whole = numbered(base, n);
    assert(whole.take(base.len() as int) =~= base);
    assert(whole.skip(base.len() as int + 1) =~= decimal(n));
}

} // verus!
