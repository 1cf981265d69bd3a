//! Character classes, trimming and decimal numerals on plain text.

use vstd::prelude::*;

verus! {

/// Unicode `White_Space`.
pub open spec fn is_white(c: char) -> bool {
    let n = c as u32;
    ||| 9 <= n <= 13
    ||| n == 0x20
    ||| n == 0x85
    ||| n == 0xA0
    ||| n == 0x1680
    ||| 0x2000 <= n <= 0x200A
    ||| n == 0x2028
    ||| n == 0x2029
    ||| n == 0x202F
    ||| n == 0x205F
    ||| n == 0x3000
}

/// Unicode general category `Cc`.
pub open spec fn is_control(c: char) -> bool {
    let n = c as u32;
    n <= 0x1F || 0x7F <= n <= 0x9F
}

/// Nothing is left of `s` once surrounding whitespace is trimmed.
pub open spec fn is_blank(s: Seq<char>) -> bool {
    forall|i: int| 0 <= i < s.len() ==> is_white(#[trigger] s[i])
}

pub open spec fn trim_start(s: Seq<char>) -> Seq<char>
    decreases s.len(),
{
    if s.len() > 0 && is_white(s[0]) {
        trim_start(s.skip(1))
    } else {
        s
    }
}

pub open spec fn trim_end(s: Seq<char>) -> Seq<char>
    decreases s.len(),
{
    if s.len() > 0 && is_white(s.last()) {
        trim_end(s.drop_last())
    } else {
        s
    }
}

/// `s` without leading and trailing whitespace.
pub open spec fn trimmed(s: Seq<char>) -> Seq<char> {
    trim_end(trim_start(s))
}

pub fn white(c: char) -> (r: bool)
    ensures
        r == is_white(c),
{
    let n: u32 = c as u32;
    (9 <= n && n <= 13) || n == 0x20 || n == 0x85 || n == 0xA0 || n == 0x1680 || (0x2000 <= n && n
        <= 0x200A) || n == 0x2028 || n == 0x2029 || n == 0x202F || n == 0x205F || n == 0x3000
}

pub fn control(c: char) -> (r: bool)
    ensures
        r == is_control(c),
{
    let n: u32 = c as u32;
    n <= 0x1F || (0x7F <= n && n <= 0x9F)
}

/// The characters of `text`, in order.
pub fn characters(text: &str) -> (r: Vec<char>)
    ensures
        r@ == text@,
{
    let mut out: Vec<char> = Vec::new();
    for c in it: text.chars()
        invariant
            out@ == it.seq().take(it.index()),
            it.seq() == text@,
    {
        out.push(c);
    }
    out
}

/// Whether trimming `text` leaves nothing.
pub fn blank(text: &str) -> (r: bool)
    ensures
        r == is_blank(text@),
{
    let chars = characters(text);
    let mut i: usize = 0;
    while i < chars.len()
        invariant
            chars@ == text@,
            i <= chars.len(),
            forall|j: int| 0 <= j < i ==> is_white(#[trigger] text@[j]),
        decreases chars.len() - i,
    {
        if !white(chars[i]) {
            assert(!is_white(text@[i as int]));
            return false;
        }
        i = i + 1;
    }
    true
}

/// Whether `text` holds a control character.
pub fn has_control(text: &str) -> (r: bool)
    ensures
        r == exists|i: int| 0 <= i < text@.len() && is_control(#[trigger] text@[i]),
{
    let chars = characters(text);
    let mut i: usize = 0;
    while i < chars.len()
        invariant
            chars@ == text@,
            i <= chars.len(),
            forall|j: int| 0 <= j < i ==> !is_control(#[trigger] text@[j]),
        decreases chars.len() - i,
    {
        if control(chars[i]) {
            assert(is_control(text@[i as int]));
            return true;
        }
        i = i + 1;
    }
    false
}

/// Whether `text` starts with `prefix`.
pub fn has_prefix(text: &str, prefix: &str) -> (r: bool)
    ensures
        r == (prefix@.len() <= text@.len() && text@.take(prefix@.len() as int) == prefix@),
{
    let whole = characters(text);
    let part = characters(prefix);
    if part.len() > whole.len() {
        return false;
    }
    let mut i: usize = 0;
    while i < part.len()
        invariant
            whole@ == text@,
            part@ == prefix@,
            i <= part@.len() <= whole@.len(),
            forall|j: int| 0 <= j < i ==> text@[j] == prefix@[j],
        decreases part@.len() - i,
    {
        if whole[i] != part[i] {
            assert(text@.take(prefix@.len() as int)[i as int] != prefix@[i as int]);
            return false;
        }
        i = i + 1;
    }
    assert(text@.take(prefix@.len() as int) =~= prefix@);
    true
}

/// The range that is left of `chars[from..to]` after trimming.
pub fn trim_range(chars: &Vec<char>, from: usize, to: usize) -> (r: (usize, usize))
    requires
        from <= to <= chars.len(),
    ensures
        from <= r.0 <= r.1 <= to,
        chars@.subrange(r.0 as int, r.1 as int) == trimmed(
            chars@.subrange(from as int, to as int),
        ),
{
    let ghost whole = chars@.subrange(from as int, to as int);
    let mut a: usize = from;
    while a < to && white(chars[a])
        invariant
            from <= a <= to <= chars.len(),
            whole == chars@.subrange(from as int, to as int),
            trim_start(whole) == trim_start(chars@.subrange(a as int, to as int)),
        decreases to - a,
    {
        assert(chars@.subrange(a as int, to as int).skip(1) =~= chars@.subrange(
            a + 1,
            to as int,
        ));
        a = a + 1;
    }
    let ghost front = chars@.subrange(a as int, to as int);
    assert(trim_start(whole) == front);
    let mut b: usize = to;
    while b > a && white(chars[b - 1])
        invariant
            a <= b <= to <= chars.len(),
            trim_end(front) == trim_end(chars@.subrange(a as int, b as int)),
        decreases b,
    {
        assert(chars@.subrange(a as int, b as int).drop_last() =~= chars@.subrange(
            a as int,
            b - 1,
        ));
        b = b - 1;
    }
    (a, b)
}

/// The character of a decimal digit.
pub open spec fn digit(d: int) -> char {
    if d == 0 {
        '0'
    } else if d == 1 {
        '1'
    } else if d == 2 {
        '2'
    } else if d == 3 {
        '3'
    } else if d == 4 {
        '4'
    } else if d == 5 {
        '5'
    } else if d == 6 {
        '6'
    } else if d == 7 {
        '7'
    } else if d == 8 {
        '8'
    } else {
        '9'
    }
}

/// The shortest decimal numeral of `n`.
pub open spec fn decimal(n: nat) -> Seq<char>
    decreases n,
{
    if n < 10 {
        seq![digit(n as int)]
    } else {
        decimal(n / 10).push(digit((n % 10) as int))
    }
}

pub open spec fn is_digit(c: char) -> bool {
    '0' <= c && c <= '9'
}

pub open spec fn all_digits(s: Seq<char>) -> bool {
    forall|i: int| 0 <= i < s.len() ==> is_digit(#[trigger] s[i])
}

/// The number a string of decimal digits denotes.
pub open spec fn decimal_value(s: Seq<char>) -> nat
    decreases s.len(),
{
    if s.len() == 0 {
        0
    } else {
        decimal_value(s.drop_last()) * 10 + ((s.last() as u32 - '0' as u32) as nat)
    }
}

fn digit_text(d: u64) -> (r: &'static str)
    requires
        d < 10,
    ensures
        r@ == seq![digit(d as int)],
{
    proof {
        reveal_strlit("0");
        reveal_strlit("1");
        reveal_strlit("2");
        reveal_strlit("3");
        reveal_strlit("4");
        reveal_strlit("5");
        reveal_strlit("6");
        reveal_strlit("7");
        reveal_strlit("8");
        reveal_strlit("9");
    }
    if d == 0 {
        "0"
    } else if d == 1 {
        "1"
    } else if d == 2 {
        "2"
    } else if d == 3 {
        "3"
    } else if d == 4 {
        "4"
    } else if d == 5 {
        "5"
    } else if d == 6 {
        "6"
    } else if d == 7 {
        "7"
    } else if d == 8 {
        "8"
    } else {
        "9"
    }
}

/// `n` as decimal text.
pub fn decimal_text(n: u64) -> (r: String)
    ensures
        r@ == decimal(n as nat),
    decreases n,
{
    if n < 10 {
        digit_text(n).to_string()
    } else {
        let mut s = decimal_text(n / 10);
        s.append(digit_text(n % 10));
        assert(s@ =~= decimal(n as nat));
        s
    }
}

/// The character of a hexadecimal digit.
pub open spec fn hex_digit(d: int) -> char {
    if d < 10 {
        digit(d)
    } else if d == 10 {
        'a'
    } else if d == 11 {
        'b'
    } else if d == 12 {
        'c'
    } else if d == 13 {
        'd'
    } else if d == 14 {
        'e'
    } else {
        'f'
    }
}

/// `n` in lower-case hexadecimal with at least `width` digits.
pub open spec fn hex(n: nat, width: nat) -> Seq<char>
    decreases n, width,
{
    if n < 16 && width <= 1 {
        seq![hex_digit(n as int)]
    } else {
        hex(
            n / 16,
            if width == 0 {
                0
            } else {
                (width - 1) as nat
            },
        ).push(hex_digit((n % 16) as int))
    }
}

fn hex_digit_text(d: u16) -> (r: &'static str)
    requires
        d < 16,
    ensures
        r@ == seq![hex_digit(d as int)],
{
    proof {
        reveal_strlit("a");
        reveal_strlit("b");
        reveal_strlit("c");
        reveal_strlit("d");
        reveal_strlit("e");
        reveal_strlit("f");
    }
    if d < 10 {
        digit_text(d as u64)
    } else if d == 10 {
        "a"
    } else if d == 11 {
        "b"
    } else if d == 12 {
        "c"
    } else if d == 13 {
        "d"
    } else if d == 14 {
        "e"
    } else {
        "f"
    }
}

/// `n` as hexadecimal text of at least `width` digits.
pub fn hex_text(n: u16, width: u8) -> (r: String)
    ensures
        r@ == hex(n as nat, width as nat),
    decreases n, width,
{
    if n < 16 && width <= 1 {
        hex_digit_text(n).to_string()
    } else {
        let mut s = hex_text(
            n / 16,
            if width == 0 {
                0
            } else {
                width - 1
            },
        );
        s.append(hex_digit_text(n % 16));
        assert(s@ =~= hex(n as nat, width as nat));
        s
    }
}

/// Reads decimal digits: the number, or `None` for empty text, for any other
/// character, and for a number above `max`.
pub fn parse_decimal(text: &str, max: u64) -> (r: Option<u64>)
    ensures
        r is Some <==> text@.len() > 0 && all_digits(text@) && decimal_value(text@) <= max,
        r matches Some(n) ==> n == decimal_value(text@),
{
    let chars = characters(text);
    if chars.len() == 0 {
        return None;
    }
    let mut value: u64 = 0;
    let mut i: usize = 0;
    while i < chars.len()
        invariant
            chars@ == text@,
            i <= chars.len(),
            value <= max,
            all_digits(text@.take(i as int)),
            value == decimal_value(text@.take(i as int)),
        decreases chars.len() - i,
    {
        let c = chars[i];
        let ghost next = text@.take(i + 1);
        assert(next.drop_last() =~= text@.take(i as int));
        assert(next.last() == c);
        if c < '0' || c > '9' {
            assert(!is_digit(text@[i as int]));
            return None;
        }
        let d: u64 = (c as u32 - '0' as u32) as u64;
        let wide: u128 = value as u128 * 10 + d as u128;
        assert(decimal_value(next) == wide);
        if wide > max as u128 {
            proof {
                if all_digits(text@) {
                    lemma_value_grows(text@, i + 1);
                }
            }
            return None;
        }
        value = wide as u64;
        assert forall|j: int| 0 <= j < next.len() implies is_digit(#[trigger] next[j]) by {
            if j < i {
                assert(next[j] == text@.take(i as int)[j]);
            }
        }
        i = i + 1;
    }
    assert(text@.take(i as int) =~= text@);
    Some(value)
}

proof fn lemma_value_grows(s: Seq<char>, k: int)
    requires
        0 <= k <= s.len(),
        all_digits(s.skip(k)),
    ensures
        decimal_value(s.take(k)) <= decimal_value(s),
    decreases s.len() - k,
{
    if k == s.len() {
        assert(s.take(k) =~= s);
    } else {
        assert(s.take(k + 1).drop_last() =~= s.take(k));
        assert(s.skip(k)[0] == s[k]);
        assert(forall|j: int| 0 <= j < s.skip(k + 1).len() ==> #[trigger] s.skip(k + 1)[j] == s.skip(
            k,
        )[j + 1]);
        lemma_value_grows(s, k + 1);
    }
}

/// Decimal text reads back as the number it was written from.
pub proof fn decimal_round_trip(n: nat)
    ensures
        decimal(n).len() > 0,
        all_digits(decimal(n)),
        decimal_value(decimal(n)) == n,
    decreases n,
{
    if n < 10 {
        let s = decimal(n);
        assert(s.drop_last() =~= Seq::<char>::empty());
        assert(decimal_value(s.drop_last()) == 0);
    } else {
        decimal_round_trip(n / 10);
        let s = decimal(n);
        assert(s.drop_last() =~= decimal(n / 10));
    }
}

/// Two numbers with the same decimal text are the same number.
pub proof fn decimal_injective(a: nat, b: nat)
    requires
        decimal(a) == decimal(b),
    ensures
        a == b,
{
    decimal_round_trip(a);
    decimal_round_trip(b);
}

/// The number that lower-case hexadecimal digits denote.
pub open spec fn hex_value(s: Seq<char>) -> nat
    decreases s.len(),
{
    if s.len() == 0 {
        0
    } else {
        let c = s.last() as u32;
        16 * hex_value(s.drop_last()) + (if '0' as u32 <= c <= '9' as u32 {
            (c - '0' as u32) as nat
        } else {
            (10 + c - 'a' as u32) as nat
        })
    }
}

/// A hexadecimal numeral denotes its number, has the digits 0 to 9 and a to f
/// only, at least as many as it should have, and no zero in front that it need
/// not have.
pub proof fn hex_round_trip(n: nat, width: nat)
    ensures
        hex_value(hex(n, width)) == n,
        hex(n, width).len() >= width,
        hex(n, width).len() >= 1,
        hex(n, width).len() > width && hex(n, width).len() > 1 ==> hex(n, width)[0] != '0',
        forall|i: int|
            0 <= i < hex(n, width).len() ==> {
                let c = #[trigger] hex(n, width)[i];
                ('0' <= c && c <= '9') || ('a' <= c && c <= 'f')
            },
    decreases n, width,
{
    assert forall|d: int| 0 <= d < 16 implies {
        let c = #[trigger] hex_digit(d) as u32;
        &&& d < 10 ==> c == '0' as u32 + d
        &&& d >= 10 ==> c == 'a' as u32 + d - 10
    } by {}
    if !(n < 16 && width <= 1) {
        let w: nat = if width == 0 {
            0
        } else {
            (width - 1) as nat
        };
        hex_round_trip(n / 16, w);
        let front = hex(n / 16, w);
        assert(hex(n, width).drop_last() =~= front);
        assert(hex(n, width)[0] == front[0]);
        assert(hex(n, width).last() == hex_digit((n % 16) as int));
        if front.len() == 1 && front.len() > w {
            assert(w == 0);
            if n / 16 >= 16 {
                hex_round_trip(n / 256, 0);
                assert((n / 16) / 16 == n / 256);
                assert(front == hex(n / 256, 0).push(hex_digit((n / 16 % 16) as int)));
            }
            assert(front[0] == hex_digit((n / 16) as int));
            if width == 0 {
                assert(n >= 16);
            }
        }
    } else {
        assert(hex(n, width).drop_last() =~= Seq::<char>::empty());
        assert(hex_value(Seq::<char>::empty()) == 0);
        assert(hex(n, width).last() == hex_digit(n as int));
    }
}

/// A decimal numeral has no zero in front that it need not have.
pub proof fn decimals_are_shortest(n: nat)
    ensures
        decimal(n).len() >= 1,
        n >= 10 ==> decimal(n)[0] != '0',
        n < 10 ==> decimal(n).len() == 1,
        all_digits(decimal(n)),
    decreases n,
{
    if n >= 10 {
        decimals_are_shortest(n / 10);
        assert(decimal(n)[0] == decimal(n / 10)[0]);
    }
}

/// Text between whitespace is what is left when the whitespace is trimmed.
pub proof fn whitespace_around_text_is_trimmed(before: Seq<char>, s: Seq<char>, after: Seq<char>)
    requires
        is_blank(before),
        is_blank(after),
        s.len() > 0,
        !is_white(s[0]),
        !is_white(s.last()),
    ensures
        trimmed(before + s + after) == s,
    decreases before.len() + after.len(),
{
    let t = before + s + after;
    if before.len() > 0 {
        assert(is_white(before[0]));
        assert(t[0] == before[0]);
        assert(t.skip(1) =~= before.skip(1) + s + after);
        assert forall|i: int| 0 <= i < before.skip(1).len() implies is_white(
            #[trigger] before.skip(1)[i],
        ) by {
            assert(before.skip(1)[i] == before[i + 1]);
        }
        whitespace_around_text_is_trimmed(before.skip(1), s, after);
        assert(trim_start(t) == trim_start(t.skip(1)));
    } else {
        assert(t =~= s + after);
        assert(t[0] == s[0]);
        assert(trim_start(t) == t);
        lemma_trim_end(s, after);
    }
}

proof fn lemma_trim_end(s: Seq<char>, after: Seq<char>)
    requires
        is_blank(after),
        s.len() > 0,
        !is_white(s.last()),
    ensures
        trim_end(s + after) == s,
    decreases after.len(),
{
    let t = s + after;
    if after.len() > 0 {
        assert(is_white(after[after.len() - 1]));
        assert(t.last() == after.last());
        assert(t.drop_last() =~= s + after.drop_last());
        assert forall|i: int| 0 <= i < after.drop_last().len() implies is_white(
            #[trigger] after.drop_last()[i],
        ) by {
            assert(after.drop_last()[i] == after[i]);
        }
        lemma_trim_end(s, after.drop_last());
    } else {
        assert(t =~= s);
    }
}

/// Among ASCII characters, tab, line feed, vertical tab, form feed, carriage
/// return and space are whitespace. Control characters are the first 32 of each
/// of the first two blocks of 128, and delete.
pub proof fn ascii_whitespace_and_controls(c: char)
    ensures
        (c as u32) < 128 ==> (is_white(c) <==> c == '\t' || c == '\n' || c as u32 == 11 || c as u32
            == 12 || c == '\r' || c == ' '),
        is_control(c) <==> (c as u32) < 256 && ((c as u32) % 128 < 32 || c as u32 == 127),
{
}

} // verus!
