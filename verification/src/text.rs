//! Small string helpers over character sequences.
use vstd::prelude::*;
use vstd::string::*;

verus! {

/// Appends `c` to `s`: a wrapper of `String::push`, which per its documentation
/// appends the given `char` to the end of the string.
#[verifier::external_body]
pub fn push_char(s: &mut String, c: char)
    ensures
        final(s)@ == old(s)@.push(c),
{
    s.push(c);
}

/// Whether two string slices hold the same characters.
pub fn str_equals(a: &str, b: &str) -> (r: bool)
    ensures
        r == (a@ == b@),
{
    let n = a.unicode_len();
    if n != b.unicode_len() {
        return false;
    }
    let mut i: usize = 0;
    while i < n
        invariant
            n == a@.len(),
            n == b@.len(),
            i <= n,
            forall|j: int| 0 <= j < i ==> a@[j] == b@[j],
        decreases n - i,
    {
        if a.get_char(i) != b.get_char(i) {
            return false;
        }
        i = i + 1;
    }
    assert(a@ =~= b@);
    true
}

/// The characters of a string slice, in order.
pub fn chars_of(s: &str) -> (r: Vec<char>)
    ensures
        r@ == s@,
{
    let n = s.unicode_len();
    let mut r: Vec<char> = Vec::new();
    let mut i: usize = 0;
    while i < n
        invariant
            n == s@.len(),
            i <= n,
            r@ == s@.subrange(0, i as int),
        decreases n - i,
    {
        r.push(s.get_char(i));
        i = i + 1;
        assert(r@ =~= s@.subrange(0, i as int));
    }
    assert(s@.subrange(0, n as int) =~= s@);
    r
}

/// A `String` holding the given characters.
pub fn string_of(cs: &Vec<char>) -> (r: String)
    ensures
        r@ == cs@,
{
    let mut r = String::new();
    let mut i: usize = 0;
    while i < cs.len()
        invariant
            i <= cs.len(),
            r@ == cs@.subrange(0, i as int),
        decreases cs.len() - i,
    {
        push_char(&mut r, cs[i]);
        i = i + 1;
        assert(r@ =~= cs@.subrange(0, i as int));
    }
    assert(cs@.subrange(0, cs.len() as int) =~= cs@);
    r
}

/// A `String` holding the characters of `cs` from index `from` up to `to`.
pub fn string_of_range(cs: &Vec<char>, from: usize, to: usize) -> (r: String)
    requires
        from <= to <= cs@.len(),
    ensures
        r@ == cs@.subrange(from as int, to as int),
{
    let mut r = String::new();
    let mut i: usize = from;
    while i < to
        invariant
            from <= i <= to,
            to <= cs@.len(),
            r@ == cs@.subrange(from as int, i as int),
        decreases to - i,
    {
        push_char(&mut r, cs[i]);
        i = i + 1;
        assert(r@ =~= cs@.subrange(from as int, i as int));
    }
    r
}

/// `n` copies of `c`.
pub open spec fn repeated(c: char, n: nat) -> Seq<char> {
    Seq::new(n, |i: int| c)
}

/// A `String` of `n` copies of `c`.
pub fn repeat_char(c: char, n: usize) -> (r: String)
    ensures
        r@ == repeated(c, n as nat),
{
    let mut r = String::new();
    let mut i: usize = 0;
    while i < n
        invariant
            i <= n,
            r@ == repeated(c, i as nat),
        decreases n - i,
    {
        push_char(&mut r, c);
        i = i + 1;
        assert(r@ =~= repeated(c, i as nat));
    }
    r
}

/// The number of bytes that UTF-8 takes for `c`.
pub open spec fn utf8_width(c: char) -> nat {
    if (c as u32) < 0x80 {
        1
    } else if (c as u32) < 0x800 {
        2
    } else if (c as u32) < 0x10000 {
        3
    } else {
        4
    }
}

/// The number of bytes that UTF-8 takes for the characters `cs`.
pub open spec fn utf8_len(cs: Seq<char>) -> nat
    decreases cs.len(),
{
    if cs.len() == 0 {
        0
    } else {
        utf8_len(cs.drop_last()) + utf8_width(cs.last())
    }
}

/// The byte count of joined texts is the sum of their byte counts.
pub proof fn lemma_utf8_len_append(a: Seq<char>, b: Seq<char>)
    ensures
        utf8_len(a + b) == utf8_len(a) + utf8_len(b),
    decreases b.len(),
{
    if b.len() > 0 {
        lemma_utf8_len_append(a, b.drop_last());
        assert((a + b).drop_last() =~= a + b.drop_last());
        assert((a + b).last() == b.last());
    } else {
        assert(a + b =~= a);
    }
}

/// A piece of a text takes no more bytes than the text, and the bytes of the text are
/// the bytes before the piece, of the piece and after it.
pub proof fn lemma_utf8_len_split(cs: Seq<char>, from: int, to: int)
    requires
        0 <= from <= to <= cs.len(),
    ensures
        utf8_len(cs) == utf8_len(cs.subrange(0, from)) + utf8_len(cs.subrange(from, to)) + utf8_len(
            cs.subrange(to, cs.len() as int),
        ),
{
    lemma_utf8_len_append(cs.subrange(0, from), cs.subrange(from, to));
    lemma_utf8_len_append(cs.subrange(0, from) + cs.subrange(from, to), cs.subrange(to, cs.len() as int));
    assert(cs.subrange(0, from) + cs.subrange(from, to) + cs.subrange(to, cs.len() as int) =~= cs);
}

/// `str::len`: the length of `s` in bytes. Per std's documentation a `str` is UTF-8
/// and `len` counts its bytes; per `char::len_utf8` a character takes 1, 2, 3 or 4 bytes
/// below 0x80, 0x800 and 0x10000 and from there on (`utf8_len`).
#[verifier::external_body]
pub fn str_len(s: &str) -> (r: usize)
    ensures
        r == utf8_len(s@),
{
    s.len()
}

/// The number of bytes that the characters of `cs` from `from` up to `to` take, when
/// they fit in a `usize`.
pub fn bytes_of_range(cs: &Vec<char>, from: usize, to: usize) -> (r: usize)
    requires
        from <= to <= cs@.len(),
        utf8_len(cs@.subrange(from as int, to as int)) <= usize::MAX,
    ensures
        r == utf8_len(cs@.subrange(from as int, to as int)),
{
    let mut total: usize = 0;
    let mut i: usize = from;
    while i < to
        invariant
            from <= i <= to <= cs@.len(),
            utf8_len(cs@.subrange(from as int, to as int)) <= usize::MAX,
            total == utf8_len(cs@.subrange(from as int, i as int)),
        decreases to - i,
    {
        let c = cs[i];
        proof {
            assert(cs@.subrange(from as int, i + 1).drop_last() =~= cs@.subrange(from as int, i as int));
            lemma_utf8_len_split(cs@.subrange(from as int, to as int), 0, i + 1 - from);
            assert(cs@.subrange(from as int, to as int).subrange(0, i + 1 - from) =~= cs@.subrange(from as int, i + 1));
        }
        let w: usize = if (c as u32) < 0x80 {
            1
        } else if (c as u32) < 0x800 {
            2
        } else if (c as u32) < 0x10000 {
            3
        } else {
            4
        };
        total = total + w;
        i = i + 1;
    }
    total
}

/// The character of a decimal digit.
pub open spec fn digit_char(d: nat) -> char {
    ((d + 48) as u32) as char
}

/// The decimal notation of a natural number, without leading zeros.
pub open spec fn decimal_text(n: nat) -> Seq<char>
    decreases n,
{
    if n < 10 {
        seq![digit_char(n)]
    } else {
        decimal_text(n / 10).push(digit_char(n % 10))
    }
}

/// A decimal notation has at least one digit, and more than one from ten on.
pub proof fn lemma_decimal_len(n: nat)
    ensures
        decimal_text(n).len() >= 1,
        n >= 10 ==> decimal_text(n).len() >= 2,
    decreases n,
{
    if n >= 10 {
        lemma_decimal_len(n / 10);
    }
}

/// Different numbers have different decimal notations.
pub proof fn lemma_decimal_injective(a: nat, b: nat)
    requires
        decimal_text(a) == decimal_text(b),
    ensures
        a == b,
    decreases a,
{
    lemma_decimal_len(a);
    lemma_decimal_len(b);
    if a < 10 && b < 10 {
        assert(decimal_text(a)[0] == digit_char(a));
        assert(decimal_text(b)[0] == digit_char(b));
        assert(digit_char(a) as int == a + 48);
        assert(digit_char(b) as int == b + 48);
    } else if a >= 10 && b >= 10 {
        assert(decimal_text(a).drop_last() =~= decimal_text(a / 10));
        assert(decimal_text(b).drop_last() =~= decimal_text(b / 10));
        lemma_decimal_injective(a / 10, b / 10);
        assert(decimal_text(a).last() == digit_char(a % 10));
        assert(decimal_text(b).last() == digit_char(b % 10));
        assert(digit_char(a % 10) as int == a % 10 + 48);
        assert(digit_char(b % 10) as int == b % 10 + 48);
    }
}

/// The decimal notation of an integer, with a leading `-` when negative.
pub open spec fn signed_decimal_text(x: int) -> Seq<char> {
    if x < 0 {
        seq!['-'] + decimal_text((-x) as nat)
    } else {
        decimal_text(x as nat)
    }
}

/// The decimal notation of `n`.
pub fn decimal(n: usize) -> (r: String)
    ensures
        r@ == decimal_text(n as nat),
    decreases n,
{
    let d = n % 10;
    let c = char_of_digit(d);
    if n < 10 {
        let mut r = String::new();
        push_char(&mut r, c);
        assert(r@ =~= seq![c]);
        r
    } else {
        let mut r = decimal(n / 10);
        push_char(&mut r, c);
        r
    }
}

/// The character of the digit `d`.
pub fn char_of_digit(d: usize) -> (c: char)
    requires
        d < 10,
    ensures
        c == digit_char(d as nat),
{
    if d == 0 {
        '0'
    } else if d == 1 {
        '1'
    } else if d == 2 {
        '2'
    } else if d == 3 {
        '3'
    } else if d == 4 {
        '4'
    } else if d == 5 {
        '5'
    } else if d == 6 {
        '6'
    } else if d == 7 {
        '7'
    } else if d == 8 {
        '8'
    } else {
        '9'
    }
}

/// The decimal notation of `x`, with a leading `-` when negative.
pub fn signed_decimal(x: isize) -> (r: String)
    ensures
        r@ == signed_decimal_text(x as int),
{
    if x < 0 {
        let magnitude: usize = if x == isize::MIN {
            (isize::MAX as usize) + 1
        } else {
            (-x) as usize
        };
        let mut r = String::new();
        r.append("-");
        let digits = decimal(magnitude);
        r.append(digits.as_str());
        proof {
            reveal_strlit("-");
        }
        r
    } else {
        decimal(x as usize)
    }
}

} // verus!
