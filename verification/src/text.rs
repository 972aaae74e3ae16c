//! Character-level helpers for building the rendered source text.
use vstd::prelude::*;

verus! {

/// The characters of `s`, in order, as a vector.
pub fn chars_of(s: &str) -> (v: Vec<char>)
    ensures
        v@ == s@,
{
    let mut v: Vec<char> = Vec::new();
    for c in it: s.chars()
        invariant
            it.seq() == s@,
            v@ == it.seq().take(it.index() as int),
    {
        v.push(c);
    }
    v
}

/// Appends one character to `s`.
///
/// Calls `String::push` from std, whose documentation says that it appends the
/// given `char` to the end of the string; the contract states exactly that.
#[verifier::external_body]
pub fn push_char(s: &mut String, c: char)
    ensures
        final(s)@ == old(s)@.push(c),
{
    s.push(c);
}

/// Whether two strings hold the same characters.
pub fn str_eq(a: &str, b: &str) -> (r: bool)
    ensures
        r == (a@ == b@),
{
    let x = chars_of(a);
    let y = chars_of(b);
    if x.len() != y.len() {
        return false;
    }
    let mut i: usize = 0;
    while i < x.len()
        invariant
            x@ == a@,
            y@ == b@,
            x.len() == y.len(),
            0 <= i <= x.len(),
            forall|j: int| 0 <= j < i ==> x@[j] == y@[j],
        decreases x.len() - i,
    {
        if x[i] != y[i] {
            return false;
        }
        i = i + 1;
    }
    assert(x@ =~= y@);
    true
}

/// The decimal digit character for `d` (which must be below ten).
pub open spec fn digit_char(d: nat) -> char {
    if d == 0 {
        '0'
    } else if d == 1 {
        '1'
    } else if d == 2 {
        '2'
    } else if d == 3 {
        '3'
    } else if d == 4 {
        '4'
    } else if d == 5 {
        '5'
    } else if d == 6 {
        '6'
    } else if d == 7 {
        '7'
    } else if d == 8 {
        '8'
    } else {
        '9'
    }
}

/// The decimal representation of `n`, with no leading zeros (`"0"` for zero).
pub open spec fn nat_text(n: nat) -> Seq<char>
    decreases n,
{
    if n < 10 {
        seq![digit_char(n)]
    } else {
        nat_text(n / 10).push(digit_char(n % 10))
    }
}

/// The decimal representation of `i`, with a leading `-` when negative.
pub open spec fn int_text(i: int) -> Seq<char> {
    if i < 0 {
        seq!['-'] + nat_text((-i) as nat)
    } else {
        nat_text(i as nat)
    }
}

fn digit(d: u64) -> (c: char)
    requires
        d < 10,
    ensures
        c == digit_char(d as nat),
{
    match d {
        0 => '0',
        1 => '1',
        2 => '2',
        3 => '3',
        4 => '4',
        5 => '5',
        6 => '6',
        7 => '7',
        8 => '8',
        _ => '9',
    }
}

/// The value of a decimal digit character.
pub open spec fn digit_value(c: char) -> nat {
    if c == '1' {
        1
    } else if c == '2' {
        2
    } else if c == '3' {
        3
    } else if c == '4' {
        4
    } else if c == '5' {
        5
    } else if c == '6' {
        6
    } else if c == '7' {
        7
    } else if c == '8' {
        8
    } else if c == '9' {
        9
    } else {
        0
    }
}

/// The number that a string of decimal digits denotes.
pub open spec fn digits_value(s: Seq<char>) -> nat
    decreases s.len(),
{
    if s.len() == 0 {
        0
    } else {
        digits_value(s.drop_last()) * 10 + digit_value(s.last())
    }
}

/// `nat_text(n)` is a decimal numeral for `n`: it is made of the digits `0`
/// to `9`, denotes `n`, and starts with `0` only for zero itself.
pub proof fn law_nat_text_is_decimal(n: nat)
    ensures
        nat_text(n).len() > 0,
        forall|i: int| 0 <= i < nat_text(n).len() ==> '0' <= #[trigger] nat_text(n)[i] <= '9',
        digits_value(nat_text(n)) == n,
        nat_text(n)[0] == '0' ==> n == 0,
    decreases n,
{
    if n >= 10 {
        law_nat_text_is_decimal(n / 10);
        let t = nat_text(n);
        assert(t.drop_last() =~= nat_text(n / 10));
        assert(digit_value(digit_char(n % 10)) == n % 10);
        assert((n / 10) * 10 + n % 10 == n);
        assert(t[0] == nat_text(n / 10)[0]);
        assert(t.last() == digit_char(n % 10));
        assert(digits_value(t) == digits_value(nat_text(n / 10)) * 10 + n % 10);
    } else {
        assert(nat_text(n).drop_last() =~= Seq::<char>::empty());
        assert(digit_value(digit_char(n)) == n);
        assert(digits_value(Seq::<char>::empty()) == 0);
        assert(digits_value(nat_text(n)) == digits_value(Seq::<char>::empty()) * 10 + n);
    }
}

/// Whether `t` is a decimal numeral for `v`: an optional `-`, present exactly
/// when `v` is negative, then digits that denote the magnitude of `v`, with no
/// leading zero.
pub open spec fn denotes_integer(t: Seq<char>, v: int) -> bool {
    let negative = t.len() > 0 && t[0] == '-';
    let digits = if negative {
        t.skip(1)
    } else {
        t
    };
    &&& negative <==> v < 0
    &&& digits.len() > 0
    &&& forall|i: int| 0 <= i < digits.len() ==> '0' <= #[trigger] digits[i] <= '9'
    &&& digits_value(digits) == if v < 0 {
        -v
    } else {
        v
    }
    &&& digits[0] == '0' ==> v == 0
}

/// `int_text(v)` is a decimal numeral for `v`.
pub proof fn law_int_text_denotes(v: int)
    ensures
        denotes_integer(int_text(v), v),
{
    if v < 0 {
        law_nat_text_is_decimal((-v) as nat);
        let t = int_text(v);
        assert(t.skip(1) =~= nat_text((-v) as nat));
        assert(t[0] == '-');
    } else {
        law_nat_text_is_decimal(v as nat);
        let t = nat_text(v as nat);
        assert(t[0] != '-');
    }
}

/// Appends the decimal representation of `n`.
pub fn push_u64(s: &mut String, n: u64)
    ensures
        final(s)@ == old(s)@ + nat_text(n as nat),
{
    // digits, least significant first
    let mut rev: Vec<char> = Vec::new();
    let mut m: u64 = n;
    loop
        invariant_except_break
            m <= n,
            nat_text(n as nat) == nat_text(m as nat) + rev@.reverse(),
        ensures
            nat_text(n as nat) == rev@.reverse(),
        decreases m,
    {
        if m < 10 {
            let ghost before = rev@;
            rev.push(digit(m));
            assert(rev@.reverse() =~= seq![digit_char(m as nat)] + before.reverse());
            break;
        }
        let ghost before = rev@;
        proof {
            assert(nat_text(m as nat) == nat_text((m / 10) as nat).push(digit_char((m % 10) as nat)));
        }
        rev.push(digit(m % 10));
        assert(rev@.reverse() =~= seq![digit_char((m % 10) as nat)] + before.reverse());
        m = m / 10;
    }
    let ghost start = s@;
    let mut i: usize = rev.len();
    while i > 0
        invariant
            i <= rev.len(),
            s@ == start + rev@.subrange(i as int, rev@.len() as int).reverse(),
            nat_text(n as nat) == rev@.reverse(),
        decreases i,
    {
        i = i - 1;
        push_char(s, rev[i]);
        assert(rev@.subrange(i as int, rev@.len() as int).reverse() =~= rev@.subrange(
            (i + 1) as int,
            rev@.len() as int,
        ).reverse().push(rev@[i as int]));
    }
    assert(rev@.subrange(0, rev@.len() as int) =~= rev@);
}

/// Appends the decimal representation of `v`, with a leading `-` when negative.
pub fn push_i64(s: &mut String, v: i64)
    ensures
        final(s)@ == old(s)@ + int_text(v as int),
{
    if v < 0 {
        push_char(s, '-');
        let m: u64 = (-(v as i128)) as u64;
        push_u64(s, m);
        assert(final(s)@ =~= old(s)@ + int_text(v as int));
    } else {
        push_u64(s, v as u64);
    }
}

/// The items joined by `sep`: `a`, `a, b`, `a, b, c`, ...
pub open spec fn join(items: Seq<Seq<char>>, sep: Seq<char>) -> Seq<char>
    decreases items.len(),
{
    if items.len() == 0 {
        Seq::empty()
    } else if items.len() == 1 {
        items[0]
    } else {
        join(items.drop_last(), sep) + sep + items.last()
    }
}

/// Joining one more item appends the separator and the item, or gives the
/// item alone when it is the first.
pub proof fn law_join_push(items: Seq<Seq<char>>, sep: Seq<char>, x: Seq<char>)
    ensures
        join(items.push(x), sep) == if items.len() == 0 {
            x
        } else {
            join(items, sep) + sep + x
        },
{
    assert(items.push(x).drop_last() =~= items);
    assert(items.push(x).last() == x);
    if items.len() == 0 {
        assert(items.push(x)[0] == x);
    }
}

/// What a writer that puts `sep` after each item but the `n`-th has written
/// once it has written `items`.
pub open spec fn joined_prefix(items: Seq<Seq<char>>, sep: Seq<char>, n: nat) -> Seq<char> {
    if 0 < items.len() < n {
        join(items, sep) + sep
    } else {
        join(items, sep)
    }
}

/// Writing one more item, followed by `sep` unless it is the `n`-th, extends
/// the joined prefix.
pub proof fn lemma_joined_prefix_push(items: Seq<Seq<char>>, sep: Seq<char>, n: nat, x: Seq<char>)
    requires
        items.len() < n,
    ensures
        joined_prefix(items.push(x), sep, n) == joined_prefix(items, sep, n) + x + (if items.len()
            + 1 < n {
            sep
        } else {
            Seq::empty()
        }),
{
    assert(items.push(x).drop_last() =~= items);
    assert(items.push(x).last() == x);
    if items.len() == 0 {
        assert(join(items.push(x), sep) == x);
        assert(joined_prefix(items, sep, n) =~= Seq::<char>::empty());
    }
    assert(joined_prefix(items.push(x), sep, n) =~= joined_prefix(items, sep, n) + x + (if items.len()
        + 1 < n {
        sep
    } else {
        Seq::empty()
    }));
}

} // verus!
