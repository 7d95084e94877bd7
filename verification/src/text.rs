//! Text building blocks: decimal rendering of integers and joining of
//! strings, each specified over sequences of characters.

use vstd::prelude::*;

verus! {

/// The character of a decimal digit.
pub open spec fn digit_char(d: nat) -> char {
    if d == 0 { '0' }
    else if d == 1 { '1' }
    else if d == 2 { '2' }
    else if d == 3 { '3' }
    else if d == 4 { '4' }
    else if d == 5 { '5' }
    else if d == 6 { '6' }
    else if d == 7 { '7' }
    else if d == 8 { '8' }
    else { '9' }
}

/// The shortest decimal rendering of a natural number (no leading zeros).
pub open spec fn decimal(n: nat) -> Seq<char>
    decreases n,
{
    if n < 10 {
        seq![digit_char(n)]
    } else {
        decimal(n / 10).push(digit_char(n % 10))
    }
}

/// The decimal rendering of an integer, with a leading '-' when negative.
pub open spec fn signed_decimal(n: int) -> Seq<char> {
    if n < 0 {
        seq!['-'] + decimal((-n) as nat)
    } else {
        decimal(n as nat)
    }
}

/// The rendering that a width of two with zero padding gives: one leading
/// '0' for the numbers 0 to 9, the plain rendering otherwise.
pub open spec fn padded2(n: int) -> Seq<char> {
    if 0 <= n < 10 {
        seq!['0'] + decimal(n as nat)
    } else {
        signed_decimal(n)
    }
}

/// The number that a sequence of decimal digits denotes.
pub open spec fn decimal_value(s: Seq<char>) -> int
    decreases s.len(),
{
    if s.len() == 0 {
        0
    } else {
        decimal_value(s.drop_last()) * 10 + (s.last() as int - '0' as int)
    }
}

/// The number that a rendering with an optional leading '-' denotes.
pub open spec fn signed_decimal_value(s: Seq<char>) -> int {
    if s.len() > 0 && s[0] == '-' {
        -decimal_value(s.drop_first())
    } else {
        decimal_value(s)
    }
}

/// `c` is one of the characters '0' to '9'.
pub open spec fn is_digit(c: char) -> bool {
    '0' <= c <= '9'
}

/// The digit character of `d` denotes `d`.
proof fn lemma_digit_char_value(d: nat)
    requires
        d < 10,
    ensures
        digit_char(d) as int - '0' as int == d,
        is_digit(digit_char(d)),
{
}

/// The decimal rendering of `n` is a non-empty run of digits that
/// denotes `n`.
pub proof fn decimal_reads_back(n: nat)
    ensures
        decimal(n).len() >= 1,
        forall|i: int| 0 <= i < decimal(n).len() ==> is_digit(#[trigger] decimal(n)[i]),
        decimal_value(decimal(n)) == n,
    decreases n,
{
    lemma_digit_char_value(n % 10);
    if n < 10 {
        let d = decimal(n);
        assert(d.drop_last() =~= Seq::<char>::empty());
        assert(decimal_value(d) == decimal_value(d.drop_last()) * 10 + (d.last() as int - '0' as int));
    } else {
        decimal_reads_back(n / 10);
        let d = decimal(n);
        assert(d.drop_last() == decimal(n / 10));
        assert(decimal_value(d) == decimal_value(d.drop_last()) * 10 + (d.last() as int - '0' as int));
        assert forall|i: int| 0 <= i < d.len() implies is_digit(#[trigger] d[i]) by {
            if i < d.len() - 1 {
                assert(d[i] == decimal(n / 10)[i]);
            }
        }
    }
}

/// Different numbers have different decimal renderings.
pub proof fn decimal_is_injective(n: nat, m: nat)
    ensures
        decimal(n) == decimal(m) <==> n == m,
{
    decimal_reads_back(n);
    decimal_reads_back(m);
}

/// The signed rendering of `n` denotes `n`.
pub proof fn signed_decimal_reads_back(n: int)
    ensures
        signed_decimal_value(signed_decimal(n)) == n,
{
    if n < 0 {
        decimal_reads_back((-n) as nat);
        assert((seq!['-'] + decimal((-n) as nat)).drop_first() == decimal((-n) as nat));
    } else {
        decimal_reads_back(n as nat);
        assert(is_digit(decimal(n as nat)[0]));
    }
}

/// Different numbers have different signed renderings.
pub proof fn signed_decimal_is_injective(n: int, m: int)
    ensures
        signed_decimal(n) == signed_decimal(m) <==> n == m,
{
    signed_decimal_reads_back(n);
    signed_decimal_reads_back(m);
}

/// A middle part between the same prefix and suffix is determined by
/// the whole.
pub proof fn middle_is_determined(pre: Seq<char>, a: Seq<char>, b: Seq<char>, post: Seq<char>)
    ensures
        pre + a + post == pre + b + post <==> a == b,
{
    if pre + a + post == pre + b + post {
        assert((pre + a + post).len() == (pre + b + post).len());
        assert((pre + a + post).subrange(pre.len() as int, (pre.len() + a.len()) as int) =~= a);
        assert((pre + b + post).subrange(pre.len() as int, (pre.len() + b.len()) as int) =~= b);
    }
}

/// No rendering of a number holds a '.'.
pub proof fn signed_decimal_has_no_dot(n: int)
    ensures
        forall|i: int| 0 <= i < signed_decimal(n).len() ==> #[trigger] signed_decimal(n)[i] != '.',
        forall|i: int| 0 <= i < padded2(n).len() ==> #[trigger] padded2(n)[i] != '.',
{
    if n < 0 {
        decimal_reads_back((-n) as nat);
        let d = decimal((-n) as nat);
        assert forall|i: int| 0 <= i < signed_decimal(n).len() implies #[trigger] signed_decimal(n)[i] != '.' by {
            if i > 0 {
                assert(signed_decimal(n)[i] == d[i - 1]);
                assert(is_digit(d[i - 1]));
            }
        }
    } else {
        decimal_reads_back(n as nat);
        let d = decimal(n as nat);
        assert forall|i: int| 0 <= i < padded2(n).len() implies #[trigger] padded2(n)[i] != '.' by {
            if n < 10 && i > 0 {
                assert(padded2(n)[i] == d[i - 1]);
                assert(is_digit(d[i - 1]));
            } else if n >= 10 {
                assert(is_digit(d[i]));
            }
        }
        assert forall|i: int| 0 <= i < signed_decimal(n).len() implies #[trigger] signed_decimal(n)[i] != '.' by {
            assert(is_digit(d[i]));
        }
    }
}

/// The two-digit rendering of `n` denotes `n`.
pub proof fn padded2_reads_back(n: int)
    ensures
        signed_decimal_value(padded2(n)) == n,
{
    if 0 <= n < 10 {
        let d = decimal(n as nat);
        assert(d == seq![digit_char(n as nat)]);
        lemma_digit_char_value(n as nat);
        let p = seq!['0'] + d;
        assert(p.drop_last() =~= seq!['0']);
        assert(seq!['0'].drop_last() =~= Seq::<char>::empty());
        assert(decimal_value(Seq::<char>::empty()) == 0);
        assert(seq!['0'].last() == '0');
        assert(decimal_value(seq!['0']) == decimal_value(seq!['0'].drop_last()) * 10 + (seq![
            '0',
        ].last() as int - '0' as int));
        assert(decimal_value(seq!['0']) == 0);
        assert(p.last() == digit_char(n as nat));
        assert(decimal_value(p) == decimal_value(p.drop_last()) * 10 + (p.last() as int - '0' as int));
    } else {
        signed_decimal_reads_back(n);
    }
}

/// Where two texts are a part without '.', a '.', and a rest, the
/// parts and the rests are the same.
pub proof fn split_at_first_dot(a: Seq<char>, r1: Seq<char>, b: Seq<char>, r2: Seq<char>)
    requires
        forall|i: int| 0 <= i < a.len() ==> a[i] != '.',
        forall|i: int| 0 <= i < b.len() ==> b[i] != '.',
        a + seq!['.'] + r1 == b + seq!['.'] + r2,
    ensures
        a == b,
        r1 == r2,
{
    let x = a + seq!['.'] + r1;
    let y = b + seq!['.'] + r2;
    if a.len() < b.len() {
        assert(x[a.len() as int] == '.');
        assert(y[a.len() as int] == b[a.len() as int]);
    } else if b.len() < a.len() {
        assert(y[b.len() as int] == '.');
        assert(x[b.len() as int] == a[b.len() as int]);
    }
    assert(x.subrange(0, a.len() as int) =~= a);
    assert(y.subrange(0, b.len() as int) =~= b);
    assert(x.skip((a.len() + 1) as int) =~= r1);
    assert(y.skip((b.len() + 1) as int) =~= r2);
}

/// `parts` joined with `sep` between each two neighbours.
pub open spec fn joined(parts: Seq<Seq<char>>, sep: Seq<char>) -> Seq<char>
    decreases parts.len(),
{
    if parts.len() == 0 {
        Seq::empty()
    } else if parts.len() == 1 {
        parts[0]
    } else {
        joined(parts.drop_last(), sep) + sep + parts.last()
    }
}

/// Appends the character of the digit `d`.
fn push_digit(s: &mut String, d: u64)
    requires
        d < 10,
    ensures
        final(s)@ == old(s)@.push(digit_char(d as nat)),
{
    let lit: &str = if d == 0 {
        proof { reveal_strlit("0"); }
        "0"
    } else if d == 1 {
        proof { reveal_strlit("1"); }
        "1"
    } else if d == 2 {
        proof { reveal_strlit("2"); }
        "2"
    } else if d == 3 {
        proof { reveal_strlit("3"); }
        "3"
    } else if d == 4 {
        proof { reveal_strlit("4"); }
        "4"
    } else if d == 5 {
        proof { reveal_strlit("5"); }
        "5"
    } else if d == 6 {
        proof { reveal_strlit("6"); }
        "6"
    } else if d == 7 {
        proof { reveal_strlit("7"); }
        "7"
    } else if d == 8 {
        proof { reveal_strlit("8"); }
        "8"
    } else {
        proof { reveal_strlit("9"); }
        "9"
    };
    assert(lit@ == seq![digit_char(d as nat)]);
    s.append(lit);
}

/// Appends the decimal rendering of `n`.
pub fn push_decimal(s: &mut String, n: u64)
    ensures
        final(s)@ == old(s)@ + decimal(n as nat),
    decreases n,
{
    if n >= 10 {
        push_decimal(s, n / 10);
    }
    push_digit(s, n % 10);
    assert(final(s)@ == old(s)@ + decimal(n as nat)) by {
        if n < 10 {
            assert(old(s)@ + seq![digit_char(n as nat)] == old(s)@.push(digit_char(n as nat)));
        } else {
            assert(decimal(n as nat) == decimal((n / 10) as nat).push(digit_char((n % 10) as nat)));
        }
    }
}

/// Appends the decimal rendering of a signed integer.
pub fn push_signed_decimal(s: &mut String, n: i64)
    ensures
        final(s)@ == old(s)@ + signed_decimal(n as int),
{
    if n < 0 {
        proof { reveal_strlit("-"); }
        s.append("-");
        let m: u64 = if n == i64::MIN { 9223372036854775808u64 } else { (-n) as u64 };
        push_decimal(s, m);
        assert(final(s)@ == old(s)@ + signed_decimal(n as int)) by {
            assert(m as int == -(n as int));
        }
    } else {
        push_decimal(s, n as u64);
    }
}

/// Appends `n` as a width of two with zero padding renders it.
pub fn push_padded2(s: &mut String, n: i64)
    ensures
        final(s)@ == old(s)@ + padded2(n as int),
{
    if 0 <= n && n < 10 {
        proof { reveal_strlit("0"); }
        s.append("0");
        push_decimal(s, n as u64);
    } else {
        push_signed_decimal(s, n);
    }
}

/// The decimal rendering of an unsigned integer.
pub fn u64_to_decimal(n: u64) -> (s: String)
    ensures
        s@ == decimal(n as nat),
{
    let mut s = String::new();
    push_decimal(&mut s, n);
    assert(s@ == decimal(n as nat));
    s
}

/// All of `parts`, with `sep` between each two neighbours.
pub fn join_with(parts: &Vec<String>, sep: &str) -> (res: String)
    ensures
        res@ == joined(parts@.map_values(|p: String| p@), sep@),
{
    let ghost views = parts@.map_values(|p: String| p@);
    let mut res = String::new();
    let mut i: usize = 0;
    while i < parts.len()
        invariant
            i <= parts.len(),
            views == parts@.map_values(|p: String| p@),
            res@ == joined(views.take(i as int), sep@),
        decreases parts.len() - i,
    {
        if i != 0 {
            res.append(sep);
        }
        res.append(parts[i].as_str());
        assert(views.take(i + 1).drop_last() == views.take(i as int));
        assert(views.take(i + 1).last() == parts@[i as int]@);
        i = i + 1;
    }
    assert(views.take(parts.len() as int) == views);
    res
}

} // verus!
