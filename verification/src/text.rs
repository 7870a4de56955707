//! Textual building blocks: decimal digits, zero padding, and lists joined by
//! commas.

use vstd::prelude::*;
use vstd::string::*;

verus! {

/// The character that stands for the decimal digit `d`.
pub open spec fn digit_char(d: nat) -> char
    recommends
        d < 10,
{
    if d == 0 {
        '0'
    } else if d == 1 {
        '1'
    } else if d == 2 {
        '2'
    } else if d == 3 {
        '3'
    } else if d == 4 {
        '4'
    } else if d == 5 {
        '5'
    } else if d == 6 {
        '6'
    } else if d == 7 {
        '7'
    } else if d == 8 {
        '8'
    } else {
        '9'
    }
}

/// The base-10 digits of `n`, most significant first, without leading zeros
/// (zero itself is the single digit `0`).
pub open spec fn decimal_digits(n: nat) -> Seq<char>
    decreases n,
{
    if n < 10 {
        seq![digit_char(n)]
    } else {
        decimal_digits(n / 10).push(digit_char(n % 10))
    }
}

/// The exact base-10 form of an integer: a minus sign for a negative number,
/// then the digits of its magnitude.
pub open spec fn decimal_text(n: int) -> Seq<char> {
    if n < 0 {
        seq!['-'] + decimal_digits((-n) as nat)
    } else {
        decimal_digits(n as nat)
    }
}

/// `count` zeros in a row.
pub open spec fn zeros(count: nat) -> Seq<char> {
    Seq::new(count, |i: int| '0')
}

/// The digits of `n`, with zeros put in front until there are at least `width`
/// characters. A number with more digits than `width` is left as it is.
pub open spec fn zero_padded(n: nat, width: nat) -> Seq<char> {
    let digits = decimal_digits(n);
    if digits.len() >= width {
        digits
    } else {
        zeros((width - digits.len()) as nat) + digits
    }
}

/// The parts in order, with a single comma between neighbours and nothing
/// around them. No part gives the empty text; one part gives that part.
pub open spec fn comma_joined(parts: Seq<Seq<char>>) -> Seq<char>
    decreases parts.len(),
{
    if parts.len() == 0 {
        Seq::empty()
    } else if parts.len() == 1 {
        parts[0]
    } else {
        comma_joined(parts.drop_last()) + seq![','] + parts.last()
    }
}

/// Ten to the power `k`.
pub open spec fn pow10(k: nat) -> nat
    decreases k,
{
    if k == 0 {
        1
    } else {
        10 * pow10((k - 1) as nat)
    }
}

/// A value that has a textual form.
pub trait Rendered {
    /// The textual form of the value.
    spec fn rendering(&self) -> Seq<char>;

    /// Appends the textual form of the value to `out`.
    fn render(&self, out: &mut String)
        ensures
            final(out)@ == old(out)@ + self.rendering(),
    ;
}

/// The textual forms of a list of values, in order.
pub open spec fn renderings<T: Rendered>(values: Seq<T>) -> Seq<Seq<char>> {
    values.map_values(|v: T| v.rendering())
}

fn digit_str(d: u32) -> (s: &'static str)
    requires
        d < 10,
    ensures
        s@ == seq![digit_char(d as nat)],
{
    proof {
        reveal_strlit("0");
        reveal_strlit("1");
        reveal_strlit("2");
        reveal_strlit("3");
        reveal_strlit("4");
        reveal_strlit("5");
        reveal_strlit("6");
        reveal_strlit("7");
        reveal_strlit("8");
        reveal_strlit("9");
    }
    let s: &'static str = if d == 0 {
        "0"
    } else if d == 1 {
        "1"
    } else if d == 2 {
        "2"
    } else if d == 3 {
        "3"
    } else if d == 4 {
        "4"
    } else if d == 5 {
        "5"
    } else if d == 6 {
        "6"
    } else if d == 7 {
        "7"
    } else if d == 8 {
        "8"
    } else {
        "9"
    };
    assert(s@ =~= seq![digit_char(d as nat)]);
    s
}

/// Appends the decimal digits of `n` to `out`.
pub fn push_decimal(out: &mut String, n: u32)
    ensures
        final(out)@ == old(out)@ + decimal_digits(n as nat),
    decreases n,
{
    if n >= 10 {
        push_decimal(out, n / 10);
    }
    out.append(digit_str(n % 10));
    assert(out@ =~= old(out)@ + decimal_digits(n as nat));
}

/// How many decimal digits `n` has.
pub fn digit_count(n: u32) -> (count: usize)
    ensures
        count == decimal_digits(n as nat).len(),
        1 <= count <= 10,
    decreases n,
{
    proof {
        reveal_with_fuel(pow10, 11);
        lemma_zero_padded_width(n as nat, 10);
    }
    if n >= 10 {
        digit_count(n / 10) + 1
    } else {
        1
    }
}

/// Appends `n` in decimal, with zeros in front up to `width` characters.
pub fn push_zero_padded(out: &mut String, n: u32, width: usize)
    ensures
        final(out)@ == old(out)@ + zero_padded(n as nat, width as nat),
{
    let count: usize = digit_count(n);
    let mut written: usize = count;
    while written < width
        invariant
            count <= written,
            written <= width || written == count,
            out@ == old(out)@ + zeros((written - count) as nat),
        decreases width - written,
    {
        proof {
            reveal_strlit("0");
        }
        out.append("0");
        assert(out@ =~= old(out)@ + zeros((written + 1 - count) as nat));
        written = written + 1;
    }
    push_decimal(out, n);
    assert(out@ =~= old(out)@ + zero_padded(n as nat, width as nat));
}

/// Appends the exact base-10 form of a signed number.
pub fn push_signed(out: &mut String, n: i32)
    ensures
        final(out)@ == old(out)@ + decimal_text(n as int),
{
    if n < 0 {
        proof {
            reveal_strlit("-");
        }
        out.append("-");
        let magnitude: u32 = (0 - (n as i64)) as u32;
        push_decimal(out, magnitude);
        assert(out@ =~= old(out)@ + decimal_text(n as int));
    } else {
        push_decimal(out, n as u32);
    }
}

/// Appends a comma if something was written before, so that the next part is
/// separated from the previous one.
pub fn push_separator(out: &mut String, index: usize)
    ensures
        final(out)@ == old(out)@ + (if index == 0 {
            Seq::<char>::empty()
        } else {
            seq![',']
        }),
{
    if index > 0 {
        proof {
            reveal_strlit(",");
        }
        out.append(",");
        assert(out@ =~= old(out)@ + seq![',']);
    } else {
        assert(out@ =~= old(out)@ + Seq::<char>::empty());
    }
}

/// Joining one more part: a comma goes before it unless it is the first.
pub proof fn lemma_join_next(parts: Seq<Seq<char>>, count: int)
    requires
        0 <= count < parts.len(),
    ensures
        comma_joined(parts.take(count + 1)) == comma_joined(parts.take(count)) + (if count == 0 {
            Seq::<char>::empty()
        } else {
            seq![',']
        }) + parts[count],
{
    let longer = parts.take(count + 1);
    assert(longer.drop_last() =~= parts.take(count));
    assert(longer.last() == parts[count]);
    if count == 0 {
        assert(comma_joined(parts.take(0)) =~= Seq::<char>::empty());
        assert(comma_joined(longer) =~= Seq::<char>::empty() + Seq::<char>::empty() + parts[0]);
    }
}

/// Renders each value and joins the texts with commas.
pub fn join_rendered<T: Rendered>(values: &Vec<T>) -> (joined: String)
    ensures
        joined@ == comma_joined(renderings(values@)),
{
    let mut joined = String::new();
    let ghost texts = renderings(values@);
    let mut index: usize = 0;
    while index < values.len()
        invariant
            index <= values.len(),
            texts == renderings(values@),
            joined@ == comma_joined(texts.take(index as int)),
        decreases values.len() - index,
    {
        proof {
            lemma_join_next(texts, index as int);
        }
        push_separator(&mut joined, index);
        values[index].render(&mut joined);
        index = index + 1;
    }
    assert(texts.take(index as int) =~= texts);
    joined
}

/// A string is its own textual form.
impl Rendered for String {
    open spec fn rendering(&self) -> Seq<char> {
        self@
    }

    fn render(&self, out: &mut String) {
        out.append(self.as_str());
    }
}

/// A signed number is rendered in exact base 10.
impl Rendered for i32 {
    open spec fn rendering(&self) -> Seq<char> {
        decimal_text(*self as int)
    }

    fn render(&self, out: &mut String) {
        push_signed(out, *self);
    }
}

/// An unsigned number is rendered in exact base 10.
impl Rendered for u16 {
    open spec fn rendering(&self) -> Seq<char> {
        decimal_text(*self as int)
    }

    fn render(&self, out: &mut String) {
        push_decimal(out, *self as u32);
    }
}

/// A number below ten to the power `width` has at most `width` digits, so
/// zero padding brings it to exactly `width` characters.
pub proof fn lemma_zero_padded_width(n: nat, width: nat)
    requires
        1 <= width,
        n < pow10(width),
    ensures
        decimal_digits(n).len() <= width,
        zero_padded(n, width).len() == width,
    decreases width,
{
    reveal_with_fuel(pow10, 2);
    if n >= 10 {
        assert(width >= 2);
        assert(pow10(width) == 10 * pow10((width - 1) as nat));
        assert(n / 10 < pow10((width - 1) as nat));
        lemma_zero_padded_width(n / 10, (width - 1) as nat);
    }
}

} // verus!
