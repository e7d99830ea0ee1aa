use vstd::prelude::*;
use vstd::string::StringExecFns;

verus! {

/// Strongly-typed vertex identifier.
#[derive(Clone, Copy, Debug, PartialEq, Eq, Structural, Hash)]
pub struct VertexId(pub u64);

/// Strongly-typed edge identifier.
#[derive(Clone, Copy, Debug, PartialEq, Eq, Structural, Hash)]
pub struct EdgeId(pub u64);

/// The edge identifier that marks the end of an adjacency list ("no edge").
pub const SENTINEL_EDGE_ID: u64 = 0xffff_ffff_ffff_ffff;

/// The character of a decimal digit.
pub open spec fn digit_char(d: nat) -> char {
    if d == 0 { '0' }
    else if d == 1 { '1' }
    else if d == 2 { '2' }
    else if d == 3 { '3' }
    else if d == 4 { '4' }
    else if d == 5 { '5' }
    else if d == 6 { '6' }
    else if d == 7 { '7' }
    else if d == 8 { '8' }
    else { '9' }
}

/// The decimal digits of `n`, most significant first, without leading zeros.
pub open spec fn decimal(n: nat) -> Seq<char>
    decreases n,
{
    if n < 10 {
        seq![digit_char(n)]
    } else {
        decimal(n / 10) + seq![digit_char(n % 10)]
    }
}

/// Whether a character is one of the ASCII digits `0` to `9`.
pub open spec fn is_digit(c: char) -> bool {
    '0' as int <= c as int <= '9' as int
}

/// The value of a digit character: its distance from `0`.
pub open spec fn digit_value(c: char) -> int {
    c as int - '0' as int
}

/// The number that a text of digits spells in base 10, read left to right:
/// each character multiplies what was read so far by ten and adds its value.
pub open spec fn base10_value(text: Seq<char>) -> int
    decreases text.len(),
{
    if text.len() == 0 {
        0
    } else {
        base10_value(text.drop_last()) * 10 + digit_value(text.last())
    }
}

/// `text` is the standard base-10 form of `n`: a non-empty text of digits
/// that spells `n`, with no leading zero (so `0` is written `0`).
pub open spec fn is_base10_text(text: Seq<char>, n: nat) -> bool {
    &&& text.len() > 0
    &&& forall|i: int| 0 <= i < text.len() ==> is_digit(#[trigger] text[i])
    &&& base10_value(text) == n
    &&& text[0] == '0' ==> text.len() == 1
}

/// The digits written for a number are its standard base-10 form: they spell
/// the number back, and only zero starts with the digit `0`.
pub proof fn lemma_decimal_is_base10(n: nat)
    ensures
        is_base10_text(decimal(n), n),
    decreases n,
{
    if n < 10 {
        assert(base10_value(decimal(n)) == base10_value(decimal(n).drop_last()) * 10 + digit_value(
            decimal(n).last(),
        ));
        assert(decimal(n).drop_last() =~= Seq::<char>::empty());
    } else {
        let high = decimal(n / 10);
        let low = digit_char(n % 10);
        lemma_decimal_is_base10(n / 10);
        let text = decimal(n);
        assert(text == high + seq![low]);
        assert(text.drop_last() =~= high);
        assert(text.last() == low);
        assert(text[0] == high[0]);
        if high[0] == '0' {
            assert(high.len() == 1);
            assert(high.drop_last() =~= Seq::<char>::empty());
            assert(base10_value(high) == base10_value(high.drop_last()) * 10 + digit_value(
                high.last(),
            ));
        }
        assert forall|i: int| 0 <= i < text.len() implies is_digit(#[trigger] text[i]) by {
            if i < high.len() {
                assert(text[i] == high[i]);
            }
        }
    }
}

/// The text of a digit.
fn digit_str(d: u64) -> (s: &'static str)
    requires
        d < 10,
    ensures
        s@ == seq![digit_char(d as nat)],
{
    proof {
        reveal_strlit("0");
        reveal_strlit("1");
        reveal_strlit("2");
        reveal_strlit("3");
        reveal_strlit("4");
        reveal_strlit("5");
        reveal_strlit("6");
        reveal_strlit("7");
        reveal_strlit("8");
        reveal_strlit("9");
    }
    if d == 0 {
        "0"
    } else if d == 1 {
        "1"
    } else if d == 2 {
        "2"
    } else if d == 3 {
        "3"
    } else if d == 4 {
        "4"
    } else if d == 5 {
        "5"
    } else if d == 6 {
        "6"
    } else if d == 7 {
        "7"
    } else if d == 8 {
        "8"
    } else {
        "9"
    }
}

/// Appends the decimal digits of `n`.
fn append_decimal(text: &mut String, n: u64)
    ensures
        final(text)@ == old(text)@ + decimal(n as nat),
    decreases n,
{
    if n >= 10 {
        append_decimal(text, n / 10);
    }
    text.append(digit_str(n % 10));
    assert(final(text)@ =~= old(text)@ + decimal(n as nat));
}

/// `prefix`, then the decimal digits of `n`, then `)`.
fn labelled_number(prefix: &str, n: u64) -> (s: String)
    ensures
        s@ == prefix@ + decimal(n as nat) + seq![')'],
{
    let mut text = String::new();
    text.append(prefix);
    append_decimal(&mut text, n);
    proof {
        reveal_strlit(")");
    }
    text.append(")");
    text
}

impl VertexId {
    /// The display form of the ID: `V(` then its decimal digits then `)`.
    pub fn to_text(&self) -> (s: String)
        ensures
            s@ == seq!['V', '('] + decimal(self.0 as nat) + seq![')'],
            s@.len() >= 3,
            s@[0] == 'V' && s@[1] == '(' && s@[s@.len() - 1] == ')',
            is_base10_text(s@.subrange(2, s@.len() - 1), self.0 as nat),
    {
        proof {
            reveal_strlit("V(");
        }
        let s = labelled_number("V(", self.0);
        proof {
            lemma_decimal_is_base10(self.0 as nat);
            assert(s@.subrange(2, s@.len() - 1) =~= decimal(self.0 as nat));
        }
        s
    }
}

impl EdgeId {
    /// The display form of the ID: `E(` then its decimal digits then `)`.
    pub fn to_text(&self) -> (s: String)
        ensures
            s@ == seq!['E', '('] + decimal(self.0 as nat) + seq![')'],
            s@.len() >= 3,
            s@[0] == 'E' && s@[1] == '(' && s@[s@.len() - 1] == ')',
            is_base10_text(s@.subrange(2, s@.len() - 1), self.0 as nat),
    {
        proof {
            reveal_strlit("E(");
        }
        let s = labelled_number("E(", self.0);
        proof {
            lemma_decimal_is_base10(self.0 as nat);
            assert(s@.subrange(2, s@.len() - 1) =~= decimal(self.0 as nat));
        }
        s
    }
}

} // verus!
