//! Building the XML and text answers the panel parses: attribute escaping
//! and decimal numbers.

use vstd::prelude::*;
use crate::text::chars_of;

verus! {

/// The escape of one character: `&`, `"` and `<` always, `>` when `gt`.
pub open spec fn escape_char(c: char, gt: bool) -> Seq<char> {
    if c == '&' {
        "&amp;"@
    } else if c == '"' {
        "&quot;"@
    } else if c == '<' {
        "&lt;"@
    } else if gt && c == '>' {
        "&gt;"@
    } else {
        seq![c]
    }
}

/// Every character of `s` escaped.
pub open spec fn escape(s: Seq<char>, gt: bool) -> Seq<char>
    decreases s.len(),
{
    if s.len() == 0 {
        Seq::empty()
    } else {
        escape(s.drop_last(), gt) + escape_char(s.last(), gt)
    }
}

/// Appends `s` XML-escaped to `out`: `&`, `"`, `<`, and `>` when `gt`.
pub fn push_escaped(out: &mut Vec<char>, s: &[char], gt: bool)
    ensures
        final(out)@ == old(out)@ + escape(s@, gt),
{
    let mut i: usize = 0;
    while i < s.len()
        invariant
            i <= s@.len(),
            out@ == old(out)@ + escape(s@.take(i as int), gt),
        decreases s@.len() - i,
    {
        proof {
            assert(s@.take(i + 1).drop_last() =~= s@.take(i as int));
        }
        let c = s[i];
        let ghost before = out@;
        if c == '&' {
            crate::text::push_str(out, "&amp;");
        } else if c == '"' {
            crate::text::push_str(out, "&quot;");
        } else if c == '<' {
            crate::text::push_str(out, "&lt;");
        } else if gt && c == '>' {
            crate::text::push_str(out, "&gt;");
        } else {
            out.push(c);
        }
        i = i + 1;
        proof {
            assert(out@ =~= old(out)@ + escape(s@.take(i as int), gt));
        }
    }
    assert(s@.take(s@.len() as int) =~= s@);
}

/// XML escape of a string: `&`, `"`, `<`, and `>` when `gt`.
pub fn escape_str(s: &str, gt: bool) -> (r: String)
    ensures
        r@ == escape(s@, gt),
{
    let c = chars_of(s);
    let mut out: Vec<char> = Vec::new();
    push_escaped(&mut out, &c, gt);
    crate::text::string_of(&out)
}

/// The decimal digits of a natural number.
pub open spec fn digits(n: nat) -> Seq<char>
    decreases n,
{
    if n < 10 {
        seq![(48 + n) as char]
    } else {
        digits(n / 10) + seq![(48 + n % 10) as char]
    }
}

/// An integer in decimal, `-` before a negative one (`Display` for integers).
pub open spec fn decimal(n: int) -> Seq<char> {
    if n < 0 {
        seq!['-'] + digits((-n) as nat)
    } else {
        digits(n as nat)
    }
}

/// Appends the decimal digits of `n`.
pub fn push_digits(out: &mut Vec<char>, n: u128)
    ensures
        final(out)@ == old(out)@ + digits(n as nat),
    decreases n,
{
    if n >= 10 {
        push_digits(out, n / 10);
    }
    out.push(((48 + (n % 10)) as u8) as char);
    proof {
        if n >= 10 {
            assert(final(out)@ =~= old(out)@ + digits(n as nat)) by {
                assert(digits(n as nat) == digits((n / 10) as nat) + seq![(48 + n % 10) as char]);
            }
        } else {
            assert(digits(n as nat) == seq![(48 + n) as char]);
            assert(n % 10 == n);
        }
    }
}

/// Appends `n` in decimal.
pub fn push_decimal(out: &mut Vec<char>, n: i64)
    ensures
        final(out)@ == old(out)@ + decimal(n as int),
{
    if n < 0 {
        out.push('-');
        let m: i128 = -(n as i128);
        push_digits(out, m as u128);
    } else {
        push_digits(out, n as u128);
    }
}

} // verus!
