use vstd::prelude::*;

use crate::tlv::GTag;
use crate::tlv::Tag;

verus! {

/// The upper-case hex digit for a value below sixteen, as a one-character
/// string.
pub open spec fn spec_digit(v: nat) -> Seq<char>
    recommends
        v < 16,
{
    if v == 0 {
        "0"@
    } else if v == 1 {
        "1"@
    } else if v == 2 {
        "2"@
    } else if v == 3 {
        "3"@
    } else if v == 4 {
        "4"@
    } else if v == 5 {
        "5"@
    } else if v == 6 {
        "6"@
    } else if v == 7 {
        "7"@
    } else if v == 8 {
        "8"@
    } else if v == 9 {
        "9"@
    } else if v == 10 {
        "A"@
    } else if v == 11 {
        "B"@
    } else if v == 12 {
        "C"@
    } else if v == 13 {
        "D"@
    } else if v == 14 {
        "E"@
    } else {
        "F"@
    }
}

/// One byte as two upper-case hex digits.
pub open spec fn spec_hex_byte(b: u8) -> Seq<char> {
    spec_digit(b as nat / 16) + spec_digit(b as nat % 16)
}

/// Bytes as two-digit upper-case hex, separated by single spaces.
pub open spec fn spec_hex_join(bs: Seq<u8>) -> Seq<char>
    decreases bs.len(),
{
    if bs.len() == 0 {
        Seq::empty()
    } else if bs.len() == 1 {
        spec_hex_byte(bs[0])
    } else {
        spec_hex_byte(bs[0]) + " "@ + spec_hex_join(bs.drop_first())
    }
}

/// A non-negative integer in decimal, most significant digit first.
pub open spec fn spec_dec(n: nat) -> Seq<char>
    decreases n,
{
    if n < 10 {
        spec_digit(n)
    } else {
        spec_dec(n / 10) + spec_digit(n % 10)
    }
}

pub open spec fn spec_spaces(n: nat) -> Seq<char>
    decreases n,
{
    if n == 0 {
        Seq::empty()
    } else {
        " "@ + spec_spaces((n - 1) as nat)
    }
}

/// The line prefix: one two-space indentation unit per nesting level.
pub open spec fn spec_indent(n: nat) -> Seq<char>
    decreases n,
{
    if n == 0 {
        Seq::empty()
    } else {
        "  "@ + spec_indent((n - 1) as nat)
    }
}

/// `s` padded with trailing spaces to at least `w` characters.
pub open spec fn spec_pad_right(s: Seq<char>, w: nat) -> Seq<char> {
    if s.len() >= w {
        s
    } else {
        s + spec_spaces((w - s.len()) as nat)
    }
}

/// `s` padded with leading spaces to at least `w` characters.
pub open spec fn spec_pad_left(s: Seq<char>, w: nat) -> Seq<char> {
    if s.len() >= w {
        s
    } else {
        spec_spaces((w - s.len()) as nat) + s
    }
}

/// The one-line text form of a decoded tag: indentation by nesting level,
/// the identifier bytes in hex padded to five characters, the name, the
/// declared length padded to three characters, and the value bytes in hex.
pub open spec fn spec_render(t: GTag) -> Seq<char> {
    spec_indent(t.nest_level) + "  Id: "@ + spec_pad_right(spec_hex_join(t.id), 5) + " | "@
        + t.name + " | Len: "@ + spec_pad_left(spec_dec(t.length), 3) + " | Val: "@
        + spec_hex_join(t.value)
}

fn digit_str(v: usize) -> (r: &'static str)
    requires
        v < 16,
    ensures
        r@ == spec_digit(v as nat),
{
    if v == 0 {
        "0"
    } else if v == 1 {
        "1"
    } else if v == 2 {
        "2"
    } else if v == 3 {
        "3"
    } else if v == 4 {
        "4"
    } else if v == 5 {
        "5"
    } else if v == 6 {
        "6"
    } else if v == 7 {
        "7"
    } else if v == 8 {
        "8"
    } else if v == 9 {
        "9"
    } else if v == 10 {
        "A"
    } else if v == 11 {
        "B"
    } else if v == 12 {
        "C"
    } else if v == 13 {
        "D"
    } else if v == 14 {
        "E"
    } else {
        "F"
    }
}

/// Appending one more byte extends the joined hex text by a separator (on
/// a nonempty front) and the byte's two digits.
proof fn lemma_hex_join_push(bs: Seq<u8>, x: u8)
    ensures
        bs.len() == 0 ==> spec_hex_join(bs.push(x)) == spec_hex_byte(x),
        bs.len() > 0 ==> spec_hex_join(bs.push(x)) == spec_hex_join(bs) + " "@ + spec_hex_byte(x),
    decreases bs.len(),
{
    if bs.len() == 0 {
        assert(bs.push(x).len() == 1);
        assert(bs.push(x)[0] == x);
    } else {
        lemma_hex_join_push(bs.drop_first(), x);
        assert(bs.push(x).drop_first() =~= bs.drop_first().push(x));
        assert(bs.push(x)[0] == bs[0]);
        if bs.len() == 1 {
            assert(spec_hex_join(bs.push(x)) == spec_hex_byte(bs[0]) + " "@ + spec_hex_byte(x));
            assert(spec_hex_join(bs) == spec_hex_byte(bs[0]));
        } else {
            assert(spec_hex_byte(bs[0]) + " "@ + (spec_hex_join(bs.drop_first()) + " "@
                + spec_hex_byte(x)) =~= (spec_hex_byte(bs[0]) + " "@ + spec_hex_join(
                bs.drop_first(),
            )) + " "@ + spec_hex_byte(x));
        }
    }
}

proof fn lemma_spaces_snoc(n: nat)
    ensures
        spec_spaces(n + 1) == spec_spaces(n) + " "@,
    decreases n,
{
    if n == 0 {
        assert(" "@ + Seq::<char>::empty() =~= Seq::<char>::empty() + " "@);
    } else {
        lemma_spaces_snoc((n - 1) as nat);
        assert(" "@ + (spec_spaces((n - 1) as nat) + " "@) =~= (" "@ + spec_spaces(
            (n - 1) as nat,
        )) + " "@);
    }
}

proof fn lemma_indent_snoc(n: nat)
    ensures
        spec_indent(n + 1) == spec_indent(n) + "  "@,
    decreases n,
{
    if n == 0 {
        assert("  "@ + Seq::<char>::empty() =~= Seq::<char>::empty() + "  "@);
    } else {
        lemma_indent_snoc((n - 1) as nat);
        assert("  "@ + (spec_indent((n - 1) as nat) + "  "@) =~= ("  "@ + spec_indent(
            (n - 1) as nat,
        )) + "  "@);
    }
}

/// Appends one byte as two upper-case hex digits.
fn push_hex_byte(out: &mut String, b: u8)
    ensures
        final(out)@ == old(out)@ + spec_hex_byte(b),
{
    let hi = (b / 16) as usize;
    let lo = (b % 16) as usize;
    let ghost mid = out@;
    out.append(digit_str(hi));
    out.append(digit_str(lo));
    proof {
        assert(mid + spec_digit(hi as nat) + spec_digit(lo as nat) =~= mid + (spec_digit(
            hi as nat,
        ) + spec_digit(lo as nat)));
    }
}

/// The bytes of `bs` as space-separated two-digit upper-case hex.
#[verifier::loop_isolation(false)]
fn hex_join(bs: &Vec<u8>) -> (s: String)
    ensures
        s@ == spec_hex_join(bs@),
{
    let mut out = String::new();
    let mut i: usize = 0;
    proof {
        assert(bs@.subrange(0, 0) =~= Seq::<u8>::empty());
    }
    while i < bs.len()
        invariant
            i <= bs@.len(),
            out@ == spec_hex_join(bs@.subrange(0, i as int)),
        decreases bs@.len() - i,
    {
        let ghost prefix = bs@.subrange(0, i as int);
        if i > 0 {
            out.append(" ");
        }
        push_hex_byte(&mut out, bs[i]);
        proof {
            assert(bs@.subrange(0, i + 1) =~= prefix.push(bs@[i as int]));
            lemma_hex_join_push(prefix, bs@[i as int]);
            if i > 0 {
                assert(spec_hex_join(prefix) + " "@ + spec_hex_byte(bs@[i as int]) =~=
                    spec_hex_join(prefix) + (" "@ + spec_hex_byte(bs@[i as int])));
                assert(out@ =~= spec_hex_join(prefix) + " "@ + spec_hex_byte(bs@[i as int]));
            } else {
                assert(out@ =~= spec_hex_byte(bs@[i as int]));
            }
        }
        i += 1;
    }
    proof {
        assert(bs@.subrange(0, bs@.len() as int) =~= bs@);
    }
    out
}

/// A non-negative integer as decimal text.
fn dec_string(n: usize) -> (s: String)
    ensures
        s@ == spec_dec(n as nat),
    decreases n,
{
    if n < 10 {
        let mut s = String::new();
        s.append(digit_str(n));
        proof {
            assert(Seq::<char>::empty() + spec_digit(n as nat) =~= spec_digit(n as nat));
        }
        s
    } else {
        let mut s = dec_string(n / 10);
        s.append(digit_str(n % 10));
        s
    }
}

impl Tag {
    /// This tag as one line of text: indentation proportional to the
    /// nesting level, then the identifier in hex (padded to five
    /// characters), the name, the length (padded to three characters) and
    /// the value in hex.
    #[verifier::loop_isolation(false)]
    pub fn render(&self) -> (s: String)
        ensures
            s@ == spec_render(self@),
    {
        let mut out = String::new();
        let mut lvl: usize = 0;
        proof {
            assert(Seq::<char>::empty() =~= spec_indent(0));
        }
        while lvl < self.nest_level
            invariant
                lvl <= self.nest_level,
                out@ == spec_indent(lvl as nat),
            decreases self.nest_level - lvl,
        {
            out.append("  ");
            proof {
                lemma_indent_snoc(lvl as nat);
            }
            lvl += 1;
        }
        out.append("  Id: ");
        let idh = hex_join(&self.id);
        let idh_len = idh.as_str().unicode_len();
        out.append(idh.as_str());
        let ghost before_pad = out@;
        let mut p: usize = idh_len;
        while p < 5
            invariant
                idh_len <= p,
                p <= 5 || p == idh_len,
                out@ == before_pad + spec_spaces((p - idh_len) as nat),
            decreases 5 - p,
        {
            out.append(" ");
            proof {
                lemma_spaces_snoc((p - idh_len) as nat);
                assert(before_pad + (spec_spaces((p - idh_len) as nat) + " "@) =~= (before_pad
                    + spec_spaces((p - idh_len) as nat)) + " "@);
            }
            p += 1;
        }
        proof {
            assert(before_pad + spec_spaces(0) =~= before_pad);
            assert(out@ == before_pad + spec_spaces((p - idh_len) as nat));
            assert(idh@ + spec_spaces((p - idh_len) as nat) =~= spec_pad_right(idh@, 5));
        }
        out.append(" | ");
        out.append(self.name);
        out.append(" | Len: ");
        let dec = dec_string(self.length);
        let dec_len = dec.as_str().unicode_len();
        let ghost before_len_pad = out@;
        let mut q: usize = dec_len;
        while q < 3
            invariant
                dec_len <= q,
                q <= 3 || q == dec_len,
                out@ == before_len_pad + spec_spaces((q - dec_len) as nat),
            decreases 3 - q,
        {
            out.append(" ");
            proof {
                lemma_spaces_snoc((q - dec_len) as nat);
                assert(before_len_pad + (spec_spaces((q - dec_len) as nat) + " "@) =~= (
                before_len_pad + spec_spaces((q - dec_len) as nat)) + " "@);
            }
            q += 1;
        }
        proof {
            assert(before_len_pad + spec_spaces(0) =~= before_len_pad);
        }
        out.append(dec.as_str());
        proof {
            assert(spec_spaces((q - dec_len) as nat) + dec@ =~= spec_pad_left(dec@, 3));
        }
        out.append(" | Val: ");
        let vh = hex_join(&self.value);
        out.append(vh.as_str());
        proof {
            assert(out@ =~= spec_render(self@));
        }
        out
    }
}

} // verus!
