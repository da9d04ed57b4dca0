//! Standard base64 (RFC 4648 alphabet, with `=` padding), as the page uses it
//! to embed the font files.
use vstd::prelude::*;

verus! {

/// The base64 symbol of a 6-bit value: `A`-`Z`, `a`-`z`, `0`-`9`, `+`, `/`.
pub open spec fn b64_char(v: nat) -> char {
    if v < 26 {
        ('A' as nat + v) as char
    } else if v < 52 {
        ('a' as nat + (v - 26)) as char
    } else if v < 62 {
        ('0' as nat + (v - 52)) as char
    } else if v == 62 {
        '+'
    } else {
        '/'
    }
}

/// The 6-bit value of a base64 symbol.
pub open spec fn b64_value(c: char) -> nat {
    if 'A' <= c <= 'Z' {
        (c as nat - 'A' as nat) as nat
    } else if 'a' <= c <= 'z' {
        (c as nat - 'a' as nat + 26) as nat
    } else if '0' <= c <= '9' {
        (c as nat - '0' as nat + 52) as nat
    } else if c == '+' {
        62
    } else {
        63
    }
}

/// A character that standard base64 output may hold: a symbol or `=`.
pub open spec fn is_b64_output_char(c: char) -> bool {
    ||| 'A' <= c <= 'Z'
    ||| 'a' <= c <= 'z'
    ||| '0' <= c <= '9'
    ||| c == '+'
    ||| c == '/'
    ||| c == '='
}

/// The standard base64 encoding of `d`: each group of three bytes becomes
/// four symbols of six bits each, most significant first; a final group of
/// one or two bytes is padded with `=` to four characters.
pub open spec fn base64_standard(d: Seq<u8>) -> Seq<char>
    decreases d.len(),
{
    if d.len() == 0 {
        Seq::empty()
    } else if d.len() == 1 {
        seq![b64_char(d[0] as nat / 4), b64_char((d[0] as nat % 4) * 16), '=', '=']
    } else if d.len() == 2 {
        seq![
            b64_char(d[0] as nat / 4),
            b64_char((d[0] as nat % 4) * 16 + d[1] as nat / 16),
            b64_char((d[1] as nat % 16) * 4),
            '=',
        ]
    } else {
        seq![
            b64_char(d[0] as nat / 4),
            b64_char((d[0] as nat % 4) * 16 + d[1] as nat / 16),
            b64_char((d[1] as nat % 16) * 4 + d[2] as nat / 64),
            b64_char(d[2] as nat % 64),
        ] + base64_standard(d.skip(3))
    }
}

/// Decoding of well-formed standard base64: each group of four characters
/// gives three bytes, or fewer where `=` pads it.
pub open spec fn base64_decode(s: Seq<char>) -> Seq<u8>
    decreases s.len(),
{
    if s.len() < 4 {
        Seq::empty()
    } else {
        let v0 = b64_value(s[0]);
        let v1 = b64_value(s[1]);
        let v2 = b64_value(s[2]);
        let v3 = b64_value(s[3]);
        let b0 = ((v0 * 4 + v1 / 16) % 256) as u8;
        let b1 = (((v1 % 16) * 16 + v2 / 4) % 256) as u8;
        let b2 = (((v2 % 4) * 64 + v3) % 256) as u8;
        if s[2] == '=' {
            seq![b0]
        } else if s[3] == '=' {
            seq![b0, b1]
        } else {
            seq![b0, b1, b2] + base64_decode(s.skip(4))
        }
    }
}

proof fn lemma_value_of_char(v: nat)
    requires
        v < 64,
    ensures
        b64_value(b64_char(v)) == v,
        b64_char(v) != '=',
        is_b64_output_char(b64_char(v)),
{
}

/// Embedding is lossless: decoding the standard base64 text of some bytes
/// gives those bytes back.
pub proof fn law_base64_round_trip(d: Seq<u8>)
    ensures
        base64_decode(base64_standard(d)) == d,
    decreases d.len(),
{
    if d.len() == 0 {
    } else {
        let a = d[0] as nat;
        lemma_value_of_char(a / 4);
        lemma_value_of_char((a % 4) * 16);
        if d.len() == 1 {
            assert(base64_decode(base64_standard(d)) =~= d);
        } else {
            let b = d[1] as nat;
            lemma_value_of_char((a % 4) * 16 + b / 16);
            lemma_value_of_char((b % 16) * 4);
            if d.len() == 2 {
                assert(base64_decode(base64_standard(d)) =~= d);
            } else {
                let c = d[2] as nat;
                lemma_value_of_char((b % 16) * 4 + c / 64);
                lemma_value_of_char(c % 64);
                let e = base64_standard(d);
                let rest = base64_standard(d.skip(3));
                law_base64_round_trip(d.skip(3));
                assert(e.skip(4) =~= rest);
                assert(base64_decode(e) =~= seq![d[0], d[1], d[2]] + d.skip(3));
                assert(d =~= seq![d[0], d[1], d[2]] + d.skip(3));
            }
        }
    }
}

/// Standard base64 text holds only letters, digits, `+`, `/` and `=`; in
/// particular no `)`, so a data URI that embeds it ends at the next `)`.
pub proof fn law_base64_alphabet(d: Seq<u8>)
    ensures
        forall|i: int|
            0 <= i < base64_standard(d).len() ==> is_b64_output_char(
                #[trigger] base64_standard(d)[i],
            ),
        base64_standard(d).len() == 4 * ((d.len() + 2) / 3),
    decreases d.len(),
{
    if d.len() > 0 {
        let a = d[0] as nat;
        lemma_value_of_char(a / 4);
        lemma_value_of_char((a % 4) * 16);
        if d.len() >= 2 {
            let b = d[1] as nat;
            lemma_value_of_char((a % 4) * 16 + b / 16);
            lemma_value_of_char((b % 16) * 4);
            if d.len() >= 3 {
                let c = d[2] as nat;
                lemma_value_of_char((b % 16) * 4 + c / 64);
                lemma_value_of_char(c % 64);
                law_base64_alphabet(d.skip(3));
                let e = base64_standard(d);
                assert forall|i: int| 0 <= i < e.len() implies is_b64_output_char(
                    #[trigger] e[i],
                ) by {
                    if i >= 4 {
                        assert(e[i] == base64_standard(d.skip(3))[i - 4]);
                    }
                }
            }
        }
    }
}

} // verus!
