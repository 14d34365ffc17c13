//! The content transcoder: raw payload bytes to padded standard-alphabet
//! base64 text and back, with the proof that the text determines the bytes.

use vstd::prelude::*;

verus! {

/// The character that stands for a six-bit value in the standard alphabet.
pub open spec fn symbol(v: int) -> char {
    if v < 26 {
        (v + 65) as char
    } else if v < 52 {
        (v + 71) as char
    } else if v < 62 {
        (v - 4) as char
    } else if v == 62 {
        '+'
    } else {
        '/'
    }
}

/// The six-bit value that a character of the standard alphabet stands for.
pub open spec fn sextet(c: char) -> Option<int> {
    let code = c as int;
    if 65 <= code <= 90 {
        Some(code - 65)
    } else if 97 <= code <= 122 {
        Some(code - 71)
    } else if 48 <= code <= 57 {
        Some(code + 4)
    } else if c == '+' {
        Some(62int)
    } else if c == '/' {
        Some(63int)
    } else {
        None
    }
}

/// Padded base64 text of a byte sequence over the standard alphabet: four
/// symbols for every three bytes, and a last group filled up with `=`.
pub open spec fn standard_encoding(bytes: Seq<u8>) -> Seq<char>
    decreases bytes.len(),
{
    if bytes.len() == 0 {
        Seq::empty()
    } else if bytes.len() == 1 {
        let x = bytes[0] as int;
        seq![symbol(x / 4), symbol(x % 4 * 16), '=', '=']
    } else if bytes.len() == 2 {
        let x = bytes[0] as int;
        let y = bytes[1] as int;
        seq![symbol(x / 4), symbol(x % 4 * 16 + y / 16), symbol(y % 16 * 4), '=']
    } else {
        let x = bytes[0] as int;
        let y = bytes[1] as int;
        let z = bytes[2] as int;
        seq![
            symbol(x / 4),
            symbol(x % 4 * 16 + y / 16),
            symbol(y % 16 * 4 + z / 64),
            symbol(z % 64),
        ] + standard_encoding(bytes.skip(3))
    }
}

/// The bytes that a padded base64 text stands for, if it is well formed.
pub open spec fn standard_decoding(text: Seq<char>) -> Option<Seq<u8>>
    decreases text.len(),
{
    if text.len() == 0 {
        Some(Seq::empty())
    } else if text.len() < 4 {
        None
    } else {
        match (sextet(text[0]), sextet(text[1]), sextet(text[2]), sextet(text[3])) {
            (Some(a), Some(b), Some(c), Some(d)) => match standard_decoding(text.skip(4)) {
                Some(rest) => Some(
                    seq![
                        (a * 4 + b / 16) as u8,
                        (b % 16 * 16 + c / 4) as u8,
                        (c % 4 * 64 + d) as u8,
                    ] + rest,
                ),
                None => None,
            },
            (Some(a), Some(b), Some(c), None) => if text.len() == 4 && text[3] == '=' && c % 4
                == 0 {
                Some(seq![(a * 4 + b / 16) as u8, (b % 16 * 16 + c / 4) as u8])
            } else {
                None
            },
            (Some(a), Some(b), None, None) => if text.len() == 4 && text[2] == '=' && text[3]
                == '=' && b % 16 == 0 {
                Some(seq![(a * 4 + b / 16) as u8])
            } else {
                None
            },
            _ => None,
        }
    }
}

/// The length of the padded text of `len` bytes.
pub open spec fn encoded_len(len: nat) -> nat {
    4 * ((len + 2) / 3)
}

/// Whether the padded text of `len` bytes has a length that `usize` can hold.
pub open spec fn encodable(len: nat) -> bool {
    encoded_len(len) <= usize::MAX
}

/// Every six-bit value is found again from its symbol.
pub proof fn lemma_symbol_sextet(v: int)
    requires
        0 <= v < 64,
    ensures
        sextet(symbol(v)) == Some(v),
        symbol(v) != '=',
{
}

/// The padded text has four characters for every started group of three bytes.
pub proof fn lemma_encoding_len(bytes: Seq<u8>)
    ensures
        standard_encoding(bytes).len() == encoded_len(bytes.len()),
    decreases bytes.len(),
{
    if bytes.len() >= 3 {
        lemma_encoding_len(bytes.skip(3));
    }
}

/// Decoding the padded text of any byte sequence gives that sequence back.
pub proof fn lemma_decoding_inverts_encoding(bytes: Seq<u8>)
    ensures
        standard_decoding(standard_encoding(bytes)) == Some(bytes),
    decreases bytes.len(),
{
    let text = standard_encoding(bytes);
    if bytes.len() == 0 {
    } else if bytes.len() == 1 {
        let a = bytes[0] as int / 4;
        let b = bytes[0] as int % 4 * 16;
        lemma_symbol_sextet(a);
        lemma_symbol_sextet(b);
        assert(sextet('=') == None::<int>);
        assert(standard_decoding(text).unwrap() =~= bytes);
    } else if bytes.len() == 2 {
        let a = bytes[0] as int / 4;
        let b = bytes[0] as int % 4 * 16 + bytes[1] as int / 16;
        let c = bytes[1] as int % 16 * 4;
        lemma_symbol_sextet(a);
        lemma_symbol_sextet(b);
        lemma_symbol_sextet(c);
        assert(sextet('=') == None::<int>);
        assert(standard_decoding(text).unwrap() =~= bytes);
    } else {
        let a = bytes[0] as int / 4;
        let b = bytes[0] as int % 4 * 16 + bytes[1] as int / 16;
        let c = bytes[1] as int % 16 * 4 + bytes[2] as int / 64;
        let d = bytes[2] as int % 64;
        lemma_symbol_sextet(a);
        lemma_symbol_sextet(b);
        lemma_symbol_sextet(c);
        lemma_symbol_sextet(d);
        lemma_decoding_inverts_encoding(bytes.skip(3));
        assert(text.skip(4) =~= standard_encoding(bytes.skip(3)));
        assert(standard_decoding(text).unwrap() =~= bytes);
    }
}

/// Two byte sequences with the same padded text are the same sequence.
pub proof fn lemma_encoding_injective(first: Seq<u8>, second: Seq<u8>)
    requires
        standard_encoding(first) == standard_encoding(second),
    ensures
        first == second,
{
    lemma_decoding_inverts_encoding(first);
    lemma_decoding_inverts_encoding(second);
}

/// `base64::Engine::encode` on the `STANDARD` engine of
/// `base64::engine::general_purpose`: the result is the padded
/// standard-alphabet text of the input. The call panics where the text's
/// length does not fit in `usize`, which `requires` leaves out.
#[verifier::external_body]
fn standard_engine_encode(bytes: &[u8]) -> (text: String)
    requires
        encodable(bytes@.len()),
    ensures
        text@ == standard_encoding(bytes@),
{
    base64::Engine::encode(&base64::engine::general_purpose::STANDARD, bytes)
}

/// Turns a raw payload into its transport-safe text. The text has
/// `encoded_len` characters and decodes to exactly the payload.
pub fn encode(bytes: &[u8]) -> (text: String)
    requires
        encodable(bytes@.len()),
    ensures
        text@ == standard_encoding(bytes@),
        text@.len() == encoded_len(bytes@.len()),
        standard_decoding(text@) == Some(bytes@),
{
    let text = standard_engine_encode(bytes);
    proof {
        lemma_encoding_len(bytes@);
        lemma_decoding_inverts_encoding(bytes@);
    }
    text
}

/// A decoded tail behind the bytes decoded before it.
pub open spec fn behind(head: Seq<u8>, tail: Option<Seq<u8>>) -> Option<Seq<u8>> {
    match tail {
        Some(rest) => Some(head + rest),
        None => None,
    }
}

/// A text that decodes holds ASCII characters only.
pub proof fn lemma_decodable_is_ascii(text: Seq<char>)
    requires
        standard_decoding(text).is_some(),
    ensures
        forall|i: int| 0 <= i < text.len() ==> '\0' <= #[trigger] text[i] <= '\u{7f}',
    decreases text.len(),
{
    if text.len() >= 4 {
        let rest = text.skip(4);
        if sextet(text[3]).is_some() {
            lemma_decodable_is_ascii(rest);
        }
        assert forall|i: int| 0 <= i < text.len() implies '\0' <= #[trigger] text[i]
            <= '\u{7f}' by {
            if i >= 4 {
                assert(text[i] == rest[i - 4]);
            }
        }
    }
}

/// The six-bit value of a symbol given as its ASCII code.
fn sextet_of(code: u8) -> (value: Option<u8>)
    ensures
        match value {
            Some(v) => v < 64 && sextet(code as char) == Some(v as int),
            None => sextet(code as char).is_none(),
        },
{
    if 65 <= code && code <= 90 {
        Some(code - 65)
    } else if 97 <= code && code <= 122 {
        Some(code - 71)
    } else if 48 <= code && code <= 57 {
        Some(code + 4)
    } else if code == 43 {
        Some(62)
    } else if code == 47 {
        Some(63)
    } else {
        None
    }
}

/// Reads a padded standard-alphabet text back into the payload it stands
/// for; `None` where the text is not well formed.
pub fn decode(text: &str) -> (bytes: Option<Vec<u8>>)
    ensures
        match bytes {
            Some(payload) => standard_decoding(text@) == Some(payload@),
            None => standard_decoding(text@).is_none(),
        },
{
    if !text.is_ascii() {
        proof {
            if standard_decoding(text@).is_some() {
                lemma_decodable_is_ascii(text@);
            }
        }
        return None;
    }
    let symbols = text.as_bytes();
    proof {
        vstd::string::is_ascii_spec_bytes(text);
    }
    let n = symbols.len();
    let mut out: Vec<u8> = Vec::new();
    let mut i: usize = 0;
    assert(text@.skip(0) =~= text@);
    assert(behind(out@, standard_decoding(text@)) =~= standard_decoding(text@));
    while i < n
        invariant
            i <= n,
            n == symbols@.len(),
            n == text@.len(),
            forall|k: int| 0 <= k < n ==> (#[trigger] symbols@[k]) as char == text@[k],
            standard_decoding(text@) == behind(out@, standard_decoding(text@.skip(i as int))),
        decreases n - i,
    {
        let ghost rest = text@.skip(i as int);
        let ghost before = out@;
        if n - i < 4 {
            return None;
        }
        assert(rest[0] == text@[i as int] && rest[1] == text@[i + 1] && rest[2] == text@[i + 2]
            && rest[3] == text@[i + 3]);
        assert(rest.skip(4) =~= text@.skip(i + 4));
        let first = sextet_of(symbols[i]);
        let second = sextet_of(symbols[i + 1]);
        let third = sextet_of(symbols[i + 2]);
        let fourth = sextet_of(symbols[i + 3]);
        let last = i + 4 == n;
        match (first, second, third, fourth) {
            (Some(a), Some(b), Some(c), Some(d)) => {
                out.push(a * 4 + b / 16);
                out.push(b % 16 * 16 + c / 4);
                out.push(c % 4 * 64 + d);
                i += 4;
                proof {
                    let group = seq![
                        (a * 4 + b / 16) as u8,
                        (b % 16 * 16 + c / 4) as u8,
                        (c % 4 * 64 + d) as u8,
                    ];
                    assert(out@ =~= before + group);
                    match standard_decoding(text@.skip(i as int)) {
                        Some(tail) => {
                            assert(before + (group + tail) =~= out@ + tail);
                        },
                        None => {},
                    }
                }
            },
            (Some(a), Some(b), Some(c), None) => {
                if last && symbols[i + 3] == 61 && c % 4 == 0 {
                    out.push(a * 4 + b / 16);
                    out.push(b % 16 * 16 + c / 4);
                    assert(out@ =~= before + seq![
                        (a * 4 + b / 16) as u8,
                        (b % 16 * 16 + c / 4) as u8,
                    ]);
                    return Some(out);
                } else {
                    return None;
                }
            },
            (Some(a), Some(b), None, None) => {
                if last && symbols[i + 2] == 61 && symbols[i + 3] == 61 && b % 16 == 0 {
                    out.push(a * 4 + b / 16);
                    assert(out@ =~= before + seq![(a * 4 + b / 16) as u8]);
                    return Some(out);
                } else {
                    return None;
                }
            },
            _ => {
                return None;
            },
        }
    }
    assert(text@.skip(i as int) =~= Seq::empty());
    assert(out@ + Seq::<u8>::empty() =~= out@);
    Some(out)
}

} // verus!
