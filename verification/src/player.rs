//! What the controller reads from a media player: the file behind the track
//! URL the player reports.

use vstd::prelude::*;
use vstd::utf8::{decode_utf8, valid_utf8};
use crate::text::{chars_of, string_from_chars};

verus! {

pub open spec fn is_hex_digit(c: char) -> bool {
    ('0' <= c && c <= '9') || ('a' <= c && c <= 'f') || ('A' <= c && c <= 'F')
}

pub open spec fn hex_value(c: char) -> int {
    if '0' <= c && c <= '9' {
        (c as int) - 48
    } else if 'a' <= c && c <= 'f' {
        (c as int) - 87
    } else {
        (c as int) - 55
    }
}

/// The byte two characters after a `%` stand for: two hexadecimal digits, or
/// a `+` sign and one digit (what `u8::from_str_radix` accepts in base 16).
pub open spec fn hex_pair(h1: char, h2: char) -> Option<u8> {
    if is_hex_digit(h1) && is_hex_digit(h2) {
        Some((16 * hex_value(h1) + hex_value(h2)) as u8)
    } else if h1 == '+' && is_hex_digit(h2) {
        Some(hex_value(h2) as u8)
    } else {
        None
    }
}

/// The low eight bits of a character's code (`c as u8`).
pub open spec fn low_byte(c: char) -> u8 {
    ((c as u32) % 256) as u8
}

/// The bytes of a percent-encoded text: each `%XX` is the byte it encodes,
/// every other character its low byte; `None` for a malformed escape.
pub open spec fn percent_bytes(s: Seq<char>) -> Option<Seq<u8>>
    decreases s.len(),
{
    if s.len() == 0 {
        Some(Seq::<u8>::empty())
    } else if s[0] == '%' {
        if s.len() < 3 {
            None
        } else {
            match hex_pair(s[1], s[2]) {
                Some(b) => match percent_bytes(s.skip(3)) {
                    Some(rest) => Some(seq![b] + rest),
                    None => None,
                },
                None => None,
            }
        }
    } else {
        match percent_bytes(s.drop_first()) {
            Some(rest) => Some(seq![low_byte(s[0])] + rest),
            None => None,
        }
    }
}

/// A percent-encoded text decoded, when its escapes are well formed and the
/// bytes are UTF-8.
pub open spec fn percent_decoded(s: Seq<char>) -> Option<Seq<char>> {
    match percent_bytes(s) {
        Some(b) => if valid_utf8(b) {
            Some(decode_utf8(b))
        } else {
            None
        },
        None => None,
    }
}

/// `String::from_utf8`: the text the bytes encode, when they are valid UTF-8.
#[verifier::external_body]
fn string_from_utf8(bytes: Vec<u8>) -> (r: Option<String>)
    ensures
        r is Some <==> valid_utf8(bytes@),
        r matches Some(s) ==> s@ == decode_utf8(bytes@),
{
    String::from_utf8(bytes).ok()
}

fn hex_digit(c: char) -> (r: Option<u8>)
    ensures
        r is Some <==> is_hex_digit(c),
        r matches Some(v) ==> v == hex_value(c) && v < 16,
{
    if '0' <= c && c <= '9' {
        Some((c as u32 - 48) as u8)
    } else if 'a' <= c && c <= 'f' {
        Some((c as u32 - 87) as u8)
    } else if 'A' <= c && c <= 'F' {
        Some((c as u32 - 55) as u8)
    } else {
        None
    }
}

fn parse_hex_pair(h1: char, h2: char) -> (r: Option<u8>)
    ensures
        r == hex_pair(h1, h2),
{
    match (hex_digit(h1), hex_digit(h2)) {
        (Some(a), Some(b)) => Some(16 * a + b),
        (None, Some(b)) => if h1 == '+' {
            Some(b)
        } else {
            None
        },
        _ => None,
    }
}

/// Decodes `%XX` escapes in a path taken from a `file://` URL.
pub fn percent_decode(s: &str) -> (r: Option<String>)
    ensures
        opt_chars(r) == percent_decoded(s@),
{
    let cs = chars_of(s);
    let n = cs.len();
    let mut bytes: Vec<u8> = Vec::new();
    let mut i: usize = 0;
    assert(cs@.skip(0) =~= cs@);
    while i < n
        invariant
            n == cs@.len(),
            cs@ == s@,
            i <= n,
            match percent_bytes(cs@.skip(i as int)) {
                Some(rest) => percent_bytes(cs@) == Some(bytes@ + rest),
                None => percent_bytes(cs@) is None,
            },
        decreases n - i,
    {
        let c = cs[i];
        let ghost tail = cs@.skip(i as int);
        assert(tail[0] == c);
        if c == '%' {
            if n - i < 3 {
                assert(tail.len() < 3);
                return None;
            }
            assert(tail[1] == cs@[i + 1] && tail[2] == cs@[i + 2]);
            assert(tail.skip(3) =~= cs@.skip(i + 3));
            match parse_hex_pair(cs[i + 1], cs[i + 2]) {
                Some(b) => {
                    proof {
                        assert(hex_pair(tail[1], tail[2]) == Some(b));
                        match percent_bytes(cs@.skip(i + 3)) {
                            Some(rest) => {
                                assert(bytes@.push(b) + rest =~= bytes@ + (seq![b] + rest));
                            },
                            None => {},
                        }
                    }
                    bytes.push(b);
                },
                None => {
                    return None;
                },
            }
            i = i + 3;
        } else {
            let code: u32 = c as u32;
            let b: u8 = (code % 256) as u8;
            assert(b == low_byte(c));
            assert(tail.drop_first() =~= cs@.skip(i + 1));
            proof {
                match percent_bytes(cs@.skip(i + 1)) {
                    Some(rest) => {
                        assert(bytes@.push(b) + rest =~= bytes@ + (seq![b] + rest));
                    },
                    None => {},
                }
            }
            bytes.push(b);
            i = i + 1;
        }
    }
    proof {
        assert(cs@.skip(i as int).len() == 0);
        assert(bytes@ + Seq::<u8>::empty() =~= bytes@);
    }
    string_from_utf8(bytes)
}

/// The text view of an optional `String`.
pub open spec fn opt_chars(o: Option<String>) -> Option<Seq<char>> {
    match o {
        Some(s) => Some(s@),
        None => None,
    }
}

/// The file a player's track URL names: a `file://` URL with its escapes
/// decoded (left as is when they do not decode), any other URL unchanged.
pub open spec fn url_source_path(url: Seq<char>) -> Seq<char> {
    if url.len() >= 7 && url.take(7) == "file://"@ {
        match percent_decoded(url.skip(7)) {
            Some(p) => p,
            None => url.skip(7),
        }
    } else {
        url
    }
}

/// The local path behind a track URL.
pub fn source_path_from_url(url: &str) -> (p: String)
    ensures
        p@ == url_source_path(url@),
{
    let cs = chars_of(url);
    let prefix = chars_of("file://");
    proof {
        reveal_strlit("file://");
    }
    let mut is_file = cs.len() >= 7;
    let mut k: usize = 0;
    while k < 7 && is_file
        invariant
            prefix@ == "file://"@,
            prefix@.len() == 7,
            k <= 7,
            is_file ==> cs@.len() >= 7 && forall|m: int| 0 <= m < k ==> cs@[m] == prefix@[m],
            !is_file ==> !(cs@.len() >= 7 && cs@.take(7) == "file://"@),
        decreases 7 - k,
    {
        if cs[k] != prefix[k] {
            is_file = false;
            assert(cs@.take(7)[k as int] == cs@[k as int]);
        }
        k = k + 1;
    }
    if !is_file {
        return String::from_str(url);
    }
    assert(cs@.take(7) =~= "file://"@);
    let mut rest: Vec<char> = Vec::new();
    let mut i: usize = 7;
    while i < cs.len()
        invariant
            7 <= i <= cs@.len(),
            rest@ == cs@.subrange(7, i as int),
        decreases cs.len() - i,
    {
        rest.push(cs[i]);
        i = i + 1;
        assert(rest@ =~= cs@.subrange(7, i as int));
    }
    assert(rest@ =~= cs@.skip(7));
    let stripped = string_from_chars(&rest);
    match percent_decode(stripped.as_str()) {
        Some(p) => p,
        None => stripped,
    }
}

} // verus!
