//! The query string of a URL, and the check that a serialised request is a
//! well-formed URL.

use vstd::prelude::*;
use vstd::string::*;
use vstd::utf8::{encode_utf8, is_ascii_chars, is_ascii_chars_encode_utf8};
use crate::error::QuandlError;
use crate::quandl_request::pair_views;
use crate::text::digit_char;

verus! {

/// Whether a byte stands for itself in a query string: the letters and
/// digits of ASCII and `-`, `.`, `_`, `~`.
pub open spec fn is_unreserved(b: u8) -> bool {
    (48 <= b <= 57) || (65 <= b <= 90) || (97 <= b <= 122) || b == 45 || b == 46 || b == 95 || b
        == 126
}

/// The character that stands for the hexadecimal digit `d`, in upper case.
pub open spec fn hex_char(d: nat) -> char {
    if d < 10 {
        digit_char(d)
    } else if d == 10 {
        'A'
    } else if d == 11 {
        'B'
    } else if d == 12 {
        'C'
    } else if d == 13 {
        'D'
    } else if d == 14 {
        'E'
    } else {
        'F'
    }
}

/// One byte as it stands in a query string: itself where it is unreserved,
/// else `%` and its two hexadecimal digits.
pub open spec fn encoded_byte(b: u8) -> Seq<char> {
    if is_unreserved(b) {
        seq![b as char]
    } else {
        seq!['%', hex_char((b / 16) as nat), hex_char((b % 16) as nat)]
    }
}

/// The bytes as they stand in a query string, one after the other.
pub open spec fn encoded_bytes(bytes: Seq<u8>) -> Seq<char>
    decreases bytes.len(),
{
    if bytes.len() == 0 {
        Seq::empty()
    } else {
        encoded_bytes(bytes.drop_last()) + encoded_byte(bytes.last())
    }
}

/// A value as it stands in a query string: the bytes of its UTF-8 form,
/// percent-encoded.
pub open spec fn percent_encoded(value: Seq<char>) -> Seq<char> {
    encoded_bytes(encode_utf8(value))
}

/// Whether a character is an unreserved one.
pub open spec fn is_unreserved_char(c: char) -> bool {
    ('0' <= c <= '9') || ('A' <= c <= 'Z') || ('a' <= c <= 'z') || c == '-' || c == '.' || c == '_'
        || c == '~'
}

/// Whether a text holds unreserved characters only.
pub open spec fn is_plain(value: Seq<char>) -> bool {
    forall|i: int| 0 <= i < value.len() ==> is_unreserved_char(#[trigger] value[i])
}

/// A text of unreserved characters stands in a query string as it is.
pub proof fn lemma_plain_text_unchanged(value: Seq<char>)
    requires
        is_plain(value),
    ensures
        percent_encoded(value) == value,
{
    assert(is_ascii_chars(value));
    is_ascii_chars_encode_utf8(value);
    let bytes = encode_utf8(value);
    lemma_plain_prefix_unchanged(value, bytes, value.len() as int);
    assert(bytes.subrange(0, bytes.len() as int) =~= bytes);
    assert(value.subrange(0, value.len() as int) =~= value);
}

/// The first `n` bytes of a text of unreserved characters stand in a query
/// string as the first `n` characters.
proof fn lemma_plain_prefix_unchanged(value: Seq<char>, bytes: Seq<u8>, n: int)
    requires
        is_plain(value),
        bytes.len() == value.len(),
        forall|i: int| 0 <= i < value.len() ==> value[i] as u8 == #[trigger] bytes[i],
        0 <= n <= value.len(),
    ensures
        encoded_bytes(bytes.subrange(0, n)) == value.subrange(0, n),
    decreases n,
{
    if n == 0 {
        assert(encoded_bytes(bytes.subrange(0, 0)) =~= value.subrange(0, 0));
    } else {
        lemma_plain_prefix_unchanged(value, bytes, n - 1);
        let c = value[n - 1];
        let b = bytes[n - 1];
        assert(is_unreserved_char(c));
        assert(c as u8 == b);
        assert(is_unreserved(b) && b as char == c);
        assert(bytes.subrange(0, n).drop_last() =~= bytes.subrange(0, n - 1));
        assert(bytes.subrange(0, n).last() == b);
        assert(encoded_bytes(bytes.subrange(0, n)) =~= value.subrange(0, n - 1).push(c));
        assert(value.subrange(0, n - 1).push(c) =~= value.subrange(0, n));
    }
}

/// One pair as it stands in a query string: the key, `=`, and the value
/// percent-encoded.
pub open spec fn pair_text(pair: (Seq<char>, Seq<char>)) -> Seq<char> {
    pair.0 + seq!['='] + percent_encoded(pair.1)
}

/// `String::push` of std appends the character to the end of the string.
pub assume_specification[ String::push ](s: &mut String, ch: char)
    ensures
        final(s)@ == old(s)@.push(ch),
;

/// The character that stands for the hexadecimal digit `d`, in upper case.
fn hex_digit(d: u8) -> (c: char)
    requires
        d < 16,
    ensures
        c == hex_char(d as nat),
{
    match d {
        0 => '0',
        1 => '1',
        2 => '2',
        3 => '3',
        4 => '4',
        5 => '5',
        6 => '6',
        7 => '7',
        8 => '8',
        9 => '9',
        10 => 'A',
        11 => 'B',
        12 => 'C',
        13 => 'D',
        14 => 'E',
        _ => 'F',
    }
}

/// Appends `value` to `out` as it stands in a query string: each byte of its
/// UTF-8 form that is not unreserved as `%` and two hexadecimal digits.
pub fn push_encoded(out: &mut String, value: &str)
    ensures
        final(out)@ == old(out)@ + percent_encoded(value@),
{
    let bytes = value.as_bytes();
    let mut i: usize = 0;
    assert(encoded_bytes(bytes@.subrange(0, 0)) =~= Seq::<char>::empty());
    while i < bytes.len()
        invariant
            i <= bytes.len(),
            bytes@ == encode_utf8(value@),
            out@ == old(out)@ + encoded_bytes(bytes@.subrange(0, i as int)),
        decreases bytes.len() - i,
    {
        let b: u8 = bytes[i];
        let ghost before = out@;
        assert(bytes@.subrange(0, i + 1).drop_last() =~= bytes@.subrange(0, i as int));
        assert(bytes@.subrange(0, i + 1).last() == b);
        if (48 <= b && b <= 57) || (65 <= b && b <= 90) || (97 <= b && b <= 122) || b == 45 || b
            == 46 || b == 95 || b == 126 {
            out.push(b as char);
        } else {
            out.push('%');
            out.push(hex_digit(b / 16));
            out.push(hex_digit(b % 16));
        }
        assert(out@ =~= before + encoded_byte(b));
        i += 1;
    }
    assert(bytes@.subrange(0, i as int) =~= bytes@);
}

/// The pairs in their order, with `&` between one and the next.
pub open spec fn join_pairs(pairs: Seq<(Seq<char>, Seq<char>)>) -> Seq<char>
    decreases pairs.len(),
{
    if pairs.len() == 0 {
        Seq::empty()
    } else if pairs.len() == 1 {
        pair_text(pairs[0])
    } else {
        join_pairs(pairs.drop_last()) + seq!['&'] + pair_text(pairs.last())
    }
}

/// What the pairs add to a URL: nothing where there is no pair, else `?` and
/// the pairs.
pub open spec fn query_suffix(pairs: Seq<(Seq<char>, Seq<char>)>) -> Seq<char> {
    if pairs.len() == 0 {
        Seq::empty()
    } else {
        seq!['?'] + join_pairs(pairs)
    }
}

/// Appends to `out` what the pairs of `query` add to a URL.
pub fn push_query(out: &mut String, query: &Vec<(&str, String)>)
    ensures
        final(out)@ == old(out)@ + query_suffix(pair_views(query@)),
{
    proof {
        reveal_strlit("?");
    }
    let ghost pairs = pair_views(query@);
    if query.len() == 0 {
        assert(final(out)@ =~= old(out)@ + query_suffix(pairs));
        return ;
    }
    out.append("?");
    let mut i: usize = 0;
    while i < query.len()
        invariant
            i <= query.len(),
            pairs == pair_views(query@),
            pairs.len() == query.len(),
            out@ == old(out)@ + seq!['?'] + join_pairs(pairs.subrange(0, i as int)),
        decreases query.len() - i,
    {
        let ghost done = pairs.subrange(0, i as int);
        let ghost next = pairs.subrange(0, i + 1);
        assert(next.drop_last() =~= done);
        assert(next.last() == pairs[i as int]);
        let ghost before = out@;
        proof {
            reveal_strlit("&");
            reveal_strlit("=");
        }
        if i > 0 {
            out.append("&");
        }
        out.append(query[i].0);
        out.append("=");
        push_encoded(out, query[i].1.as_str());
        assert(out@ =~= old(out)@ + seq!['?'] + join_pairs(next)) by {
            let pair = pairs[i as int];
            assert(pair == (query@[i as int].0@, query@[i as int].1@));
            if i == 0 {
                assert(done.len() == 0);
                assert(next.len() == 1);
                assert(next[0] == pair);
                assert(join_pairs(done) =~= Seq::<char>::empty());
                assert(join_pairs(next) == pair_text(pair));
                assert(out@ =~= before + pair_text(pair));
            } else {
                assert(next.len() == i + 1);
                assert(join_pairs(next) == join_pairs(done) + seq!['&'] + pair_text(pair));
                assert(out@ =~= before + seq!['&'] + pair_text(pair));
            }
        }
        i += 1;
    }
    assert(pairs.subrange(0, i as int) =~= pairs);
}

/// The text in which the URL parser hands back the URL that it reads from
/// `s`; `None` where it reads no absolute URL from `s`.
pub uninterp spec fn url_text(s: Seq<char>) -> Option<Seq<char>>;

/// Calls `Url::parse` of the url crate and turns the URL that it read back
/// into a string with `Into<String>`, which hands out the URL's stored
/// serialisation. The contract claims only that the outcome depends on the
/// characters of `text` alone.
#[verifier::external_body]
fn parse_url(text: &str) -> (r: Result<String, url::ParseError>)
    ensures
        match r {
            Ok(parsed) => url_text(text@) == Some(parsed@),
            Err(_) => url_text(text@).is_none(),
        },
{
    let parsed = url::Url::parse(text)?;
    Ok(parsed.into())
}

/// The URL that `text` spells, as the URL parser writes it; a URL error
/// where `text` spells none.
pub fn checked_url(text: &str) -> (r: Result<String, QuandlError>)
    ensures
        match url_text(text@) {
            Some(parsed) => r matches Ok(url) && url@ == parsed,
            None => r matches Err(QuandlError::Url(_)),
        },
{
    match parse_url(text) {
        Ok(url) => Ok(url),
        Err(e) => Err(QuandlError::Url(e)),
    }
}

} // verus!
