//! Percent-encoding, and the query strings made of it.

use vstd::prelude::*;
use vstd::string::*;
use vstd::utf8::*;

use crate::text;

verus! {

/// The bytes that stand for themselves in a request target.
pub open spec fn unreserved(byte: u8) -> bool {
    48 <= byte <= 57 || 65 <= byte <= 90 || 97 <= byte <= 122 || byte == 45 || byte == 46 || byte
        == 95 || byte == 126
}

/// A hexadecimal digit, in capitals.
pub open spec fn hex_digit(d: int) -> char {
    (if d < 10 {
        48 + d
    } else {
        55 + d
    }) as u8 as char
}

/// One byte as it travels: itself when it is unreserved, and its escape otherwise.
pub open spec fn escape(byte: u8) -> Seq<char> {
    if unreserved(byte) {
        seq![byte as char]
    } else {
        seq!['%', hex_digit(byte as int / 16), hex_digit(byte as int % 16)]
    }
}

/// Some bytes as they travel, each on its own.
pub open spec fn percent(bytes: Seq<u8>) -> Seq<char>
    decreases bytes.len(),
{
    if bytes.len() == 0 {
        seq![]
    } else {
        escape(bytes[0]) + percent(bytes.skip(1))
    }
}

/// A value percent-encoded over its UTF-8 spelling.
pub open spec fn percent_encoded(value: Seq<char>) -> Seq<char> {
    percent(encode_utf8(value))
}

fn hex_char(d: u8) -> (c: char)
    requires
        d < 16,
    ensures
        c == hex_digit(d as int),
{
    if d < 10 {
        (48 + d) as char
    } else {
        (55 + d) as char
    }
}

/// Percent-encodes one value for a path segment or a query parameter.
///
/// Everything outside the unreserved set, which is stricter than either position needs and is what
/// makes one function right for both: a value carrying a space, a newline or a `?` cannot reshape
/// the target it is a value in.
pub fn encoded(value: &str) -> (out: String)
    ensures
        out@ == percent_encoded(value@),
{
    let bytes = value.as_bytes();
    let mut out = String::new();
    let mut i: usize = 0;
    assert(bytes@.skip(0) =~= bytes@);
    assert(out@ + percent(bytes@) =~= percent(bytes@));
    while i < bytes.len()
        invariant
            i <= bytes@.len(),
            bytes@ == encode_utf8(value@),
            out@ + percent(bytes@.skip(i as int)) == percent(bytes@),
        decreases bytes@.len() - i,
    {
        let ghost before = out@;
        let byte: u8 = bytes[i];
        if (48 <= byte && byte <= 57) || (65 <= byte && byte <= 90) || (97 <= byte && byte <= 122)
            || byte == 45 || byte == 46 || byte == 95 || byte == 126 {
            out.push(byte as char);
        } else {
            out.push('%');
            out.push(hex_char(byte / 16));
            out.push(hex_char(byte % 16));
        }
        proof {
            assert(out@ =~= before + escape(byte));
            assert(bytes@.skip(i as int)[0] == byte);
            assert(bytes@.skip(i as int).skip(1) =~= bytes@.skip(i + 1));
            assert(out@ + percent(bytes@.skip(i + 1)) =~= before + (escape(byte) + percent(
                bytes@.skip(i + 1),
            )));
        }
        i += 1;
    }
    assert(percent(bytes@.skip(i as int)) =~= seq![]);
    assert(out@ =~= percent(bytes@));
    out
}

/// The value of a hexadecimal digit in capitals.
pub open spec fn hex_value(c: char) -> int {
    if '0' <= c <= '9' {
        c as int - 48
    } else {
        c as int - 55
    }
}

/// What the other end reads out of an encoded value.
pub open spec fn unescape(s: Seq<char>) -> Seq<u8>
    decreases s.len(),
{
    if s.len() == 0 {
        seq![]
    } else if s[0] == '%' && s.len() >= 3 {
        seq![(hex_value(s[1]) * 16 + hex_value(s[2])) as u8] + unescape(s.skip(3))
    } else {
        seq![s[0] as u8] + unescape(s.skip(1))
    }
}

proof fn lemma_unescape(bytes: Seq<u8>)
    ensures
        unescape(percent(bytes)) == bytes,
    decreases bytes.len(),
{
    if bytes.len() > 0 {
        lemma_unescape(bytes.skip(1));
        let rest = percent(bytes.skip(1));
        let all = percent(bytes);
        let b = bytes[0];
        if unreserved(b) {
            assert(all.skip(1) =~= rest);
            assert(all[0] == b as char);
        } else {
            assert(all.skip(3) =~= rest);
            assert(all[1] == hex_digit(b as int / 16));
            assert(all[2] == hex_digit(b as int % 16));
            assert(hex_value(hex_digit(b as int / 16)) == b as int / 16);
            assert(hex_value(hex_digit(b as int % 16)) == b as int % 16);
            assert((b as int / 16) * 16 + b as int % 16 == b as int);
        }
        assert(seq![b] + bytes.skip(1) =~= bytes);
    } else {
        assert(bytes =~= seq![]);
    }
}

/// An encoded value reads back as the value it was made of, so two values never travel alike.
pub proof fn law_encoding_is_reversible(value: Seq<char>)
    ensures
        decode_utf8(unescape(percent_encoded(value))) == value,
{
    lemma_unescape(encode_utf8(value));
    encode_utf8_decode_utf8(value);
}

/// A character that cannot end a request line, a path segment or a parameter.
pub open spec fn inert(c: char) -> bool {
    '0' <= c <= '9' || 'A' <= c <= 'Z' || 'a' <= c <= 'z' || c == '-' || c == '.' || c == '_' || c
        == '~' || c == '%'
}

proof fn lemma_percent_is_inert(bytes: Seq<u8>)
    ensures
        forall|i: int| 0 <= i < percent(bytes).len() ==> inert(#[trigger] percent(bytes)[i]),
    decreases bytes.len(),
{
    if bytes.len() > 0 {
        lemma_percent_is_inert(bytes.skip(1));
        let head = escape(bytes[0]);
        let rest = percent(bytes.skip(1));
        assert forall|i: int| 0 <= i < percent(bytes).len() implies inert(
            #[trigger] percent(bytes)[i],
        ) by {
            if i < head.len() {
                assert(percent(bytes)[i] == head[i]);
            } else {
                assert(percent(bytes)[i] == rest[i - head.len()]);
            }
        }
    }
}

/// Letters, digits and the four marks that need no escape stand for themselves; every other byte is
/// escaped, as a percent sign and two digits.
pub proof fn law_only_what_needs_escaping_is_escaped(byte: u8)
    ensures
        escape(byte).len() == 1 || escape(byte).len() == 3,
        escape(byte).len() == 1 <==> ('0' as u8 <= byte <= '9' as u8 || 'A' as u8 <= byte <= 'Z' as u8
            || 'a' as u8 <= byte <= 'z' as u8 || byte == '-' as u8 || byte == '.' as u8 || byte
            == '_' as u8 || byte == '~' as u8),
        escape(byte).len() == 1 ==> escape(byte)[0] as int == byte,
        escape(byte).len() == 3 ==> {
            &&& escape(byte)[0] == '%'
            &&& forall|i: int|
                1 <= i < 3 ==> ('0' <= #[trigger] escape(byte)[i] <= '9' || 'A' <= escape(byte)[i]
                    <= 'F')
            &&& hex_value(escape(byte)[1]) * 16 + hex_value(escape(byte)[2]) == byte
        },
{
    let high = byte as int / 16;
    let low = byte as int % 16;
    assert(0 <= high < 16 && 0 <= low < 16 && high * 16 + low == byte);
}

/// Whatever a value holds, its encoding holds unreserved characters and escapes and nothing else.
pub proof fn law_encoding_is_inert(value: Seq<char>)
    ensures
        forall|i: int|
            0 <= i < percent_encoded(value).len() ==> inert(#[trigger] percent_encoded(value)[i]),
{
    lemma_percent_is_inert(encode_utf8(value));
}

/// One query string, built from the flags that were actually given.
pub struct Params {
    pairs: Vec<String>,
}

impl View for Params {
    type V = Seq<Seq<char>>;

    closed spec fn view(&self) -> Seq<Seq<char>> {
        text::texts(self.pairs@)
    }
}

/// One parameter as it travels.
pub open spec fn parameter(name: Seq<char>, value: Seq<char>) -> Seq<char> {
    name + "="@ + percent_encoded(value)
}

/// The parameters once one more was offered: it joins them when it has a value.
pub open spec fn offered(
    params: Seq<Seq<char>>,
    name: Seq<char>,
    value: Option<Seq<char>>,
) -> Seq<Seq<char>> {
    match value {
        Some(value) => params.push(parameter(name, value)),
        None => params,
    }
}

/// The query string of some parameters, empty when there is none.
pub open spec fn query_string(params: Seq<Seq<char>>) -> Seq<char> {
    if params.len() == 0 {
        seq![]
    } else {
        "?"@ + text::join(params, "&"@)
    }
}

impl Params {
    /// No parameter yet.
    pub fn new() -> (params: Params)
        ensures
            params@ == Seq::<Seq<char>>::empty(),
    {
        let params = Params { pairs: Vec::new() };
        assert(params@ =~= Seq::<Seq<char>>::empty());
        params
    }

    /// Adds one parameter, percent-encoding its value.
    pub fn add(&mut self, name: &str, value: &str)
        ensures
            final(self)@ == old(self)@.push(parameter(name@, value@)),
    {
        let pair = String::from_str(name).concat("=").concat(encoded(value).as_str());
        self.pairs.push(pair);
        assert(self@ =~= old(self)@.push(parameter(name@, value@)));
    }

    /// Adds one parameter if the caller named it, and otherwise sends nothing.
    ///
    /// Absent is not the same as defaulted: every optional parameter has a documented default at
    /// the service, and filling one in here would be a second place for that figure to live.
    pub fn optional(&mut self, name: &str, value: Option<String>)
        ensures
            final(self)@ == offered(old(self)@, name@, text::optional_text(value)),
    {
        match value {
            Some(value) => self.add(name, value.as_str()),
            None => {},
        }
    }

    /// The query string, empty when nothing was given.
    pub fn query(&self) -> (query: String)
        ensures
            query@ == query_string(self@),
    {
        if self.pairs.len() == 0 {
            String::new()
        } else {
            String::from_str("?").concat(text::join_texts(&self.pairs, "&").as_str())
        }
    }
}

} // verus!
