//! The address the listener binds: a host and a port, written `host:port`.

use vstd::prelude::*;

verus! {

/// The highest port there is.
pub const MAX_PORT: u32 = 65535;

/// Whether `c` is a decimal digit.
pub open spec fn is_digit(c: char) -> bool {
    '0' <= c <= '9'
}

/// The number that the decimal digits `digits` write.
pub open spec fn number(digits: Seq<char>) -> nat
    decreases digits.len(),
{
    if digits.len() == 0 {
        0
    } else {
        number(digits.drop_last()) * 10 + (digits.last() as nat - '0' as nat) as nat
    }
}

/// Whether `digits` writes a port: one to five decimal digits, and no more
/// than the highest port.
pub open spec fn is_port(digits: Seq<char>) -> bool {
    &&& 1 <= digits.len() <= 5
    &&& forall|i: int| 0 <= i < digits.len() ==> is_digit(#[trigger] digits[i])
    &&& number(digits) <= MAX_PORT
}

/// Whether `text` is an address with its separating colon at `colon`: a
/// host that is not empty before it, a port behind it.
pub open spec fn splits_at(text: Seq<char>, colon: int) -> bool {
    &&& 0 < colon < text.len()
    &&& text[colon] == ':'
    &&& is_port(text.skip(colon + 1))
}

/// Whether `text` is a valid `host:port`.
pub open spec fn is_address(text: Seq<char>) -> bool {
    exists|colon: int| splits_at(text, colon)
}

/// Where the separating colon of the address `text` stands.
pub open spec fn separator(text: Seq<char>) -> int {
    choose|colon: int| splits_at(text, colon)
}

/// The host of the address `text`.
pub open spec fn host_of(text: Seq<char>) -> Seq<char> {
    text.take(separator(text))
}

/// The port of the address `text`.
pub open spec fn port_of(text: Seq<char>) -> nat {
    number(text.skip(separator(text) + 1))
}

/// An address splits in one place only: at its last colon. A host may hold
/// colons of its own.
pub proof fn lemma_separator_is_unique(text: Seq<char>, first: int, second: int)
    requires
        splits_at(text, first),
        splits_at(text, second),
    ensures
        first == second,
{
    if first < second {
        assert(text.skip(first + 1)[second - first - 1] == text[second]);
    } else if second < first {
        assert(text.skip(second + 1)[first - second - 1] == text[first]);
    }
}

/// A host and a port, put together with a colon, read back as themselves.
pub proof fn lemma_joined_address_is_read(host: Seq<char>, digits: Seq<char>)
    requires
        host.len() > 0,
        is_port(digits),
    ensures
        is_address(host + seq![':'] + digits),
        host_of(host + seq![':'] + digits) == host,
        port_of(host + seq![':'] + digits) == number(digits),
{
    let text = host + seq![':'] + digits;
    let colon = host.len() as int;
    assert(text.skip(colon + 1) =~= digits);
    assert(splits_at(text, colon));
    lemma_separator_is_unique(text, colon, separator(text));
    assert(text.take(colon) =~= host);
}

/// Up to five digits write a number below a hundred thousand.
proof fn lemma_number_is_bounded(digits: Seq<char>)
    requires
        forall|i: int| 0 <= i < digits.len() ==> is_digit(#[trigger] digits[i]),
    ensures
        digits.len() == 0 ==> number(digits) == 0,
        digits.len() == 1 ==> number(digits) < 10,
        digits.len() == 2 ==> number(digits) < 100,
        digits.len() == 3 ==> number(digits) < 1000,
        digits.len() == 4 ==> number(digits) < 10000,
        digits.len() == 5 ==> number(digits) < 100000,
    decreases digits.len(),
{
    if digits.len() > 0 {
        assert(is_digit(digits.last()));
        assert forall|i: int| 0 <= i < digits.drop_last().len() implies is_digit(
            #[trigger] digits.drop_last()[i],
        ) by {
            assert(digits.drop_last()[i] == digits[i]);
        }
        lemma_number_is_bounded(digits.drop_last());
    }
}

/// Where the listener binds.
#[derive(Debug, PartialEq, Eq)]
pub struct BindAddress {
    host: String,
    port: u16,
}

impl BindAddress {
    /// The host, as contracts see it.
    pub closed spec fn host_text(&self) -> Seq<char> {
        self.host@
    }

    /// The port, as contracts see it.
    pub closed spec fn port_number(&self) -> nat {
        self.port as nat
    }

    #[verifier::type_invariant]
    spec fn has_a_host(&self) -> bool {
        self.host@.len() > 0
    }

    /// Reads `text` as `host:port`. The colon that separates the two is the
    /// last one; the host before it must not be empty, and the port behind
    /// it must be one to five digits that write no more than 65535.
    pub fn parse(text: &str) -> (parsed: Option<BindAddress>)
        ensures
            parsed is Some <==> is_address(text@),
            parsed matches Some(address) ==> {
                &&& address.host_text() == host_of(text@)
                &&& address.port_number() == port_of(text@)
            },
    {
        let length: usize = text.unicode_len();
        let mut start: usize = length;
        while start > 0 && length - start < 5 && is_digit_char(text.get_char(start - 1))
            invariant
                start <= length == text@.len(),
                length - start <= 5,
                forall|i: int| start <= i < length ==> is_digit(#[trigger] text@[i]),
            decreases start,
        {
            start = start - 1;
        }
        let digits: usize = length - start;
        if digits == 0 || start < 2 || text.get_char(start - 1) != ':' {
            proof {
                lemma_not_an_address(text@, start as int);
            }
            return None;
        }
        let mut port: u32 = 0;
        let mut next: usize = start;
        assert(text@.subrange(start as int, start as int).len() == 0);
        while next < length
            invariant
                start <= next <= length == text@.len(),
                length - start <= 5,
                forall|i: int| start <= i < length ==> is_digit(#[trigger] text@[i]),
                port == number(text@.subrange(start as int, next as int)),
            decreases length - next,
        {
            proof {
                let read = text@.subrange(start as int, next as int);
                let more = text@.subrange(start as int, next + 1);
                assert(more.drop_last() =~= read);
                assert forall|i: int| 0 <= i < more.len() implies is_digit(#[trigger] more[i]) by {
                    assert(more[i] == text@[start + i]);
                }
                lemma_number_is_bounded(read);
                lemma_number_is_bounded(more);
            }
            port = port * 10 + digit_value(text.get_char(next));
            next = next + 1;
        }
        proof {
            assert(text@.subrange(start as int, length as int) =~= text@.skip(start as int));
        }
        if port > MAX_PORT {
            proof {
                lemma_not_an_address(text@, start as int);
            }
            return None;
        }
        proof {
            assert(splits_at(text@, start - 1));
            lemma_separator_is_unique(text@, start - 1, separator(text@));
        }
        let host = text.substring_char(0, start - 1);
        Some(BindAddress { host: String::from_str(host), port: port as u16 })
    }

    /// The host.
    pub fn host(&self) -> (host: &str)
        ensures
            host@ == self.host_text(),
            host@.len() > 0,
    {
        proof {
            use_type_invariant(self);
        }
        self.host.as_str()
    }

    /// The port.
    pub fn port(&self) -> (port: u16)
        ensures
            port == self.port_number(),
    {
        self.port
    }
}

/// Whether `c` is a decimal digit.
fn is_digit_char(c: char) -> (digit: bool)
    ensures
        digit == is_digit(c),
{
    '0' <= c && c <= '9'
}

/// The value of the decimal digit `c`.
fn digit_value(c: char) -> (value: u32)
    requires
        is_digit(c),
    ensures
        value == c as nat - '0' as nat,
{
    c as u32 - '0' as u32
}

/// Where the digits at the end of `text` start at `start`, and they are
/// none, too many, too large, or preceded by no colon or no host, `text` is
/// no address.
proof fn lemma_not_an_address(text: Seq<char>, start: int)
    requires
        0 <= start <= text.len(),
        text.len() - start <= 5,
        forall|i: int| start <= i < text.len() ==> is_digit(#[trigger] text[i]),
        start == 0 || !is_digit(text[start - 1]) || text.len() - start == 5,
        ({
            ||| text.len() - start == 0
            ||| start < 2
            ||| text[start - 1] != ':'
            ||| number(text.skip(start)) > MAX_PORT
        }),
    ensures
        !is_address(text),
{
    if is_address(text) {
        let colon = separator(text);
        let digits = text.skip(colon + 1);
        assert(forall|i: int| 0 <= i < digits.len() ==> digits[i] == text[colon + 1 + i]);
        if colon + 1 < start {
            assert(is_digit(digits[start - 1 - (colon + 1)]));
            assert(text.len() - start == 5);
        } else if colon + 1 > start {
            assert(is_digit(text[colon]));
        }
    }
}

} // verus!
