use vstd::prelude::*;

use crate::error::Error;

verus! {

/// ASCII whitespace, as trimmed from the end of the machine-id file's
/// contents: space, tab, line feed, vertical tab, form feed, carriage return.
pub open spec fn is_ascii_whitespace(b: u8) -> bool {
    b == 0x20 || b == 0x09 || b == 0x0a || b == 0x0b || b == 0x0c || b == 0x0d
}

/// The given bytes with every trailing ASCII whitespace byte removed.
pub open spec fn trim_trailing_spec(s: Seq<u8>) -> Seq<u8>
    decreases s.len(),
{
    if s.len() > 0 && is_ascii_whitespace(s[s.len() - 1]) {
        trim_trailing_spec(s.drop_last())
    } else {
        s
    }
}

/// An ASCII hexadecimal digit, upper or lower case.
pub open spec fn is_hex_digit(b: u8) -> bool {
    (0x30 <= b && b <= 0x39) || (0x41 <= b && b <= 0x46) || (0x61 <= b && b <= 0x66)
}

/// The numeric value of an ASCII hexadecimal digit.
pub open spec fn hex_val(b: u8) -> u8 {
    if 0x30 <= b && b <= 0x39 {
        (b - 0x30) as u8
    } else if 0x41 <= b && b <= 0x46 {
        (b - 0x41 + 10) as u8
    } else {
        (b - 0x61 + 10) as u8
    }
}

/// The bytes encoded by a sequence of hexadecimal digit pairs, two digits to
/// a byte, high digit first.
pub open spec fn bytes_of_hex(s: Seq<u8>) -> Seq<u8> {
    Seq::new((s.len() / 2) as nat, |i: int| (hex_val(s[2 * i]) * 16 + hex_val(s[2 * i + 1])) as u8)
}

/// A bare 32-digit hexadecimal identifier.
pub open spec fn is_simple_form(s: Seq<u8>) -> bool {
    s.len() == 32 && (forall|i: int| 0 <= i < 32 ==> is_hex_digit(s[i]))
}

/// Position `k` of the 32 hexadecimal digits within the 36-byte hyphenated
/// form, skipping the four hyphens.
pub open spec fn hyphen_skip_index(k: int) -> int {
    if k < 8 {
        k
    } else if k < 12 {
        k + 1
    } else if k < 16 {
        k + 2
    } else if k < 20 {
        k + 3
    } else {
        k + 4
    }
}

/// The hyphenated identifier form: 36 bytes, hyphens at positions 8, 13, 18
/// and 23, hexadecimal digits everywhere else.
pub open spec fn is_hyphenated_form(s: Seq<u8>) -> bool {
    &&& s.len() == 36
    &&& s[8] == 0x2d
    &&& s[13] == 0x2d
    &&& s[18] == 0x2d
    &&& s[23] == 0x2d
    &&& forall|j: int|
        0 <= j < 36 && j != 8 && j != 13 && j != 18 && j != 23 ==> is_hex_digit(s[j])
}

/// The 32 hexadecimal digits of a 36-byte hyphenated form, in order, with
/// the hyphens removed.
pub open spec fn strip_hyphens(s: Seq<u8>) -> Seq<u8> {
    Seq::new(32, |k: int| s[hyphen_skip_index(k)])
}

/// The 16 bytes denoted by an identifier in bare or hyphenated hexadecimal
/// text form, or `None` where the text is in neither form.
pub open spec fn parse_id_spec(s: Seq<u8>) -> Option<Seq<u8>> {
    if is_simple_form(s) {
        Some(bytes_of_hex(s))
    } else if is_hyphenated_form(s) {
        Some(bytes_of_hex(strip_hyphens(s)))
    } else {
        None
    }
}

/// A 128-bit identifier held as its 16 raw bytes: a machine id, an
/// application id, or a derived identifier.
#[derive(Debug, Clone, PartialEq, Eq)]
pub struct Id128 {
    bytes: Vec<u8>,
}

impl View for Id128 {
    type V = Seq<u8>;

    closed spec fn view(&self) -> Seq<u8> {
        self.bytes@
    }
}

impl Id128 {
    /// A well-formed identifier holds exactly 16 bytes. Every constructor
    /// establishes this and every function of the library preserves it.
    pub open spec fn wf(&self) -> bool {
        self@.len() == 16
    }

    /// Build an identifier from its 16 raw bytes.
    pub fn from_bytes(bytes: Vec<u8>) -> (r: Id128)
        requires
            bytes@.len() == 16,
        ensures
            r@ == bytes@,
            r.wf(),
    {
        Id128 { bytes }
    }

    /// The identifier's 16 raw bytes.
    pub fn as_bytes(&self) -> (r: &Vec<u8>)
        ensures
            r@ == self@,
    {
        &self.bytes
    }

    /// A copy of the identifier's 16 raw bytes.
    pub fn to_bytes(&self) -> (r: Vec<u8>)
        requires
            self.wf(),
        ensures
            r@ == self@,
    {
        let mut out: Vec<u8> = Vec::new();
        let mut i: usize = 0;
        while i < self.bytes.len()
            invariant
                i <= self.bytes@.len(),
                out@ == self.bytes@.take(i as int),
            decreases self.bytes@.len() - i,
        {
            out.push(self.bytes[i]);
            proof {
                assert(out@ =~= self.bytes@.take(i + 1));
            }
            i = i + 1;
        }
        proof {
            assert(out@ =~= self.bytes@);
        }
        out
    }

    /// Parse an identifier from text: either 32 bare hexadecimal digits or
    /// the 36-byte hyphenated form, in either letter case. Returns the
    /// format-failure error on any other input.
    pub fn parse(text: &[u8]) -> (r: Result<Id128, Error>)
        ensures
            match r {
                Ok(id) => parse_id_spec(text@) == Some(id@) && id.wf(),
                Err(e) => parse_id_spec(text@) is None && e == Error::InvalidId,
            },
    {
        if text.len() == 32 {
            match decode_hex(text) {
                Some(v) => {
                    proof {
                        assert(bytes_of_hex(text@).len() == 16);
                    }
                    Ok(Id128::from_bytes(v))
                },
                None => {
                    proof {
                        assert(!is_simple_form(text@));
                        assert(!is_hyphenated_form(text@));
                    }
                    Err(Error::InvalidId)
                },
            }
        } else if text.len() == 36 {
            Id128::parse_hyphenated(text)
        } else {
            Err(Error::InvalidId)
        }
    }

    /// Parse the 36-byte hyphenated identifier form.
    fn parse_hyphenated(text: &[u8]) -> (r: Result<Id128, Error>)
        requires
            text@.len() == 36,
        ensures
            match r {
                Ok(id) => parse_id_spec(text@) == Some(id@) && id.wf(),
                Err(e) => parse_id_spec(text@) is None && e == Error::InvalidId,
            },
    {
        if text[8] != 0x2d || text[13] != 0x2d || text[18] != 0x2d || text[23] != 0x2d {
            return Err(Error::InvalidId);
        }
        let mut hx: Vec<u8> = Vec::new();
        let mut k: usize = 0;
        while k < 32
            invariant
                k <= 32,
                text@.len() == 36,
                hx@.len() == k,
                forall|m: int| 0 <= m < k ==> hx@[m] == text@[hyphen_skip_index(m)],
            decreases 32 - k,
        {
            let j = skip_index(k);
            hx.push(text[j]);
            k = k + 1;
        }
        proof {
            assert(hx@ =~= strip_hyphens(text@));
        }
        match decode_hex(hx.as_slice()) {
            Some(v) => {
                proof {
                    assert(is_hyphenated_form(text@)) by {
                        assert forall|j: int|
                            0 <= j < 36 && j != 8 && j != 13 && j != 18 && j
                                != 23 implies is_hex_digit(text@[j]) by {
                            let k = if j < 8 {
                                j
                            } else if j < 13 {
                                j - 1
                            } else if j < 18 {
                                j - 2
                            } else if j < 23 {
                                j - 3
                            } else {
                                j - 4
                            };
                            assert(hyphen_skip_index(k) == j);
                            assert(is_hex_digit(hx@[k]));
                        }
                    }
                    assert(!is_simple_form(text@));
                    assert(bytes_of_hex(strip_hyphens(text@)).len() == 16);
                }
                Ok(Id128::from_bytes(v))
            },
            None => {
                proof {
                    assert(!is_simple_form(text@));
                    assert(!is_hyphenated_form(text@)) by {
                        let k = choose|k: int| 0 <= k < 32 && !is_hex_digit(hx@[k]);
                        assert(hx@[k] == text@[hyphen_skip_index(k)]);
                    }
                }
                Err(Error::InvalidId)
            },
        }
    }
}

/// The numeric value of one ASCII hexadecimal digit, or `None` where the
/// byte is no such digit.
fn hex_digit_value(b: u8) -> (r: Option<u8>)
    ensures
        match r {
            Some(v) => is_hex_digit(b) && v == hex_val(b) && v < 16,
            None => !is_hex_digit(b),
        },
{
    if 0x30 <= b && b <= 0x39 {
        Some(b - 0x30)
    } else if 0x41 <= b && b <= 0x46 {
        Some(b - 0x41 + 10)
    } else if 0x61 <= b && b <= 0x66 {
        Some(b - 0x61 + 10)
    } else {
        None
    }
}

/// Decode an even-length run of hexadecimal digits into bytes, two digits to
/// a byte; `None` where some byte is not a hexadecimal digit.
fn decode_hex(s: &[u8]) -> (r: Option<Vec<u8>>)
    requires
        s@.len() % 2 == 0,
    ensures
        match r {
            Some(v) => (forall|i: int| 0 <= i < s@.len() ==> is_hex_digit(s@[i])) && v@
                == bytes_of_hex(s@),
            None => exists|i: int| 0 <= i < s@.len() && !is_hex_digit(s@[i]),
        },
{
    let mut out: Vec<u8> = Vec::new();
    let mut i: usize = 0;
    while i < s.len()
        invariant
            s@.len() % 2 == 0,
            i % 2 == 0,
            i <= s@.len(),
            out@.len() == i / 2,
            forall|j: int| 0 <= j < i ==> is_hex_digit(s@[j]),
            forall|m: int|
                0 <= m < out@.len() ==> out@[m] == (hex_val(s@[2 * m]) * 16 + hex_val(
                    s@[2 * m + 1],
                )) as u8,
        decreases s@.len() - i,
    {
        let hi = match hex_digit_value(s[i]) {
            Some(v) => v,
            None => {
                return None;
            },
        };
        let lo = match hex_digit_value(s[i + 1]) {
            Some(v) => v,
            None => {
                return None;
            },
        };
        out.push(hi * 16 + lo);
        i = i + 2;
    }
    proof {
        assert(out@ =~= bytes_of_hex(s@));
    }
    Some(out)
}

/// Position `k` of the 32 hexadecimal digits within the hyphenated form.
fn skip_index(k: usize) -> (r: usize)
    requires
        k < 32,
    ensures
        r == hyphen_skip_index(k as int),
        r < 36,
{
    if k < 8 {
        k
    } else if k < 12 {
        k + 1
    } else if k < 16 {
        k + 2
    } else if k < 20 {
        k + 3
    } else {
        k + 4
    }
}

/// The index at which the trailing ASCII whitespace of `text` begins; all of
/// `text` up to that index is the trimmed content.
pub fn trim_end_index(text: &[u8]) -> (n: usize)
    ensures
        n <= text@.len(),
        trim_trailing_spec(text@) == text@.take(n as int),
{
    let mut n: usize = text.len();
    proof {
        assert(text@.take(text@.len() as int) =~= text@);
    }
    while n > 0 && is_ascii_whitespace_exec(text[n - 1])
        invariant
            n <= text@.len(),
            trim_trailing_spec(text@) == trim_trailing_spec(text@.take(n as int)),
        decreases n,
    {
        proof {
            assert(text@.take(n as int).drop_last() =~= text@.take(n - 1));
        }
        n = n - 1;
    }
    proof {
        if n > 0 {
            assert(!is_ascii_whitespace(text@.take(n as int)[n - 1]));
        }
    }
    n
}

/// Whether a byte is ASCII whitespace.
fn is_ascii_whitespace_exec(b: u8) -> (r: bool)
    ensures
        r == is_ascii_whitespace(b),
{
    b == 0x20 || b == 0x09 || b == 0x0a || b == 0x0b || b == 0x0c || b == 0x0d
}

/// Parse the contents of the machine-id file: trailing ASCII whitespace is
/// trimmed, then the rest must be a bare or hyphenated 128-bit identifier.
pub fn parse_machine_id(content: &[u8]) -> (r: Result<Id128, Error>)
    ensures
        match r {
            Ok(id) => parse_id_spec(trim_trailing_spec(content@)) == Some(id@) && id.wf(),
            Err(e) => parse_id_spec(trim_trailing_spec(content@)) is None && e
                == Error::InvalidId,
        },
{
    let n = trim_end_index(content);
    let trimmed = &content[0..n];
    Id128::parse(trimmed)
}

} // verus!
