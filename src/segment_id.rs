//! Segment identifiers and the names of segment files.

use vstd::prelude::*;
use crate::codec::be128;

verus! {

/// Identifies one segment: a random (version 4) UUID, held as its 128-bit
/// value. It doubles as the base name of the segment's file.
#[derive(Clone, Copy, PartialEq, Eq, Structural, PartialOrd, Ord, Hash, Debug)]
pub struct SegmentId(pub u128);

/// File extension of segment files, `dat`.
pub open spec fn segment_file_extension() -> Seq<u8> {
    seq![46u8, 100u8, 97u8, 116u8]
}

/// Lower-case hexadecimal digit of a value below 16.
pub open spec fn hex_digit(n: u128) -> u8 {
    if n < 10 {
        (48 + n) as u8
    } else {
        (87 + n) as u8
    }
}

/// The 32 hexadecimal digits of a UUID, most significant first.
pub open spec fn hex_digits(x: u128) -> Seq<u8> {
    Seq::new(32, |i: int| hex_digit((x >> ((31 - i) * 4) as u128) & 15u128))
}

/// The hyphenated text of a UUID, in ASCII: 8-4-4-4-12 lower-case digits.
pub open spec fn hyphenated(x: u128) -> Seq<u8> {
    let h = hex_digits(x);
    h.subrange(0, 8) + seq![45u8] + h.subrange(8, 12) + seq![45u8] + h.subrange(12, 16) + seq![
        45u8,
    ] + h.subrange(16, 20) + seq![45u8] + h.subrange(20, 32)
}

/// The file name of a segment: its hyphenated identifier and the extension.
pub open spec fn segment_file_name(x: u128) -> Seq<u8> {
    hyphenated(x) + segment_file_extension()
}

/// Relies on uuid::Uuid::new_v4: a random UUID whose version nibble is 4 and
/// whose variant bits are `10`.
#[verifier::external_body]
fn random_v4() -> (r: u128)
    ensures
        (r >> 76u128) & 15u128 == 4,
        (r >> 62u128) & 3u128 == 2,
{
    uuid::Uuid::new_v4().as_u128()
}

/// Relies on uuid::Uuid::from_u128 and Uuid::as_bytes: the 16 bytes of the
/// UUID in big-endian order.
#[verifier::external_body]
fn uuid_bytes(x: u128) -> (r: Vec<u8>)
    ensures
        r@ == be128(x),
{
    uuid::Uuid::from_u128(x).as_bytes().to_vec()
}

/// Relies on uuid::Uuid::from_slice and Uuid::as_u128: a UUID from exactly 16
/// big-endian bytes.
#[verifier::external_body]
fn uuid_from_slice(b: &[u8]) -> (r: Option<u128>)
    ensures
        r is Some <==> b@.len() == 16,
        r matches Some(x) ==> be128(x) == b@,
{
    uuid::Uuid::from_slice(b).ok().map(|u| u.as_u128())
}

/// Relies on the hyphenated `Display` of uuid::Uuid: lower-case digits in
/// groups of 8-4-4-4-12.
#[verifier::external_body]
fn uuid_hyphenated(x: u128) -> (r: Vec<u8>)
    ensures
        r@ == hyphenated(x),
{
    uuid::Uuid::from_u128(x).hyphenated().to_string().into_bytes()
}

/// Relies on uuid::Uuid::try_parse_ascii: the hyphenated text of a UUID parses
/// back to that UUID.
#[verifier::external_body]
fn uuid_parse_ascii(s: &[u8]) -> (r: Option<u128>)
    ensures
        forall|x: u128| #[trigger] hyphenated(x) == s@ ==> r == Some(x),
{
    uuid::Uuid::try_parse_ascii(s).ok().map(|u| u.as_u128())
}

impl SegmentId {
    /// A fresh random identifier.
    pub fn new() -> (r: SegmentId)
        ensures
            (r.0 >> 76u128) & 15u128 == 4,
            (r.0 >> 62u128) & 3u128 == 2,
    {
        SegmentId(random_v4())
    }

    /// The identifier's 128-bit value.
    pub fn get(&self) -> (r: u128)
        ensures
            r == self.0,
    {
        self.0
    }

    /// The identifier's 16 bytes, most significant first.
    pub fn as_bytes(&self) -> (r: Vec<u8>)
        ensures
            r@ == be128(self.0),
    {
        uuid_bytes(self.0)
    }

    /// The identifier whose bytes are `b`, if `b` holds exactly 16 bytes.
    pub fn from_slice(b: &[u8]) -> (r: Option<SegmentId>)
        ensures
            r is Some <==> b@.len() == 16,
            r matches Some(id) ==> be128(id.0) == b@,
    {
        match uuid_from_slice(b) {
            Some(x) => Some(SegmentId(x)),
            None => None,
        }
    }

    /// The name of this segment's file: the hyphenated identifier followed
    /// by `.dat`.
    pub fn file_name(&self) -> (r: Vec<u8>)
        ensures
            r@ == segment_file_name(self.0),
    {
        let mut name = uuid_hyphenated(self.0);
        name.push(46u8);
        name.push(100u8);
        name.push(97u8);
        name.push(116u8);
        name
    }
}

impl From<u128> for SegmentId {
    fn from(x: u128) -> (r: SegmentId)
        ensures
            r.0 == x,
    {
        SegmentId(x)
    }
}

impl vstd::std_specs::convert::FromSpecImpl<u128> for SegmentId {
    open spec fn obeys_from_spec() -> bool {
        true
    }

    open spec fn from_spec(x: u128) -> SegmentId {
        SegmentId(x)
    }
}

/// The segment named by a file name: the name must be a UUID followed by
/// `.dat`.
pub fn segment_id_from_file_name(name: &[u8]) -> (r: Option<SegmentId>)
    ensures
        name@.len() < 4 || name@.subrange(name@.len() - 4, name@.len() as int)
            != segment_file_extension() ==> r is None,
        forall|x: u128| #[trigger] segment_file_name(x) == name@ ==> r == Some(SegmentId(x)),
{
    let n = name.len();
    if n < 4 || name[n - 4] != 46u8 || name[n - 3] != 100u8 || name[n - 2] != 97u8 || name[n - 1]
        != 116u8 {
        proof {
            if n >= 4 {
                let ext = name@.subrange(n - 4, n as int);
                assert(ext[0] == name@[n - 4]);
                assert(ext[1] == name@[n - 3]);
                assert(ext[2] == name@[n - 2]);
                assert(ext[3] == name@[n - 1]);
            }
            assert forall|x: u128| #[trigger] segment_file_name(x) != name@ by {
                let f = segment_file_name(x);
                if f == name@ {
                    assert(f[f.len() - 4] == 46u8);
                    assert(f[f.len() - 1] == 116u8);
                    assert(f[f.len() - 3] == 100u8);
                    assert(f[f.len() - 2] == 97u8);
                }
            }
        }
        return None;
    }
    assert(name@.subrange(n - 4, n as int) =~= segment_file_extension());
    let stem = slice_prefix(name, n - 4);
    let parsed = uuid_parse_ascii(stem.as_slice());
    proof {
        assert forall|x: u128| #[trigger] segment_file_name(x) == name@ implies parsed == Some(x) by {
            assert(hyphenated(x).len() == 36);
            assert(name@.subrange(0, n - 4) == hyphenated(x));
            assert(hyphenated(x) == stem@);
        }
    }
    match parsed {
        Some(x) => Some(SegmentId(x)),
        None => None,
    }
}

/// The first `len` bytes of `s`.
fn slice_prefix(s: &[u8], len: usize) -> (r: Vec<u8>)
    requires
        len <= s@.len(),
    ensures
        r@ == s@.subrange(0, len as int),
{
    let mut out: Vec<u8> = Vec::new();
    let mut i: usize = 0;
    while i < len
        invariant
            i <= len <= s@.len(),
            out@ == s@.subrange(0, i as int),
        decreases len - i,
    {
        out.push(s[i]);
        i = i + 1;
    }
    out
}

} // verus!
