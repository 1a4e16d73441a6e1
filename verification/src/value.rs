//! Typed registry values and the codec between them and the raw
//! type-tagged byte arrays the system stores.
use crate::strutil::dec_string;
use crate::strutil::hex_string_fixed;
use crate::strutil::u64_to_dec;
use crate::strutil::u64_to_hex_fixed;
use crate::utf16::decode_units;
use crate::utf16::units_of_le_bytes;
use crate::utf16::utf16_bytes;
use crate::utf16::utf16_bytes_to_units;
use crate::utf16::utf16_decode;
use crate::utf16::utf16_encode;
use crate::utf16::utf16_str_of_bytes;
use crate::utf16::utf16_units_to_string;
use crate::utf16::lemma_utf16_string_round_trip;
use crate::utf16::lemma_le_bytes_even;
use vstd::prelude::*;
use vstd::string::StringExecFns;

verus! {

/// The wire type tag of a raw registry value.
#[derive(Clone, Copy, PartialEq, Eq, Structural, Debug, Hash)]
pub enum RegType {
    RegNone,
    RegSz,
    RegExpandSz,
    RegBinary,
    RegDword,
    RegDwordBigEndian,
    RegLink,
    RegMultiSz,
    RegResourceList,
    RegFullResourceDescriptor,
    RegResourceRequirementsList,
    RegQword,
}

/// A raw typed value exactly as the system's value-enumeration hands
/// it out: a type tag and a byte array.
#[derive(Debug)]
pub struct RawValue {
    pub vtype: RegType,
    pub bytes: Vec<u8>,
}

impl View for RawValue {
    type V = (RegType, Seq<u8>);

    open spec fn view(&self) -> (RegType, Seq<u8>) {
        (self.vtype, self.bytes@)
    }
}

/// A decoded, tagged registry value.
#[derive(Debug)]
pub enum RegItemValue {
    SZ(String),
    DWORD(u32),
    ExpandSz(Vec<u8>),
    MultiSz(String),
    QWORD(u64),
    BINARY(Vec<u8>),
    Raw(Vec<u8>),
}

/// The mathematical shape of a decoded value.
pub enum RegValueModel {
    Text(Seq<char>),
    Dword(u32),
    Expand(Seq<u8>),
    Multi(Seq<char>),
    Qword(u64),
    Binary(Seq<u8>),
    Untyped(Seq<u8>),
}

impl View for RegItemValue {
    type V = RegValueModel;

    open spec fn view(&self) -> RegValueModel {
        match self {
            RegItemValue::SZ(s) => RegValueModel::Text(s@),
            RegItemValue::DWORD(v) => RegValueModel::Dword(*v),
            RegItemValue::ExpandSz(b) => RegValueModel::Expand(b@),
            RegItemValue::MultiSz(s) => RegValueModel::Multi(s@),
            RegItemValue::QWORD(v) => RegValueModel::Qword(*v),
            RegItemValue::BINARY(b) => RegValueModel::Binary(b@),
            RegItemValue::Raw(b) => RegValueModel::Untyped(b@),
        }
    }
}

/// Why a raw value could not be decoded.
#[derive(Clone, Copy, PartialEq, Eq, Structural, Debug)]
pub enum DecodeError {
    /// A fixed-width integer with the wrong byte length, or text whose
    /// bytes are not well-formed UTF-16LE.
    Malformed,
    /// A wire type this manager does not model.
    Unsupported,
}

/// A 32-bit integer read from four little-endian bytes.
pub open spec fn u32_of_le(b: Seq<u8>) -> u32
    recommends
        b.len() == 4,
{
    (b[0] + 0x100 * b[1] + 0x10000 * b[2] + 0x1000000 * b[3]) as u32
}

/// A 64-bit integer read from eight little-endian bytes.
pub open spec fn u64_of_le(b: Seq<u8>) -> u64
    recommends
        b.len() == 8,
{
    (b[0] + 0x100 * b[1] + 0x10000 * b[2] + 0x1000000 * b[3] + 0x100000000 * b[4]
        + 0x10000000000 * b[5] + 0x1000000000000 * b[6] + 0x100000000000000 * b[7]) as u64
}

/// The four little-endian bytes of a 32-bit integer.
pub open spec fn le_of_u32(v: u32) -> Seq<u8> {
    seq![
        (v % 0x100) as u8,
        ((v / 0x100) % 0x100) as u8,
        ((v / 0x10000) % 0x100) as u8,
        ((v / 0x1000000) % 0x100) as u8,
    ]
}

/// The eight little-endian bytes of a 64-bit integer.
pub open spec fn le_of_u64(v: u64) -> Seq<u8> {
    seq![
        (v % 0x100) as u8,
        ((v / 0x100) % 0x100) as u8,
        ((v / 0x10000) % 0x100) as u8,
        ((v / 0x1000000) % 0x100) as u8,
        ((v / 0x100000000) % 0x100) as u8,
        ((v / 0x10000000000) % 0x100) as u8,
        ((v / 0x1000000000000) % 0x100) as u8,
        ((v / 0x100000000000000) % 0x100) as u8,
    ]
}

/// String values end in one NUL code unit; decoding removes exactly
/// that terminator when it is present.
pub open spec fn strip_terminator(b: Seq<u8>) -> Seq<u8> {
    if b.len() >= 2 && b.len() % 2 == 0 && b[b.len() - 2] == 0 && b[b.len() - 1] == 0 {
        b.take(b.len() - 2)
    } else {
        b
    }
}

/// What decoding a raw value yields, for every type tag and byte array.
pub open spec fn spec_decode(t: RegType, b: Seq<u8>) -> Result<RegValueModel, DecodeError> {
    match t {
        RegType::RegSz => match utf16_str_of_bytes(strip_terminator(b)) {
            Some(s) => Ok(RegValueModel::Text(s)),
            None => Err(DecodeError::Malformed),
        },
        RegType::RegExpandSz => Ok(RegValueModel::Expand(b)),
        RegType::RegMultiSz => match utf16_str_of_bytes(strip_terminator(b)) {
            Some(s) => Ok(RegValueModel::Multi(s)),
            None => Err(DecodeError::Malformed),
        },
        RegType::RegDword => if b.len() == 4 {
            Ok(RegValueModel::Dword(u32_of_le(b)))
        } else {
            Err(DecodeError::Malformed)
        },
        RegType::RegQword => if b.len() == 8 {
            Ok(RegValueModel::Qword(u64_of_le(b)))
        } else {
            Err(DecodeError::Malformed)
        },
        RegType::RegBinary => Ok(RegValueModel::Binary(b)),
        RegType::RegNone => Ok(RegValueModel::Untyped(b)),
        _ => Err(DecodeError::Unsupported),
    }
}

/// What encoding a value yields: its wire type tag and byte array.
pub open spec fn spec_encode(m: RegValueModel) -> (RegType, Seq<u8>) {
    match m {
        RegValueModel::Text(s) => (RegType::RegSz, utf16_bytes(s) + seq![0u8, 0u8]),
        RegValueModel::Dword(v) => (RegType::RegDword, le_of_u32(v)),
        RegValueModel::Expand(b) => (RegType::RegExpandSz, b),
        RegValueModel::Multi(s) => (RegType::RegMultiSz, utf16_bytes(s) + seq![0u8, 0u8]),
        RegValueModel::Qword(v) => (RegType::RegQword, le_of_u64(v)),
        RegValueModel::Binary(b) => (RegType::RegBinary, b),
        RegValueModel::Untyped(b) => (RegType::RegNone, b),
    }
}

/// The 32-bit integer held by a four-byte DWORD value, when well-formed.
pub fn parse_dword(value: &RawValue) -> (r: Option<u32>)
    ensures
        r == (if value.vtype == RegType::RegDword && value.bytes@.len() == 4 {
            Some(u32_of_le(value.bytes@))
        } else {
            None::<u32>
        }),
{
    if value.vtype == RegType::RegDword && value.bytes.len() == 4 {
        let v: u32 = (value.bytes[0] as u32) + 0x100 * (value.bytes[1] as u32) + 0x10000 * (
        value.bytes[2] as u32) + 0x1000000 * (value.bytes[3] as u32);
        Some(v)
    } else {
        None
    }
}

/// The 64-bit integer held by an eight-byte QWORD value, when well-formed.
pub fn parse_qword(value: &RawValue) -> (r: Option<u64>)
    ensures
        r == (if value.vtype == RegType::RegQword && value.bytes@.len() == 8 {
            Some(u64_of_le(value.bytes@))
        } else {
            None::<u64>
        }),
{
    if value.vtype == RegType::RegQword && value.bytes.len() == 8 {
        let v: u64 = (value.bytes[0] as u64) + 0x100 * (value.bytes[1] as u64) + 0x10000 * (
        value.bytes[2] as u64) + 0x1000000 * (value.bytes[3] as u64) + 0x100000000 * (
        value.bytes[4] as u64) + 0x10000000000 * (value.bytes[5] as u64) + 0x1000000000000 * (
        value.bytes[6] as u64) + 0x100000000000000 * (value.bytes[7] as u64);
        Some(v)
    } else {
        None
    }
}

/// Strips the one trailing NUL code unit of a string value, when present.
fn strip_terminator_exec(b: &Vec<u8>) -> (r: Vec<u8>)
    ensures
        r@ == strip_terminator(b@),
{
    let n = b.len();
    let mut r: Vec<u8> = Vec::new();
    let keep: usize = if n >= 2 && n % 2 == 0 && b[n - 2] == 0 && b[n - 1] == 0 {
        n - 2
    } else {
        n
    };
    let mut i: usize = 0;
    while i < keep
        invariant
            0 <= i <= keep <= n,
            n == b@.len(),
            r@ == b@.take(i as int),
        decreases keep - i,
    {
        r.push(b[i]);
        assert(r@ =~= b@.take(i + 1));
        i += 1;
    }
    proof {
        if keep == n {
            assert(b@.take(n as int) =~= b@);
        }
    }
    r
}

impl RegItemValue {
    /// Decodes a raw typed value into its tagged form. Fails on a
    /// fixed-width integer of the wrong length, on ill-formed UTF-16
    /// text, and on type tags outside the modeled set; the loader skips
    /// such values.
    pub fn decode(value: &RawValue) -> (r: Result<RegItemValue, DecodeError>)
        ensures
            (r is Ok) == (spec_decode(value.vtype, value.bytes@) is Ok),
            r is Ok ==> r->Ok_0@ == spec_decode(value.vtype, value.bytes@)->Ok_0,
            r is Err ==> r->Err_0 == spec_decode(value.vtype, value.bytes@)->Err_0,
    {
        match value.vtype {
            RegType::RegSz => {
                let body = strip_terminator_exec(&value.bytes);
                match utf16_decode(&body) {
                    Some(s) => Ok(RegItemValue::SZ(s)),
                    None => Err(DecodeError::Malformed),
                }
            },
            RegType::RegExpandSz => Ok(RegItemValue::ExpandSz(copy_bytes(&value.bytes))),
            RegType::RegMultiSz => {
                let body = strip_terminator_exec(&value.bytes);
                match utf16_decode(&body) {
                    Some(s) => Ok(RegItemValue::MultiSz(s)),
                    None => Err(DecodeError::Malformed),
                }
            },
            RegType::RegDword => match parse_dword(value) {
                Some(v) => Ok(RegItemValue::DWORD(v)),
                None => Err(DecodeError::Malformed),
            },
            RegType::RegQword => match parse_qword(value) {
                Some(v) => Ok(RegItemValue::QWORD(v)),
                None => Err(DecodeError::Malformed),
            },
            RegType::RegBinary => Ok(RegItemValue::BINARY(copy_bytes(&value.bytes))),
            RegType::RegNone => Ok(RegItemValue::Raw(copy_bytes(&value.bytes))),
            _ => Err(DecodeError::Unsupported),
        }
    }

    /// Encodes this value back into its wire form.
    pub fn encode(&self) -> (r: RawValue)
        ensures
            r.vtype == spec_encode(self@).0,
            r.bytes@ == spec_encode(self@).1,
    {
        match self {
            RegItemValue::SZ(s) => {
                let mut bytes = utf16_encode(s.as_str());
                bytes.push(0);
                bytes.push(0);
                assert(bytes@ =~= utf16_bytes(s@) + seq![0u8, 0u8]);
                RawValue { vtype: RegType::RegSz, bytes }
            },
            RegItemValue::MultiSz(s) => {
                let mut bytes = utf16_encode(s.as_str());
                bytes.push(0);
                bytes.push(0);
                assert(bytes@ =~= utf16_bytes(s@) + seq![0u8, 0u8]);
                RawValue { vtype: RegType::RegMultiSz, bytes }
            },
            RegItemValue::DWORD(v) => {
                let v = *v;
                let mut bytes: Vec<u8> = Vec::new();
                bytes.push((v % 0x100) as u8);
                bytes.push(((v / 0x100) % 0x100) as u8);
                bytes.push(((v / 0x10000) % 0x100) as u8);
                bytes.push(((v / 0x1000000) % 0x100) as u8);
                assert(bytes@ =~= le_of_u32(v));
                RawValue { vtype: RegType::RegDword, bytes }
            },
            RegItemValue::QWORD(v) => {
                let v = *v;
                let mut bytes: Vec<u8> = Vec::new();
                bytes.push((v % 0x100) as u8);
                bytes.push(((v / 0x100) % 0x100) as u8);
                bytes.push(((v / 0x10000) % 0x100) as u8);
                bytes.push(((v / 0x1000000) % 0x100) as u8);
                bytes.push(((v / 0x100000000) % 0x100) as u8);
                bytes.push(((v / 0x10000000000) % 0x100) as u8);
                bytes.push(((v / 0x1000000000000) % 0x100) as u8);
                bytes.push(((v / 0x100000000000000) % 0x100) as u8);
                assert(bytes@ =~= le_of_u64(v));
                RawValue { vtype: RegType::RegQword, bytes }
            },
            RegItemValue::ExpandSz(b) => RawValue {
                vtype: RegType::RegExpandSz,
                bytes: copy_bytes(b),
            },
            RegItemValue::BINARY(b) => RawValue { vtype: RegType::RegBinary, bytes: copy_bytes(b) },
            RegItemValue::Raw(b) => RawValue { vtype: RegType::RegNone, bytes: copy_bytes(b) },
        }
    }
}

/// A fresh vector holding the same bytes.
pub fn copy_bytes(b: &Vec<u8>) -> (r: Vec<u8>)
    ensures
        r@ == b@,
{
    let n = b.len();
    let mut r: Vec<u8> = Vec::new();
    let mut i: usize = 0;
    while i < n
        invariant
            0 <= i <= n,
            n == b@.len(),
            r@ == b@.take(i as int),
        decreases n - i,
    {
        r.push(b[i]);
        assert(r@ =~= b@.take(i + 1));
        i += 1;
    }
    assert(b@.take(n as int) =~= b@);
    r
}

/// Decoding inverts encoding: every value survives the round trip
/// through its wire form.
pub proof fn lemma_codec_round_trip(m: RegValueModel)
    ensures
        spec_decode(spec_encode(m).0, spec_encode(m).1) == Ok::<RegValueModel, DecodeError>(m),
{
    match m {
        RegValueModel::Text(s) => {
            lemma_text_round_trip(s);
        },
        RegValueModel::Multi(s) => {
            lemma_text_round_trip(s);
        },
        RegValueModel::Dword(v) => {
            assert(u32_of_le(le_of_u32(v)) == v) by (bit_vector);
        },
        RegValueModel::Qword(v) => {
            assert(u64_of_le(le_of_u64(v)) == v) by (bit_vector);
        },
        _ => {},
    }
}

/// The code units before the first NUL terminator.
pub open spec fn take_until_nul(u: Seq<u16>) -> Seq<u16>
    decreases u.len(),
{
    if u.len() == 0 {
        Seq::empty()
    } else if u[0] == 0 {
        Seq::empty()
    } else {
        seq![u[0]] + take_until_nul(u.skip(1))
    }
}

proof fn lemma_take_until_nul_at(u: Seq<u16>, k: int)
    requires
        0 <= k <= u.len(),
        forall|j: int| 0 <= j < k ==> u[j] != 0,
        k == u.len() || u[k] == 0,
    ensures
        take_until_nul(u) == u.take(k),
    decreases k,
{
    if u.len() == 0 {
        assert(u.take(0) =~= Seq::<u16>::empty());
    } else if k == 0 {
        assert(u.take(0) =~= Seq::<u16>::empty());
    } else {
        lemma_take_until_nul_at(u.skip(1), k - 1);
        assert(seq![u[0]] + u.skip(1).take(k - 1) =~= u.take(k));
    }
}

/// A trailing odd byte never contributes a code unit.
proof fn lemma_units_odd_tail(b: Seq<u8>)
    requires
        b.len() % 2 == 1,
    ensures
        units_of_le_bytes(b) == units_of_le_bytes(b.take(b.len() - 1)),
    decreases b.len(),
{
    if b.len() == 1 {
        assert(units_of_le_bytes(b.take(0)) =~= Seq::<u16>::empty());
    } else {
        lemma_units_odd_tail(b.skip(2));
        let t = b.take(b.len() - 1);
        assert(t.len() >= 2 && t[0] == b[0] && t[1] == b[1]);
        assert(t.skip(2) =~= b.skip(2).take(b.skip(2).len() - 1));
        assert(units_of_le_bytes(b) =~= units_of_le_bytes(t));
    }
}

/// The hexadecimal byte pairs of a byte array, concatenated.
pub open spec fn hex_pairs(b: Seq<u8>) -> Seq<char>
    decreases b.len(),
{
    if b.len() == 0 {
        Seq::empty()
    } else {
        hex_pairs(b.take(b.len() - 1)) + hex_string_fixed(b.last() as nat, 2)
    }
}

/// The display text of a value: the projection that name resolution and
/// the GUID heuristics read.
pub open spec fn display_of(m: RegValueModel) -> Seq<char> {
    match m {
        RegValueModel::Text(s) => s,
        RegValueModel::Dword(v) => dec_string(v as nat),
        RegValueModel::Qword(v) => dec_string(v as nat),
        RegValueModel::Multi(s) => s,
        RegValueModel::Expand(b) => match decode_units(take_until_nul(units_of_le_bytes(b))) {
            Some(s) => s,
            None => Seq::empty(),
        },
        RegValueModel::Untyped(_) => "REG_NONE"@,
        RegValueModel::Binary(b) => "0x"@ + hex_pairs(b),
    }
}

impl RegItemValue {
    /// The value as display text. An expandable-string payload whose
    /// units are not well-formed UTF-16 displays as the empty string.
    pub fn display_string(&self) -> (r: String)
        ensures
            r@ == display_of(self@),
    {
        match self {
            RegItemValue::SZ(s) => s.clone(),
            RegItemValue::MultiSz(s) => s.clone(),
            RegItemValue::DWORD(v) => u64_to_dec(*v as u64),
            RegItemValue::QWORD(v) => u64_to_dec(*v),
            RegItemValue::Raw(_) => String::from_str("REG_NONE"),
            RegItemValue::BINARY(b) => {
                let mut s = String::from_str("0x");
                let n = b.len();
                let mut i: usize = 0;
                while i < n
                    invariant
                        0 <= i <= n,
                        n == b@.len(),
                        s@ == "0x"@ + hex_pairs(b@.take(i as int)),
                    decreases n - i,
                {
                    let pair = u64_to_hex_fixed(b[i] as u64, 2);
                    s.append(pair.as_str());
                    proof {
                        assert(b@.take(i + 1).take(i as int) =~= b@.take(i as int));
                        assert(b@.take(i + 1).last() == b@[i as int]);
                        assert(s@ =~= "0x"@ + hex_pairs(b@.take(i + 1)));
                    }
                    i += 1;
                }
                assert(b@.take(n as int) =~= b@);
                s
            },
            RegItemValue::ExpandSz(b) => {
                let n = b.len();
                let m = n - (n % 2);
                let mut even: Vec<u8> = Vec::new();
                let mut i: usize = 0;
                while i < m
                    invariant
                        0 <= i <= m <= n,
                        n == b@.len(),
                        even@ == b@.take(i as int),
                    decreases m - i,
                {
                    even.push(b[i]);
                    assert(even@ =~= b@.take(i + 1));
                    i += 1;
                }
                proof {
                    if n % 2 == 1 {
                        lemma_units_odd_tail(b@);
                    } else {
                        assert(b@.take(m as int) =~= b@);
                    }
                }
                let mut units = match utf16_bytes_to_units(&even) {
                    Some(u) => u,
                    None => Vec::new(),
                };
                assert(units@ == units_of_le_bytes(b@));
                let k = find_nul_unit(&units);
                proof {
                    lemma_take_until_nul_at(units@, k as int);
                }
                units.truncate(k);
                match utf16_units_to_string(&units) {
                    Some(s) => s,
                    None => String::new(),
                }
            },
        }
    }
}

/// The index of the first NUL code unit, or the length when none occurs.
fn find_nul_unit(units: &Vec<u16>) -> (k: usize)
    ensures
        0 <= k <= units@.len(),
        forall|j: int| 0 <= j < k ==> units@[j] != 0,
        k == units@.len() || units@[k as int] == 0,
{
    let n = units.len();
    let mut i: usize = 0;
    while i < n
        invariant
            0 <= i <= n,
            n == units@.len(),
            forall|j: int| 0 <= j < i ==> units@[j] != 0,
        decreases n - i,
    {
        if units[i] == 0 {
            return i;
        }
        i += 1;
    }
    n
}

/// A terminated UTF-16 string payload decodes back to its characters.
proof fn lemma_text_round_trip(s: Seq<char>)
    ensures
        utf16_str_of_bytes(strip_terminator(utf16_bytes(s) + seq![0u8, 0u8])) == Some(s),
{
    let body = utf16_bytes(s);
    let b = body + seq![0u8, 0u8];
    lemma_le_bytes_even(crate::utf16::utf16_units(s));
    assert(b.len() == body.len() + 2 && b.len() % 2 == 0);
    assert(b[b.len() - 2] == 0 && b[b.len() - 1] == 0);
    assert(strip_terminator(b) =~= body);
    lemma_utf16_string_round_trip(s);
}

} // verus!
