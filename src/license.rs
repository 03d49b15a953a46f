//! License keys: normalisation, grouping, base-32 decoding and the layout of
//! the signed payload.
use crate::text::{chars_of, string_of};
use vstd::arithmetic::power2::{pow2, lemma_pow2_unfold, lemma_pow2_pos};
use vstd::arithmetic::div_mod::lemma_fundamental_div_mod_converse;
use vstd::prelude::*;
use vstd::string::*;

verus! {

/// Length of the Ed25519 signature that follows the payload.
pub const SIGNATURE_LENGTH: usize = 64;

/// File name of the stored license.
pub const LICENSE_FILE_NAME: &'static str = "license.json";

/// Length of the signed payload.
pub const PAYLOAD_LENGTH: usize = 42;

/// Why a license was refused or could not be stored.
#[derive(Debug, Clone, PartialEq, Eq)]
pub enum LicenseError {
    EmptyKey,
    InvalidCharacter(char),
    InvalidPadding,
    InvalidLength,
    UnsupportedVersion(u8),
    MissingPublicKey,
    InvalidPublicKey(String),
    InvalidSignature,
    StoragePath,
    Uuid(String),
    Io(String),
    Serialization(String),
}

pub open spec fn is_ascii_alnum(c: char) -> bool {
    ('0' <= c && c <= '9') || ('a' <= c && c <= 'z') || ('A' <= c && c <= 'Z')
}

pub open spec fn ascii_upper(c: char) -> char {
    if 'a' <= c && c <= 'z' {
        ((c as u32) - 32) as char
    } else {
        c
    }
}

/// The ASCII letters and digits of `s`, upper-cased, in order.
pub open spec fn normalize(s: Seq<char>) -> Seq<char>
    decreases s.len(),
{
    if s.len() == 0 {
        s
    } else if is_ascii_alnum(s.last()) {
        normalize(s.drop_last()).push(ascii_upper(s.last()))
    } else {
        normalize(s.drop_last())
    }
}

/// `s` in groups of five separated by `-`.
pub open spec fn grouped(s: Seq<char>) -> Seq<char>
    decreases s.len(),
{
    if s.len() <= 5 {
        s
    } else {
        s.subrange(0, 5) + seq!['-'] + grouped(s.subrange(5, s.len() as int))
    }
}

/// The position of `c` in the key alphabet `ABCDEFGHJKLMNPQRSTUVWXYZ23456789`
/// (the Latin capitals without `I` and `O`, then the digits `2` to `9`).
pub open spec fn char_value(c: u8) -> Option<u8> {
    if 65 <= c && c <= 72 {
        Some((c - 65) as u8)
    } else if 74 <= c && c <= 78 {
        Some((c - 66) as u8)
    } else if 80 <= c && c <= 90 {
        Some((c - 67) as u8)
    } else if 50 <= c && c <= 57 {
        Some((c - 26) as u8)
    } else {
        None
    }
}

/// The first character of `s` outside the key alphabet.
pub open spec fn first_invalid(s: Seq<char>) -> Option<char>
    decreases s.len(),
{
    if s.len() == 0 {
        None
    } else if (s[0] as u32) >= 256 || char_value((s[0] as u32) as u8) is None {
        Some(s[0])
    } else {
        first_invalid(s.drop_first())
    }
}

/// The digit values of a key of alphabet characters.
pub open spec fn key_values(s: Seq<char>) -> Seq<u8> {
    Seq::new(s.len(), |i: int| char_value((s[i] as u32) as u8)->0)
}

/// The number that base-32 digits spell, most significant first.
pub open spec fn base32_value(v: Seq<u8>) -> nat
    decreases v.len(),
{
    if v.len() == 0 {
        0
    } else {
        base32_value(v.drop_last()) * 32 + v.last() as nat
    }
}

/// The number that bytes spell, most significant first.
pub open spec fn be_value(b: Seq<u8>) -> nat
    decreases b.len(),
{
    if b.len() == 0 {
        0
    } else {
        be_value(b.drop_last()) * 256 + b.last() as nat
    }
}

/// Keeps only the ASCII letters and digits of a key, upper-cased.
pub fn normalized_key(key: &str) -> (r: String)
    ensures
        r@ == normalize(key@),
{
    let v = chars_of(key);
    let mut out: Vec<char> = Vec::new();
    let mut i: usize = 0;
    while i < v.len()
        invariant
            v@ == key@,
            i <= v@.len(),
            out@ == normalize(v@.subrange(0, i as int)),
        decreases v@.len() - i,
    {
        let c = v[i];
        assert(v@.subrange(0, i + 1).drop_last() =~= v@.subrange(0, i as int));
        if ('0' <= c && c <= '9') || ('a' <= c && c <= 'z') || ('A' <= c && c <= 'Z') {
            let u = if 'a' <= c && c <= 'z' {
                ((c as u32) - 32) as u8 as char
            } else {
                c
            };
            out.push(u);
        }
        i = i + 1;
    }
    assert(v@.subrange(0, i as int) =~= v@);
    string_of(&out)
}

/// The normalised key in groups of five separated by `-`.
pub fn format_key(key: &str) -> (r: String)
    ensures
        r@ == grouped(normalize(key@)),
{
    let norm = normalized_key(key);
    let v = chars_of(norm.as_str());
    let n = v.len();
    let mut out: Vec<char> = Vec::new();
    let mut i: usize = 0;
    assert(v@.subrange(0, n as int) =~= v@);
    while n - i > 5
        invariant
            v@ == normalize(key@),
            n == v@.len(),
            i <= n,
            i % 5 == 0,
            out@ + grouped(v@.subrange(i as int, v@.len() as int)) == grouped(v@),
        decreases v@.len() - i,
    {
        let ghost rest = v@.subrange(i as int, v@.len() as int);
        let mut k: usize = 0;
        let ghost start = out@;
        while k < 5
            invariant
                n == v@.len(),
                i + 5 < n,
                k <= 5,
                out@ == start + v@.subrange(i as int, i + k),
            decreases 5 - k,
        {
            out.push(v[i + k]);
            assert(out@ =~= start + v@.subrange(i as int, i + k + 1));
            k = k + 1;
        }
        out.push('-');
        assert(rest.subrange(0, 5) =~= v@.subrange(i as int, i + 5));
        assert(rest.subrange(5, rest.len() as int) =~= v@.subrange(i + 5, v@.len() as int));
        assert(out@ + grouped(v@.subrange(i + 5, v@.len() as int)) =~= start + grouped(rest));
        i = i + 5;
    }
    let ghost start = out@;
    let mut k: usize = i;
    while k < v.len()
        invariant
            i <= k <= v@.len(),
            out@ == start + v@.subrange(i as int, k as int),
        decreases v@.len() - k,
    {
        out.push(v[k]);
        assert(out@ =~= start + v@.subrange(i as int, k + 1));
        k = k + 1;
    }
    assert(out@ =~= grouped(v@));
    string_of(&out)
}

/// The position of `ch` in the key alphabet.
pub fn char_to_value(ch: u8) -> (r: Option<u8>)
    ensures
        r == char_value(ch),
        r matches Some(v) ==> v < 32,
{
    if 65 <= ch && ch <= 72 {
        Some(ch - 65)
    } else if 74 <= ch && ch <= 78 {
        Some(ch - 66)
    } else if 80 <= ch && ch <= 90 {
        Some(ch - 67)
    } else if 50 <= ch && ch <= 57 {
        Some(ch - 26)
    } else {
        None
    }
}

fn pow2_exec(e: u32) -> (r: u32)
    requires
        e < 16,
    ensures
        r == pow2(e as nat),
        r >= 1,
{
    let mut r: u32 = 1;
    let mut i: u32 = 0;
    proof {
        vstd::arithmetic::power2::lemma2_to64();
    }
    while i < e
        invariant
            i <= e < 16,
            r == pow2(i as nat),
            r <= 32768,
        decreases e - i,
    {
        proof {
            lemma_pow2_unfold((i + 1) as nat);
            vstd::arithmetic::power2::lemma2_to64();
        }
        r = r * 2;
        i = i + 1;
    }
    proof {
        lemma_pow2_pos(e as nat);
    }
    r
}

proof fn lemma_be_value_injective(a: Seq<u8>, b: Seq<u8>)
    requires
        a.len() == b.len(),
        be_value(a) == be_value(b),
    ensures
        a == b,
    decreases a.len(),
{
    if a.len() > 0 {
        lemma_fundamental_div_mod_converse(be_value(a) as int, 256, be_value(a.drop_last()) as int, a.last() as int);
        lemma_fundamental_div_mod_converse(be_value(b) as int, 256, be_value(b.drop_last()) as int, b.last() as int);
        lemma_be_value_injective(a.drop_last(), b.drop_last());
        assert(a =~= a.drop_last().push(a.last()));
        assert(b =~= b.drop_last().push(b.last()));
    } else {
        assert(a =~= b);
    }
}

/// The outcome of decoding a key: the bytes whose big-endian value, shifted
/// left by the `5n mod 8` bits left over from `n` base-32 digits, is the value
/// those digits spell; those leftover bits must be zero.
pub open spec fn decoded(key: Seq<char>) -> Result<Seq<u8>, LicenseError> {
    let norm = normalize(key);
    let n = norm.len();
    let v = base32_value(key_values(norm));
    if n == 0 {
        Err(LicenseError::EmptyKey)
    } else if first_invalid(norm) is Some {
        Err(LicenseError::InvalidCharacter(first_invalid(norm)->0))
    } else if v % pow2((5 * n % 8) as nat) != 0 {
        Err(LicenseError::InvalidPadding)
    } else {
        Ok(choose|b: Seq<u8>| b.len() == 5 * n / 8 && be_value(b) * pow2((5 * n % 8) as nat) == v)
    }
}

/// Decodes a license key: normalises it, reads each character as a base-32
/// digit, and packs the digits' bits into bytes, most significant first.
pub fn decode_key(key: &str) -> (r: Result<Vec<u8>, LicenseError>)
    ensures
        match decoded(key@) {
            Ok(b) => r matches Ok(v) && v@ == b,
            Err(e) => r == Err::<Vec<u8>, LicenseError>(e),
        },
{
    let normalized = normalized_key(key);
    let v = chars_of(normalized.as_str());
    let ghost norm = v@;
    let n = v.len();
    if n == 0 {
        return Err(LicenseError::EmptyKey);
    }
    let mut buffer: u32 = 0;
    let mut bits: u32 = 0;
    let mut output: Vec<u8> = Vec::new();
    let mut i: usize = 0;
    proof {
        lemma_pow2_pos(0);
        vstd::arithmetic::power2::lemma2_to64();
        assert(norm.subrange(0, 0) =~= Seq::<char>::empty());
        assert(key_values(norm).subrange(0, 0) =~= Seq::<u8>::empty());
        assert(norm.subrange(0, n as int) =~= norm);
    }
    while i < n
        invariant
            norm == v@,
            norm == normalize(key@),
            n == norm.len(),
            i <= n,
            bits < 8,
            buffer < pow2(bits as nat),
            first_invalid(norm) == first_invalid(norm.subrange(i as int, n as int)),
            base32_value(key_values(norm).subrange(0, i as int)) == be_value(output@) * pow2(
                bits as nat,
            ) + buffer,
            5 * i == 8 * output@.len() + bits,
        decreases n - i,
    {
        let ch = v[i];
        proof {
            assert(norm.subrange(i as int, n as int)[0] == ch);
            assert(norm.subrange(i as int, n as int).drop_first() =~= norm.subrange(i + 1, n as int));
        }
        if ch as u32 >= 256 {
            return Err(LicenseError::InvalidCharacter(ch));
        }
        let value = match char_to_value(ch as u32 as u8) {
            Some(val) => val,
            None => {
                return Err(LicenseError::InvalidCharacter(ch));
            },
        };
        let ghost before = base32_value(key_values(norm).subrange(0, i as int));
        proof {
            assert(key_values(norm).subrange(0, i + 1).drop_last() =~= key_values(norm).subrange(0, i as int));
            assert(key_values(norm).subrange(0, i + 1).last() == value);
            vstd::arithmetic::power2::lemma2_to64();
            lemma_pow2_unfold((bits + 1) as nat);
            lemma_pow2_unfold((bits + 2) as nat);
            lemma_pow2_unfold((bits + 3) as nat);
            lemma_pow2_unfold((bits + 4) as nat);
            lemma_pow2_unfold((bits + 5) as nat);
        }
        let ghost old_out = be_value(output@);
        let ghost p0 = pow2(bits as nat);
        assert(buffer as int * 32 + value < pow2((bits + 5) as nat)) by (nonlinear_arith)
            requires
                buffer < p0,
                value < 32,
                pow2((bits + 5) as nat) == 32 * p0,
        ;
        assert(before * 32 + value == old_out * pow2((bits + 5) as nat) + (buffer * 32 + value))
            by (nonlinear_arith)
            requires
                before == old_out * p0 + buffer,
                pow2((bits + 5) as nat) == 32 * p0,
        ;
        buffer = buffer * 32 + value as u32;
        bits = bits + 5;
        if bits >= 8 {
            bits = bits - 8;
            let p = pow2_exec(bits);
            let byte = buffer / p;
            let rest = buffer % p;
            proof {
                lemma_pow2_unfold((bits + 1) as nat);
                lemma_pow2_unfold((bits + 2) as nat);
                lemma_pow2_unfold((bits + 3) as nat);
                lemma_pow2_unfold((bits + 4) as nat);
                lemma_pow2_unfold((bits + 5) as nat);
                lemma_pow2_unfold((bits + 6) as nat);
                lemma_pow2_unfold((bits + 7) as nat);
                lemma_pow2_unfold((bits + 8) as nat);
            }
            let ghost whole = buffer;
            assert(byte < 256) by (nonlinear_arith)
                requires
                    whole < pow2((bits + 8) as nat),
                    pow2((bits + 8) as nat) == 256 * p,
                    byte == whole / p,
                    p >= 1,
            ;
            let ghost prev = be_value(output@);
            let ghost prev_seq = output@;
            output.push(byte as u8);
            buffer = rest;
            proof {
                assert(output@.drop_last() =~= prev_seq);
                assert(output@.last() == byte as u8);
                assert(be_value(output@) == prev * 256 + byte);
                assert(whole == byte * p + rest) by (nonlinear_arith)
                    requires
                        byte == whole / p,
                        rest == whole % p,
                        p >= 1,
                ;
                assert(prev * pow2((bits + 8) as nat) + whole == (prev * 256 + byte) * p + rest)
                    by (nonlinear_arith)
                    requires
                        pow2((bits + 8) as nat) == 256 * p,
                        whole == byte * p + rest,
                ;
            }
        }
        i = i + 1;
    }
    proof {
        assert(norm.subrange(n as int, n as int) =~= Seq::<char>::empty());
        assert(key_values(norm).subrange(0, n as int) =~= key_values(norm));
        lemma_fundamental_div_mod_converse(5 * n as int, 8, output@.len() as int, bits as int);
        lemma_pow2_pos(bits as nat);
        lemma_fundamental_div_mod_converse(
            base32_value(key_values(norm)) as int,
            pow2(bits as nat) as int,
            be_value(output@) as int,
            buffer as int,
        );
    }
    if bits > 0 && buffer != 0 {
        return Err(LicenseError::InvalidPadding);
    }
    proof {
        let b = output@;
        let w = choose|b: Seq<u8>| b.len() == 5 * n / 8 && be_value(b) * pow2((5 * n % 8) as nat)
            == base32_value(key_values(norm));
        assert(b.len() == 5 * n / 8 && be_value(b) * pow2((5 * n % 8) as nat) == base32_value(
            key_values(norm),
        ));
        lemma_pow2_pos((5 * n % 8) as nat);
        assert(be_value(w) == be_value(b)) by (nonlinear_arith)
            requires
                be_value(w) * pow2((5 * n % 8) as nat) == be_value(b) * pow2((5 * n % 8) as nat),
                pow2((5 * n % 8) as nat) > 0,
        ;
        lemma_be_value_injective(w, b);
    }
    Ok(output)
}

/// A verified license.
#[derive(Debug, Clone)]
pub struct LicenseInfo {
    pub key: String,
    pub license_id: String,
    pub order_id: String,
    pub max_major_version: u8,
    pub issued_at: u64,
    pub payload: String,
    pub signature: String,
    pub activated_at: Option<u64>,
}

/// The fields of a signed payload.
#[derive(Debug, Clone)]
pub struct ParsedPayload {
    pub license_id: String,
    pub order_id: String,
    pub max_major_version: u8,
    pub issued_at: u64,
}

/// The lower-case hexadecimal digit of `n < 16`.
pub open spec fn hex_digit(n: nat) -> char {
    if n < 10 {
        ((n + 48) as u32) as char
    } else {
        ((n + 87) as u32) as char
    }
}

/// Two lower-case hexadecimal digits for each byte.
pub open spec fn hex_of(b: Seq<u8>) -> Seq<char>
    decreases b.len(),
{
    if b.len() == 0 {
        seq![]
    } else {
        hex_of(b.drop_last()) + seq![hex_digit((b.last() / 16) as nat), hex_digit((b.last() % 16) as nat)]
    }
}

/// The hyphenated text of a UUID: groups of 4, 2, 2, 2 and 6 bytes in hex.
pub open spec fn uuid_text(b: Seq<u8>) -> Seq<char> {
    hex_of(b.subrange(0, 4)) + seq!['-'] + hex_of(b.subrange(4, 6)) + seq!['-'] + hex_of(b.subrange(6, 8))
        + seq!['-'] + hex_of(b.subrange(8, 10)) + seq!['-'] + hex_of(b.subrange(10, 16))
}

/// Relies on `uuid::Uuid::from_slice`, which fails only on a length other than
/// 16, and on its `Display`, which writes the hyphenated lower-case form.
#[verifier::external_body]
fn uuid_string(b: &[u8]) -> (r: String)
    requires
        b@.len() == 16,
    ensures
        r@ == uuid_text(b@),
{
    match uuid::Uuid::from_slice(b) {
        Ok(id) => id.to_string(),
        Err(_) => String::new(),
    }
}

/// Copies `b[lo..hi]`.
fn copy_bytes(b: &[u8], lo: usize, hi: usize) -> (r: Vec<u8>)
    requires
        lo <= hi <= b@.len(),
    ensures
        r@ == b@.subrange(lo as int, hi as int),
{
    let mut out: Vec<u8> = Vec::new();
    let mut i: usize = lo;
    while i < hi
        invariant
            lo <= i <= hi <= b@.len(),
            out@ == b@.subrange(lo as int, i as int),
        decreases hi - i,
    {
        out.push(b[i]);
        assert(out@ =~= b@.subrange(lo as int, i + 1));
        i = i + 1;
    }
    out
}

/// The payload read from `bytes`: version byte 1, two UUIDs, the highest major
/// version covered, and the issue time as a big-endian `u64`.
pub open spec fn payload_of(bytes: Seq<u8>) -> Result<(Seq<char>, Seq<char>, u8, nat), LicenseError> {
    if bytes.len() != PAYLOAD_LENGTH {
        Err(LicenseError::InvalidLength)
    } else if bytes[0] != 1 {
        Err(LicenseError::UnsupportedVersion(bytes[0]))
    } else {
        Ok((uuid_text(bytes.subrange(1, 17)), uuid_text(bytes.subrange(17, 33)), bytes[33], be_value(bytes.subrange(34, 42))))
    }
}

/// Reads the fields of a signed payload.
pub fn parse_payload(bytes: &[u8]) -> (r: Result<ParsedPayload, LicenseError>)
    ensures
        match payload_of(bytes@) {
            Ok(p) => r matches Ok(q) && q.license_id@ == p.0 && q.order_id@ == p.1 && q.max_major_version == p.2 && q.issued_at == p.3,
            Err(e) => r == Err::<ParsedPayload, LicenseError>(e),
        },
{
    if bytes.len() != PAYLOAD_LENGTH {
        return Err(LicenseError::InvalidLength);
    }
    let version = bytes[0];
    if version != 1 {
        return Err(LicenseError::UnsupportedVersion(version));
    }
    let license_bytes = copy_bytes(bytes, 1, 17);
    let order_bytes = copy_bytes(bytes, 17, 33);
    let license_id = uuid_string(license_bytes.as_slice());
    let order_id = uuid_string(order_bytes.as_slice());
    let mut issued_at: u64 = 0;
    let mut i: usize = 34;
    proof {
        assert(bytes@.subrange(34, 34) =~= Seq::<u8>::empty());
        vstd::arithmetic::power2::lemma2_to64();
    }
    while i < 42
        invariant
            34 <= i <= 42,
            bytes@.len() == 42,
            issued_at == be_value(bytes@.subrange(34, i as int)),
            issued_at < pow2((8 * (i - 34)) as nat),
        decreases 42 - i,
    {
        proof {
            assert(bytes@.subrange(34, i + 1).drop_last() =~= bytes@.subrange(34, i as int));
            vstd::arithmetic::power2::lemma2_to64();
            vstd::arithmetic::power2::lemma_pow2_adds((8 * (i - 34)) as nat, 8);
        }
        let ghost p = pow2((8 * (i - 34)) as nat);
        let ghost q = pow2((8 * (i + 1 - 34)) as nat);
        proof {
            if i + 1 < 42 {
                vstd::arithmetic::power2::lemma_pow2_strictly_increases((8 * (i + 1 - 34)) as nat, 64);
            }
        }
        assert(issued_at as int * 256 + bytes@[i as int] < q) by (nonlinear_arith)
            requires
                issued_at < p,
                bytes@[i as int] < 256,
                q == p * 256,
        ;
        issued_at = issued_at * 256 + bytes[i] as u64;
        i = i + 1;
    }
    Ok(ParsedPayload { license_id, order_id, max_major_version: bytes[33], issued_at })
}

/// The code under which a license error is reported.
pub open spec fn license_code(e: LicenseError) -> &'static str {
    match e {
        LicenseError::EmptyKey => "license_empty",
        LicenseError::InvalidCharacter(_) => "license_invalid_char",
        LicenseError::InvalidPadding => "license_invalid_char",
        LicenseError::InvalidLength => "license_length",
        LicenseError::UnsupportedVersion(_) => "license_version",
        LicenseError::MissingPublicKey => "license_public_key",
        LicenseError::InvalidPublicKey(_) => "license_public_key",
        LicenseError::InvalidSignature => "license_signature",
        LicenseError::StoragePath => "license_storage",
        LicenseError::Io(_) => "license_storage",
        LicenseError::Serialization(_) => "license_serialization",
        LicenseError::Uuid(_) => "license_uuid",
    }
}

/// The description of a license error.
pub open spec fn license_message(e: LicenseError) -> Seq<char> {
    match e {
        LicenseError::EmptyKey => "license key is empty"@,
        LicenseError::InvalidCharacter(c) => "license key contains invalid character: "@ + seq![c],
        LicenseError::InvalidPadding => "license key has invalid padding"@,
        LicenseError::InvalidLength => "license payload length is invalid"@,
        LicenseError::UnsupportedVersion(v) => "license payload version "@ + crate::completion::int_text(v as int) + " is unsupported"@,
        LicenseError::MissingPublicKey => "missing signing public key"@,
        LicenseError::InvalidPublicKey(m) => "signing public key is invalid: "@ + m@,
        LicenseError::InvalidSignature => "signature verification failed"@,
        LicenseError::StoragePath => "unable to determine license storage path"@,
        LicenseError::Uuid(m) => m@,
        LicenseError::Io(m) => m@,
        LicenseError::Serialization(m) => m@,
    }
}

impl LicenseError {
    /// The stable code of the error.
    pub fn code(&self) -> (r: &'static str)
        ensures
            r == license_code(*self),
    {
        match self {
            LicenseError::EmptyKey => "license_empty",
            LicenseError::InvalidCharacter(_) | LicenseError::InvalidPadding => "license_invalid_char",
            LicenseError::InvalidLength => "license_length",
            LicenseError::UnsupportedVersion(_) => "license_version",
            LicenseError::MissingPublicKey | LicenseError::InvalidPublicKey(_) => "license_public_key",
            LicenseError::InvalidSignature => "license_signature",
            LicenseError::StoragePath | LicenseError::Io(_) => "license_storage",
            LicenseError::Serialization(_) => "license_serialization",
            LicenseError::Uuid(_) => "license_uuid",
        }
    }

    /// The description of the error.
    pub fn message(&self) -> (r: String)
        ensures
            r@ == license_message(*self),
    {
        match self {
            LicenseError::EmptyKey => String::from_str("license key is empty"),
            LicenseError::InvalidCharacter(c) => {
                let mut v: Vec<char> = Vec::new();
                v.push(*c);
                let s = string_of(&v);
                String::from_str("license key contains invalid character: ").concat(s.as_str())
            },
            LicenseError::InvalidPadding => String::from_str("license key has invalid padding"),
            LicenseError::InvalidLength => String::from_str("license payload length is invalid"),
            LicenseError::UnsupportedVersion(v) => {
                let digits = crate::completion::i32_text(*v as i32);
                String::from_str("license payload version ").concat(digits.as_str()).concat(" is unsupported")
            },
            LicenseError::MissingPublicKey => String::from_str("missing signing public key"),
            LicenseError::InvalidPublicKey(m) => String::from_str("signing public key is invalid: ").concat(m.as_str()),
            LicenseError::InvalidSignature => String::from_str("signature verification failed"),
            LicenseError::StoragePath => String::from_str("unable to determine license storage path"),
            LicenseError::Uuid(m) => m.clone(),
            LicenseError::Io(m) => m.clone(),
            LicenseError::Serialization(m) => m.clone(),
        }
    }

    /// The application error that reports this one.
    pub fn to_app_error(&self) -> (r: crate::error::AppError)
        ensures
            r.code == license_code(*self),
            r.message@ == license_message(*self),
    {
        crate::error::AppError { code: self.code(), message: self.message() }
    }
}

/// The standard, padded base64 text of bytes, as the `base64` crate's
/// `STANDARD` engine writes it.
pub uninterp spec fn base64_text(b: Seq<u8>) -> Seq<char>;

/// The bytes that a standard base64 text decodes to, where it is valid.
pub uninterp spec fn base64_bytes(t: Seq<char>) -> Option<Seq<u8>>;

/// Whether 32 bytes are an Ed25519 public key that ed25519-dalek accepts.
pub uninterp spec fn ed25519_key_ok(pk: Seq<u8>) -> bool;

/// Whether `sig` is an Ed25519 signature of `msg` that ed25519-dalek accepts
/// under the public key `pk`.
pub uninterp spec fn ed25519_signature_ok(pk: Seq<u8>, msg: Seq<u8>, sig: Seq<u8>) -> bool;

/// Relies on `base64::Engine::encode` with the `STANDARD` engine: padded
/// output, four characters for every started group of three bytes.
#[verifier::external_body]
fn base64_encode(b: &[u8]) -> (r: String)
    ensures
        r@ == base64_text(b@),
        r@.len() == 4 * ((b@.len() + 2) / 3),
{
    base64::Engine::encode(&base64::engine::general_purpose::STANDARD, b)
}

/// Relies on `base64::Engine::decode` with the `STANDARD` engine; the error
/// is the crate's description of the fault.
#[verifier::external_body]
fn base64_decode(text: &str) -> (r: Result<Vec<u8>, String>)
    ensures
        r matches Ok(b) ==> base64_bytes(text@) == Some(b@),
        r is Err ==> base64_bytes(text@) is None,
{
    match base64::Engine::decode(&base64::engine::general_purpose::STANDARD, text) {
        Ok(b) => Ok(b),
        Err(e) => Err(e.to_string()),
    }
}

/// Relies on `ed25519_dalek::VerifyingKey::from_bytes`; the error is the
/// crate's description of why the key was refused.
#[verifier::external_body]
fn ed25519_key_error(pk: &[u8]) -> (r: Option<String>)
    requires
        pk@.len() == 32,
    ensures
        r is None <==> ed25519_key_ok(pk@),
{
    let mut bytes = [0u8; 32];
    bytes.copy_from_slice(pk);
    match ed25519_dalek::VerifyingKey::from_bytes(&bytes) {
        Ok(_) => None,
        Err(e) => Some(e.to_string()),
    }
}

/// Relies on `ed25519_dalek::Verifier::verify` of `VerifyingKey` (the key
/// and the signature converted from their bytes).
#[verifier::external_body]
fn ed25519_verify(pk: &[u8], msg: &[u8], sig: &[u8]) -> (r: bool)
    requires
        pk@.len() == 32,
        sig@.len() == 64,
    ensures
        r == (ed25519_key_ok(pk@) && ed25519_signature_ok(pk@, msg@, sig@)),
{
    let mut key_bytes = [0u8; 32];
    key_bytes.copy_from_slice(pk);
    let mut sig_bytes = [0u8; 64];
    sig_bytes.copy_from_slice(sig);
    match ed25519_dalek::VerifyingKey::from_bytes(&key_bytes) {
        Ok(key) => ed25519_dalek::Verifier::verify(
            &key,
            msg,
            &ed25519_dalek::Signature::from_bytes(&sig_bytes),
        ).is_ok(),
        Err(_) => false,
    }
}

/// Verifies a license key against the base64 text of the Ed25519 public key
/// (`None` when no key is configured). In order: the key must decode, to a
/// payload and a signature; a public key must be present, valid base64 of 32
/// bytes and a valid key; the signature must verify; the payload must parse.
pub fn verify(key: &str, public_key: Option<&str>) -> (r: Result<LicenseInfo, LicenseError>)
    ensures
        decoded(key@) matches Err(e) ==> r == Err::<LicenseInfo, LicenseError>(e),
        decoded(key@) matches Ok(b) ==> (b.len() != PAYLOAD_LENGTH + SIGNATURE_LENGTH ==> r
            == Err::<LicenseInfo, LicenseError>(LicenseError::InvalidLength)),
        decoded(key@) matches Ok(b) ==> (b.len() == PAYLOAD_LENGTH + SIGNATURE_LENGTH ==> match public_key {
            None => r == Err::<LicenseInfo, LicenseError>(LicenseError::MissingPublicKey),
            Some(t) => match base64_bytes(t@) {
                None => r matches Err(LicenseError::InvalidPublicKey(_)),
                Some(pk) => if pk.len() != 32 || !ed25519_key_ok(pk) {
                    r matches Err(LicenseError::InvalidPublicKey(_))
                } else if !ed25519_signature_ok(pk, b.subrange(0, 42), b.subrange(42, 106)) {
                    r == Err::<LicenseInfo, LicenseError>(LicenseError::InvalidSignature)
                } else {
                    match payload_of(b.subrange(0, 42)) {
                        Err(e) => r == Err::<LicenseInfo, LicenseError>(e),
                        Ok(p) => r matches Ok(info) && info.key@ == grouped(normalize(key@))
                            && info.license_id@ == p.0 && info.order_id@ == p.1
                            && info.max_major_version == p.2 && info.issued_at == p.3
                            && info.payload@ == base64_text(b.subrange(0, 42))
                            && info.signature@ == base64_text(b.subrange(42, 106))
                            && info.activated_at is None,
                    }
                },
            },
        }),
{
    let blob = match decode_key(key) {
        Ok(b) => b,
        Err(e) => { return Err(e); },
    };
    if blob.len() != PAYLOAD_LENGTH + SIGNATURE_LENGTH {
        return Err(LicenseError::InvalidLength);
    }
    let text = match public_key {
        None => { return Err(LicenseError::MissingPublicKey); },
        Some(t) => t,
    };
    let pk = match base64_decode(text) {
        Ok(b) => b,
        Err(m) => { return Err(LicenseError::InvalidPublicKey(m)); },
    };
    if pk.len() != 32 {
        return Err(LicenseError::InvalidPublicKey(String::from_str("expected 32 bytes")));
    }
    match ed25519_key_error(pk.as_slice()) {
        Some(m) => { return Err(LicenseError::InvalidPublicKey(m)); },
        None => {},
    }
    let payload = copy_bytes(blob.as_slice(), 0, PAYLOAD_LENGTH);
    let signature = copy_bytes(blob.as_slice(), PAYLOAD_LENGTH, PAYLOAD_LENGTH + SIGNATURE_LENGTH);
    if !ed25519_verify(pk.as_slice(), payload.as_slice(), signature.as_slice()) {
        return Err(LicenseError::InvalidSignature);
    }
    let parsed = match parse_payload(payload.as_slice()) {
        Ok(p) => p,
        Err(e) => { return Err(e); },
    };
    Ok(LicenseInfo {
        key: format_key(key),
        license_id: parsed.license_id,
        order_id: parsed.order_id,
        max_major_version: parsed.max_major_version,
        issued_at: parsed.issued_at,
        payload: base64_encode(payload.as_slice()),
        signature: base64_encode(signature.as_slice()),
        activated_at: None,
    })
}

} // verus!
