use vstd::prelude::*;

use crate::text::{ascii_bytes, ascii_lower, lower_seq, matches_at, matches_at_str, str_chars, string_of, subrange_vec};

verus! {

// ---------------------------------------------------------------------------
// The magnet exact-topic grammar
// ---------------------------------------------------------------------------
//
// A magnet URI names its content by an exact topic of the form
// `xt=urn:<hash type>:<hash>`, with the hash in base32 (32 characters)
// or in hex (40 characters).  Only BitTorrent info hashes (`btih`) are
// handled.

pub open spec fn is_alnum(c: char) -> bool {
    (48 <= c as u32 <= 57) || (65 <= c as u32 <= 90) || (97 <= c as u32 <= 122)
}

/// Length of the maximal alphanumeric run starting at `i`.
pub open spec fn alnum_run(s: Seq<char>, i: int) -> int
    decreases s.len() - i,
{
    if i < 0 || i >= s.len() || !is_alnum(s[i]) {
        0
    } else {
        1 + alnum_run(s, i + 1)
    }
}

/// Length of the hash-type name starting at `i`, or 0 when none starts
/// there.
pub open spec fn type_len_at(s: Seq<char>, i: int) -> int {
    if matches_at(s, i, "sha1"@) {
        4
    } else if matches_at(s, i, "btih"@) {
        4
    } else if matches_at(s, i, "ed2k"@) {
        4
    } else if matches_at(s, i, "aich"@) {
        4
    } else if matches_at(s, i, "kzhash"@) {
        6
    } else if matches_at(s, i, "md5"@) {
        3
    } else if matches_at(s, i, "tree:tiger"@) {
        10
    } else {
        0
    }
}

/// An exact-topic occurrence: the hash type and the hash characters.
pub struct MagnetHit {
    pub kind: Seq<char>,
    pub hash: Seq<char>,
}

/// The exact topic starting at position `i`, if one starts there.
pub open spec fn magnet_hit(s: Seq<char>, i: int) -> Option<MagnetHit> {
    if matches_at(s, i, "xt=urn:"@) && type_len_at(s, i + 7) >= 1 {
        let tl = type_len_at(s, i + 7);
        if i + 7 + tl < s.len() && s[i + 7 + tl] == ':' && alnum_run(s, i + 8 + tl) >= 1 {
            Some(
                MagnetHit {
                    kind: s.subrange(i + 7, i + 7 + tl),
                    hash: s.subrange(i + 8 + tl, i + 8 + tl + alnum_run(s, i + 8 + tl)),
                },
            )
        } else {
            None
        }
    } else {
        None
    }
}

/// The position of the leftmost exact topic at or after `i`.
pub open spec fn magnet_find_from(s: Seq<char>, i: int) -> Option<int>
    decreases s.len() - i,
{
    if i < 0 || i >= s.len() {
        None
    } else if magnet_hit(s, i) is Some {
        Some(i)
    } else {
        magnet_find_from(s, i + 1)
    }
}

// ---------------------------------------------------------------------------
// The outside encodings
// ---------------------------------------------------------------------------

/// What `data_encoding::BASE32` decodes the given bytes to: `None` when
/// they are not well-formed RFC 4648 base32.  The result depends on the
/// input alone.
pub uninterp spec fn base32_decoded(s: Seq<u8>) -> Option<Seq<u8>>;

/// Relies on `data_encoding::BASE32::decode`: RFC 4648 base32 decoding,
/// a function of the input bytes alone, failing exactly on ill-formed
/// input.
#[verifier::external_body]
fn base32_decode(input: &[u8]) -> (r: Option<Vec<u8>>)
    ensures
        r is Some <==> base32_decoded(input@) is Some,
        r matches Some(v) ==> base32_decoded(input@) == Some(v@),
{
    data_encoding::BASE32.decode(input).ok()
}

pub open spec fn hex_digit(d: int) -> char {
    if d == 0 {
        '0'
    } else if d == 1 {
        '1'
    } else if d == 2 {
        '2'
    } else if d == 3 {
        '3'
    } else if d == 4 {
        '4'
    } else if d == 5 {
        '5'
    } else if d == 6 {
        '6'
    } else if d == 7 {
        '7'
    } else if d == 8 {
        '8'
    } else if d == 9 {
        '9'
    } else if d == 10 {
        'a'
    } else if d == 11 {
        'b'
    } else if d == 12 {
        'c'
    } else if d == 13 {
        'd'
    } else if d == 14 {
        'e'
    } else {
        'f'
    }
}

/// The lower-case hex encoding of a byte sequence: two digits per byte,
/// high nibble first.
pub open spec fn hex_of(bs: Seq<u8>) -> Seq<char>
    decreases bs.len(),
{
    if bs.len() == 0 {
        seq![]
    } else {
        hex_of(bs.drop_last()) + seq![
            hex_digit(bs.last() as int / 16),
            hex_digit(bs.last() as int % 16),
        ]
    }
}

/// Relies on `data_encoding::HEXLOWER::encode`: two lower-case hex
/// digits per byte, high nibble first.
#[verifier::external_body]
fn hex_lower(bytes: &[u8]) -> (r: String)
    ensures
        r@ == hex_of(bytes@),
{
    data_encoding::HEXLOWER.encode(bytes)
}

// ---------------------------------------------------------------------------
// Info-hash extraction
// ---------------------------------------------------------------------------

/// The ways info-hash extraction can fail.
#[derive(Clone, Copy, Debug, PartialEq, Eq, Structural)]
pub enum MagnetError {
    /// No exact topic was found in the URI.
    UnsupportedScheme,
    /// The exact topic names a hash type other than `btih`.
    UnsupportedHashType,
    /// The hash has neither base32 nor hex length; the length is
    /// carried.
    InvalidHashLength(usize),
    /// The 32-character hash is not well-formed base32.
    DecodeFailed,
}

/// What extracting the info hash from a magnet URI yields: the hash of
/// the leftmost `btih` exact topic, decoded to lower-case hex when it
/// is base32, lower-cased when it is already hex.
pub open spec fn spec_info_hash(s: Seq<char>) -> Result<Seq<char>, MagnetError> {
    match magnet_find_from(s, 0) {
        Option::None => Err(MagnetError::UnsupportedScheme),
        Option::Some(i) => match magnet_hit(s, i) {
            Option::None => Err(MagnetError::UnsupportedScheme),
            Option::Some(h) => {
                if h.kind != "btih"@ {
                    Err(MagnetError::UnsupportedHashType)
                } else if h.hash.len() == 32 {
                    match base32_decoded(ascii_bytes(h.hash)) {
                        Option::Some(bytes) => Ok(hex_of(bytes)),
                        Option::None => Err(MagnetError::DecodeFailed),
                    }
                } else if h.hash.len() == 40 {
                    Ok(lower_seq(h.hash))
                } else {
                    Err(MagnetError::InvalidHashLength(h.hash.len() as usize))
                }
            },
        },
    }
}

fn magnet_hit_x(v: &Vec<char>, i: usize) -> (r: Option<(usize, usize)>)
    ensures
        match r {
            Some(p) => ({
                &&& magnet_hit(v@, i as int) matches Some(h) && h.kind == v@.subrange(
                    i + 7,
                    p.0 as int,
                ) && h.hash == v@.subrange(p.0 as int + 1, p.1 as int)
                &&& i + 7 <= p.0 < p.1 <= v.len()
                &&& forall|j: int| p.0 + 1 <= j < p.1 ==> is_alnum(v@[j])
            }),
            None => magnet_hit(v@, i as int) is None,
        },
{
    if !matches_at_str(v, i, "xt=urn:") {
        return None;
    }
    proof {
        reveal_strlit("xt=urn:");
        assert(i + 7 <= v.len());
    }
    let tl: usize = if matches_at_str(v, i + 7, "sha1") {
        proof {
            reveal_strlit("sha1");
        }
        4
    } else if matches_at_str(v, i + 7, "btih") {
        proof {
            reveal_strlit("btih");
        }
        4
    } else if matches_at_str(v, i + 7, "ed2k") {
        proof {
            reveal_strlit("ed2k");
        }
        4
    } else if matches_at_str(v, i + 7, "aich") {
        proof {
            reveal_strlit("aich");
        }
        4
    } else if matches_at_str(v, i + 7, "kzhash") {
        proof {
            reveal_strlit("kzhash");
        }
        6
    } else if matches_at_str(v, i + 7, "md5") {
        proof {
            reveal_strlit("md5");
        }
        3
    } else if matches_at_str(v, i + 7, "tree:tiger") {
        proof {
            reveal_strlit("tree:tiger");
        }
        10
    } else {
        return None;
    };
    proof {
        assert(i + 7 + tl <= v.len());
    }
    let colon = i + 7 + tl;
    if colon >= v.len() || v[colon] != ':' {
        return None;
    }
    let run = alnum_run_x(v, colon + 1);
    if run == 0 {
        return None;
    }
    Some((colon, colon + 1 + run))
}

fn alnum_run_x(v: &Vec<char>, i: usize) -> (r: usize)
    requires
        i <= v.len(),
    ensures
        r == alnum_run(v@, i as int),
        i + r <= v.len(),
        forall|j: int| i <= j < i + r ==> is_alnum(v@[j]),
        (i < v.len() && is_alnum(v@[i as int])) ==> r >= 1,
    decreases v.len() - i,
{
    let in_range = if i < v.len() {
        let u = v[i] as u32;
        (48 <= u && u <= 57) || (65 <= u && u <= 90) || (97 <= u && u <= 122)
    } else {
        false
    };
    if in_range {
        let rest = alnum_run_x(v, i + 1);
        1 + rest
    } else {
        0
    }
}

fn magnet_find_x(v: &Vec<char>, i: usize) -> (r: Option<usize>)
    requires
        i <= v.len(),
    ensures
        match r {
            Some(ix) => magnet_find_from(v@, i as int) == Some(ix as int) && i <= ix < v.len(),
            None => magnet_find_from(v@, i as int) is None,
        },
    decreases v.len() - i,
{
    if i >= v.len() {
        return None;
    }
    if magnet_hit_x(v, i).is_some() {
        Some(i)
    } else {
        magnet_find_x(v, i + 1)
    }
}

/// Extracts the BitTorrent info hash from a magnet URI, as lower-case
/// hex.
pub fn get_info_hash_from_magnet(magnet: &str) -> (r: Result<String, MagnetError>)
    ensures
        match r {
            Ok(s) => spec_info_hash(magnet@) == Ok::<Seq<char>, MagnetError>(s@),
            Err(e) => spec_info_hash(magnet@) == Err::<Seq<char>, MagnetError>(e),
        },
{
    let v = str_chars(magnet);
    match magnet_find_x(&v, 0) {
        None => Err(MagnetError::UnsupportedScheme),
        Some(ix) => {
            match magnet_hit_x(&v, ix) {
                None => Err(MagnetError::UnsupportedScheme),
                Some(p) => {
                    let ghost hk = v@.subrange(ix + 7, p.0 as int);
                    let is_btih = matches_at_str(&v, ix + 7, "btih") && p.0 == ix + 7 + 4;
                    proof {
                        reveal_strlit("btih");
                        if is_btih {
                            assert(hk =~= "btih"@);
                        } else {
                            if hk == "btih"@ {
                                assert(matches_at(v@, ix + 7, "btih"@)) by {
                                    assert forall|k: int| 0 <= k < 4 implies v@[ix + 7 + k]
                                        == "btih"@[k] by {
                                        assert(hk[k] == v@[ix + 7 + k]);
                                    }
                                }
                                assert(false);
                            }
                        }
                    }
                    if !is_btih {
                        return Err(MagnetError::UnsupportedHashType);
                    }
                    let hlen = p.1 - (p.0 + 1);
                    if hlen == 32 {
                        let mut bytes: Vec<u8> = Vec::new();
                        let mut k: usize = p.0 + 1;
                        while k < p.1
                            invariant
                                p.0 + 1 <= k <= p.1 <= v.len(),
                                forall|j: int| p.0 + 1 <= j < p.1 ==> is_alnum(v@[j]),
                                bytes@ == ascii_bytes(v@.subrange(p.0 + 1, k as int)),
                            decreases p.1 - k,
                        {
                            let u = v[k] as u32;
                            bytes.push(u as u8);
                            proof {
                                assert(v@.subrange(p.0 + 1, k as int).push(v@[k as int]) =~= v@
                                    .subrange(p.0 + 1, k as int + 1));
                                assert(ascii_bytes(v@.subrange(p.0 + 1, k as int)).push(
                                    ((v@[k as int] as u32) as u8),
                                ) =~= ascii_bytes(v@.subrange(p.0 + 1, k as int + 1)));
                            }
                            k = k + 1;
                        }
                        match base32_decode(bytes.as_slice()) {
                            Some(decoded) => Ok(hex_lower(decoded.as_slice())),
                            None => Err(MagnetError::DecodeFailed),
                        }
                    } else if hlen == 40 {
                        let hash = subrange_vec(&v, p.0 + 1, p.1);
                        let mut low: Vec<char> = Vec::new();
                        let mut k: usize = 0;
                        while k < hash.len()
                            invariant
                                k <= hash.len(),
                                hash@ == v@.subrange(p.0 + 1, p.1 as int),
                                low@ == lower_seq(hash@.take(k as int)),
                            decreases hash.len() - k,
                        {
                            let c = hash[k];
                            let u = c as u32;
                            let lc: char = if 65 <= u && u <= 90 {
                                ((u + 32) as u8) as char
                            } else {
                                c
                            };
                            low.push(lc);
                            proof {
                                assert(hash@.take(k as int).push(hash@[k as int]) =~= hash@.take(
                                    k as int + 1,
                                ));
                                assert(lower_seq(hash@.take(k as int)).push(
                                    ascii_lower(hash@[k as int]),
                                ) =~= lower_seq(hash@.take(k as int + 1)));
                            }
                            k = k + 1;
                        }
                        proof {
                            assert(hash@.take(hash@.len() as int) =~= hash@);
                        }
                        Ok(string_of(&low))
                    } else {
                        Err(MagnetError::InvalidHashLength(hlen))
                    }
                },
            }
        },
    }
}

} // verus!
