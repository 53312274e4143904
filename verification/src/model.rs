//! Mathematical model of the AVCC and Annex-B byte formats.
//!
//! Everything here is specification-level: ghost values standing for parsed
//! NAL units and configuration records, and spec functions that pin down, byte
//! for byte, what parsing and assembling mean. The executable functions in the
//! other modules are proved against these definitions.

use vstd::prelude::*;

verus! {

/// Why a parse or an assembly call failed.
///
/// The four `Truncated` variants report a buffer shorter than a structurally
/// declared field; `MissingParameterSet` reports a keyframe met while the
/// configuration holds no SPS or no PPS unit.
#[derive(Clone, Copy, Debug, PartialEq, Eq, Structural)]
pub enum NaluError {
    /// The configuration record ended at a field boundary.
    TruncatedConfig,
    /// Fewer bytes remain than the declared length-field width.
    TruncatedLength,
    /// Fewer bytes remain than a length field declared.
    TruncatedPayload,
    /// A NAL unit span was empty where a header byte was expected.
    TruncatedUnit,
    /// A keyframe was met while the configuration has no SPS or no PPS.
    MissingParameterSet,
}

/// Abstract value of one NAL unit: the two header subfields and the raw
/// payload bytes (the header byte itself excluded).
pub ghost struct NaluModel {
    pub ref_idc: u8,
    pub unit_type: u8,
    pub data: Seq<u8>,
}

/// Abstract value of one `AVCDecoderConfigurationRecord`.
pub ghost struct ConfigModel {
    pub version: u8,
    pub profile_indication: u8,
    pub profile_compatability: u8,
    pub level_indication: u8,
    pub nalu_size: u8,
    pub sps: Seq<NaluModel>,
    pub pps: Seq<NaluModel>,
}

/// Value of a byte string read as a big-endian unsigned integer.
pub open spec fn be_val(bs: Seq<u8>) -> nat
    decreases bs.len(),
{
    if bs.len() == 0 {
        0
    } else {
        be_val(bs.drop_last()) * 256 + (bs.last() as nat)
    }
}

/// `256^n`: the number of values a big-endian field of `n` bytes can take.
pub open spec fn pow256(n: nat) -> nat
    decreases n,
{
    if n == 0 {
        1
    } else {
        256 * pow256((n - 1) as nat)
    }
}

/// The `w`-byte big-endian encoding of `v` (low bytes of `v` only: exact
/// when `v < pow256(w)`).
pub open spec fn be_enc(v: nat, w: nat) -> Seq<u8>
    decreases w,
{
    if w == 0 {
        Seq::empty()
    } else {
        be_enc(v / 256, (w - 1) as nat).push((v % 256) as u8)
    }
}

/// A big-endian field of `n` bytes holds a value below `pow256(n)`.
pub proof fn lemma_be_val_bound(bs: Seq<u8>)
    ensures
        be_val(bs) < pow256(bs.len()),
    decreases bs.len(),
{
    if bs.len() > 0 {
        lemma_be_val_bound(bs.drop_last());
    }
}

/// `pow256` is monotone.
pub proof fn lemma_pow256_mono(a: nat, b: nat)
    requires
        a <= b,
    ensures
        pow256(a) <= pow256(b),
    decreases b,
{
    if a < b {
        lemma_pow256_mono(a, (b - 1) as nat);
        lemma_pow256_pos((b - 1) as nat);
    }
}

/// `pow256` is positive.
pub proof fn lemma_pow256_pos(n: nat)
    ensures
        pow256(n) >= 1,
    decreases n,
{
    if n > 0 {
        lemma_pow256_pos((n - 1) as nat);
    }
}

/// Decoding of one NAL unit span: the first byte is the header, with
/// bit 7 the forbidden bit (ignored), bits 6..5 `ref_idc` and bits 4..0
/// `unit_type`; the remaining bytes are the payload.
pub open spec fn unit_of(bs: Seq<u8>) -> NaluModel
    recommends
        bs.len() >= 1,
{
    NaluModel {
        ref_idc: (bs[0] >> 5) & 0x03,
        unit_type: bs[0] & 0x1f,
        data: bs.subrange(1, bs.len() as int),
    }
}

/// Re-encoding of a NAL unit: the header byte `(ref_idc << 5) | unit_type`
/// followed by the payload.
pub open spec fn unit_bytes(u: NaluModel) -> Seq<u8> {
    seq![(u.ref_idc << 5) | u.unit_type] + u.data
}

/// The 3-byte start code put before every emitted unit.
pub open spec fn inter_delimiter() -> Seq<u8> {
    seq![0u8, 0u8, 1u8]
}

/// The 4-byte start code put before an injected parameter set.
pub open spec fn begin_delimiter() -> Seq<u8> {
    seq![0u8, 0u8, 0u8, 1u8]
}

/// The 6-byte access-unit delimiter: a 4-byte start code, the delimiter
/// NAL header `0x09`, and one payload byte `0x00`.
pub open spec fn au_delimiter() -> Seq<u8> {
    seq![0u8, 0u8, 0u8, 1u8, 9u8, 0u8]
}

/// Splitting a buffer of concatenated `[length-field][unit]` records with a
/// length-field width of `w` bytes: read `w` bytes as a big-endian length
/// `l`, decode the next `l` bytes as one NAL unit, repeat until the buffer is
/// exhausted. The buffer must be consumed exactly.
pub open spec fn split_units(bs: Seq<u8>, w: nat) -> Result<Seq<NaluModel>, NaluError>
    decreases bs.len(),
{
    if bs.len() == 0 {
        Ok(Seq::empty())
    } else if bs.len() < w {
        Err(NaluError::TruncatedLength)
    } else {
        let l = be_val(bs.subrange(0, w as int)) as int;
        if bs.len() - w < l {
            Err(NaluError::TruncatedPayload)
        } else if l == 0 {
            Err(NaluError::TruncatedUnit)
        } else {
            match split_units(bs.subrange(w + l, bs.len() as int), w) {
                Ok(rest) => Ok(seq![unit_of(bs.subrange(w as int, w + l))] + rest),
                Err(e) => Err(e),
            }
        }
    }
}

/// The AVCC re-encoding of a unit sequence: for each unit, a `w`-byte
/// big-endian length field holding the unit's span length (header byte plus
/// payload) followed by the re-encoded unit.
pub open spec fn avcc_bytes(us: Seq<NaluModel>, w: nat) -> Seq<u8>
    decreases us.len(),
{
    if us.len() == 0 {
        Seq::empty()
    } else {
        be_enc(us[0].data.len() + 1, w) + unit_bytes(us[0])
            + avcc_bytes(us.subrange(1, us.len() as int), w)
    }
}

/// Every unit header byte in a length-prefixed buffer has its forbidden bit
/// (bit 7) clear, as H.264 requires of a conforming stream. Splitting drops
/// that bit, so only such buffers are reconstructed bit-exactly.
pub open spec fn forbidden_bits_clear(bs: Seq<u8>, w: nat) -> bool
    decreases bs.len(),
{
    if bs.len() == 0 || bs.len() < w {
        true
    } else {
        let l = be_val(bs.subrange(0, w as int)) as int;
        if bs.len() - w < l || l == 0 {
            true
        } else {
            bs[w as int] < 0x80 && forbidden_bits_clear(bs.subrange(w + l, bs.len() as int), w)
        }
    }
}

/// Parsing of `count` parameter-set entries, each a 2-byte big-endian length
/// followed by that many bytes decoded as one NAL unit. Returns the parsed
/// units and the bytes that follow them.
pub open spec fn parse_psets(bs: Seq<u8>, count: nat) -> Result<(Seq<NaluModel>, Seq<u8>), NaluError>
    decreases count,
{
    if count == 0 {
        Ok((Seq::empty(), bs))
    } else if bs.len() < 2 {
        Err(NaluError::TruncatedConfig)
    } else {
        let l = be_val(bs.subrange(0, 2)) as int;
        if bs.len() - 2 < l {
            Err(NaluError::TruncatedConfig)
        } else if l == 0 {
            Err(NaluError::TruncatedUnit)
        } else {
            match parse_psets(bs.subrange(2 + l, bs.len() as int), (count - 1) as nat) {
                Ok((rest, tail)) => Ok((seq![unit_of(bs.subrange(2, 2 + l))] + rest, tail)),
                Err(e) => Err(e),
            }
        }
    }
}

/// Parsing of a whole `AVCDecoderConfigurationRecord`: four raw header bytes,
/// a byte whose low 2 bits plus one give the length-field width, an SPS count
/// byte (low 5 bits), the SPS entries, a PPS count byte (all 8 bits), and the
/// PPS entries. Trailing bytes are ignored.
pub open spec fn parse_config(bs: Seq<u8>) -> Result<ConfigModel, NaluError> {
    if bs.len() < 6 {
        Err(NaluError::TruncatedConfig)
    } else {
        match parse_psets(bs.subrange(6, bs.len() as int), (bs[5] & 0x1f) as nat) {
            Ok((sps, rest)) => {
                if rest.len() < 1 {
                    Err(NaluError::TruncatedConfig)
                } else {
                    match parse_psets(rest.subrange(1, rest.len() as int), rest[0] as nat) {
                        Ok((pps, _)) => Ok(ConfigModel {
                            version: bs[0],
                            profile_indication: bs[1],
                            profile_compatability: bs[2],
                            level_indication: bs[3],
                            nalu_size: ((bs[4] & 0x03) + 1) as u8,
                            sps,
                            pps,
                        }),
                        Err(e) => Err(e),
                    }
                }
            },
            Err(e) => Err(e),
        }
    }
}

/// The unit types the assembler emits: non-IDR slices (1), IDR keyframes (5)
/// and SEI messages (6). Every other type is skipped.
pub open spec fn relevant(u: NaluModel) -> bool {
    u.unit_type == 1 || u.unit_type == 5 || u.unit_type == 6
}

/// Assembly of one access unit into Annex-B bytes, dispatching on each unit's
/// type with the two pieces of per-call state: has the access-unit delimiter
/// been emitted, and have the parameter sets been emitted.
///
/// Types 1 (non-IDR slice) and 6 (SEI) emit the access-unit delimiter once;
/// type 5 (IDR keyframe) additionally injects the first SPS and the first PPS
/// once, and fails when either list is empty; every other type is skipped.
/// Each emitted unit is preceded by the 3-byte start code.
pub open spec fn es_bytes(
    c: ConfigModel,
    units: Seq<NaluModel>,
    delimited: bool,
    params_emitted: bool,
) -> Result<Seq<u8>, NaluError>
    decreases units.len(),
{
    if units.len() == 0 {
        Ok(Seq::empty())
    } else {
        let u = units[0];
        let rest = units.subrange(1, units.len() as int);
        if u.unit_type == 1 || u.unit_type == 6 {
            let pre = if !delimited { au_delimiter() } else { Seq::empty() };
            match es_bytes(c, rest, true, params_emitted) {
                Ok(tail) => Ok(pre + inter_delimiter() + unit_bytes(u) + tail),
                Err(e) => Err(e),
            }
        } else if u.unit_type == 5 {
            if !params_emitted && (c.sps.len() == 0 || c.pps.len() == 0) {
                Err(NaluError::MissingParameterSet)
            } else {
                let pre = if !delimited { au_delimiter() } else { Seq::empty() };
                let params = if !params_emitted {
                    begin_delimiter() + unit_bytes(c.sps[0]) + begin_delimiter()
                        + unit_bytes(c.pps[0])
                } else {
                    Seq::empty()
                };
                match es_bytes(c, rest, true, true) {
                    Ok(tail) => Ok(pre + params + inter_delimiter() + unit_bytes(u) + tail),
                    Err(e) => Err(e),
                }
            }
        } else {
            es_bytes(c, rest, delimited, params_emitted)
        }
    }
}

} // verus!
