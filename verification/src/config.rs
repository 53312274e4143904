//! The codec configuration record: the `AVCDecoderConfigurationRecord`
//! parser and the value it produces.

use vstd::prelude::*;
use vstd::slice::{slice_index_get, slice_subrange};

use crate::model::{parse_config, parse_psets, ConfigModel, NaluError, NaluModel};
use crate::nalu::{read_be, Nalu};

verus! {

/// Parse `count` parameter-set entries of `data` starting at `pos`: each a
/// 2-byte big-endian length followed by that many bytes decoded as one NAL
/// unit. Returns the units and the position of the first byte after them.
fn read_psets(data: &[u8], pos: usize, count: u8) -> (r: Result<(Vec<Nalu>, usize), NaluError>)
    requires
        pos <= data@.len(),
    ensures
        match parse_psets(data@.subrange(pos as int, data@.len() as int), count as nat) {
            Ok(parsed) => (r matches Ok(done) && done.0.deep_view() == parsed.0 && pos <= done.1
                <= data@.len() && data@.subrange(done.1 as int, data@.len() as int) == parsed.1),
            Err(e) => r == Err::<(Vec<Nalu>, usize), NaluError>(e),
        },
{
    broadcast use Seq::add_empty_left, Seq::add_empty_right;

    let mut units: Vec<Nalu> = Vec::new();
    let mut p: usize = pos;
    let mut k: u8 = 0;
    proof {
        assert(units.deep_view() =~= Seq::<NaluModel>::empty());
    }
    while k < count
        invariant
            pos <= p <= data@.len(),
            k <= count,
            parse_psets(data@.subrange(pos as int, data@.len() as int), count as nat) == (match
                parse_psets(data@.subrange(p as int, data@.len() as int), (count - k) as nat) {
                Ok(parsed) => Ok::<(Seq<NaluModel>, Seq<u8>), NaluError>(
                    (units.deep_view() + parsed.0, parsed.1),
                ),
                Err(e) => Err::<(Seq<NaluModel>, Seq<u8>), NaluError>(e),
            }),
        decreases count - k,
    {
        let ghost suffix = data@.subrange(p as int, data@.len() as int);
        if data.len() - p < 2 {
            return Err(NaluError::TruncatedConfig);
        }
        let l64 = read_be(data, p, 2);
        proof {
            assert(data@.subrange(p as int, p + 2) =~= suffix.subrange(0, 2));
        }
        let rem = data.len() - p - 2;
        if l64 > rem as u64 {
            return Err(NaluError::TruncatedConfig);
        }
        let l = l64 as usize;
        if l == 0 {
            return Err(NaluError::TruncatedUnit);
        }
        let span = slice_subrange(data, p + 2, p + 2 + l);
        proof {
            assert(span@ =~= suffix.subrange(2, 2 + l));
        }
        let unit = match Nalu::read_unit(span) {
            Ok(u) => u,
            // Unreachable: the span is non-empty.
            Err(e) => {
                proof {
                    assert(false);
                }
                return Err(e);
            },
        };
        let ghost units_before = units.deep_view();
        units.push(unit);
        p = p + 2 + l;
        k = k + 1;
        proof {
            assert(units.deep_view() =~= units_before.push(unit@));
            assert(data@.subrange(p as int, data@.len() as int) =~= suffix.subrange(
                2 + l,
                suffix.len() as int,
            ));
            match parse_psets(suffix.subrange(2 + l, suffix.len() as int), (count - k) as nat) {
                Ok(parsed) => {
                    assert(units_before + (seq![unit@] + parsed.0) =~= units.deep_view()
                        + parsed.0);
                },
                Err(e) => {},
            }
        }
    }
    Ok((units, p))
}

/// One parsed codec configuration: four raw header bytes copied through, the
/// width in bytes of the per-unit length fields (1 to 4 once parsed), and the
/// SPS and PPS unit lists.
///
/// A stream that signals a configuration change replaces the whole value: a
/// failed parse leaves the previous configuration untouched.
pub struct NaluConfig {
    pub version: u8,
    pub profile_indication: u8,
    pub profile_compatability: u8,
    pub level_indication: u8,
    pub nalu_size: u8,
    pub sps: Vec<Nalu>,
    pub pps: Vec<Nalu>,
}

impl View for NaluConfig {
    type V = ConfigModel;

    open spec fn view(&self) -> ConfigModel {
        ConfigModel {
            version: self.version,
            profile_indication: self.profile_indication,
            profile_compatability: self.profile_compatability,
            level_indication: self.level_indication,
            nalu_size: self.nalu_size,
            sps: self.sps.deep_view(),
            pps: self.pps.deep_view(),
        }
    }
}

impl NaluConfig {
    /// The length-field width is in the range a parsed record declares.
    pub open spec fn wf(&self) -> bool {
        1 <= self.nalu_size <= 4
    }

    /// An empty placeholder configuration, to be replaced by [`Self::set`]
    /// when the stream's sequence header arrives.
    pub fn new() -> (c: NaluConfig)
        ensures
            c@ == (ConfigModel {
                version: 0,
                profile_indication: 0,
                profile_compatability: 0,
                level_indication: 0,
                nalu_size: 0,
                sps: Seq::<NaluModel>::empty(),
                pps: Seq::<NaluModel>::empty(),
            }),
    {
        let c = NaluConfig {
            version: 0,
            profile_indication: 0,
            profile_compatability: 0,
            level_indication: 0,
            nalu_size: 0,
            sps: Vec::new(),
            pps: Vec::new(),
        };
        proof {
            assert(c.sps.deep_view() =~= Seq::<NaluModel>::empty());
            assert(c.pps.deep_view() =~= Seq::<NaluModel>::empty());
        }
        c
    }

    /// Parse one `AVCDecoderConfigurationRecord` from raw sequence-header
    /// bytes: the four raw header bytes, the length-field width byte (its low
    /// 2 bits plus one), the SPS count byte (low 5 bits) and entries, and the
    /// PPS count byte and entries. Trailing bytes are ignored; a buffer that
    /// ends at any field boundary fails with `TruncatedConfig`.
    pub fn parse(data: &[u8]) -> (r: Result<NaluConfig, NaluError>)
        ensures
            match parse_config(data@) {
                Ok(c) => (r matches Ok(cfg) && cfg@ == c && cfg.wf()),
                Err(e) => r == Err::<NaluConfig, NaluError>(e),
            },
    {
        if data.len() < 6 {
            return Err(NaluError::TruncatedConfig);
        }
        let version = *slice_index_get(data, 0);
        let profile_indication = *slice_index_get(data, 1);
        let profile_compatability = *slice_index_get(data, 2);
        let level_indication = *slice_index_get(data, 3);
        let size_byte = *slice_index_get(data, 4);
        proof {
            assert((size_byte & 0x03) <= 3) by (bit_vector);
        }
        let nalu_size = (size_byte & 0x03) + 1;
        let sps_count = *slice_index_get(data, 5) & 0x1f;
        let parsed_sps = match read_psets(data, 6, sps_count) {
            Ok(x) => x,
            Err(e) => {
                return Err(e);
            },
        };
        let (sps, after_sps) = parsed_sps;
        if data.len() - after_sps < 1 {
            return Err(NaluError::TruncatedConfig);
        }
        let ghost rest = data@.subrange(after_sps as int, data@.len() as int);
        let pps_count = *slice_index_get(data, after_sps);
        proof {
            assert(rest[0] == data@[after_sps as int]);
            assert(data@.subrange(after_sps + 1, data@.len() as int) =~= rest.subrange(
                1,
                rest.len() as int,
            ));
        }
        let parsed_pps = match read_psets(data, after_sps + 1, pps_count) {
            Ok(x) => x,
            Err(e) => {
                return Err(e);
            },
        };
        let (pps, _after_pps) = parsed_pps;
        Ok(NaluConfig {
            version,
            profile_indication,
            profile_compatability,
            level_indication,
            nalu_size,
            sps,
            pps,
        })
    }

    /// Replace this configuration with the one parsed from `data`. On any
    /// parse failure the previous configuration is kept whole: observers
    /// never see a partially updated value.
    pub fn set(&mut self, data: &[u8]) -> (r: Result<(), NaluError>)
        ensures
            match parse_config(data@) {
                Ok(c) => (r == Ok::<(), NaluError>(()) && final(self)@ == c && final(self).wf()),
                Err(e) => r == Err::<(), NaluError>(e) && final(self)@ == old(self)@,
            },
    {
        match Self::parse(data) {
            Ok(c) => {
                *self = c;
                Ok(())
            },
            Err(e) => Err(e),
        }
    }
}

} // verus!
