//! The NAL unit value type, the unit decoder and the length-prefixed
//! splitter.

use vstd::prelude::*;
use vstd::slice::{slice_index_get, slice_subrange, slice_to_vec, spec_slice_len};

use crate::config::NaluConfig;
use crate::model::{
    au_delimiter, be_val, begin_delimiter, es_bytes, inter_delimiter, lemma_be_val_bound,
    lemma_pow256_mono, pow256, split_units, unit_bytes, unit_of, NaluError, NaluModel,
};

verus! {

/// Append the 3-byte start code put before every emitted unit.
fn push_inter_delimiter(es: &mut Vec<u8>)
    ensures
        final(es)@ == old(es)@ + inter_delimiter(),
{
    es.push(0);
    es.push(0);
    es.push(1);
    proof {
        assert(es@ =~= old(es)@ + inter_delimiter());
    }
}

/// Append the 4-byte start code put before an injected parameter set.
fn push_begin_delimiter(es: &mut Vec<u8>)
    ensures
        final(es)@ == old(es)@ + begin_delimiter(),
{
    es.push(0);
    es.push(0);
    es.push(0);
    es.push(1);
    proof {
        assert(es@ =~= old(es)@ + begin_delimiter());
    }
}

/// Append the 6-byte access-unit delimiter.
fn push_au_delimiter(es: &mut Vec<u8>)
    ensures
        final(es)@ == old(es)@ + au_delimiter(),
{
    es.push(0);
    es.push(0);
    es.push(0);
    es.push(1);
    es.push(9);
    es.push(0);
    proof {
        assert(es@ =~= old(es)@ + au_delimiter());
    }
}

/// Append one re-encoded unit: the header byte `(ref_idc << 5) | unit_type`
/// followed by the payload.
fn push_unit(es: &mut Vec<u8>, u: &Nalu)
    ensures
        final(es)@ == old(es)@ + unit_bytes(u@),
{
    let header = (u.ref_idc << 5) | u.unit_type;
    es.push(header);
    let mut j: usize = 0;
    proof {
        assert(es@ =~= old(es)@ + seq![header] + u.data@.subrange(0, 0));
    }
    while j < u.data.len()
        invariant
            j <= u.data@.len(),
            header == (u.ref_idc << 5) | u.unit_type,
            es@ == old(es)@ + seq![header] + u.data@.subrange(0, j as int),
        decreases u.data@.len() - j,
    {
        es.push(u.data[j]);
        j = j + 1;
        proof {
            assert(es@ =~= old(es)@ + seq![header] + u.data@.subrange(0, j as int));
        }
    }
    proof {
        assert(u.data@.subrange(0, u.data@.len() as int) =~= u.data@);
        assert(es@ =~= old(es)@ + unit_bytes(u@));
    }
}

/// Read the `w` bytes of `data` starting at `pos` as one big-endian unsigned
/// integer.
pub(crate) fn read_be(data: &[u8], pos: usize, w: usize) -> (r: u64)
    requires
        w <= 4,
        pos + w <= data@.len(),
    ensures
        r == be_val(data@.subrange(pos as int, pos + w)),
{
    broadcast use vstd::slice::axiom_spec_len;

    proof {
        assert(data@.len() == spec_slice_len(data));
    }
    let mut r: u64 = 0;
    let mut i: usize = 0;
    while i < w
        invariant
            w <= 4,
            pos + w <= data@.len(),
            data@.len() <= usize::MAX,
            i <= w,
            r == be_val(data@.subrange(pos as int, pos + i)),
        decreases w - i,
    {
        proof {
            lemma_be_val_bound(data@.subrange(pos as int, pos + i));
            lemma_pow256_mono(i as nat, 3);
            reveal_with_fuel(pow256, 4);
            assert(pow256(3) == 0x1000000);
        }
        let b = *slice_index_get(data, pos + i);
        r = r * 256 + (b as u64);
        i = i + 1;
        proof {
            let s0 = data@.subrange(pos as int, pos + i - 1);
            let s1 = data@.subrange(pos as int, pos + i);
            assert(s1.drop_last() =~= s0);
            assert(s1.last() == data@[pos + i - 1]);
        }
    }
    r
}

/// One NAL unit: the 2-bit priority indicator, the 5-bit unit type, and the
/// raw payload bytes (the header byte excluded).
pub struct Nalu {
    pub ref_idc: u8,
    pub unit_type: u8,
    pub data: Vec<u8>,
}

impl View for Nalu {
    type V = NaluModel;

    open spec fn view(&self) -> NaluModel {
        NaluModel { ref_idc: self.ref_idc, unit_type: self.unit_type, data: self.data@ }
    }
}

impl DeepView for Nalu {
    type V = NaluModel;

    open spec fn deep_view(&self) -> NaluModel {
        self.view()
    }
}

impl Nalu {
    /// Decode one NAL unit from the byte span holding exactly that unit: the
    /// first byte is the header, the rest become the payload.
    pub fn read_unit(data: &[u8]) -> (r: Result<Nalu, NaluError>)
        ensures
            data@.len() == 0 ==> r == Err::<Nalu, NaluError>(NaluError::TruncatedUnit),
            data@.len() > 0 ==> (r matches Ok(n) && n@ == unit_of(data@)),
    {
        if data.len() == 0 {
            return Err(NaluError::TruncatedUnit);
        }
        let header = *slice_index_get(data, 0);
        let ref_idc = (header >> 5) & 0x03;
        let unit_type = header & 0x1f;
        let payload = slice_to_vec(slice_subrange(data, 1, data.len()));
        Ok(Nalu { ref_idc, unit_type, data: payload })
    }

    /// Split a buffer of concatenated `[length-field][unit]` records, with a
    /// length-field width of `nalu_size` bytes, into its NAL units. The
    /// buffer must be consumed exactly; a remainder too short for the next
    /// field is a format error.
    pub fn read(data: &[u8], nalu_size: u8) -> (r: Result<Vec<Nalu>, NaluError>)
        requires
            1 <= nalu_size <= 4,
        ensures
            match split_units(data@, nalu_size as nat) {
                Ok(us) => (r matches Ok(v) && v.deep_view() == us),
                Err(e) => r == Err::<Vec<Nalu>, NaluError>(e),
            },
    {
        broadcast use Seq::add_empty_left;

        let w = nalu_size as usize;
        let mut units: Vec<Nalu> = Vec::new();
        let mut pos: usize = 0;
        proof {
            assert(data@.subrange(0, data@.len() as int) =~= data@);
            assert(units.deep_view() =~= Seq::<NaluModel>::empty());
        }
        while pos < data.len()
            invariant
                1 <= w <= 4,
                w == nalu_size as usize,
                pos <= data@.len(),
                split_units(data@, w as nat) == (match split_units(
                    data@.subrange(pos as int, data@.len() as int),
                    w as nat,
                ) {
                    Ok(rest) => Ok::<Seq<NaluModel>, NaluError>(units.deep_view() + rest),
                    Err(e) => Err::<Seq<NaluModel>, NaluError>(e),
                }),
            decreases data@.len() - pos,
        {
            let ghost suffix = data@.subrange(pos as int, data@.len() as int);
            if data.len() - pos < w {
                return Err(NaluError::TruncatedLength);
            }
            let l64 = read_be(data, pos, w);
            proof {
                assert(data@.subrange(pos as int, pos + w) =~= suffix.subrange(0, w as int));
            }
            let rem = data.len() - pos - w;
            if l64 > rem as u64 {
                return Err(NaluError::TruncatedPayload);
            }
            let l = l64 as usize;
            if l == 0 {
                return Err(NaluError::TruncatedUnit);
            }
            let span = slice_subrange(data, pos + w, pos + w + l);
            proof {
                assert(span@ =~= suffix.subrange(w as int, w + l));
            }
            let unit = match Nalu::read_unit(span) {
                Ok(u) => u,
                // Unreachable: the span is non-empty.
                Err(e) => {
                    proof {
                        assert(false);
                    }
                    return Err(e);
                },
            };
            let ghost units_before = units.deep_view();
            units.push(unit);
            pos = pos + w + l;
            proof {
                assert(units.deep_view() =~= units_before.push(unit@));
                assert(data@.subrange(pos as int, data@.len() as int) =~= suffix.subrange(
                    w + l,
                    suffix.len() as int,
                ));
                assert(units_before + (seq![unit@] + split_units(
                    suffix.subrange(w + l, suffix.len() as int),
                    w as nat,
                )->Ok_0) =~= units.deep_view() + split_units(
                    suffix.subrange(w + l, suffix.len() as int),
                    w as nat,
                )->Ok_0);
            }
        }
        proof {
            assert(units.deep_view() + Seq::<NaluModel>::empty() =~= units.deep_view());
        }
        Ok(units)
    }

    /// Assemble one access unit's NAL units into a single Annex-B buffer,
    /// emitting the access-unit delimiter once before the first relevant
    /// unit, injecting the first SPS and the first PPS once before the first
    /// keyframe, skipping every unit type other than 1, 5 and 6, and putting
    /// a 3-byte start code before each emitted unit. Fails with
    /// `MissingParameterSet` when a keyframe is met while the configuration
    /// holds no SPS or no PPS.
    pub fn to_es_layer(nalu_config: &NaluConfig, data: Vec<Nalu>) -> (r: Result<Vec<u8>, NaluError>)
        ensures
            match es_bytes(nalu_config@, data.deep_view(), false, false) {
                Ok(bs) => (r matches Ok(v) && v@ == bs),
                Err(e) => r == Err::<Vec<u8>, NaluError>(e),
            },
    {
        let ghost c = nalu_config@;
        let ghost units = data.deep_view();
        let mut es: Vec<u8> = Vec::new();
        let mut delimited = false;
        let mut params_emitted = false;
        let mut i: usize = 0;
        proof {
            assert(units.subrange(0, units.len() as int) =~= units);
        }
        while i < data.len()
            invariant
                i <= data@.len(),
                c == nalu_config@,
                units == data.deep_view(),
                es_bytes(c, units, false, false) == (match es_bytes(
                    c,
                    units.subrange(i as int, units.len() as int),
                    delimited,
                    params_emitted,
                ) {
                    Ok(tail) => Ok::<Seq<u8>, NaluError>(es@ + tail),
                    Err(e) => Err::<Seq<u8>, NaluError>(e),
                }),
            decreases data@.len() - i,
        {
            let ghost suffix = units.subrange(i as int, units.len() as int);
            let ghost rest = units.subrange(i + 1, units.len() as int);
            let ghost es0 = es@;
            let ghost d0 = delimited;
            let ghost p0 = params_emitted;
            proof {
                assert(suffix[0] == units[i as int]);
                assert(suffix.subrange(1, suffix.len() as int) =~= rest);
            }
            let u = &data[i];
            let t = u.unit_type;
            if t == 1 || t == 6 {
                if !delimited {
                    push_au_delimiter(&mut es);
                    delimited = true;
                }
                push_inter_delimiter(&mut es);
                push_unit(&mut es, u);
                proof {
                    let pre = if !d0 {
                        au_delimiter()
                    } else {
                        Seq::<u8>::empty()
                    };
                    match es_bytes(c, rest, true, p0) {
                        Ok(tail) => {
                            assert(es0 + (pre + inter_delimiter() + unit_bytes(u@) + tail) =~= es@
                                + tail);
                        },
                        Err(e) => {},
                    }
                }
            } else if t == 5 {
                if !params_emitted && (nalu_config.sps.len() == 0 || nalu_config.pps.len() == 0) {
                    return Err(NaluError::MissingParameterSet);
                }
                if !delimited {
                    push_au_delimiter(&mut es);
                    delimited = true;
                }
                if !params_emitted {
                    push_begin_delimiter(&mut es);
                    push_unit(&mut es, &nalu_config.sps[0]);
                    push_begin_delimiter(&mut es);
                    push_unit(&mut es, &nalu_config.pps[0]);
                    params_emitted = true;
                }
                push_inter_delimiter(&mut es);
                push_unit(&mut es, u);
                proof {
                    let pre = if !d0 {
                        au_delimiter()
                    } else {
                        Seq::<u8>::empty()
                    };
                    let params = if !p0 {
                        begin_delimiter() + unit_bytes(c.sps[0]) + begin_delimiter() + unit_bytes(
                            c.pps[0],
                        )
                    } else {
                        Seq::<u8>::empty()
                    };
                    match es_bytes(c, rest, true, true) {
                        Ok(tail) => {
                            assert(es0 + (pre + params + inter_delimiter() + unit_bytes(u@) + tail)
                                =~= es@ + tail);
                        },
                        Err(e) => {},
                    }
                }
            }
            i = i + 1;
        }
        proof {
            assert(units.subrange(units.len() as int, units.len() as int) =~= Seq::<
                NaluModel,
            >::empty());
            assert(es@ + Seq::<u8>::empty() =~= es@);
        }
        Ok(es)
    }
}

} // verus!
