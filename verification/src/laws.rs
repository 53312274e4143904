//! Laws of the format: proved properties that relate the parsing, splitting
//! and assembling functions to one another.

use vstd::prelude::*;

use crate::model::{
    au_delimiter, avcc_bytes, be_enc, be_val, begin_delimiter, es_bytes, forbidden_bits_clear,
    inter_delimiter, lemma_be_val_bound, parse_config, parse_psets, relevant, split_units,
    unit_bytes, unit_of, ConfigModel, NaluError, NaluModel,
};

verus! {

/// A big-endian encoding round trip: re-encoding the value a byte string
/// holds, at that string's own width, gives the string back.
pub proof fn lemma_be_enc_of_val(s: Seq<u8>)
    ensures
        be_enc(be_val(s), s.len()) == s,
    decreases s.len(),
{
    if s.len() == 0 {
        assert(be_enc(be_val(s), s.len()) =~= s);
    } else {
        let dl = s.drop_last();
        lemma_be_enc_of_val(dl);
        let v = be_val(s);
        assert(v / 256 == be_val(dl) && v % 256 == (s.last() as nat)) by (nonlinear_arith)
            requires
                v == be_val(dl) * 256 + (s.last() as nat),
                (s.last() as nat) < 256,
        ;
        assert(dl.push(s.last()) =~= s);
    }
}

/// Parsing a parameter-set list that succeeds yields exactly as many units as
/// the declared count.
pub proof fn lemma_psets_count(bs: Seq<u8>, count: nat)
    requires
        parse_psets(bs, count) is Ok,
    ensures
        parse_psets(bs, count)->Ok_0.0.len() == count,
    decreases count,
{
    if count > 0 {
        let l = be_val(bs.subrange(0, 2)) as int;
        lemma_psets_count(bs.subrange(2 + l, bs.len() as int), (count - 1) as nat);
    }
}

/// A configuration record that parses yields a length-field width that is the
/// low 2 bits of byte 4 plus one — always in 1..=4 — and SPS and PPS lists
/// whose lengths equal the declared count fields.
pub proof fn lemma_config_declared_counts(bs: Seq<u8>)
    requires
        parse_config(bs) is Ok,
    ensures
        ({
            let c = parse_config(bs)->Ok_0;
            let sps_section = parse_psets(bs.subrange(6, bs.len() as int), (bs[5] & 0x1f) as nat);
            &&& c.nalu_size == (bs[4] & 0x03) + 1
            &&& 1 <= c.nalu_size <= 4
            &&& c.sps.len() == (bs[5] & 0x1f) as nat
            &&& sps_section is Ok
            &&& sps_section->Ok_0.1.len() >= 1
            &&& c.pps.len() == sps_section->Ok_0.1[0] as nat
        }),
{
    let b4 = bs[4];
    assert((b4 & 0x03) <= 3) by (bit_vector);
    lemma_psets_count(bs.subrange(6, bs.len() as int), (bs[5] & 0x1f) as nat);
    let rest = parse_psets(bs.subrange(6, bs.len() as int), (bs[5] & 0x1f) as nat)->Ok_0.1;
    lemma_psets_count(rest.subrange(1, rest.len() as int), rest[0] as nat);
}

/// A splitting round trip: when a buffer splits into units, re-encoding each
/// unit behind a length field of the same width, in order, reconstructs the
/// buffer byte for byte. The split consumes the buffer exactly.
///
/// The forbidden bit of each unit header must be clear — as H.264 requires of
/// a conforming stream — since splitting discards that bit.
pub proof fn lemma_split_round_trip(bs: Seq<u8>, w: nat)
    requires
        1 <= w <= 4,
        split_units(bs, w) is Ok,
        forbidden_bits_clear(bs, w),
    ensures
        avcc_bytes(split_units(bs, w)->Ok_0, w) == bs,
    decreases bs.len(),
{
    let us = split_units(bs, w)->Ok_0;
    if bs.len() == 0 {
        assert(avcc_bytes(us, w) =~= bs);
    } else {
        let prefix = bs.subrange(0, w as int);
        let l = be_val(prefix) as int;
        let seg = bs.subrange(w as int, w + l);
        let tail = bs.subrange(w + l, bs.len() as int);
        lemma_split_round_trip(tail, w);
        let rest = split_units(tail, w)->Ok_0;
        assert(us.subrange(1, us.len() as int) =~= rest);
        lemma_be_val_bound(prefix);
        lemma_be_enc_of_val(prefix);
        let b0 = seg[0];
        assert(b0 == bs[w as int]);
        assert(((((b0 >> 5) & 0x03) << 5) | (b0 & 0x1f)) == b0) by (bit_vector)
            requires
                b0 < 0x80,
        ;
        assert(unit_bytes(unit_of(seg)) =~= seg);
        assert(us[0].data.len() + 1 == l);
        assert(prefix + seg + tail =~= bs);
        assert(be_enc((us[0].data.len() + 1) as nat, w) + unit_bytes(us[0]) + avcc_bytes(rest, w)
            =~= prefix + seg + tail);
    }
}

/// Assembling is deterministic: the output bytes are a function of the
/// configuration and the unit sequence alone, so calling the assembler twice
/// on the same inputs gives byte-identical output — there is no hidden
/// cross-call state.
pub proof fn lemma_assemble_deterministic(
    c: ConfigModel,
    us: Seq<NaluModel>,
    r1: Seq<u8>,
    r2: Seq<u8>,
)
    requires
        es_bytes(c, us, false, false) == Ok::<Seq<u8>, NaluError>(r1),
        es_bytes(c, us, false, false) == Ok::<Seq<u8>, NaluError>(r2),
    ensures
        r1 == r2,
{
}

/// A frame holding a single non-IDR slice assembles to the 6-byte access-unit
/// delimiter, the 3-byte start code, and the re-encoded unit.
pub proof fn lemma_single_non_idr_frame(c: ConfigModel, u: NaluModel)
    requires
        u.unit_type == 1,
    ensures
        es_bytes(c, seq![u], false, false) == Ok::<Seq<u8>, NaluError>(
            au_delimiter() + inter_delimiter() + unit_bytes(u),
        ),
{
    reveal_with_fuel(es_bytes, 3);
    let us = seq![u];
    assert(us.subrange(1, 1) =~= Seq::<NaluModel>::empty());
    assert(au_delimiter() + inter_delimiter() + unit_bytes(u) + Seq::<u8>::empty()
        =~= au_delimiter() + inter_delimiter() + unit_bytes(u));
}

/// Once the parameter sets are recorded as emitted, assembly can no longer
/// fail.
pub proof fn lemma_es_ok_after_params(c: ConfigModel, us: Seq<NaluModel>, delimited: bool)
    ensures
        es_bytes(c, us, delimited, true) is Ok,
    decreases us.len(),
{
    if us.len() > 0 {
        let rest = us.subrange(1, us.len() as int);
        if us[0].unit_type == 1 || us[0].unit_type == 6 || us[0].unit_type == 5 {
            lemma_es_ok_after_params(c, rest, true);
        } else {
            lemma_es_ok_after_params(c, rest, delimited);
        }
    }
}

/// A frame whose first relevant unit is an IDR keyframe, assembled against a
/// configuration with parameter sets, begins with the 6-byte access-unit
/// delimiter, then a 4-byte start code and the first SPS, then a 4-byte start
/// code and the first PPS, then the 3-byte start code and the keyframe unit
/// itself; the remaining units follow.
pub proof fn lemma_keyframe_frame_prefix(c: ConfigModel, us: Seq<NaluModel>, k: int)
    requires
        0 <= k < us.len(),
        forall|i: int| 0 <= i < k ==> !relevant(us[i]),
        us[k].unit_type == 5,
        c.sps.len() > 0,
        c.pps.len() > 0,
    ensures
        ({
            let tail = es_bytes(c, us.subrange(k + 1, us.len() as int), true, true);
            &&& tail is Ok
            &&& es_bytes(c, us, false, false) == Ok::<Seq<u8>, NaluError>(
                au_delimiter() + begin_delimiter() + unit_bytes(c.sps[0]) + begin_delimiter()
                    + unit_bytes(c.pps[0]) + inter_delimiter() + unit_bytes(us[k]) + tail->Ok_0,
            )
        }),
    decreases us.len(),
{
    let rest = us.subrange(1, us.len() as int);
    if k == 0 {
        lemma_es_ok_after_params(c, rest, true);
        assert(rest =~= us.subrange(k + 1, us.len() as int));
        match es_bytes(c, rest, true, true) {
            Ok(tail) => {
                assert(au_delimiter() + (begin_delimiter() + unit_bytes(c.sps[0])
                    + begin_delimiter() + unit_bytes(c.pps[0])) + inter_delimiter() + unit_bytes(
                    us[0],
                ) + tail =~= au_delimiter() + begin_delimiter() + unit_bytes(c.sps[0])
                    + begin_delimiter() + unit_bytes(c.pps[0]) + inter_delimiter() + unit_bytes(
                    us[0],
                ) + tail);
            },
            Err(e) => {},
        }
    } else {
        assert(!relevant(us[0]));
        assert forall|i: int| 0 <= i < k - 1 implies !relevant(rest[i]) by {
            assert(rest[i] == us[i + 1]);
            assert(!relevant(us[i + 1]));
        }
        assert(rest[k - 1] == us[k]);
        lemma_keyframe_frame_prefix(c, rest, k - 1);
        assert(rest.subrange(k, rest.len() as int) =~= us.subrange(k + 1, us.len() as int));
    }
}

/// A frame holding only skipped unit types assembles to an empty buffer.
pub proof fn lemma_skipped_frame_empty(
    c: ConfigModel,
    us: Seq<NaluModel>,
    delimited: bool,
    params_emitted: bool,
)
    requires
        forall|i: int| 0 <= i < us.len() ==> !relevant(us[i]),
    ensures
        es_bytes(c, us, delimited, params_emitted) == Ok::<Seq<u8>, NaluError>(Seq::<u8>::empty()),
    decreases us.len(),
{
    if us.len() > 0 {
        let rest = us.subrange(1, us.len() as int);
        assert(!relevant(us[0]));
        assert forall|i: int| 0 <= i < rest.len() implies !relevant(rest[i]) by {
            assert(rest[i] == us[i + 1]);
            assert(!relevant(us[i + 1]));
        }
        lemma_skipped_frame_empty(c, rest, delimited, params_emitted);
    }
}

/// A frame holding a keyframe, assembled against a configuration whose SPS or
/// PPS list is empty before any keyframe's parameters were emitted, fails
/// with `MissingParameterSet`.
pub proof fn lemma_missing_parameter_set(c: ConfigModel, us: Seq<NaluModel>, delimited: bool)
    requires
        exists|i: int| 0 <= i < us.len() && us[i].unit_type == 5,
        c.sps.len() == 0 || c.pps.len() == 0,
    ensures
        es_bytes(c, us, delimited, false) == Err::<Seq<u8>, NaluError>(
            NaluError::MissingParameterSet,
        ),
    decreases us.len(),
{
    let j = choose|i: int| 0 <= i < us.len() && us[i].unit_type == 5;
    if us[0].unit_type != 5 {
        let rest = us.subrange(1, us.len() as int);
        assert(rest[j - 1] == us[j]);
        assert(0 <= j - 1 < rest.len() && rest[j - 1].unit_type == 5);
        if us[0].unit_type == 1 || us[0].unit_type == 6 {
            lemma_missing_parameter_set(c, rest, true);
        } else {
            lemma_missing_parameter_set(c, rest, delimited);
        }
    }
}

} // verus!
