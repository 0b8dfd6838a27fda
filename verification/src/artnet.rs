//! The protocol encoder: converts the fixtures' visible brightness values
//! into wire channel bytes — 8-bit gamma-mapped through a 256-entry lookup
//! table, or 16-bit linear, most significant byte first — and assembles an
//! Art-Net ArtDmx ("Output") transport frame around them. Sending the frame
//! is the caller's concern; this layer only computes bytes.
use crate::ease::{ease_apply, ease_spec, EaseStyle};
use crate::particles::Particle;
use crate::SCALE;
use vstd::arithmetic::div_mod::{
    lemma_div_is_ordered, lemma_div_multiples_vanish_fancy, lemma_div_pos_is_pos,
    lemma_multiply_divide_lt,
};
use vstd::prelude::*;

verus! {

/// The 8-bit intensity for a brightness: `b * 255 / SCALE`, rounded to the
/// nearest step (half a step rounds down).
pub open spec fn to_eight_bit(b: int) -> int {
    (b * 255 + 32767) / (SCALE as int)
}

/// One entry of the brightness lookup table: the active curve sampled at
/// input `i` of the 8-bit domain, scaled back to the 8-bit range. The
/// sample point `i * 257` spreads the 256 inputs evenly over the
/// fixed-point domain (`255 * 257 == SCALE`).
pub open spec fn lut_entry(style: EaseStyle, i: int) -> int {
    to_eight_bit(ease_spec(style, i * 257))
}

/// The lookup table built from the identity (linear) curve maps every
/// 8-bit input to itself.
pub proof fn lemma_lut_identity_linear(i: int)
    requires
        0 <= i < 256,
    ensures
        lut_entry(EaseStyle::Linear, i) == i,
{
    if 0 < i < 255 {
        lemma_div_multiples_vanish_fancy(i, 32767, SCALE as int);
    }
}

/// Split a 16-bit intensity into two bytes, most significant first.
pub fn convert_u16_to_two_u8s_be(integer: u16) -> (r: [u8; 2])
    ensures
        r@.len() == 2,
        r@[0] == integer / 256,
        r@[1] == integer % 256,
{
    [(integer / 256) as u8, (integer % 256) as u8]
}

/// The view of an optional lookup table.
pub open spec fn mapping_view(m: Option<Vec<u8>>) -> Option<Seq<u8>> {
    match m {
        Some(l) => Some(l@),
        None => None,
    }
}

/// The byte at offset `k` of the encoded channel data.
///
/// In 16-bit mode every fixture contributes `channels_per_fixture` pairs of
/// bytes, the visible brightness itself, most significant byte first. In
/// 8-bit mode every fixture contributes `channels_per_fixture` copies of
/// its gamma-mapped (or, without a table, raw) 8-bit intensity.
pub open spec fn channel_byte(
    particles: Seq<Particle>,
    channels_per_fixture: int,
    use_high_res: bool,
    mapping: Option<Seq<u8>>,
    k: int,
) -> u8 {
    if use_high_res {
        let b = particles[k / (channels_per_fixture * 2)].effective_spec();
        if k % 2 == 0 {
            (b / 256) as u8
        } else {
            (b % 256) as u8
        }
    } else {
        let b8 = to_eight_bit(particles[k / channels_per_fixture].effective_spec());
        match mapping {
            Some(t) => t[b8],
            None => b8 as u8,
        }
    }
}

/// The encoded channel data: all fixtures' channel bytes concatenated in
/// the order the fixture sequence gives them (the layout keeps fixtures in
/// ascending id order).
pub open spec fn channels_spec(
    particles: Seq<Particle>,
    channels_per_fixture: int,
    use_high_res: bool,
    mapping: Option<Seq<u8>>,
) -> Seq<u8> {
    let per = if use_high_res {
        channels_per_fixture * 2
    } else {
        channels_per_fixture
    };
    Seq::new(
        (particles.len() * per) as nat,
        |k: int| channel_byte(particles, channels_per_fixture, use_high_res, mapping, k),
    )
}

/// The ArtDmx ("Output") frame around a channel payload: the "Art-Net\0"
/// header, the opcode `0x5000` little-endian, the protocol version, a zero
/// sequence and physical field, port address zero little-endian, the
/// payload length big-endian, then the payload padded to even length.
pub open spec fn artdmx_frame(data: Seq<u8>) -> Seq<u8> {
    let padded: Seq<u8> = if data.len() % 2 == 1 {
        data.push(0u8)
    } else {
        data
    };
    let len: int = padded.len() as int;
    seq![65u8, 114u8, 116u8, 45u8, 78u8, 101u8, 116u8, 0u8, 0u8, 80u8, 0u8, 14u8, 0u8, 0u8, 0u8, 0u8]
        + seq![(len / 256) as u8, (len % 256) as u8] + padded
}

/// Relies on `artnet_protocol::ArtCommand::write_to_buffer` (and the
/// `Output` command's field serialization) for the ArtDmx frame layout:
/// the "Art-Net\0" header, the opcode `0x5000` little-endian, the default
/// protocol version bytes `[0, 14]`, a zero sequence and physical field,
/// port address 0 little-endian, the payload length big-endian, and the
/// payload padded with one zero byte to even length; a payload of zero or
/// of more than 512 bytes is refused.
#[verifier::external_body]
fn artnet_output_frame(channels: Vec<u8>) -> (r: Option<Vec<u8>>)
    ensures
        r is Some <==> 1 <= channels@.len() <= 512,
        r matches Some(frame) ==> frame@ == artdmx_frame(channels@),
{
    let command = artnet_protocol::ArtCommand::Output(artnet_protocol::Output {
        port_address: 0u8.into(),
        data: channels.into(),
        ..artnet_protocol::Output::default()
    });
    command.write_to_buffer().ok()
}

/// The encoder: holds the optional gamma-correction lookup table.
pub struct ArtNetInterface {
    /// The 256-entry brightness lookup table, once one has been built.
    pub brightness_mapping: Option<Vec<u8>>,
}

impl ArtNetInterface {
    /// The lookup table, when present, has one entry per 8-bit input.
    pub open spec fn wf(self) -> bool {
        match self.brightness_mapping {
            Some(l) => l@.len() == 256,
            None => true,
        }
    }

    /// An encoder with no lookup table: 8-bit output is then unmapped.
    pub fn new() -> (r: ArtNetInterface)
        ensures
            r == (ArtNetInterface { brightness_mapping: None }),
            r.wf(),
    {
        ArtNetInterface { brightness_mapping: None }
    }

    /// Build the 256-entry brightness lookup table by sampling the given
    /// easing curve over the 8-bit input domain. With the linear curve the
    /// table is the identity.
    pub fn create_brightness_mapping(&mut self, ease_style: &EaseStyle)
        ensures
            final(self).brightness_mapping matches Some(l) && l@.len() == 256 && (forall|i: int|
                0 <= i < 256 ==> l@[i] == lut_entry(*ease_style, i)),
            *ease_style == EaseStyle::Linear ==> (final(self).brightness_mapping matches Some(l)
                && forall|i: int| 0 <= i < 256 ==> l@[i] == i),
            final(self).wf(),
    {
        let mut lookup: Vec<u8> = Vec::new();
        let mut i: usize = 0;
        while i < 256
            invariant
                i <= 256,
                lookup@.len() == i,
                forall|k: int| 0 <= k < i ==> lookup@[k] == lut_entry(*ease_style, k),
            decreases 256 - i,
        {
            let p: u32 = (i as u32) * 257;
            let output: u32 = ease_apply(*ease_style, p);
            proof {
                lemma_div_is_ordered(
                    (output as int) * 255 + 32767,
                    16744192,
                    SCALE as int,
                );
                lemma_div_pos_is_pos((output as int) * 255 + 32767, SCALE as int);
            }
            let byte64: u64 = ((output as u64) * 255 + 32767) / (SCALE as u64);
            lookup.push(byte64 as u8);
            i += 1;
        }
        proof {
            if *ease_style == EaseStyle::Linear {
                assert forall|k: int| 0 <= k < 256 implies lookup@[k] == k by {
                    lemma_lut_identity_linear(k);
                }
            }
        }
        self.brightness_mapping = Some(lookup);
    }

    /// Encode all fixtures' visible brightness values into channel bytes.
    pub fn encode_channels(
        &self,
        particles: &Vec<Particle>,
        channels_per_fixture: usize,
        use_high_res: bool,
    ) -> (r: Vec<u8>)
        requires
            self.wf(),
            forall|i: int| 0 <= i < particles@.len() ==> (#[trigger] particles@[i]).wf(),
            particles@.len() <= 65536,
            channels_per_fixture <= 1024,
        ensures
            r@ == channels_spec(
                particles@,
                channels_per_fixture as int,
                use_high_res,
                mapping_view(self.brightness_mapping),
            ),
    {
        let n: usize = particles.len();
        let per: usize = if use_high_res {
            channels_per_fixture * 2
        } else {
            channels_per_fixture
        };
        proof {
            vstd::arithmetic::mul::lemma_mul_upper_bound(n as int, 65536, per as int, 2048);
            if per == 0 {
                vstd::arithmetic::mul::lemma_mul_by_zero_is_zero(n as int);
            }
        }
        let total: usize = n * per;
        let mut out: Vec<u8> = Vec::new();
        let mut k: usize = 0;
        while k < total
            invariant
                total == n * per,
                n == particles@.len(),
                per == if use_high_res {
                    channels_per_fixture * 2
                } else {
                    channels_per_fixture as int
                },
                per > 0 || total == 0,
                self.wf(),
                forall|i: int| 0 <= i < particles@.len() ==> (#[trigger] particles@[i]).wf(),
                k <= total,
                out@.len() == k,
                forall|t: int|
                    0 <= t < k ==> out@[t] == channel_byte(
                        particles@,
                        channels_per_fixture as int,
                        use_high_res,
                        mapping_view(self.brightness_mapping),
                        t,
                    ),
            decreases total - k,
        {
            proof {
                vstd::arithmetic::mul::lemma_mul_is_commutative(n as int, per as int);
                lemma_multiply_divide_lt(k as int, per as int, n as int);
                lemma_div_pos_is_pos(k as int, per as int);
            }
            let f: usize = k / per;
            let b: u32 = particles[f].brightness();
            let byte: u8 = if use_high_res {
                let pair: [u8; 2] = convert_u16_to_two_u8s_be(b as u16);
                if k % 2 == 0 {
                    pair[0]
                } else {
                    pair[1]
                }
            } else {
                proof {
                    lemma_div_is_ordered((b as int) * 255 + 32767, 16744192, SCALE as int);
                    lemma_div_pos_is_pos((b as int) * 255 + 32767, SCALE as int);
                }
                let b8: u64 = ((b as u64) * 255 + 32767) / (SCALE as u64);
                match &self.brightness_mapping {
                    Some(table) => table[b8 as usize],
                    None => b8 as u8,
                }
            };
            out.push(byte);
            k += 1;
        }
        out
    }

    /// Encode the fixtures and assemble the ArtDmx frame to transmit.
    /// A frame is produced exactly when the payload has between 1 and 512
    /// bytes, the sizes the wire protocol admits.
    pub fn update(
        &self,
        particles: &Vec<Particle>,
        channels_per_fixture: usize,
        use_high_res: bool,
    ) -> (r: Option<Vec<u8>>)
        requires
            self.wf(),
            forall|i: int| 0 <= i < particles@.len() ==> (#[trigger] particles@[i]).wf(),
            particles@.len() <= 65536,
            channels_per_fixture <= 1024,
        ensures
            ({
                let chans = channels_spec(
                    particles@,
                    channels_per_fixture as int,
                    use_high_res,
                    mapping_view(self.brightness_mapping),
                );
                &&& (r is Some <==> 1 <= chans.len() <= 512)
                &&& (r matches Some(frame) ==> frame@ == artdmx_frame(chans))
            }),
    {
        let channels: Vec<u8> = self.encode_channels(particles, channels_per_fixture, use_high_res);
        artnet_output_frame(channels)
    }
}

} // verus!
