//! The configuration snapshot the core consumes: fixture count and
//! ordering, attack/release defaults, transmission parameters, encoder
//! mode, and trigger-resolution flags — passed explicitly into planner and
//! encoder calls, never read from ambient global state. Persistence of the
//! settings to disk is the application's concern.
use crate::ease::EaseStyle;
use crate::text::{
    dec_chars, find_char, next_char_pos, parse_usize_between, parses_as_usize, append_usize,
    dec_val,
};
use crate::{is_brightness, SCALE};
use vstd::prelude::*;

verus! {

/// The default fixture count.
pub const DEFAULT_COUNT: usize = 14;

/// The default attack duration in milliseconds.
pub const DEFAULT_ATTACK_DURATION: u32 = 2000;

/// The default release duration in milliseconds.
pub const DEFAULT_RELEASE_DURATION: u32 = 2000;

/// The default transmission range in layout units (0.15 of the default
/// 1280-unit layout width).
pub const DEFAULT_TRANSMISSION_RANGE: u32 = 192;

/// The default delay at full transmission range, in milliseconds.
pub const DEFAULT_TRANSMISSION_DELAY: u32 = 500;

/// The default width of a chime, in layout units (the mouse hit-test
/// tolerance is twice this).
pub const DEFAULT_THICKNESS: u32 = 15;

/// The default interval between Art-Net frames, in milliseconds (44 Hz).
pub const DEFAULT_ARTNET_INTERVAL: u64 = 22;

/// One envelope phase: a duration and an easing style.
#[derive(Clone, Copy, Debug)]
pub struct PhaseSettings {
    /// Duration of the phase in milliseconds.
    pub duration: u32,
    /// The easing style shaping the phase.
    pub style: EaseStyle,
}

/// The spatial propagation parameters.
#[derive(Clone, Copy, Debug)]
pub struct TransmissionSettings {
    /// Distance beyond which a trigger does not propagate; positive.
    pub max_range: u32,
    /// Delay applied at `max_range`; zero at distance zero.
    pub max_delay: u32,
}

/// The configuration snapshot consumed by the core.
#[derive(Clone, Debug)]
pub struct Settings {
    /// Number of fixtures in the layout.
    pub chimes_count: usize,
    /// Channel bytes (8-bit) or byte pairs (16-bit) per fixture.
    pub channels_per_pixel: usize,
    /// Whether the encoder emits 16-bit linear instead of 8-bit mapped.
    pub artnet_high_res: bool,
    /// Width of a chime in layout units; the pointer hit-test tolerance is
    /// twice this.
    pub chime_thickness: u32,
    /// Attack defaults.
    pub attack_settings: PhaseSettings,
    /// Release defaults.
    pub release_settings: PhaseSettings,
    /// Spatial propagation parameters.
    pub transmission_settings: TransmissionSettings,
    /// Whether remote triggers always request full brightness.
    pub trigger_full_brightness: bool,
    /// Whether remote triggers address fixtures by order index instead of
    /// by raw id.
    pub trigger_by_order: bool,
    /// Whether pointer triggers are enabled.
    pub mouse_enable: bool,
    /// The brightness a pointer trigger requests.
    pub mouse_brightness_value: u32,
    /// The resting brightness a release falls to.
    pub resting_brightness: u32,
    /// The easing curve the brightness lookup table is built from.
    pub lights_lookup_mapping: EaseStyle,
    /// The per-fixture ordering array: the fixture id for each order index.
    pub fixture_order: Vec<usize>,
    /// Milliseconds between Art-Net frames.
    pub artnet_update_interval: u64,
}

impl Settings {
    /// Brightness values are on the scale and the transmission range is
    /// positive.
    pub open spec fn wf(self) -> bool {
        &&& is_brightness(self.mouse_brightness_value)
        &&& is_brightness(self.resting_brightness)
        &&& self.transmission_settings.max_range > 0
        &&& self.chime_thickness <= 0x7fff_ffff
    }

    /// The hard-coded defaults.
    pub fn defaults() -> (r: Settings)
        ensures
            r.chimes_count == DEFAULT_COUNT,
            r.channels_per_pixel == 1,
            r.artnet_high_res == false,
            r.chime_thickness == DEFAULT_THICKNESS,
            r.attack_settings == (PhaseSettings {
                duration: DEFAULT_ATTACK_DURATION,
                style: EaseStyle::SineBoth,
            }),
            r.release_settings == (PhaseSettings {
                duration: DEFAULT_RELEASE_DURATION,
                style: EaseStyle::SineBoth,
            }),
            r.transmission_settings == (TransmissionSettings {
                max_range: DEFAULT_TRANSMISSION_RANGE,
                max_delay: DEFAULT_TRANSMISSION_DELAY,
            }),
            r.trigger_full_brightness == false,
            r.trigger_by_order == true,
            r.mouse_enable == true,
            r.mouse_brightness_value == SCALE,
            r.resting_brightness == 0,
            r.lights_lookup_mapping == EaseStyle::Linear,
            r.fixture_order@.len() == DEFAULT_COUNT,
            forall|i: int| 0 <= i < DEFAULT_COUNT ==> r.fixture_order@[i] == i,
            r.artnet_update_interval == DEFAULT_ARTNET_INTERVAL,
            r.wf(),
    {
        Settings {
            chimes_count: DEFAULT_COUNT,
            channels_per_pixel: 1,
            artnet_high_res: false,
            chime_thickness: DEFAULT_THICKNESS,
            attack_settings: PhaseSettings {
                duration: DEFAULT_ATTACK_DURATION,
                style: EaseStyle::SineBoth,
            },
            release_settings: PhaseSettings {
                duration: DEFAULT_RELEASE_DURATION,
                style: EaseStyle::SineBoth,
            },
            transmission_settings: TransmissionSettings {
                max_range: DEFAULT_TRANSMISSION_RANGE,
                max_delay: DEFAULT_TRANSMISSION_DELAY,
            },
            trigger_full_brightness: false,
            trigger_by_order: true,
            mouse_enable: true,
            mouse_brightness_value: SCALE,
            resting_brightness: 0,
            lights_lookup_mapping: EaseStyle::Linear,
            fixture_order: default_order(DEFAULT_COUNT),
            artnet_update_interval: DEFAULT_ARTNET_INTERVAL,
        }
    }
}

/// The identity fixture ordering: each order index maps to its own id.
pub fn default_order(count: usize) -> (r: Vec<usize>)
    ensures
        r@.len() == count,
        forall|i: int| 0 <= i < count ==> r@[i] == i,
{
    let mut order: Vec<usize> = Vec::new();
    let mut i: usize = 0;
    while i < count
        invariant
            i <= count,
            order@.len() == i,
            forall|k: int| 0 <= k < i ==> order@[k] == k,
        decreases count - i,
    {
        order.push(i);
        i += 1;
    }
    order
}

// ------------------------------------------- fixture order as display text

/// The comma-joined decimal rendering of an ordering array.
pub open spec fn joined_dec(arr: Seq<usize>) -> Seq<char>
    decreases arr.len(),
{
    if arr.len() == 0 {
        Seq::empty()
    } else if arr.len() == 1 {
        dec_chars(arr[0] as int)
    } else {
        joined_dec(arr.drop_last()) + seq![','] + dec_chars(arr.last() as int)
    }
}

/// Render an ordering array as comma-separated decimal text.
pub fn fixture_array_to_string(arr: &Vec<usize>) -> (r: String)
    ensures
        r@ == joined_dec(arr@),
{
    let mut s: String = String::new();
    let mut i: usize = 0;
    while i < arr.len()
        invariant
            i <= arr@.len(),
            s@ == joined_dec(arr@.take(i as int)),
        decreases arr@.len() - i,
    {
        if i > 0 {
            proof {
                reveal_strlit(",");
            }
            s.append(",");
        }
        append_usize(&mut s, arr[i]);
        proof {
            assert(arr@.take(i + 1).drop_last() =~= arr@.take(i as int));
            assert(arr@.take(i + 1).last() == arr@[i as int]);
            assert(s@ =~= joined_dec(arr@.take(i + 1)));
        }
        i += 1;
    }
    proof {
        assert(arr@.take(arr@.len() as int) =~= arr@);
    }
    s
}

/// The comma-separated pieces of `s` from position `from` on.
pub open spec fn split_pieces(s: Seq<char>, from: int) -> Seq<Seq<char>>
    decreases s.len() - from,
{
    let e = next_char_pos(s, from, ',');
    if from <= e < s.len() {
        seq![s.subrange(from, e)] + split_pieces(s, e + 1)
    } else {
        seq![s.subrange(from, e)]
    }
}

/// The values of the pieces that parse as numbers, in order; pieces that
/// do not parse are dropped.
pub open spec fn parsed_values(pieces: Seq<Seq<char>>) -> Seq<usize>
    decreases pieces.len(),
{
    if pieces.len() == 0 {
        Seq::empty()
    } else {
        let rest = parsed_values(pieces.drop_first());
        if parses_as_usize(pieces.first()) {
            seq![dec_val(pieces.first()) as usize] + rest
        } else {
            rest
        }
    }
}

/// Parse comma-separated decimal text into an ordering array. Pieces that
/// do not parse as numbers are dropped; the result is accepted exactly
/// when the parsed values number `DEFAULT_COUNT`.
pub fn fixture_string_to_array(s: &str) -> (r: Result<Vec<usize>, ()>)
    ensures
        ({
            let vals = parsed_values(split_pieces(s@, 0));
            &&& (r matches Ok(arr) ==> arr@ == vals)
            &&& (r is Ok <==> vals.len() == DEFAULT_COUNT)
        }),
{
    let len: usize = s.unicode_len();
    let mut arr: Vec<usize> = Vec::new();
    let mut from: usize = 0;
    loop
        invariant_except_break
            parsed_values(split_pieces(s@, 0)) == arr@ + parsed_values(
                split_pieces(s@, from as int),
            ),
        invariant
            from <= len,
            len == s@.len(),
        ensures
            parsed_values(split_pieces(s@, 0)) == arr@,
        decreases len - from,
    {
        let e: usize = find_char(s, from, ',');
        proof {
            crate::text::lemma_next_char_pos(s@, from as int, ',');
        }
        let ghost pieces_here: Seq<Seq<char>> = split_pieces(s@, from as int);
        let ghost piece: Seq<char> = s@.subrange(from as int, e as int);
        let ghost arr_before: Seq<usize> = arr@;
        proof {
            if e < len {
                assert(pieces_here == seq![piece] + split_pieces(s@, e + 1));
                assert(pieces_here.drop_first() =~= split_pieces(s@, e + 1));
                assert(pieces_here.first() == piece);
            } else {
                assert(pieces_here == seq![piece]);
                assert(pieces_here.drop_first() =~= Seq::<Seq<char>>::empty());
                assert(pieces_here.first() == piece);
            }
        }
        match parse_usize_between(s, from, e) {
            Some(v) => {
                arr.push(v);
                proof {
                    assert(arr@ =~= arr_before + seq![dec_val(piece) as usize]);
                }
            },
            None => {},
        }
        proof {
            if e < len {
                assert(arr@ + parsed_values(split_pieces(s@, e + 1)) =~= arr_before
                    + parsed_values(pieces_here));
            } else {
                assert(parsed_values(pieces_here.drop_first()) =~= Seq::<usize>::empty());
                assert(arr@ =~= arr_before + parsed_values(pieces_here));
            }
        }
        if e == len {
            break;
        }
        from = e + 1;
    }
    if arr.len() == DEFAULT_COUNT {
        Ok(arr)
    } else {
        Err(())
    }
}

} // verus!
