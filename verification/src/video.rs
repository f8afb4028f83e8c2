//! Video standard selection: everything that differs between PAL and NTSC.
//!
//! One type answers every question a caller can ask about the difference, so a
//! new standard cannot be half-implemented by adding a constant in one module
//! and forgetting another.
//!
//! | Value | PAL | NTSC |
//! | --- | --- | --- |
//! | Total scanlines | 312 | 262 |
//! | Colour clocks per line | 227 | 227 |
//! | Colour clock | 3 546 895 Hz | 3 579 545 Hz |
//! | Active buffer height | 288 | 243 |
//! | First line after vertical blank | 26 | 21 |
//! | `BEAMCON0` reset value | `0x0020` | `0x0000` |
//! | `VPOSR` standard bit | clear | `0x1000` |

use vstd::prelude::*;

use crate::custom;
use crate::events;
use crate::playfield;

verus! {

/// Video standard: the beam geometry and colour clock the chipset runs at.
#[derive(Clone, Copy, Debug, PartialEq, Eq, Structural, Hash)]
pub enum VideoStandard {
    /// 312 lines at 3 546 895 Hz, 50.08 frames per second.
    Pal,
    /// 262 lines at 3 579 545 Hz, 60.19 frames per second.
    Ntsc,
}

/// Active buffer height for NTSC in non-interlaced lines.
pub const NTSC_ACTIVE_HEIGHT: u32 = 243;

impl Default for VideoStandard {
    fn default() -> (r: Self)
        ensures
            r == VideoStandard::Pal,
    {
        VideoStandard::Pal
    }
}

/// Total scanlines per frame for a standard.
pub open spec fn spec_scanlines(s: VideoStandard) -> int {
    match s {
        VideoStandard::Pal => events::SCANLINES_PAL as int,
        VideoStandard::Ntsc => events::SCANLINES_NTSC as int,
    }
}

/// Colour clock frequency for a standard.
pub open spec fn spec_colour_clock_hz(s: VideoStandard) -> int {
    match s {
        VideoStandard::Pal => events::COLOUR_CLOCK_PAL_HZ as int,
        VideoStandard::Ntsc => events::COLOUR_CLOCK_NTSC_HZ as int,
    }
}

/// Duration of one frame in nanoseconds: a whole number of lines of
/// `CYCLES_PER_SCANLINE` colour clocks, rounded down.
pub open spec fn spec_frame_period_nanos(s: VideoStandard) -> int {
    (events::CYCLES_PER_SCANLINE * spec_scanlines(s) * 1_000_000_000) / spec_colour_clock_hz(s)
}

impl VideoStandard {
    /// Total scanlines per frame, including vertical blanking.
    pub fn scanlines(self) -> (r: u64)
        ensures
            r == spec_scanlines(self),
    {
        match self {
            Self::Pal => events::SCANLINES_PAL,
            Self::Ntsc => events::SCANLINES_NTSC,
        }
    }

    /// Colour clock frequency in hertz.
    pub fn colour_clock_hz(self) -> (r: u64)
        ensures
            r == spec_colour_clock_hz(self),
    {
        match self {
            Self::Pal => events::COLOUR_CLOCK_PAL_HZ,
            Self::Ntsc => events::COLOUR_CLOCK_NTSC_HZ,
        }
    }

    /// Active picture height in non-interlaced lines.
    pub fn active_height(self) -> (r: u16)
        ensures
            r == (match self {
                VideoStandard::Pal => playfield::DISPLAY_HEIGHT as int,
                VideoStandard::Ntsc => NTSC_ACTIVE_HEIGHT as int,
            }),
    {
        match self {
            Self::Pal => 288,
            Self::Ntsc => 243,
        }
    }

    /// Last line index of a frame, which is where the beam wraps.
    pub fn last_line(self) -> (r: u16)
        ensures
            r + 1 == spec_scanlines(self),
    {
        match self {
            Self::Pal => 311,
            Self::Ntsc => 261,
        }
    }

    /// First line after vertical blanking.
    pub fn first_visible_line(self) -> (r: u16)
        ensures
            r == (match self {
                VideoStandard::Pal => 26int,
                VideoStandard::Ntsc => 21int,
            }),
    {
        match self {
            Self::Pal => 26,
            Self::Ntsc => 21,
        }
    }

    /// Value the chipset reports in `BEAMCON0`: the `PAL` bit for PAL, nothing for NTSC.
    pub fn beamcon0(self) -> (r: u16)
        ensures
            r == (match self {
                VideoStandard::Pal => custom::BEAMCON0_PAL,
                VideoStandard::Ntsc => 0u16,
            }),
    {
        match self {
            Self::Pal => custom::BEAMCON0_PAL,
            Self::Ntsc => 0x0000,
        }
    }

    /// Standard bit the chipset reports in the `VPOSR` identification field.
    pub fn vposr_standard_bits(self) -> (r: u16)
        ensures
            r == (match self {
                VideoStandard::Pal => 0u16,
                VideoStandard::Ntsc => 0x1000u16,
            }),
    {
        match self {
            Self::Pal => 0x0000,
            Self::Ntsc => 0x1000,
        }
    }

    /// Duration of one emulated frame in nanoseconds, derived from the line
    /// count and the colour clock rather than from a rounded frame rate.
    pub fn frame_period_nanos(self) -> (r: u64)
        ensures
            r == spec_frame_period_nanos(self),
    {
        let cycles = events::CYCLES_PER_SCANLINE * self.scanlines();
        cycles * 1_000_000_000 / self.colour_clock_hz()
    }

    /// Short lowercase name for manifests and diagnostics.
    pub fn as_str(self) -> (r: &'static str)
        ensures
            r@ == (match self {
                VideoStandard::Pal => "pal"@,
                VideoStandard::Ntsc => "ntsc"@,
            }),
    {
        match self {
            Self::Pal => "pal",
            Self::Ntsc => "ntsc",
        }
    }

    /// Stable discriminant for state digests.
    pub fn digest_tag(self) -> (r: u16)
        ensures
            r == (match self {
                VideoStandard::Pal => 0u16,
                VideoStandard::Ntsc => 1u16,
            }),
    {
        match self {
            Self::Pal => 0,
            Self::Ntsc => 1,
        }
    }
}

/// An NTSC frame is shorter than a PAL frame both in lines and in time, and the
/// PAL picture is the taller one, so a PAL-sized buffer holds either.
pub proof fn law_ntsc_frame_is_shorter()
    ensures
        spec_scanlines(VideoStandard::Ntsc) < spec_scanlines(VideoStandard::Pal),
        spec_frame_period_nanos(VideoStandard::Ntsc) < spec_frame_period_nanos(VideoStandard::Pal),
        NTSC_ACTIVE_HEIGHT <= playfield::DISPLAY_HEIGHT,
{
    assert(70_824_000_000_000int / 3_546_895int == 19_967_887) by (nonlinear_arith);
    assert(59_474_000_000_000int / 3_579_545int == 16_614_960) by (nonlinear_arith);
}

} // verus!
