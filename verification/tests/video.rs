use rumiga::custom;
use rumiga::events;
use rumiga::playfield;
use rumiga::video::{VideoStandard, NTSC_ACTIVE_HEIGHT};

#[test]
fn line_count_matches_documented_constants() {
    assert_eq!(VideoStandard::Pal.scanlines(), 312);
    assert_eq!(VideoStandard::Ntsc.scanlines(), 262);
    assert_eq!(VideoStandard::Pal.scanlines(), events::SCANLINES_PAL);
    assert_eq!(VideoStandard::Ntsc.scanlines(), events::SCANLINES_NTSC);
}

#[test]
fn colour_clock_matches_documented_constants() {
    assert_eq!(VideoStandard::Pal.colour_clock_hz(), 3_546_895);
    assert_eq!(VideoStandard::Ntsc.colour_clock_hz(), 3_579_545);
}

#[test]
fn line_length_is_the_same_in_both_standards() {
    assert_eq!(events::CYCLES_PER_SCANLINE, 227);
}

#[test]
fn last_line_agrees_with_the_frame_length() {
    assert_eq!(VideoStandard::Pal.last_line(), 311);
    assert_eq!(VideoStandard::Ntsc.last_line(), 261);
    for standard in [VideoStandard::Pal, VideoStandard::Ntsc] {
        assert_eq!(
            u64::from(standard.last_line()) + 1,
            standard.scanlines(),
            "the beam must wrap exactly at the end of a frame"
        );
    }
}

#[test]
fn active_height_matches_documented_constants() {
    assert_eq!(VideoStandard::Pal.active_height(), 288);
    assert_eq!(VideoStandard::Ntsc.active_height(), 243);
    assert_eq!(NTSC_ACTIVE_HEIGHT, 243);
}

#[test]
fn pal_is_the_taller_standard_so_its_buffer_holds_both() {
    assert!(VideoStandard::Ntsc.active_height() <= VideoStandard::Pal.active_height());
    assert_eq!(
        u32::from(VideoStandard::Pal.active_height()),
        playfield::DISPLAY_HEIGHT
    );
}

#[test]
fn first_visible_line_matches_documented_constants() {
    assert_eq!(VideoStandard::Pal.first_visible_line(), 26);
    assert_eq!(VideoStandard::Ntsc.first_visible_line(), 21);
}

#[test]
fn beamcon0_reports_the_standard() {
    assert_eq!(VideoStandard::Pal.beamcon0(), custom::BEAMCON0_PAL);
    assert_eq!(VideoStandard::Pal.beamcon0(), 0x0020);
    assert_eq!(VideoStandard::Ntsc.beamcon0(), 0x0000);
    assert_eq!(
        VideoStandard::Ntsc.beamcon0() & custom::BEAMCON0_PAL,
        0,
        "the PAL bit must be clear under NTSC"
    );
}

#[test]
fn vposr_reports_the_standard_in_bit_12() {
    assert_eq!(VideoStandard::Pal.vposr_standard_bits(), 0x0000);
    assert_eq!(VideoStandard::Ntsc.vposr_standard_bits(), 0x1000);
}

#[test]
fn frame_period_follows_the_colour_clock_in_both_standards() {
    assert_eq!(VideoStandard::Pal.frame_period_nanos(), 19_967_887);
    assert_eq!(VideoStandard::Ntsc.frame_period_nanos(), 16_614_960);
}

#[test]
fn frame_period_is_not_the_rounded_rate() {
    assert_ne!(VideoStandard::Pal.frame_period_nanos(), 20_000_000);
    assert_ne!(VideoStandard::Ntsc.frame_period_nanos(), 16_666_666);
    assert_ne!(VideoStandard::Ntsc.frame_period_nanos(), 16_683_350);
}

#[test]
fn ntsc_frames_are_shorter_in_both_lines_and_time() {
    assert!(VideoStandard::Ntsc.scanlines() < VideoStandard::Pal.scanlines());
    assert!(
        VideoStandard::Ntsc.frame_period_nanos() < VideoStandard::Pal.frame_period_nanos(),
        "a shorter frame on a faster clock must take less time"
    );
}

#[test]
fn pal_is_the_default_standard() {
    assert_eq!(VideoStandard::default(), VideoStandard::Pal);
}

#[test]
fn digest_tags_are_distinct() {
    assert_ne!(
        VideoStandard::Pal.digest_tag(),
        VideoStandard::Ntsc.digest_tag()
    );
}

#[test]
fn names_are_stable() {
    assert_eq!(VideoStandard::Pal.as_str(), "pal");
    assert_eq!(VideoStandard::Ntsc.as_str(), "ntsc");
}
