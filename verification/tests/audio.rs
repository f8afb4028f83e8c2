use rumiga::audio::{
    default_channel_mix, mix_channels, sample_clock_ticks, separation_mix, AudioChannel, ChannelMix,
    AMIGA_CLOCK_PAL, NUM_CHANNELS, OUTPUT_SAMPLE_RATE,
};

#[test]
fn default_mix_is_amiga_stereo() {
    let mix = default_channel_mix();
    assert_eq!(mix[0], ChannelMix { left_pct: 100, right_pct: 0 });
    assert_eq!(mix[1], ChannelMix { left_pct: 0, right_pct: 100 });
    assert_eq!(mix[2], ChannelMix { left_pct: 0, right_pct: 100 });
    assert_eq!(mix[3], ChannelMix { left_pct: 100, right_pct: 0 });
    assert_eq!(NUM_CHANNELS, 4);
}

#[test]
fn separation_scales_between_mono_and_hard_pan() {
    assert_eq!(separation_mix(100), default_channel_mix());
    let mono = separation_mix(0);
    assert!(mono.iter().all(|m| m.left_pct == 50 && m.right_pct == 50));
    let partial = separation_mix(75);
    assert_eq!(partial[0], ChannelMix { left_pct: 87, right_pct: 13 });
    assert_eq!(partial[1], ChannelMix { left_pct: 13, right_pct: 87 });
    assert_eq!(separation_mix(200), separation_mix(100));
}

#[test]
fn tick_outputs_high_then_low_byte_and_fetches() {
    let ram = [0x11, 0x22, 0x33, 0x44];
    let mut ch = AudioChannel {
        dma_enabled: true,
        period: 2,
        period_counter: 1,
        dat: 0x7F80,
        len: 2,
        len_counter: 2,
        ..AudioChannel::default()
    };
    ch.tick(&ram);
    assert_eq!(ch.sample_byte, 0x7F);
    assert!(!ch.high_byte);
    assert_eq!(ch.period_counter, 2);
    ch.tick(&ram);
    assert_eq!(ch.period_counter, 1);
    ch.tick(&ram);
    assert_eq!(ch.sample_byte, -128);
    assert!(ch.high_byte);
    assert_eq!(ch.dat, 0x1122);
    assert_eq!(ch.ptr, 2);
    assert_eq!(ch.len_counter, 1);
}

#[test]
fn exhausted_length_reloads_and_interrupts() {
    let ram = [0u8; 8];
    let mut ch = AudioChannel {
        dma_enabled: true,
        period: 1,
        period_counter: 1,
        high_byte: false,
        ptr: 6,
        ptr_reload: 0,
        len: 4,
        len_counter: 1,
        ..AudioChannel::default()
    };
    ch.tick(&ram);
    assert!(ch.irq_pending);
    assert_eq!(ch.ptr, 0);
    assert_eq!(ch.len_counter, 4);
}

#[test]
fn disabled_channel_does_not_move() {
    let mut ch = AudioChannel { period_counter: 5, ..AudioChannel::default() };
    ch.tick(&[1, 2]);
    assert_eq!(ch.period_counter, 5);
}

#[test]
fn mixing_scales_by_volume_and_percentage() {
    let mut channels = [AudioChannel::default(); NUM_CHANNELS];
    channels[0].sample_byte = 64;
    channels[0].volume = 64;
    channels[1].sample_byte = -1;
    channels[1].volume = 1;
    let mut mix = default_channel_mix();
    mix[1] = ChannelMix { left_pct: 50, right_pct: 50 };
    assert_eq!(mix_channels(&channels, &mix), (4096, 0));
    channels[1].volume = 3;
    assert_eq!(mix_channels(&channels, &mix), (4095, -1));
}

#[test]
fn sample_clock_pays_out_whole_ticks() {
    assert_eq!(sample_clock_ticks(0), (80, 18_895));
    assert_eq!(sample_clock_ticks(44_000), (81, 18_795));
    assert_eq!(AMIGA_CLOCK_PAL, 3_546_895);
    assert_eq!(OUTPUT_SAMPLE_RATE, 44_100);
}

#[test]
fn default_stereo_mix() {
    let channel_mix = default_channel_mix();
    assert_eq!(channel_mix[0].left_pct, 100);
    assert_eq!(channel_mix[0].right_pct, 0);
    assert_eq!(channel_mix[1].left_pct, 0);
    assert_eq!(channel_mix[1].right_pct, 100);
    assert_eq!(channel_mix[2].left_pct, 0);
    assert_eq!(channel_mix[2].right_pct, 100);
    assert_eq!(channel_mix[3].left_pct, 100);
    assert_eq!(channel_mix[3].right_pct, 0);
}

#[test]
fn volume_scaling() {
    let mut channels = [AudioChannel::default(); NUM_CHANNELS];
    channels[0].sample_byte = 127;
    channels[0].volume = 64;
    let (full, _) = mix_channels(&channels, &default_channel_mix());

    let mut silent = [AudioChannel::default(); NUM_CHANNELS];
    silent[0].sample_byte = 127;
    silent[0].volume = 0;
    let (left, _) = mix_channels(&silent, &default_channel_mix());
    assert_eq!(left, 0);
    assert_ne!(full, 0);
}

#[test]
fn period_counter_lower_means_faster() {
    // Channel with period=2 should change samples faster than period=100
    let chip_ram = [0x7F, 0x80, 0x40, 0x60]; // two words of sample data

    let mut ch = AudioChannel::default();
    ch.dma_enabled = true;
    ch.period = 2;
    ch.period_counter = 2;
    ch.dat = 0x7F80;
    ch.high_byte = true;
    ch.volume = 64;
    ch.ptr = 0;
    ch.ptr_reload = 0;
    ch.len = 2;
    ch.len_counter = 2;

    let mut changes_fast = 0i8;
    let mut prev = ch.sample_byte;
    for _ in 0..10 {
        ch.tick(&chip_ram);
        if ch.sample_byte != prev {
            changes_fast += 1;
            prev = ch.sample_byte;
        }
    }

    let mut ch2 = AudioChannel::default();
    ch2.dma_enabled = true;
    ch2.period = 100;
    ch2.period_counter = 100;
    ch2.dat = 0x7F80;
    ch2.high_byte = true;
    ch2.volume = 64;
    ch2.ptr = 0;
    ch2.ptr_reload = 0;
    ch2.len = 2;
    ch2.len_counter = 2;

    let mut changes_slow = 0i8;
    let mut prev2 = ch2.sample_byte;
    for _ in 0..10 {
        ch2.tick(&chip_ram);
        if ch2.sample_byte != prev2 {
            changes_slow += 1;
            prev2 = ch2.sample_byte;
        }
    }

    assert!(changes_fast > changes_slow);
}

#[test]
fn tick_produces_correct_sample_bytes() {
    let chip_ram = [0x12, 0x34]; // next word to fetch

    let mut ch = AudioChannel::default();
    ch.dma_enabled = true;
    ch.period = 1;
    ch.period_counter = 1;
    ch.dat = 0xA0_50; // high=0xA0 (-96), low=0x50 (80)
    ch.high_byte = true;
    ch.ptr = 0;
    ch.ptr_reload = 0;
    ch.len = 1;
    ch.len_counter = 1;

    // First tick: outputs high byte
    ch.tick(&chip_ram);
    assert_eq!(ch.sample_byte, -96_i8); // 0xA0 as i8

    // Second tick: outputs low byte, then fetches next word
    ch.tick(&chip_ram);
    assert_eq!(ch.sample_byte, 0x50_i8); // 80
}

#[test]
fn custom_mix_percentages() {
    let mut channel_mix = default_channel_mix();
    channel_mix[0] = ChannelMix { left_pct: 50, right_pct: 50 };
    let mut channels = [AudioChannel::default(); NUM_CHANNELS];
    channels[0].sample_byte = 100;
    channels[0].volume = 64;

    let (left, right) = mix_channels(&channels, &channel_mix);

    // 100 * 64 * 50 / 100 = 3200
    assert_eq!(left, 3200);
    assert_eq!(right, 3200);
}

#[test]
fn test_apply_separation() {
    // Test 100% (default)
    let channel_mix = separation_mix(100);
    assert_eq!(channel_mix[0].left_pct, 100);
    assert_eq!(channel_mix[0].right_pct, 0);
    assert_eq!(channel_mix[1].left_pct, 0);
    assert_eq!(channel_mix[1].right_pct, 100);

    // Test 0% (mono)
    let channel_mix = separation_mix(0);
    assert_eq!(channel_mix[0].left_pct, 50);
    assert_eq!(channel_mix[0].right_pct, 50);
    assert_eq!(channel_mix[1].left_pct, 50);
    assert_eq!(channel_mix[1].right_pct, 50);

    // Test 50%
    let channel_mix = separation_mix(50);
    assert_eq!(channel_mix[0].left_pct, 75);
    assert_eq!(channel_mix[0].right_pct, 25);
    assert_eq!(channel_mix[1].left_pct, 25);
    assert_eq!(channel_mix[1].right_pct, 75);
}
