//! Paula audio: the channel registers and their DMA stepping, and the integer
//! stereo mix. The output filter is floating point and lives with the host.

use vstd::prelude::*;

verus! {

/// Number of audio channels (Paula has 4).
pub const NUM_CHANNELS: usize = 4;

/// PAL color clock frequency in Hz.
pub const AMIGA_CLOCK_PAL: u32 = 3_546_895;

/// Output sample rate in Hz.
pub const OUTPUT_SAMPLE_RATE: u32 = 44_100;

/// Per-channel stereo mix configuration.
#[derive(Clone, Copy, Debug, PartialEq, Eq, Structural)]
pub struct ChannelMix {
    /// Left channel percentage (0–100).
    pub left_pct: u8,
    /// Right channel percentage (0–100).
    pub right_pct: u8,
}

/// State of a single Paula audio channel.
#[derive(Clone, Copy, Debug)]
pub struct AudioChannel {
    /// Sample pointer (`AUDxLC`).
    pub ptr: u32,
    /// Length in words (`AUDxLEN`).
    pub len: u16,
    /// Period (`AUDxPER`) — lower value = higher frequency.
    pub period: u16,
    /// Volume 0–64 (`AUDxVOL`).
    pub volume: u16,
    /// Data register (`AUDxDAT`).
    pub dat: u16,
    /// Reload pointer (latched at start).
    pub ptr_reload: u32,
    /// Remaining length counter in words.
    pub len_counter: u16,
    /// Period countdown (decremented each DMA tick).
    pub period_counter: u16,
    /// Current output sample (signed 8-bit).
    pub sample_byte: i8,
    /// Which byte of dat to output next (true = high byte first).
    pub high_byte: bool,
    /// Channel DMA enabled.
    pub dma_enabled: bool,
    /// Interrupt pending (buffer empty).
    pub irq_pending: bool,
}

impl Default for AudioChannel {
    fn default() -> (r: Self)
        ensures
            r.ptr == 0 && r.len == 0 && r.period == 1 && r.volume == 0 && r.dat == 0,
            r.ptr_reload == 0 && r.len_counter == 0 && r.period_counter == 0 && r.sample_byte == 0,
            r.high_byte && !r.dma_enabled && !r.irq_pending,
    {
        AudioChannel {
            ptr: 0,
            len: 0,
            period: 1,
            volume: 0,
            dat: 0,
            ptr_reload: 0,
            len_counter: 0,
            period_counter: 0,
            sample_byte: 0,
            high_byte: true,
            dma_enabled: false,
            irq_pending: false,
        }
    }
}

/// A byte read as a signed sample.
pub open spec fn signed8(b: int) -> int {
    if b >= 128 { b - 256 } else { b }
}

/// The channel after fetching the next sample word: the big-endian word at the
/// pointer is latched when it lies inside chip RAM, the pointer moves on two
/// bytes, and when the length counter runs out the pointer and length reload
/// and the channel raises its interrupt.
pub open spec fn spec_fetch_word(c: AudioChannel, ram: Seq<u8>) -> AudioChannel {
    let dat = if (c.ptr as int) + 1 < ram.len() {
        (ram[c.ptr as int] * 256 + ram[c.ptr + 1]) as u16
    } else {
        c.dat
    };
    let counter = if c.len_counter > 0 { (c.len_counter - 1) as u16 } else { 0u16 };
    if counter == 0 {
        AudioChannel { dat, ptr: c.ptr_reload, len_counter: c.len, irq_pending: true, ..c }
    } else {
        AudioChannel { dat, ptr: ((c.ptr + 2) % 0x1_0000_0000) as u32, len_counter: counter, ..c }
    }
}

/// One DMA tick of an enabled channel: the period counter counts down to zero
/// (never below); when it reaches zero it reloads from the period and the
/// next byte of the data register becomes the output sample, high byte
/// first; after the low byte the next word is fetched.
pub open spec fn spec_tick(c: AudioChannel, ram: Seq<u8>) -> AudioChannel {
    if !c.dma_enabled {
        c
    } else {
        let counter = if c.period_counter > 0 { (c.period_counter - 1) as u16 } else { 0u16 };
        if counter != 0 {
            AudioChannel { period_counter: counter, ..c }
        } else if c.high_byte {
            AudioChannel { period_counter: c.period, sample_byte: signed8(c.dat as int / 256) as i8, high_byte: false, ..c }
        } else {
            spec_fetch_word(
                AudioChannel { period_counter: c.period, sample_byte: signed8(c.dat as int % 256) as i8, high_byte: true, ..c },
                ram,
            )
        }
    }
}

/// A byte as a signed sample.
fn to_sample(b: u16) -> (r: i8)
    requires
        b < 256,
    ensures
        r == signed8(b as int),
{
    if b >= 128 {
        (b as i16 - 256) as i8
    } else {
        b as i8
    }
}

impl AudioChannel {
    /// Fetch the next sample word from chip RAM.
    fn fetch_next_word(&mut self, chip_ram: &[u8])
        ensures
            *final(self) == spec_fetch_word(*old(self), chip_ram@),
    {
        let addr = self.ptr as usize;
        if chip_ram.len() > 0 && addr < chip_ram.len() - 1 {
            self.dat = chip_ram[addr] as u16 * 256 + chip_ram[addr + 1] as u16;
        }
        self.ptr = self.ptr.wrapping_add(2);
        self.len_counter = self.len_counter.saturating_sub(1);
        if self.len_counter == 0 {
            self.ptr = self.ptr_reload;
            self.len_counter = self.len;
            self.irq_pending = true;
        }
    }

    /// Advance the channel by one DMA tick.
    pub fn tick(&mut self, chip_ram: &[u8])
        ensures
            *final(self) == spec_tick(*old(self), chip_ram@),
    {
        if !self.dma_enabled {
            return;
        }
        self.period_counter = self.period_counter.saturating_sub(1);
        if self.period_counter == 0 {
            self.period_counter = self.period;
            if self.high_byte {
                self.sample_byte = to_sample(self.dat / 256);
                self.high_byte = false;
            } else {
                self.sample_byte = to_sample(self.dat % 256);
                self.high_byte = true;
                self.fetch_next_word(chip_ram);
            }
        }
    }
}

/// The standard Amiga stereo placement: channels 0 and 3 fully left, 1 and 2
/// fully right.
pub fn default_channel_mix() -> (r: [ChannelMix; NUM_CHANNELS])
    ensures
        r@ == seq![
            ChannelMix { left_pct: 100, right_pct: 0 },
            ChannelMix { left_pct: 0, right_pct: 100 },
            ChannelMix { left_pct: 0, right_pct: 100 },
            ChannelMix { left_pct: 100, right_pct: 0 },
        ],
{
    let r = [
        ChannelMix { left_pct: 100, right_pct: 0 },
        ChannelMix { left_pct: 0, right_pct: 100 },
        ChannelMix { left_pct: 0, right_pct: 100 },
        ChannelMix { left_pct: 100, right_pct: 0 },
    ];
    assert(r@ =~= seq![
        ChannelMix { left_pct: 100, right_pct: 0 },
        ChannelMix { left_pct: 0, right_pct: 100 },
        ChannelMix { left_pct: 0, right_pct: 100 },
        ChannelMix { left_pct: 100, right_pct: 0 },
    ]);
    r
}

/// Stereo separation scaled between mono (0%) and hard-pan (100%); values
/// above 100 count as 100. Channels 0 and 3 lean left, 1 and 2 right, each
/// with `50 + sep / 2` percent on its own side and `50 - sep / 2` on the other.
pub fn separation_mix(separation: u8) -> (r: [ChannelMix; NUM_CHANNELS])
    ensures
        ({
            let sep = if separation > 100 { 100 } else { separation as int };
            let main = (50 + sep / 2) as u8;
            let cross = (50 - sep / 2) as u8;
            r@ == seq![
                ChannelMix { left_pct: main, right_pct: cross },
                ChannelMix { left_pct: cross, right_pct: main },
                ChannelMix { left_pct: cross, right_pct: main },
                ChannelMix { left_pct: main, right_pct: cross },
            ]
        }),
{
    let sep = if separation > 100 { 100 } else { separation };
    let main_pct = 50 + sep / 2;
    let cross_pct = 50 - sep / 2;
    let r = [
        ChannelMix { left_pct: main_pct, right_pct: cross_pct },
        ChannelMix { left_pct: cross_pct, right_pct: main_pct },
        ChannelMix { left_pct: cross_pct, right_pct: main_pct },
        ChannelMix { left_pct: main_pct, right_pct: cross_pct },
    ];
    assert(r@ =~= seq![
        ChannelMix { left_pct: main_pct, right_pct: cross_pct },
        ChannelMix { left_pct: cross_pct, right_pct: main_pct },
        ChannelMix { left_pct: cross_pct, right_pct: main_pct },
        ChannelMix { left_pct: main_pct, right_pct: cross_pct },
    ]);
    r
}

/// Integer quotient rounded towards zero.
pub open spec fn div_toward_zero(x: int, d: int) -> int {
    if x < 0 { -((-x) / d) } else { x / d }
}

/// One channel's contribution to one side: sample times volume times the
/// side's percentage, divided by 100 rounding towards zero.
pub open spec fn spec_contribution(c: AudioChannel, pct: u8) -> int {
    div_toward_zero(c.sample_byte * c.volume * pct, 100)
}

/// Sum over the first `n` channels of their contributions to the left side
/// (or the right side).
pub open spec fn spec_side_sum(channels: Seq<AudioChannel>, mix: Seq<ChannelMix>, n: int, left: bool) -> int
    decreases n,
{
    if n <= 0 {
        0
    } else {
        spec_side_sum(channels, mix, n - 1, left) + spec_contribution(
            channels[n - 1],
            if left { mix[n - 1].left_pct } else { mix[n - 1].right_pct },
        )
    }
}

/// The mixed left and right sums of the four channels, before filtering.
pub open spec fn spec_mix(channels: Seq<AudioChannel>, mix: Seq<ChannelMix>) -> (int, int) {
    (spec_side_sum(channels, mix, 4, true), spec_side_sum(channels, mix, 4, false))
}

/// One channel's contribution to one side.
fn contribution(sample: i8, volume: u16, pct: u8) -> (r: i32)
    ensures
        r == div_toward_zero(sample * volume * pct, 100),
        -0x0200_0000 <= r <= 0x0200_0000,
{
    let mag: u64 = if sample < 0 { (-(sample as i64)) as u64 } else { sample as u64 };
    proof {
        assert(mag * volume <= 128 * 0xFFFF) by (nonlinear_arith)
            requires
                mag <= 128,
                volume <= 0xFFFF,
        ;
        assert(mag * volume * pct <= 128 * 0xFFFF * 0xFF) by (nonlinear_arith)
            requires
                mag <= 128,
                volume <= 0xFFFF,
                pct <= 0xFF,
        ;
        assert(mag * volume * pct >= 0) by (nonlinear_arith)
            requires
                mag >= 0,
                volume >= 0,
                pct >= 0,
        ;
    }
    let q = (mag * volume as u64 * pct as u64) / 100;
    proof {
        assert(sample < 0 ==> sample * volume * pct == -(mag * volume * pct)) by (nonlinear_arith)
            requires
                sample < 0 ==> mag == -sample,
        ;
        assert(sample >= 0 ==> sample * volume * pct == mag * volume * pct) by (nonlinear_arith)
            requires
                sample >= 0 ==> mag == sample,
        ;
    }
    if sample < 0 {
        -(q as i32)
    } else {
        q as i32
    }
}

/// Mix the four channels' current samples to a left and a right sum using
/// each channel's volume and stereo percentages.
pub fn mix_channels(channels: &[AudioChannel; NUM_CHANNELS], mix: &[ChannelMix; NUM_CHANNELS]) -> (r: (i32, i32))
    ensures
        (r.0 as int, r.1 as int) == spec_mix(channels@, mix@),
{
    let mut left: i32 = 0;
    let mut right: i32 = 0;
    let mut ch: usize = 0;
    while ch < NUM_CHANNELS
        invariant
            ch <= NUM_CHANNELS,
            -0x0200_0000 * ch <= left <= 0x0200_0000 * ch,
            -0x0200_0000 * ch <= right <= 0x0200_0000 * ch,
            left == spec_side_sum(channels@, mix@, ch as int, true),
            right == spec_side_sum(channels@, mix@, ch as int, false),
        decreases NUM_CHANNELS - ch,
    {
        let c = channels[ch];
        let m = mix[ch];
        left = left + contribution(c.sample_byte, c.volume, m.left_pct);
        right = right + contribution(c.sample_byte, c.volume, m.right_pct);
        ch += 1;
    }
    (left, right)
}

/// Advance the sample clock by one output sample: the colour clocks owed are
/// accumulated and whole ticks at the output rate are paid out, the remainder
/// carried. Returns the ticks to run and the new accumulator.
pub fn sample_clock_ticks(frac_accum: u32) -> (r: (u32, u32))
    requires
        frac_accum < OUTPUT_SAMPLE_RATE,
    ensures
        r.0 == (frac_accum + AMIGA_CLOCK_PAL) / (OUTPUT_SAMPLE_RATE as int),
        r.1 == (frac_accum + AMIGA_CLOCK_PAL) % (OUTPUT_SAMPLE_RATE as int),
        r.1 < OUTPUT_SAMPLE_RATE,
{
    let total = frac_accum + AMIGA_CLOCK_PAL;
    (total / OUTPUT_SAMPLE_RATE, total % OUTPUT_SAMPLE_RATE)
}

} // verus!
