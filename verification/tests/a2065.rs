use rumiga::a2065::{
    A2065, A2065_AUTOCONFIG_BASE, A2065_RAP, A2065_RDP, CSR0_IDON, CSR0_INEA, CSR0_INIT, CSR0_INTR,
    CSR0_MISS, CSR0_RINT, CSR0_RXON, CSR0_STOP, CSR0_STRT, CSR0_TDMD, CSR0_TINT, CSR0_TXON,
    ETHERNET_FCS_SIZE, ETHERNET_MIN_FRAME_SIZE, RAM_OFFSET, RX_ENP, RX_OWN, RX_STP, TX_ENP, TX_OWN,
    TX_STP,
};
use rumiga::network::MacAddress;

const MAP_BASE: u32 = 0x00EA_0000;
const INIT_BLOCK: u32 = RAM_OFFSET;
const RX_RING: u32 = RAM_OFFSET + 0x100;
const TX_RING: u32 = RAM_OFFSET + 0x180;
const RX_BUFFER: u32 = RAM_OFFSET + 0x300;
const TX_BUFFER: u32 = RAM_OFFSET + 0x500;

#[test]
fn disabled_device_is_absent_from_autoconfig() {
    let device = A2065::new_disabled();

    assert_eq!(device.read_byte(A2065_AUTOCONFIG_BASE), None);
    assert!(!device.status().enabled);
}

#[test]
fn enabled_device_exposes_winuae_style_autoconfig_nibbles() {
    let mut device = A2065::new_disabled();
    device.enable(MacAddress::a2065_compatible_default());

    assert_eq!(device.read_byte(A2065_AUTOCONFIG_BASE), Some(0xC0));
    assert_eq!(device.read_byte(A2065_AUTOCONFIG_BASE + 2), Some(0x10));
    assert_eq!(device.read_byte(A2065_AUTOCONFIG_BASE + 4), Some(0x8F));
    assert_eq!(device.read_byte(A2065_AUTOCONFIG_BASE + 6), Some(0xFF));
    assert_eq!(
        device.autoconfig_bytes(),
        [
            0xC1, 0x70, 0x00, 0x00, 0x02, 0x02, 0x10, 0x4D, 0x49, 0x47, 0x00, 0x00
        ]
    );
}

#[test]
fn zorro_mapping_hides_autoconfig_and_exposes_board_ram() {
    let mut device = A2065::new_disabled();
    device.enable(MacAddress::a2065_compatible_default());

    assert!(device.write_byte(A2065_AUTOCONFIG_BASE + 0x48, 0xEA));

    let status = device.status();
    assert!(status.configured);
    assert_eq!(status.base_address, Some(MAP_BASE));
    assert_eq!(device.read_byte(A2065_AUTOCONFIG_BASE), None);

    assert!(device.write_byte(MAP_BASE + RAM_OFFSET + 3, 0xA5));
    assert_eq!(device.read_byte(MAP_BASE + RAM_OFFSET + 3), Some(0xA5));
    assert_eq!(device.read_byte(MAP_BASE + 0x10), Some(0));
}

#[test]
fn word_mapping_uses_high_byte_like_winuae() {
    let mut device = A2065::new_disabled();
    device.enable(MacAddress::a2065_compatible_default());

    assert!(device.write_word(A2065_AUTOCONFIG_BASE + 0x48, 0xEA00));

    assert_eq!(device.status().base_address, Some(MAP_BASE));
}

#[test]
fn lance_rap_rdp_shell_tracks_stop_init_and_start() {
    let mut device = A2065::new_disabled();
    device.enable(MacAddress::a2065_compatible_default());
    assert!(device.write_byte(A2065_AUTOCONFIG_BASE + 0x48, 0xEA));

    assert_eq!(device.read_word(MAP_BASE + A2065_RDP), Some(CSR0_STOP));

    assert!(device.write_word(MAP_BASE + A2065_RAP, 1));
    assert!(device.write_word(MAP_BASE + A2065_RDP, 0x1235));
    assert_eq!(device.read_word(MAP_BASE + A2065_RDP), Some(0x1234));

    assert!(device.write_word(MAP_BASE + A2065_RAP, 2));
    assert!(device.write_word(MAP_BASE + A2065_RDP, 0x12FF));
    assert_eq!(device.read_word(MAP_BASE + A2065_RDP), Some(0x00FF));

    assert!(device.write_word(MAP_BASE + A2065_RAP, 0));
    assert!(device.write_word(MAP_BASE + A2065_RDP, CSR0_INIT));
    assert_eq!(
        device.read_word(MAP_BASE + A2065_RDP),
        Some(CSR0_INIT | CSR0_IDON)
    );

    assert!(device.write_word(MAP_BASE + A2065_RDP, CSR0_STRT));
    let csr0 = device.read_word(MAP_BASE + A2065_RDP).expect("CSR0");
    assert_eq!(csr0 & CSR0_STOP, 0);
    assert_eq!(csr0 & (CSR0_RXON | CSR0_TXON), CSR0_RXON | CSR0_TXON);
}

#[test]
fn transmit_descriptor_ring_emits_frames_and_interrupts() {
    let mut device = configured_device();
    seed_init_block(&mut device);
    let frame = ethernet_frame(0x33, ETHERNET_MIN_FRAME_SIZE);
    seed_transmit_descriptor(&mut device, &frame);

    start_device(&mut device);
    assert!(device.write_word(MAP_BASE + A2065_RDP, CSR0_TDMD | CSR0_INEA));

    let transmitted = device.take_transmitted_frame().expect("transmitted frame");
    assert_eq!(transmitted, frame);
    assert_eq!(device.status().counters.tx_packets, 1);
    assert_eq!(
        device.read_word(MAP_BASE + A2065_RDP).expect("CSR0")
            & (CSR0_TINT | CSR0_INTR | CSR0_INEA),
        CSR0_TINT | CSR0_INTR | CSR0_INEA
    );
    assert_eq!(
        device.read_word(MAP_BASE + TX_RING + 2),
        Some(TX_STP | TX_ENP)
    );

    assert!(device.write_word(MAP_BASE + A2065_RDP, CSR0_TINT | CSR0_INEA));
    assert_eq!(
        device.read_word(MAP_BASE + A2065_RDP).expect("CSR0") & CSR0_TINT,
        0
    );
}

#[test]
fn receive_descriptor_ring_accepts_queued_packets() {
    let mut device = configured_device();
    seed_init_block(&mut device);
    seed_receive_descriptor(&mut device);
    start_device(&mut device);

    let frame = ethernet_frame(0x44, ETHERNET_MIN_FRAME_SIZE);
    device.queue_receive_frame(frame.clone());

    let packet_len = frame.len() + ETHERNET_FCS_SIZE;
    assert_eq!(device.status().counters.rx_packets, 1);
    assert_eq!(
        device.read_word(MAP_BASE + A2065_RDP).expect("CSR0") & CSR0_RINT,
        CSR0_RINT
    );
    assert_eq!(
        device.read_word(MAP_BASE + RX_RING + 2),
        Some(RX_STP | RX_ENP)
    );
    assert_eq!(
        device.read_word(MAP_BASE + RX_RING + 6),
        Some(u16::try_from(packet_len).expect("packet len fits"))
    );
    for (index, byte) in frame.iter().enumerate() {
        assert_eq!(
            device.read_byte(MAP_BASE + RX_BUFFER + u32::try_from(index).expect("index")),
            Some(*byte)
        );
    }
}

#[test]
fn loopback_backend_delivers_transmit_to_receive_ring() {
    let mut device = configured_device();
    device.set_loopback_enabled(true);
    seed_init_block(&mut device);
    seed_receive_descriptor(&mut device);
    let frame = ethernet_frame(0x55, ETHERNET_MIN_FRAME_SIZE);
    seed_transmit_descriptor(&mut device, &frame);
    start_device(&mut device);

    assert!(device.write_word(MAP_BASE + A2065_RDP, CSR0_TDMD | CSR0_INEA));

    assert_eq!(device.status().counters.tx_packets, 1);
    assert_eq!(device.status().counters.rx_packets, 1);
    assert_eq!(
        device.read_word(MAP_BASE + A2065_RDP).expect("CSR0")
            & (CSR0_RINT | CSR0_TINT | CSR0_INTR),
        CSR0_RINT | CSR0_TINT | CSR0_INTR
    );
}

#[test]
fn receive_without_owned_descriptor_sets_miss_interrupt() {
    let mut device = configured_device();
    seed_init_block(&mut device);
    start_device(&mut device);

    device.queue_receive_frame(ethernet_frame(0x66, ETHERNET_MIN_FRAME_SIZE));

    assert_eq!(device.status().counters.dropped_packets, 1);
    assert_eq!(
        device.read_word(MAP_BASE + A2065_RDP).expect("CSR0") & CSR0_MISS,
        CSR0_MISS
    );
}

fn configured_device() -> A2065 {
    let mut device = A2065::new_disabled();
    device.enable(MacAddress::a2065_compatible_default());
    assert!(device.write_byte(A2065_AUTOCONFIG_BASE + 0x48, 0xEA));
    device
}

fn seed_init_block(device: &mut A2065) {
    device.write_word(MAP_BASE + INIT_BLOCK, 0);
    let mac = MacAddress::a2065_compatible_default().octets();
    device.write_byte(MAP_BASE + INIT_BLOCK + 2, mac[1]);
    device.write_byte(MAP_BASE + INIT_BLOCK + 3, mac[0]);
    device.write_byte(MAP_BASE + INIT_BLOCK + 4, mac[3]);
    device.write_byte(MAP_BASE + INIT_BLOCK + 5, mac[2]);
    device.write_byte(MAP_BASE + INIT_BLOCK + 6, mac[5]);
    device.write_byte(MAP_BASE + INIT_BLOCK + 7, mac[4]);
    for offset in 8..16 {
        device.write_byte(MAP_BASE + INIT_BLOCK + offset, 0);
    }
    write_pointer(device, INIT_BLOCK + 16, RX_RING);
    write_pointer(device, INIT_BLOCK + 20, TX_RING);
    assert!(device.write_word(MAP_BASE + A2065_RAP, 1));
    assert!(device.write_word(MAP_BASE + A2065_RDP, INIT_BLOCK as u16));
    assert!(device.write_word(MAP_BASE + A2065_RAP, 2));
    assert!(device.write_word(MAP_BASE + A2065_RDP, 0));
    assert!(device.write_word(MAP_BASE + A2065_RAP, 0));
}

fn seed_transmit_descriptor(device: &mut A2065, frame: &[u8]) {
    for (index, byte) in frame.iter().enumerate() {
        device.write_byte(
            MAP_BASE + TX_BUFFER + u32::try_from(index).expect("index"),
            *byte,
        );
    }
    write_descriptor(
        device,
        TX_RING,
        TX_BUFFER,
        TX_OWN | TX_STP | TX_ENP,
        0u16.wrapping_sub(u16::try_from(frame.len()).expect("frame len")),
        0,
    );
}

fn seed_receive_descriptor(device: &mut A2065) {
    write_descriptor(
        device,
        RX_RING,
        RX_BUFFER,
        RX_OWN,
        0u16.wrapping_sub(256),
        0,
    );
}

fn start_device(device: &mut A2065) {
    assert!(device.write_word(MAP_BASE + A2065_RAP, 0));
    assert!(device.write_word(MAP_BASE + A2065_RDP, CSR0_INIT | CSR0_INEA));
    assert!(device.write_word(MAP_BASE + A2065_RDP, CSR0_STRT | CSR0_INEA));
}

fn write_pointer(device: &mut A2065, offset: u32, pointer: u32) {
    let ring_len_bits = 0_u32;
    device.write_word(
        MAP_BASE + offset,
        u16::try_from(pointer & 0xFFFF).expect("low word"),
    );
    device.write_word(
        MAP_BASE + offset + 2,
        u16::try_from(((pointer & 0x00FF_FFFF) >> 16) | (ring_len_bits << 13))
            .expect("high word"),
    );
}

fn write_descriptor(
    device: &mut A2065,
    offset: u32,
    buffer: u32,
    flags: u16,
    length: u16,
    status: u16,
) {
    device.write_word(
        MAP_BASE + offset,
        u16::try_from(buffer & 0xFFFF).expect("buffer low"),
    );
    device.write_word(
        MAP_BASE + offset + 2,
        flags | u16::try_from((buffer >> 16) & 0x00FF).expect("buffer high"),
    );
    device.write_word(MAP_BASE + offset + 4, length);
    device.write_word(MAP_BASE + offset + 6, status);
}

fn ethernet_frame(seed: u8, len: usize) -> Vec<u8> {
    let mut frame = vec![0; len];
    let mac = MacAddress::a2065_compatible_default().octets();
    frame[0..6].copy_from_slice(&mac);
    frame[6..12].copy_from_slice(&[0x02, 0x52, 0x55, 0x4D, 0x49, seed]);
    frame[12] = 0x08;
    frame[13] = 0x00;
    for (index, byte) in frame[14..].iter_mut().enumerate() {
        *byte = seed.wrapping_add(u8::try_from(index).unwrap_or(0));
    }
    frame
}

#[test]
fn disabling_the_card_removes_it_from_the_bus() {
    let mut device = configured_device();
    assert!(device.status().enabled);
    device.disable();
    assert!(!device.status().enabled);
    assert_eq!(device.read_byte(MAP_BASE + RAM_OFFSET), None);
    assert!(!device.write_byte(MAP_BASE + RAM_OFFSET, 1));
}

#[test]
fn board_ram_words_are_big_endian() {
    let mut device = configured_device();
    assert!(device.write_word(MAP_BASE + RAM_OFFSET + 0x10, 0xBEEF));
    assert_eq!(device.read_byte(MAP_BASE + RAM_OFFSET + 0x10), Some(0xBE));
    assert_eq!(device.read_byte(MAP_BASE + RAM_OFFSET + 0x11), Some(0xEF));
    assert_eq!(device.read_word(MAP_BASE + RAM_OFFSET + 0x10), Some(0xBEEF));
}

#[test]
fn nothing_to_take_before_a_transmit() {
    let mut device = configured_device();
    assert_eq!(device.take_transmitted_frame(), None);
    assert_eq!(device.status().counters.tx_packets, 0);
}

#[test]
fn duplicate_copies_the_card() {
    let mut card = A2065::new_disabled();
    assert!(card.is_well_formed());
    card.enable(MacAddress::a2065_compatible_default());
    let copy = card.duplicate();
    assert!(copy.is_well_formed());
    assert_eq!(copy.status().enabled, true);
    assert_eq!(copy.autoconfig_bytes(), card.autoconfig_bytes());
}
