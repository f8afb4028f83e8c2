//! Shared network primitives used by emulated network devices.

use vstd::prelude::*;
use vstd::string::*;

verus! {

/// Parsing or validation error for a MAC address.
#[derive(Clone, Copy, Debug, PartialEq, Eq, Structural)]
pub enum MacAddressError {
    /// The address is not exactly six hexadecimal octets separated by colons.
    InvalidFormat,
    /// The address is all zeroes.
    AllZero,
    /// The address is the Ethernet broadcast address.
    Broadcast,
    /// The address is multicast and cannot be used as a station address.
    Multicast,
}

impl MacAddressError {
    /// Human-readable description of the error.
    pub fn message(self) -> (r: &'static str)
        ensures
            r@ == (match self {
                MacAddressError::InvalidFormat => "expected six hexadecimal octets separated by colons"@,
                MacAddressError::AllZero => "all-zero MAC addresses are not valid"@,
                MacAddressError::Broadcast => "broadcast MAC addresses are not valid"@,
                MacAddressError::Multicast => "multicast MAC addresses are not valid"@,
            }),
    {
        match self {
            Self::InvalidFormat => "expected six hexadecimal octets separated by colons",
            Self::AllZero => "all-zero MAC addresses are not valid",
            Self::Broadcast => "broadcast MAC addresses are not valid",
            Self::Multicast => "multicast MAC addresses are not valid",
        }
    }
}

/// Value of an ASCII hexadecimal digit, either case.
pub open spec fn hex_value(b: u8) -> Option<u8> {
    if 0x30 <= b <= 0x39 {
        Some((b - 0x30) as u8)
    } else if 0x61 <= b <= 0x66 {
        Some((b - 0x61 + 10) as u8)
    } else if 0x41 <= b <= 0x46 {
        Some((b - 0x41 + 10) as u8)
    } else {
        None
    }
}

/// Whether `bytes` is six pairs of hexadecimal digits separated by single colons.
pub open spec fn mac_text_well_formed(bytes: Seq<u8>) -> bool {
    &&& bytes.len() == 17
    &&& forall|i: int| 0 <= i < 6 ==> (#[trigger] hex_value(bytes[3 * i])) is Some
    &&& forall|i: int| 0 <= i < 6 ==> (#[trigger] hex_value(bytes[3 * i + 1])) is Some
    &&& forall|i: int| 0 <= i < 5 ==> #[trigger] bytes[3 * i + 2] == 0x3a
}

/// The six octets spelled by a well-formed MAC address text.
pub open spec fn mac_text_octets(bytes: Seq<u8>) -> Seq<u8> {
    Seq::new(
        6,
        |i: int| (hex_value(bytes[3 * i])->0 * 16 + hex_value(bytes[3 * i + 1])->0) as u8,
    )
}

/// Why six octets cannot be a station address, if they cannot.
pub open spec fn unicast_error(octets: Seq<u8>) -> Option<MacAddressError> {
    if forall|i: int| 0 <= i < 6 ==> octets[i] == 0 {
        Some(MacAddressError::AllZero)
    } else if forall|i: int| 0 <= i < 6 ==> octets[i] == 0xff {
        Some(MacAddressError::Broadcast)
    } else if octets[0] & 1 != 0 {
        Some(MacAddressError::Multicast)
    } else {
        None
    }
}

/// Lower-case hexadecimal digit for a nibble value.
pub open spec fn hex_digit_char(n: int) -> char {
    if n < 10 {
        ((n + 0x30) as u8) as char
    } else {
        ((n - 10 + 0x61) as u8) as char
    }
}

/// Two lower-case hexadecimal digits for an octet.
pub open spec fn octet_hex_chars(o: u8) -> Seq<char> {
    seq![hex_digit_char((o / 16) as int), hex_digit_char((o % 16) as int)]
}

/// `aa:bb:cc:dd:ee:ff` rendering of six octets, lower case.
pub open spec fn colon_hex(o: Seq<u8>) -> Seq<char> {
    octet_hex_chars(o[0]) + seq![':'] + octet_hex_chars(o[1]) + seq![':'] + octet_hex_chars(o[2])
        + seq![':'] + octet_hex_chars(o[3]) + seq![':'] + octet_hex_chars(o[4]) + seq![':']
        + octet_hex_chars(o[5])
}

/// A validated Ethernet MAC address.
#[derive(Clone, Copy, Debug, PartialEq, Eq, Hash)]
pub struct MacAddress {
    octets: [u8; 6],
}

impl View for MacAddress {
    type V = Seq<u8>;

    closed spec fn view(&self) -> Seq<u8> {
        self.octets@
    }
}

/// Packet counters exposed to diagnostics and evidence manifests.
#[derive(Clone, Copy, Debug, PartialEq, Eq, Structural)]
pub struct NetworkCounters {
    /// Packets accepted from the guest transmit ring.
    pub tx_packets: u64,
    /// Packets delivered into the guest receive ring.
    pub rx_packets: u64,
    /// Packets dropped because the emulated device or backend could not accept them.
    pub dropped_packets: u64,
}

impl Default for NetworkCounters {
    fn default() -> (r: Self)
        ensures
            r.tx_packets == 0,
            r.rx_packets == 0,
            r.dropped_packets == 0,
    {
        NetworkCounters { tx_packets: 0, rx_packets: 0, dropped_packets: 0 }
    }
}

fn hex_nibble(value: u8) -> (r: Option<u8>)
    ensures
        r == hex_value(value),
{
    if 0x30 <= value && value <= 0x39 {
        Some(value - 0x30)
    } else if 0x61 <= value && value <= 0x66 {
        Some(value - 0x61 + 10)
    } else if 0x41 <= value && value <= 0x46 {
        Some(value - 0x41 + 10)
    } else {
        None
    }
}

pub(crate) fn hex_digit_str(n: u8) -> (r: &'static str)
    requires
        n < 16,
    ensures
        r@ == seq![hex_digit_char(n as int)],
{
    proof {
        reveal_strlit("0");
        reveal_strlit("1");
        reveal_strlit("2");
        reveal_strlit("3");
        reveal_strlit("4");
        reveal_strlit("5");
        reveal_strlit("6");
        reveal_strlit("7");
        reveal_strlit("8");
        reveal_strlit("9");
        reveal_strlit("a");
        reveal_strlit("b");
        reveal_strlit("c");
        reveal_strlit("d");
        reveal_strlit("e");
        reveal_strlit("f");
    }
    match n {
        0 => "0",
        1 => "1",
        2 => "2",
        3 => "3",
        4 => "4",
        5 => "5",
        6 => "6",
        7 => "7",
        8 => "8",
        9 => "9",
        10 => "a",
        11 => "b",
        12 => "c",
        13 => "d",
        14 => "e",
        _ => "f",
    }
}

impl MacAddress {
    /// WinUAE-compatible default for A2065 drivers, which expect Commodore's OUI
    /// (`00:80:10:4d:49:47`).
    pub fn a2065_compatible_default() -> (r: Self)
        ensures
            r@ == seq![0x00u8, 0x80u8, 0x10u8, 0x4Du8, 0x49u8, 0x47u8],
    {
        let r = Self { octets: [0x00, 0x80, 0x10, 0x4D, 0x49, 0x47] };
        assert(r@ =~= seq![0x00u8, 0x80u8, 0x10u8, 0x4Du8, 0x49u8, 0x47u8]);
        r
    }

    /// Build a MAC address from octets after validating it can be used as a station address.
    pub fn from_unicast_octets(octets: [u8; 6]) -> (r: Result<Self, MacAddressError>)
        ensures
            match unicast_error(octets@) {
                Some(e) => r == Err::<Self, MacAddressError>(e),
                None => r is Ok && r->Ok_0@ == octets@,
            },
    {
        let address = Self { octets };
        match address.validate_unicast() {
            Some(e) => Err(e),
            None => Ok(address),
        }
    }

    /// Parse a colon-separated unicast MAC address such as `00:80:10:4d:49:47`.
    pub fn from_unicast_str(value: &str) -> (r: Result<Self, MacAddressError>)
        ensures
            !mac_text_well_formed(value.spec_bytes()) ==> r == Err::<Self, MacAddressError>(
                MacAddressError::InvalidFormat,
            ),
            mac_text_well_formed(value.spec_bytes()) ==> match unicast_error(
                mac_text_octets(value.spec_bytes()),
            ) {
                Some(e) => r == Err::<Self, MacAddressError>(e),
                None => r is Ok && r->Ok_0@ == mac_text_octets(value.spec_bytes()),
            },
    {
        match parse_mac_octets(value.as_bytes()) {
            None => Err(MacAddressError::InvalidFormat),
            Some(octets) => Self::from_unicast_octets(octets),
        }
    }

    /// Return the raw MAC address octets.
    pub fn octets(self) -> (r: [u8; 6])
        ensures
            r@ == self@,
    {
        self.octets
    }

    /// Format the address as lower-case colon-separated hexadecimal.
    pub fn to_colon_string(self) -> (r: String)
        ensures
            r@ == colon_hex(self@),
    {
        let mut text = String::new();
        let mut i: usize = 0;
        proof {
            reveal_strlit(":");
        }
        while i < 6
            invariant
                i <= 6,
                self.octets@.len() == 6,
                i == 0 ==> text@ == Seq::<char>::empty(),
                i > 0 ==> text@ == colon_hex_prefix(self.octets@, i as int),
            decreases 6 - i,
        {
            let o = self.octets[i];
            let ghost before = text@;
            proof {
                reveal_strlit(":");
            }
            if i > 0 {
                text.append(":");
            }
            let ghost mid = text@;
            text.append(hex_digit_str(o / 16));
            text.append(hex_digit_str(o % 16));
            proof {
                assert(text@ =~= mid + octet_hex_chars(o));
                if i == 0 {
                    assert(text@ =~= colon_hex_prefix(self.octets@, 1));
                } else {
                    assert(mid =~= before + seq![':']);
                    assert(colon_hex_prefix(self.octets@, i + 1) == colon_hex_prefix(self.octets@, i as int) + seq![':'] + octet_hex_chars(self.octets@[i as int]));
                    assert(text@ =~= colon_hex_prefix(self.octets@, i + 1));
                }
            }
            i += 1;
        }
        proof {
            let o = self.octets@;
            assert(colon_hex_prefix(o, 2) == colon_hex_prefix(o, 1) + seq![':'] + octet_hex_chars(o[1]));
            assert(colon_hex_prefix(o, 3) == colon_hex_prefix(o, 2) + seq![':'] + octet_hex_chars(o[2]));
            assert(colon_hex_prefix(o, 4) == colon_hex_prefix(o, 3) + seq![':'] + octet_hex_chars(o[3]));
            assert(colon_hex_prefix(o, 5) == colon_hex_prefix(o, 4) + seq![':'] + octet_hex_chars(o[4]));
            assert(colon_hex_prefix(o, 6) == colon_hex_prefix(o, 5) + seq![':'] + octet_hex_chars(o[5]));
            assert(colon_hex_prefix(o, 6) =~= colon_hex(o));
        }
        text
    }

    fn validate_unicast(self) -> (r: Option<MacAddressError>)
        ensures
            r == unicast_error(self@),
    {
        let o = self.octets;
        if o[0] == 0 && o[1] == 0 && o[2] == 0 && o[3] == 0 && o[4] == 0 && o[5] == 0 {
            return Some(MacAddressError::AllZero);
        }
        if o[0] == 0xFF && o[1] == 0xFF && o[2] == 0xFF && o[3] == 0xFF && o[4] == 0xFF && o[5] == 0xFF {
            return Some(MacAddressError::Broadcast);
        }
        if o[0] & 0x01 != 0 {
            return Some(MacAddressError::Multicast);
        }
        None
    }
}

/// Rendering of the first `n` octets, colon separated.
pub open spec fn colon_hex_prefix(o: Seq<u8>, n: int) -> Seq<char>
    decreases n,
{
    if n <= 1 {
        octet_hex_chars(o[0])
    } else {
        colon_hex_prefix(o, n - 1) + seq![':'] + octet_hex_chars(o[n - 1])
    }
}

/// Parse six colon-separated hexadecimal octets, or `None` when the text is malformed.
pub fn parse_mac_octets(bytes: &[u8]) -> (r: Option<[u8; 6]>)
    ensures
        mac_text_well_formed(bytes@) <==> r is Some,
        r is Some ==> r->0@ == mac_text_octets(bytes@),
{
    if bytes.len() != 17 {
        return None;
    }
    let mut octets: [u8; 6] = [0; 6];
    let mut index: usize = 0;
    while index < 6
        invariant
            bytes@.len() == 17,
            index <= 6,
            forall|i: int| 0 <= i < index ==> (#[trigger] hex_value(bytes@[3 * i])) is Some,
            forall|i: int| 0 <= i < index ==> (#[trigger] hex_value(bytes@[3 * i + 1])) is Some,
            forall|i: int| 0 <= i < index && i < 5 ==> #[trigger] bytes@[3 * i + 2] == 0x3a,
            forall|i: int| 0 <= i < index ==> octets@[i] == mac_text_octets(bytes@)[i],
        decreases 6 - index,
    {
        let offset = index * 3;
        let high = match hex_nibble(bytes[offset]) {
            Some(h) => h,
            None => {
                assert(!(hex_value(bytes@[3 * (index as int)]) is Some));
                return None;
            },
        };
        let low = match hex_nibble(bytes[offset + 1]) {
            Some(l) => l,
            None => {
                assert(!(hex_value(bytes@[3 * (index as int) + 1]) is Some));
                return None;
            },
        };
        octets[index] = high * 16 + low;
        if index < 5 && bytes[offset + 2] != 0x3a {
            assert(bytes@[3 * (index as int) + 2] != 0x3a);
            return None;
        }
        index += 1;
    }
    assert(octets@ =~= mac_text_octets(bytes@));
    Some(octets)
}

/// Rendering an address and parsing the text back gives the same address.
pub proof fn law_mac_text_round_trip(o: Seq<u8>)
    requires
        o.len() == 6,
    ensures
        ({
            let text = Seq::new(17, |i: int| colon_hex(o)[i] as u8);
            mac_text_well_formed(text) && mac_text_octets(text) == o
        }),
{
    let text = Seq::new(17, |i: int| colon_hex(o)[i] as u8);
    let c = colon_hex(o);
    assert(c.len() == 17);
    assert forall|i: int| 0 <= i < 6 implies (#[trigger] hex_value(text[3 * i])) is Some
        && hex_value(text[3 * i + 1]) is Some && (hex_value(text[3 * i])->0 * 16 + hex_value(text[3 * i + 1])->0) as u8 == o[i] by {
        assert(c[3 * i] == hex_digit_char((o[i] / 16) as int));
        assert(c[3 * i + 1] == hex_digit_char((o[i] % 16) as int));
    }
    assert forall|i: int| 0 <= i < 5 implies #[trigger] text[3 * i + 2] == 0x3a by {
        assert(c[3 * i + 2] == ':');
    }
    assert(mac_text_octets(text) =~= o);
}

/// Parsing the text of a station address gives the address back: the string
/// that `to_colon_string` renders, taken as a string slice, is ASCII of 17
/// bytes, well formed, and spells the same six octets, so `from_unicast_str`
/// accepts it and returns an address with those octets, which is `m`
/// itself: `from_unicast_str(&m.to_colon_string()) == Ok(m)`.
pub proof fn law_mac_string_round_trip(m: MacAddress, s: &str)
    requires
        unicast_error(m@) is None,
        s@ == colon_hex(m@),
    ensures
        s.spec_bytes().len() == 17,
        mac_text_well_formed(s.spec_bytes()),
        mac_text_octets(s.spec_bytes()) == m@,
        unicast_error(mac_text_octets(s.spec_bytes())) is None,
        forall|m2: MacAddress| #[trigger] m2@ == mac_text_octets(s.spec_bytes()) ==> m2 == m,
{
    lemma_mac_len(m);
    law_mac_text_round_trip(m@);
    let o = m@;
    let c = colon_hex(o);
    assert(c.len() == 17);
    assert forall|i: int| 0 <= i < c.len() implies '\0' <= #[trigger] c[i] <= '\u{7f}' by {
        let k = i / 3;
        if i % 3 == 2 {
            assert(c[3 * k + 2] == ':');
        } else if i % 3 == 0 {
            assert(c[3 * k] == hex_digit_char((o[k] / 16) as int));
        } else {
            assert(c[3 * k + 1] == hex_digit_char((o[k] % 16) as int));
        }
    }
    assert(vstd::string::is_ascii(s));
    vstd::string::is_ascii_spec_bytes(s);
    assert(s.spec_bytes() =~= Seq::new(17, |i: int| colon_hex(o)[i] as u8));
    assert forall|m2: MacAddress| #[trigger] m2@ == mac_text_octets(s.spec_bytes()) implies m2 == m by {
        lemma_mac_view_injective(m2, m);
    }
}

/// Two addresses with the same octets are the same address.
pub proof fn lemma_mac_view_injective(a: MacAddress, b: MacAddress)
    requires
        a@ == b@,
    ensures
        a == b,
{
    assert(a.octets =~= b.octets);
}

/// A MAC address always holds six octets.
pub proof fn lemma_mac_len(m: MacAddress)
    ensures
        m@.len() == 6,
{
}

} // verus!
