//! Types of the emulator's REST API, shared by the firmware's server and the
//! web interface, with their defaults and the small checks the server applies.

use vstd::prelude::*;
use vstd::string::*;
use crate::floppy::spec_is_supported_speed;
use crate::network::{mac_text_octets, mac_text_well_formed, parse_mac_octets, unicast_error, MacAddress};

verus! {

/// Schema identifier carried by every API response envelope.
pub const API_RESPONSE_SCHEMA_ID: &'static str = "rumiga.api.response.v1";

/// Version of the response envelope schema.
pub const API_RESPONSE_SCHEMA_VERSION: u16 = 1;

pub const MACHINE_STATUS_PATH: &'static str = "/api/machine/status";
pub const MACHINE_CONFIG_PATH: &'static str = "/api/machine/config";
pub const MACHINE_SUPPORT_BUNDLE_PATH: &'static str = "/api/machine/support-bundle";
pub const MACHINE_RESET_PATH: &'static str = "/api/machine/reset";
pub const MACHINE_PAUSE_PATH: &'static str = "/api/machine/pause";
pub const MACHINE_RESUME_PATH: &'static str = "/api/machine/resume";
pub const MACHINE_START_PATH: &'static str = "/api/machine/start";
pub const MACHINE_STOP_PATH: &'static str = "/api/machine/stop";
pub const MACHINE_FLOPPY_INSERT_PATH: &'static str = "/api/machine/floppy/insert";
pub const MACHINE_FLOPPY_EJECT_PATH: &'static str = "/api/machine/floppy/eject";
pub const MACHINE_AUDIO_SEPARATION_PATH: &'static str = "/api/machine/audio/separation";
pub const MACHINE_SCREENSHOT_PATH: &'static str = "/api/machine/screenshot";
pub const FILES_PATH: &'static str = "/api/files";
pub const FILES_UPLOAD_PATH: &'static str = "/api/files/upload";
pub const FILES_DELETE_PATH: &'static str = "/api/files/:name";
pub const FILES_FORMAT_PATH: &'static str = "/api/files/format";
pub const WIFI_STATUS_PATH: &'static str = "/api/wifi/status";
pub const WIFI_SCAN_PATH: &'static str = "/api/wifi/scan";
pub const WIFI_CONNECT_PATH: &'static str = "/api/wifi/connect";

/// MAC address the emulated network card uses unless configured otherwise.
pub const DEFAULT_NETWORK_MAC_ADDRESS: &'static str = "00:80:10:4d:49:47";

/// Stereo separation used when a configuration does not name one.
pub const DEFAULT_STEREO_SEPARATION: u8 = 100;

/// Width of the default viewport rectangle.
pub const DEFAULT_VIEWPORT_WIDTH: u16 = 754;

/// Height of the default viewport rectangle.
pub const DEFAULT_VIEWPORT_HEIGHT: u16 = 288;

/// Floppy speed used when a configuration does not name one.
pub const DEFAULT_FLOPPY_SPEED_PERCENT: u16 = 100;

// ─── File management ────────────────────────────────────────────────────────

/// One entry of a directory listing.
#[derive(Clone, Debug)]
pub struct FileEntry {
    pub name: String,
    pub size: u64,
    pub is_directory: bool,
}

/// A directory listing with the volume's usage.
#[derive(Clone, Debug)]
pub struct FileListResponse {
    pub path: String,
    pub files: Vec<FileEntry>,
    pub total_bytes: u64,
    pub free_bytes: u64,
}

/// Request to format the storage volume, guarded by a confirmation token.
#[derive(Clone, Debug)]
pub struct FormatRequest {
    pub confirm_token: String,
}

/// Request to insert a disk image into a floppy drive.
#[derive(Clone, Debug)]
pub struct FloppyInsertRequest {
    pub drive_idx: usize,
    pub path: String,
}

/// Request to eject the disk from a floppy drive.
#[derive(Clone, Debug)]
pub struct FloppyEjectRequest {
    pub drive_idx: usize,
}

/// Request to change the audio stereo separation.
#[derive(Clone, Debug)]
pub struct AudioSeparationRequest {
    pub separation: u8,
}

// ─── WiFi ───────────────────────────────────────────────────────────────────

/// A network found by a WiFi scan.
#[derive(Clone, Debug)]
pub struct WifiNetwork {
    pub ssid: String,
    pub rssi: i8,
    pub secured: bool,
}

/// State of the WiFi link.
#[derive(Clone, Debug)]
pub struct WifiStatus {
    pub connected: bool,
    pub ssid: Option<String>,
    pub ip: Option<String>,
    pub mode: WifiMode,
}

/// Role of the WiFi interface.
#[derive(Clone, Copy, Debug, PartialEq, Eq, Structural)]
pub enum WifiMode {
    SoftAp,
    Client,
    Disconnected,
}

/// Request to join a WiFi network.
#[derive(Clone, Debug)]
pub struct WifiConnectRequest {
    pub ssid: String,
    pub password: String,
}

/// Result of a WiFi scan.
#[derive(Clone, Debug)]
pub struct WifiScanResponse {
    pub networks: Vec<WifiNetwork>,
}

// ─── Machine configuration ──────────────────────────────────────────────────

/// Emulated Amiga model.
#[derive(Clone, Copy, Debug, PartialEq, Eq, Structural)]
pub enum AmigaModel {
    A500,
    A500Plus,
    A1200,
}

/// Left and right volume of one audio channel, in percent.
#[derive(Clone, Copy, Debug, PartialEq, Eq, Structural)]
pub struct ChannelMixConfig {
    pub left_pct: u8,
    pub right_pct: u8,
}

/// Audio mixing configuration.
#[derive(Clone, Copy, Debug)]
pub struct AudioConfig {
    pub channel_mix: [ChannelMixConfig; 4],
    pub stereo_separation: u8,
}

impl Default for AudioConfig {
    /// Standard Amiga stereo: channels 0 and 3 on the left, 1 and 2 on the right,
    /// at full separation.
    fn default() -> (r: Self)
        ensures
            r.channel_mix@ == seq![
                ChannelMixConfig { left_pct: 100, right_pct: 0 },
                ChannelMixConfig { left_pct: 0, right_pct: 100 },
                ChannelMixConfig { left_pct: 0, right_pct: 100 },
                ChannelMixConfig { left_pct: 100, right_pct: 0 },
            ],
            r.stereo_separation == DEFAULT_STEREO_SEPARATION,
    {
        let r = Self {
            channel_mix: [
                ChannelMixConfig { left_pct: 100, right_pct: 0 },
                ChannelMixConfig { left_pct: 0, right_pct: 100 },
                ChannelMixConfig { left_pct: 0, right_pct: 100 },
                ChannelMixConfig { left_pct: 100, right_pct: 0 },
            ],
            stereo_separation: DEFAULT_STEREO_SEPARATION,
        };
        assert(r.channel_mix@ =~= seq![
            ChannelMixConfig { left_pct: 100, right_pct: 0 },
            ChannelMixConfig { left_pct: 0, right_pct: 100 },
            ChannelMixConfig { left_pct: 0, right_pct: 100 },
            ChannelMixConfig { left_pct: 100, right_pct: 0 },
        ]);
        r
    }
}

/// How the emulated picture is scaled to the panel.
#[derive(Clone, Copy, Debug, PartialEq, Eq, Structural)]
pub enum ScalingMode {
    Integer,
    AspectFit,
    Stretch,
}

/// How the shown part of the framebuffer is chosen.
#[derive(Clone, Copy, Debug, PartialEq, Eq, Structural)]
pub enum ViewportMode {
    /// Use the emulator's raw framebuffer.
    Raw,
    /// Derive a sane viewport from the active Amiga display.
    Auto,
    /// Use the explicit viewport rectangle.
    Manual,
}

impl Default for ViewportMode {
    fn default() -> (r: Self)
        ensures
            r == ViewportMode::Auto,
    {
        ViewportMode::Auto
    }
}

/// Named viewport choices offered by the interface.
#[derive(Clone, Copy, Debug, PartialEq, Eq, Structural)]
pub enum ViewportPreset {
    /// Keep the complete native framebuffer, including chipset border.
    NativeFullBorder,
    /// Derive the active Amiga display area from DIW/DDF state.
    VisibleArea,
    /// Keep the full overscan-capable native framebuffer.
    Overscan,
    /// Center the active display while preserving native frame evidence.
    AutoCenter,
}

impl Default for ViewportPreset {
    fn default() -> (r: Self)
        ensures
            r == ViewportPreset::AutoCenter,
    {
        ViewportPreset::AutoCenter
    }
}

/// The viewport: mode, preset and explicit rectangle.
#[derive(Clone, Copy, Debug, PartialEq, Eq, Structural)]
pub struct ViewportConfig {
    pub mode: ViewportMode,
    pub preset: ViewportPreset,
    pub x: i16,
    pub y: i16,
    pub width: u16,
    pub height: u16,
    pub vertical_stretch: bool,
}

/// The default viewport: automatic, centred, 754 by 288 at the origin, stretched.
pub open spec fn spec_default_viewport() -> ViewportConfig {
    ViewportConfig {
        mode: ViewportMode::Auto,
        preset: ViewportPreset::AutoCenter,
        x: 0,
        y: 0,
        width: DEFAULT_VIEWPORT_WIDTH,
        height: DEFAULT_VIEWPORT_HEIGHT,
        vertical_stretch: true,
    }
}

impl Default for ViewportConfig {
    fn default() -> (r: Self)
        ensures
            r == spec_default_viewport(),
    {
        Self {
            mode: ViewportMode::Auto,
            preset: ViewportPreset::AutoCenter,
            x: 0,
            y: 0,
            width: DEFAULT_VIEWPORT_WIDTH,
            height: DEFAULT_VIEWPORT_HEIGHT,
            vertical_stretch: true,
        }
    }
}

/// Display configuration.
#[derive(Clone, Copy, Debug)]
pub struct DisplayConfig {
    pub scaling: ScalingMode,
    pub orientation_landscape: bool,
    pub viewport: ViewportConfig,
}

impl Default for DisplayConfig {
    fn default() -> (r: Self)
        ensures
            r.scaling == ScalingMode::Integer,
            r.orientation_landscape,
            r.viewport == spec_default_viewport(),
    {
        Self {
            scaling: ScalingMode::Integer,
            orientation_landscape: true,
            viewport: ViewportConfig::default(),
        }
    }
}

/// Whether a floppy speed percentage is one the emulator supports:
/// `0` (turbo), `100`, `200`, `400` or `800`.
pub fn is_supported_floppy_speed_percent(percent: u16) -> (r: bool)
    ensures
        r == spec_is_supported_speed(percent),
        r == (percent == 0 || percent == 100 || percent == 200 || percent == 400 || percent
            == 800),
{
    crate::floppy::is_supported_floppy_speed_percent(percent)
}

/// What happens to guest writes on a hard disk image.
#[derive(Clone, Copy, Debug, PartialEq, Eq, Structural)]
pub enum HdfWritePolicy {
    /// Keep guest writes in the session buffer and protect the source file.
    ReadOnly,
    /// Persist dirty sectors back to the source HDF on exit.
    Writeback,
}

impl HdfWritePolicy {
    /// The policy's name in configuration files.
    pub fn as_str(self) -> (r: &'static str)
        ensures
            r@ == (match self {
                HdfWritePolicy::ReadOnly => "read-only"@,
                HdfWritePolicy::Writeback => "writeback"@,
            }),
    {
        match self {
            HdfWritePolicy::ReadOnly => "read-only",
            HdfWritePolicy::Writeback => "writeback",
        }
    }
}

impl Default for HdfWritePolicy {
    fn default() -> (r: Self)
        ensures
            r == HdfWritePolicy::ReadOnly,
    {
        HdfWritePolicy::ReadOnly
    }
}

/// Emulated network device.
#[derive(Clone, Copy, Debug, PartialEq, Eq, Structural)]
pub enum NetworkDevice {
    A2065,
}

impl Default for NetworkDevice {
    fn default() -> (r: Self)
        ensures
            r == NetworkDevice::A2065,
    {
        NetworkDevice::A2065
    }
}

impl NetworkDevice {
    /// The device's name in configuration files.
    pub fn as_str(self) -> (r: &'static str)
        ensures
            r@ == "a2065"@,
    {
        match self {
            NetworkDevice::A2065 => "a2065",
        }
    }
}

/// Host side of the emulated network.
#[derive(Clone, Copy, Debug, PartialEq, Eq, Structural)]
pub enum NetworkBackend {
    Disabled,
    Slirp,
}

impl Default for NetworkBackend {
    fn default() -> (r: Self)
        ensures
            r == NetworkBackend::Disabled,
    {
        NetworkBackend::Disabled
    }
}

impl NetworkBackend {
    /// The backend's name in configuration files.
    pub fn as_str(self) -> (r: &'static str)
        ensures
            r@ == (match self {
                NetworkBackend::Disabled => "disabled"@,
                NetworkBackend::Slirp => "slirp"@,
            }),
    {
        match self {
            NetworkBackend::Disabled => "disabled",
            NetworkBackend::Slirp => "slirp",
        }
    }
}

/// Network configuration.
#[derive(Clone, Debug, PartialEq, Eq)]
pub struct NetworkConfig {
    pub device: NetworkDevice,
    pub backend: NetworkBackend,
    pub mac_address: String,
}

impl NetworkConfig {
    /// Networking is on whenever a backend other than `Disabled` is chosen.
    pub fn enabled(&self) -> (r: bool)
        ensures
            r == !(self.backend is Disabled),
    {
        match self.backend {
            NetworkBackend::Disabled => false,
            _ => true,
        }
    }
}

impl Default for NetworkConfig {
    fn default() -> (r: Self)
        ensures
            r.device == NetworkDevice::A2065,
            r.backend == NetworkBackend::Disabled,
            r.mac_address@ == DEFAULT_NETWORK_MAC_ADDRESS@,
    {
        Self {
            device: NetworkDevice::A2065,
            backend: NetworkBackend::Disabled,
            mac_address: default_network_mac_address(),
        }
    }
}

/// The default MAC address as an owned string.
fn default_network_mac_address() -> (r: String)
    ensures
        r@ == DEFAULT_NETWORK_MAC_ADDRESS@,
{
    DEFAULT_NETWORK_MAC_ADDRESS.to_owned()
}

/// A whole machine configuration.
#[derive(Clone, Debug)]
pub struct MachineConfig {
    pub model: AmigaModel,
    pub chip_ram_kb: u32,
    pub slow_ram_kb: u32,
    pub fast_ram_kb: u32,
    pub rom_file: String,
    pub floppy: [Option<String>; 4],
    pub floppy_speed_percent: u16,
    pub hdf_path: Option<String>,
    pub hdf_write_policy: HdfWritePolicy,
    pub audio: AudioConfig,
    pub display: DisplayConfig,
    pub network: NetworkConfig,
}

impl Default for MachineConfig {
    /// An A500 with 512 KiB chip and 512 KiB slow RAM, no media, compatible
    /// floppy speed, read-only hard disk policy, default audio and display,
    /// and networking off.
    fn default() -> (r: Self)
        ensures
            r.model == AmigaModel::A500,
            r.chip_ram_kb == 512,
            r.slow_ram_kb == 512,
            r.fast_ram_kb == 0,
            r.rom_file@ == Seq::<char>::empty(),
            forall|i: int| 0 <= i < 4 ==> (#[trigger] r.floppy@[i]) is None,
            r.floppy_speed_percent == DEFAULT_FLOPPY_SPEED_PERCENT,
            r.hdf_path is None,
            r.hdf_write_policy == HdfWritePolicy::ReadOnly,
            r.audio.stereo_separation == DEFAULT_STEREO_SEPARATION,
            r.audio.channel_mix@ == seq![
                ChannelMixConfig { left_pct: 100, right_pct: 0 },
                ChannelMixConfig { left_pct: 0, right_pct: 100 },
                ChannelMixConfig { left_pct: 0, right_pct: 100 },
                ChannelMixConfig { left_pct: 100, right_pct: 0 },
            ],
            r.display.scaling == ScalingMode::Integer,
            r.display.orientation_landscape,
            r.display.viewport == spec_default_viewport(),
            r.network.device == NetworkDevice::A2065,
            r.network.backend == NetworkBackend::Disabled,
            r.network.mac_address@ == DEFAULT_NETWORK_MAC_ADDRESS@,
    {
        Self {
            model: AmigaModel::A500,
            chip_ram_kb: 512,
            slow_ram_kb: 512,
            fast_ram_kb: 0,
            rom_file: String::new(),
            floppy: [None, None, None, None],
            floppy_speed_percent: DEFAULT_FLOPPY_SPEED_PERCENT,
            hdf_path: None,
            hdf_write_policy: HdfWritePolicy::ReadOnly,
            audio: AudioConfig::default(),
            display: DisplayConfig::default(),
            network: NetworkConfig::default(),
        }
    }
}

/// Packet counters of the network device.
#[derive(Clone, Copy, Debug, PartialEq, Eq, Structural)]
pub struct NetworkPacketCounters {
    pub tx_packets: u64,
    pub rx_packets: u64,
    pub dropped_packets: u64,
}

impl Default for NetworkPacketCounters {
    fn default() -> (r: Self)
        ensures
            r == (NetworkPacketCounters { tx_packets: 0, rx_packets: 0, dropped_packets: 0 }),
    {
        NetworkPacketCounters { tx_packets: 0, rx_packets: 0, dropped_packets: 0 }
    }
}

/// Reported state of the emulated network.
#[derive(Clone, Debug, PartialEq, Eq)]
pub struct NetworkStatus {
    pub enabled: bool,
    pub device: NetworkDevice,
    pub backend: NetworkBackend,
    pub mac_address: String,
    pub a2065_present: bool,
    pub a2065_configured: bool,
    pub a2065_shut_up: bool,
    pub a2065_base_address: Option<String>,
    pub a2065_card_mac_address: String,
    pub link_up: bool,
    pub counters: NetworkPacketCounters,
}

impl NetworkStatus {
    /// The status of a configured but not yet running network: the configured
    /// device, backend and address, no card present, link down, no traffic.
    pub fn from_config(config: &NetworkConfig) -> (r: Self)
        ensures
            r.enabled == !(config.backend is Disabled),
            r.device == config.device,
            r.backend == config.backend,
            r.mac_address@ == config.mac_address@,
            r.a2065_card_mac_address@ == config.mac_address@,
            !r.a2065_present,
            !r.a2065_configured,
            !r.a2065_shut_up,
            r.a2065_base_address is None,
            !r.link_up,
            r.counters == (NetworkPacketCounters { tx_packets: 0, rx_packets: 0, dropped_packets: 0 }),
    {
        Self {
            enabled: config.enabled(),
            device: config.device,
            backend: config.backend,
            mac_address: config.mac_address.clone(),
            a2065_present: false,
            a2065_configured: false,
            a2065_shut_up: false,
            a2065_base_address: None,
            a2065_card_mac_address: config.mac_address.clone(),
            link_up: false,
            counters: NetworkPacketCounters::default(),
        }
    }
}

impl Default for NetworkStatus {
    fn default() -> (r: Self)
        ensures
            !r.enabled,
            r.device == NetworkDevice::A2065,
            r.backend == NetworkBackend::Disabled,
            r.mac_address@ == DEFAULT_NETWORK_MAC_ADDRESS@,
            !r.a2065_present,
            !r.a2065_configured,
            !r.a2065_shut_up,
            r.a2065_base_address is None,
            r.a2065_card_mac_address@ == DEFAULT_NETWORK_MAC_ADDRESS@,
            !r.link_up,
            r.counters == (NetworkPacketCounters { tx_packets: 0, rx_packets: 0, dropped_packets: 0 }),
    {
        Self {
            enabled: false,
            device: NetworkDevice::A2065,
            backend: NetworkBackend::Disabled,
            mac_address: default_network_mac_address(),
            a2065_present: false,
            a2065_configured: false,
            a2065_shut_up: false,
            a2065_base_address: None,
            a2065_card_mac_address: default_network_mac_address(),
            link_up: false,
            counters: NetworkPacketCounters::default(),
        }
    }
}

/// Whether `value` is a colon-separated MAC address (`aa:bb:cc:dd:ee:ff`,
/// hexadecimal digits of either case) that can be a station address: not
/// all zero, not broadcast, not multicast.
pub fn is_valid_unicast_mac_address(value: &str) -> (r: bool)
    ensures
        r == (mac_text_well_formed(value.spec_bytes()) && unicast_error(
            mac_text_octets(value.spec_bytes()),
        ) is None),
{
    match parse_mac_octets(value.as_bytes()) {
        None => false,
        Some(octets) => MacAddress::from_unicast_octets(octets).is_ok(),
    }
}

// ─── Support bundle ─────────────────────────────────────────────────────────

/// Machine part of a support bundle.
#[derive(Clone, Copy, Debug)]
pub struct SupportMachineSummary {
    pub model: AmigaModel,
    pub chip_ram_kb: u32,
    pub slow_ram_kb: u32,
    pub fast_ram_kb: u32,
    pub floppy_speed_percent: u16,
    pub hdf_write_policy: HdfWritePolicy,
}

/// Media part of a support bundle.
#[derive(Clone, Debug)]
pub struct SupportMediaSummary {
    pub rom_name: Option<String>,
    pub hdf_name: Option<String>,
    pub floppies: [Option<String>; 4],
}

/// Screenshot part of a support bundle.
#[derive(Clone, Debug)]
pub struct SupportScreenshotSummary {
    pub available: bool,
    pub width: u32,
    pub height: u32,
    pub endpoint: String,
    pub pixel_format: String,
}

// ─── Generic API response ───────────────────────────────────────────────────

/// Body format of an endpoint's response.
#[derive(Clone, Copy, Debug, PartialEq, Eq, Structural)]
pub enum ApiResponseFormat {
    Json,
    Png,
}

/// One endpoint of the public API: method, path and response format.
#[derive(Clone, Copy, Debug, PartialEq, Eq)]
pub struct ApiEndpoint {
    pub method: &'static str,
    pub path: &'static str,
    pub response_format: ApiResponseFormat,
}

impl ApiEndpoint {
    pub fn new(method: &'static str, path: &'static str, response_format: ApiResponseFormat) -> (r: Self)
        ensures
            r.method == method,
            r.path == path,
            r.response_format == response_format,
    {
        Self { method, path, response_format }
    }
}

/// The endpoint table: method, path and response format of each public endpoint.
pub open spec fn spec_api_endpoints() -> Seq<(&'static str, &'static str, ApiResponseFormat)> {
    seq![
        ("GET", MACHINE_STATUS_PATH, ApiResponseFormat::Json),
        ("GET", MACHINE_CONFIG_PATH, ApiResponseFormat::Json),
        ("PUT", MACHINE_CONFIG_PATH, ApiResponseFormat::Json),
        ("GET", MACHINE_SUPPORT_BUNDLE_PATH, ApiResponseFormat::Json),
        ("POST", MACHINE_RESET_PATH, ApiResponseFormat::Json),
        ("POST", MACHINE_PAUSE_PATH, ApiResponseFormat::Json),
        ("POST", MACHINE_RESUME_PATH, ApiResponseFormat::Json),
        ("POST", MACHINE_START_PATH, ApiResponseFormat::Json),
        ("POST", MACHINE_STOP_PATH, ApiResponseFormat::Json),
        ("POST", MACHINE_FLOPPY_INSERT_PATH, ApiResponseFormat::Json),
        ("POST", MACHINE_FLOPPY_EJECT_PATH, ApiResponseFormat::Json),
        ("POST", MACHINE_AUDIO_SEPARATION_PATH, ApiResponseFormat::Json),
        ("GET", MACHINE_SCREENSHOT_PATH, ApiResponseFormat::Png),
        ("GET", FILES_PATH, ApiResponseFormat::Json),
        ("POST", FILES_UPLOAD_PATH, ApiResponseFormat::Json),
        ("DELETE", FILES_DELETE_PATH, ApiResponseFormat::Json),
        ("POST", FILES_FORMAT_PATH, ApiResponseFormat::Json),
        ("GET", WIFI_STATUS_PATH, ApiResponseFormat::Json),
        ("POST", WIFI_SCAN_PATH, ApiResponseFormat::Json),
        ("POST", WIFI_CONNECT_PATH, ApiResponseFormat::Json),
    ]
}

/// The public endpoints, in the order the interface documents them.
pub fn api_endpoints() -> (r: Vec<ApiEndpoint>)
    ensures
        r@.len() == spec_api_endpoints().len(),
        forall|i: int|
            0 <= i < r@.len() ==> ((#[trigger] r@[i]).method, r@[i].path, r@[i].response_format)
                == spec_api_endpoints()[i],
{
    let r = vec![
        ApiEndpoint::new("GET", MACHINE_STATUS_PATH, ApiResponseFormat::Json),
        ApiEndpoint::new("GET", MACHINE_CONFIG_PATH, ApiResponseFormat::Json),
        ApiEndpoint::new("PUT", MACHINE_CONFIG_PATH, ApiResponseFormat::Json),
        ApiEndpoint::new("GET", MACHINE_SUPPORT_BUNDLE_PATH, ApiResponseFormat::Json),
        ApiEndpoint::new("POST", MACHINE_RESET_PATH, ApiResponseFormat::Json),
        ApiEndpoint::new("POST", MACHINE_PAUSE_PATH, ApiResponseFormat::Json),
        ApiEndpoint::new("POST", MACHINE_RESUME_PATH, ApiResponseFormat::Json),
        ApiEndpoint::new("POST", MACHINE_START_PATH, ApiResponseFormat::Json),
        ApiEndpoint::new("POST", MACHINE_STOP_PATH, ApiResponseFormat::Json),
        ApiEndpoint::new("POST", MACHINE_FLOPPY_INSERT_PATH, ApiResponseFormat::Json),
        ApiEndpoint::new("POST", MACHINE_FLOPPY_EJECT_PATH, ApiResponseFormat::Json),
        ApiEndpoint::new("POST", MACHINE_AUDIO_SEPARATION_PATH, ApiResponseFormat::Json),
        ApiEndpoint::new("GET", MACHINE_SCREENSHOT_PATH, ApiResponseFormat::Png),
        ApiEndpoint::new("GET", FILES_PATH, ApiResponseFormat::Json),
        ApiEndpoint::new("POST", FILES_UPLOAD_PATH, ApiResponseFormat::Json),
        ApiEndpoint::new("DELETE", FILES_DELETE_PATH, ApiResponseFormat::Json),
        ApiEndpoint::new("POST", FILES_FORMAT_PATH, ApiResponseFormat::Json),
        ApiEndpoint::new("GET", WIFI_STATUS_PATH, ApiResponseFormat::Json),
        ApiEndpoint::new("POST", WIFI_SCAN_PATH, ApiResponseFormat::Json),
        ApiEndpoint::new("POST", WIFI_CONNECT_PATH, ApiResponseFormat::Json),
    ];
    assert(r@.len() == spec_api_endpoints().len());
    r
}

/// The envelope around every API response.
#[derive(Clone, Debug)]
pub struct ApiResponse<T> {
    pub schema: String,
    pub version: u16,
    pub success: bool,
    pub data: Option<T>,
    pub error: Option<String>,
    pub error_code: Option<String>,
}

/// Whether an envelope carries the current schema identifier and version.
pub open spec fn spec_is_current_schema<T>(r: ApiResponse<T>) -> bool {
    r.schema@ == API_RESPONSE_SCHEMA_ID@ && r.version == API_RESPONSE_SCHEMA_VERSION
}

impl<T> ApiResponse<T> {
    /// A successful response carrying `data`.
    pub fn ok(data: T) -> (r: Self)
        ensures
            spec_is_current_schema(r),
            r.success,
            r.data == Some(data),
            r.error is None,
            r.error_code is None,
    {
        Self {
            schema: API_RESPONSE_SCHEMA_ID.to_owned(),
            version: API_RESPONSE_SCHEMA_VERSION,
            success: true,
            data: Some(data),
            error: None,
            error_code: None,
        }
    }

    /// A failed response with the generic `request_failed` code.
    pub fn err(message: String) -> (r: Self)
        ensures
            spec_is_current_schema(r),
            !r.success,
            r.data is None,
            r.error == Some(message),
            r.error_code is Some && r.error_code->0@ == "request_failed"@,
    {
        Self::err_with_code("request_failed", message)
    }

    /// A failed response with an explicit machine-readable error code.
    pub fn err_with_code(code: &'static str, message: String) -> (r: Self)
        ensures
            spec_is_current_schema(r),
            !r.success,
            r.data is None,
            r.error == Some(message),
            r.error_code is Some && r.error_code->0@ == code@,
    {
        Self {
            schema: API_RESPONSE_SCHEMA_ID.to_owned(),
            version: API_RESPONSE_SCHEMA_VERSION,
            success: false,
            data: None,
            error: Some(message),
            error_code: Some(code.to_owned()),
        }
    }
}

} // verus!
