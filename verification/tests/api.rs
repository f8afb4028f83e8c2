use rumiga::api::{
    api_endpoints, is_supported_floppy_speed_percent, is_valid_unicast_mac_address, ApiEndpoint,
    ApiResponse, ApiResponseFormat, AudioConfig, HdfWritePolicy, MachineConfig, NetworkBackend,
    NetworkConfig, NetworkDevice, NetworkPacketCounters, NetworkStatus, ViewportConfig,
    ViewportMode, ViewportPreset, API_RESPONSE_SCHEMA_ID, API_RESPONSE_SCHEMA_VERSION,
    DEFAULT_NETWORK_MAC_ADDRESS, FILES_FORMAT_PATH, MACHINE_SCREENSHOT_PATH,
};

#[test]
fn machine_config_defaults_network_off() {
    let config = MachineConfig::default();

    assert_eq!(config.network.backend, NetworkBackend::Disabled);
    assert_eq!(config.network.device, NetworkDevice::A2065);
    assert!(!config.network.enabled());
    assert!(is_valid_unicast_mac_address(&config.network.mac_address));
}

#[test]
fn network_mac_validation_rejects_broadcast_multicast_and_malformed_values() {
    assert!(is_valid_unicast_mac_address("02:52:55:4d:49:47"));
    assert!(!is_valid_unicast_mac_address("01:52:55:4d:49:47"));
    assert!(!is_valid_unicast_mac_address("ff:ff:ff:ff:ff:ff"));
    assert!(!is_valid_unicast_mac_address("00:00:00:00:00:00"));
    assert!(!is_valid_unicast_mac_address("02-52-55-4d-49-47"));
    assert!(!is_valid_unicast_mac_address("02:52:55:4d:49"));
}

#[test]
fn network_status_defaults_to_disabled_a2065() {
    let status = NetworkStatus::default();

    assert!(!status.enabled);
    assert_eq!(status.backend, NetworkBackend::Disabled);
    assert_eq!(status.device, NetworkDevice::A2065);
    assert_eq!(status.mac_address, DEFAULT_NETWORK_MAC_ADDRESS);
    assert_eq!(status.a2065_card_mac_address, DEFAULT_NETWORK_MAC_ADDRESS);
    assert_eq!(status.counters, NetworkPacketCounters::default());
}

#[test]
fn api_response_is_schema_versioned() {
    let ok = ApiResponse::ok(());
    let err = ApiResponse::<()>::err_with_code("invalid_request", String::from("bad input"));

    assert_eq!(ok.schema, API_RESPONSE_SCHEMA_ID);
    assert_eq!(ok.version, API_RESPONSE_SCHEMA_VERSION);
    assert!(ok.success);
    assert!(ok.error_code.is_none());
    assert_eq!(err.schema, API_RESPONSE_SCHEMA_ID);
    assert_eq!(err.version, API_RESPONSE_SCHEMA_VERSION);
    assert!(!err.success);
    assert_eq!(err.error_code, Some(String::from("invalid_request")));
}

#[test]
fn api_endpoint_contract_lists_public_paths() {
    let endpoints = api_endpoints();
    assert!(endpoints.iter().any(|endpoint| {
        endpoint.method == "GET" && endpoint.path == MACHINE_SCREENSHOT_PATH
    }));
    assert!(endpoints.iter().any(|endpoint| {
        endpoint.method == "POST" && endpoint.path == FILES_FORMAT_PATH
    }));
}

#[test]
fn generic_error_uses_request_failed_code() {
    let err = ApiResponse::<u32>::err(String::from("boom"));
    assert!(!err.success);
    assert!(err.data.is_none());
    assert_eq!(err.error, Some(String::from("boom")));
    assert_eq!(err.error_code, Some(String::from("request_failed")));
    let ok = ApiResponse::ok(7u32);
    assert_eq!(ok.data, Some(7));
    assert!(ok.error.is_none());
}

#[test]
fn screenshot_is_the_only_png_endpoint() {
    let endpoints = api_endpoints();
    assert_eq!(endpoints.len(), 20);
    let png: Vec<&ApiEndpoint> = endpoints
        .iter()
        .filter(|endpoint| endpoint.response_format == ApiResponseFormat::Png)
        .collect();
    assert_eq!(png.len(), 1);
    assert_eq!(png[0].path, MACHINE_SCREENSHOT_PATH);
    assert_eq!(
        ApiEndpoint::new("GET", "/x", ApiResponseFormat::Json).path,
        "/x"
    );
}

#[test]
fn names_in_configuration_files_are_stable() {
    assert_eq!(HdfWritePolicy::ReadOnly.as_str(), "read-only");
    assert_eq!(HdfWritePolicy::Writeback.as_str(), "writeback");
    assert_eq!(NetworkDevice::A2065.as_str(), "a2065");
    assert_eq!(NetworkBackend::Disabled.as_str(), "disabled");
    assert_eq!(NetworkBackend::Slirp.as_str(), "slirp");
    assert_eq!(HdfWritePolicy::default(), HdfWritePolicy::ReadOnly);
}

#[test]
fn supported_floppy_speeds() {
    for speed in [0u16, 100, 200, 400, 800] {
        assert!(is_supported_floppy_speed_percent(speed));
    }
    for speed in [1u16, 50, 300, 1000] {
        assert!(!is_supported_floppy_speed_percent(speed));
    }
}

#[test]
fn network_status_from_config_copies_the_configuration() {
    let config = NetworkConfig {
        device: NetworkDevice::A2065,
        backend: NetworkBackend::Slirp,
        mac_address: String::from("02:00:00:00:00:01"),
    };
    assert!(config.enabled());
    let status = NetworkStatus::from_config(&config);
    assert!(status.enabled);
    assert_eq!(status.backend, NetworkBackend::Slirp);
    assert_eq!(status.mac_address, "02:00:00:00:00:01");
    assert_eq!(status.a2065_card_mac_address, "02:00:00:00:00:01");
    assert!(!status.link_up);
    assert!(status.a2065_base_address.is_none());
}

#[test]
fn display_and_audio_defaults() {
    let viewport = ViewportConfig::default();
    assert_eq!(viewport.mode, ViewportMode::Auto);
    assert_eq!(viewport.preset, ViewportPreset::AutoCenter);
    assert_eq!((viewport.width, viewport.height), (754, 288));
    assert!(viewport.vertical_stretch);
    let audio = AudioConfig::default();
    assert_eq!(audio.stereo_separation, 100);
    assert_eq!(audio.channel_mix[0].left_pct, 100);
    assert_eq!(audio.channel_mix[1].right_pct, 100);
    assert_eq!(audio.channel_mix[3].right_pct, 0);
    let config = MachineConfig::default();
    assert_eq!(config.chip_ram_kb, 512);
    assert_eq!(config.floppy_speed_percent, 100);
    assert!(config.floppy.iter().all(|f| f.is_none()));
}
