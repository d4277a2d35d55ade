use huidu::sdk::envelope::encode_reply;
use huidu::sdk::messages::boot_logo::{BootLogoInfo, ClearBootLogo, GetBootLogo};
use huidu::sdk::messages::device_info::{DeviceInfo, GetDeviceInfo};
use huidu::sdk::messages::files::{DeleteFiles, FileInfo, FileList, GetFiles};
use huidu::sdk::messages::luminance::{GetLuminance, LuminanceInfo, LuminanceItem, LuminanceMode};
use huidu::sdk::messages::network::{EthernetInfo, GetEthernet, GetWifi, WifiInfo, WifiMode};
use huidu::sdk::messages::program::{DeleteProgram, GetProgram, ProgramPush};
use huidu::sdk::messages::screen::{CloseScreen, OpenScreen};
use huidu::sdk::messages::server::{GetServer, ServerInfo, DEFAULT_PORT};
use huidu::sdk::messages::switch_time::{GetSwitchTime, SwitchTimeInfo, SwitchTimeItem};
use huidu::sdk::messages::time::{GetTime, TimeInfo};
use huidu::sdk::method::SdkMethod;
use huidu::sdk::result::SdkResult;
use huidu::sdk::xml::XmlWriter;
use huidu::error::ProtoError;

/// A body written on its own, for wrapping into a reply under another method.
fn body_of(write: impl FnOnce(&mut XmlWriter)) -> String {
    let mut x = XmlWriter::new();
    write(&mut x);
    x.into_string()
}

#[test]
fn body_less_requests_round_trip() {
    let g = GetBootLogo.encode_request("g").unwrap();
    assert_eq!(GetBootLogo::decode(&g).unwrap(), GetBootLogo);
    let c = ClearBootLogo.encode_request("g").unwrap();
    assert_eq!(ClearBootLogo::decode(&c).unwrap(), ClearBootLogo);
}

#[test]
fn boot_logo_set_request_round_trips() {
    let info = BootLogoInfo { exists: true, name: "splash.png".to_string(), md5: "deadbeef".to_string() };
    let bytes = info.encode_request("g").unwrap();
    assert_eq!(BootLogoInfo::decode(&bytes).unwrap(), info);
}

#[test]
fn boot_logo_get_reply_round_trips() {
    let info = BootLogoInfo { exists: false, name: String::new(), md5: String::new() };
    let body = body_of(|x| info.write_body(x).unwrap());
    let bytes = encode_reply("g", SdkMethod::GetBootLogo, &SdkResult::success(), &body).unwrap();
    assert_eq!(BootLogoInfo::decode(&bytes).unwrap(), info);
}

#[test]
fn device_info_get_request_round_trips() {
    let bytes = GetDeviceInfo.encode_request("g").unwrap();
    assert_eq!(GetDeviceInfo::decode(&bytes).unwrap(), GetDeviceInfo);
}

#[test]
fn device_info_reply_round_trips() {
    let info = DeviceInfo {
        cpu: "Freescale.iMax6".to_string(),
        model: "HD-A30".to_string(),
        device_id: "HDA30-0001".to_string(),
        device_name: "Lobby & Sign".to_string(),
        fpga_version: "1.0".to_string(),
        app_version: "3.2.1".to_string(),
        kernel_version: "4.1.15".to_string(),
        screen_width: 128,
        screen_height: 64,
        screen_rotation: 90,
    };
    let bytes = info.encode_reply("g", &SdkResult::success()).unwrap();
    assert_eq!(DeviceInfo::decode(&bytes).unwrap(), info);
}

#[test]
fn device_info_reads_unparsable_numbers_as_zero() {
    let bytes = encode_reply(
        "g",
        SdkMethod::GetDeviceInfo,
        &SdkResult::success(),
        "<device model=\"X\"/><screen width=\" 64 \" height=\"abc\" rotation=\"-1\"/>",
    )
    .unwrap();
    let info = DeviceInfo::decode(&bytes).unwrap();
    assert_eq!(info.model, "X");
    assert_eq!(info.screen_width, 64);
    assert_eq!(info.screen_height, 0);
    assert_eq!(info.screen_rotation, 0);
}

#[test]
fn device_error_reply_surfaces_before_the_body() {
    let bytes = encode_reply("g", SdkMethod::GetDeviceInfo, &SdkResult::from("kDeviceBusy"), "").unwrap();
    match DeviceInfo::decode(&bytes) {
        Err(ProtoError::SdkError { method, result }) => {
            assert_eq!(method, "GetDeviceInfo");
            assert_eq!(result.as_str(), "kDeviceBusy");
        },
        other => panic!("expected a device error, got {other:?}"),
    }
}

#[test]
fn files_get_request_round_trips() {
    let bytes = GetFiles.encode_request("g").unwrap();
    assert_eq!(GetFiles::decode(&bytes).unwrap(), GetFiles);
}

#[test]
fn file_list_reply_round_trips() {
    let list = FileList {
        files: vec![
            FileInfo {
                name: "logo.png".to_string(),
                size: 4096,
                exist_size: 4096,
                md5: "d41d8cd98f00b204e9800998ecf8427e".to_string(),
                file_type: "image".to_string(),
            },
            FileInfo {
                name: "clip.mp4".to_string(),
                size: 1_048_576,
                exist_size: 0,
                md5: "abc123".to_string(),
                file_type: "video".to_string(),
            },
        ],
    };
    let body = body_of(|x| list.write_body(x).unwrap());
    let bytes = encode_reply("g", SdkMethod::GetFiles, &SdkResult::success(), &body).unwrap();
    assert_eq!(FileList::decode(&bytes).unwrap(), list);
}

#[test]
fn delete_request_round_trips() {
    let req = DeleteFiles::new(&["a.jpg", "b.mp4"]);
    let bytes = req.encode_request("g").unwrap();
    assert_eq!(DeleteFiles::decode(&bytes).unwrap(), req);
}

#[test]
fn luminance_get_request_round_trips() {
    let bytes = GetLuminance.encode_request("g").unwrap();
    assert_eq!(GetLuminance::decode(&bytes).unwrap(), GetLuminance);
}

#[test]
fn fixed_brightness_round_trips() {
    let info = LuminanceInfo { mode: LuminanceMode::Fixed, default_value: 80, ..LuminanceInfo::default() };
    let bytes = info.encode_request("g").unwrap();
    assert_eq!(LuminanceInfo::decode(&bytes).unwrap(), info);
}

#[test]
fn scheduled_brightness_round_trips() {
    let info = LuminanceInfo {
        mode: LuminanceMode::Scheduled,
        default_value: 100,
        items: vec![
            LuminanceItem { enabled: true, start: "06:00:00".to_string(), percent: 100 },
            LuminanceItem { enabled: true, start: "22:00:00".to_string(), percent: 20 },
        ],
        sensor_min: 5,
        sensor_max: 90,
        sensor_time: 12,
    };
    let body = body_of(|x| info.write_body(x).unwrap());
    let bytes = encode_reply("g", SdkMethod::GetLuminancePloy, &SdkResult::success(), &body).unwrap();
    assert_eq!(LuminanceInfo::decode(&bytes).unwrap(), info);
}

#[test]
fn brightness_builders_keep_the_other_defaults() {
    let m = LuminanceInfo::manual(42);
    assert_eq!(m, LuminanceInfo { mode: LuminanceMode::Fixed, default_value: 42, ..LuminanceInfo::default() });
    let s = LuminanceInfo::sensor(15, 80, 10);
    assert_eq!(s.mode, LuminanceMode::Sensor);
    assert_eq!((s.sensor_min, s.sensor_max, s.sensor_time, s.default_value), (15, 80, 10, 100));
    let items = vec![LuminanceItem { start: "06:00:00".to_string(), percent: 90, ..LuminanceItem::default() }];
    let p = LuminanceInfo::scheduled(items.clone());
    assert_eq!(p.mode, LuminanceMode::Scheduled);
    assert_eq!(p.items, items);
    let xml = String::from_utf8(m.encode_request("g").unwrap()).unwrap();
    assert!(xml.contains("<mode value=\"default\"/><default value=\"42\"/><ploy></ploy>"));
}

#[test]
fn ethernet_get_request_round_trips() {
    let bytes = GetEthernet.encode_request("g").unwrap();
    assert_eq!(GetEthernet::decode(&bytes).unwrap(), GetEthernet);
}

#[test]
fn ethernet_set_request_round_trips() {
    let info = EthernetInfo {
        enabled: true,
        auto_dhcp: false,
        ip: "192.168.6.1".to_string(),
        netmask: "255.255.255.0".to_string(),
        gateway: "192.168.6.254".to_string(),
        dns: "8.8.8.8".to_string(),
    };
    let bytes = info.encode_request("g").unwrap();
    assert_eq!(EthernetInfo::decode(&bytes).unwrap(), info);
}

#[test]
fn ethernet_get_reply_round_trips() {
    let info = EthernetInfo {
        enabled: true,
        auto_dhcp: true,
        ip: "10.0.0.5".to_string(),
        netmask: "255.255.255.0".to_string(),
        gateway: "10.0.0.1".to_string(),
        dns: "1.1.1.1".to_string(),
    };
    let body = body_of(|x| info.write_body(x).unwrap());
    let bytes = encode_reply("g", SdkMethod::GetEth0Info, &SdkResult::success(), &body).unwrap();
    assert_eq!(EthernetInfo::decode(&bytes).unwrap(), info);
}

#[test]
fn wifi_get_request_round_trips() {
    let bytes = GetWifi.encode_request("g").unwrap();
    assert_eq!(GetWifi::decode(&bytes).unwrap(), GetWifi);
}

#[test]
fn wifi_set_request_round_trips() {
    let info = WifiInfo {
        has_wifi: true,
        enabled: true,
        mode: WifiMode::Station,
        ssid: "office-net".to_string(),
        password: "s3cr3t".to_string(),
        channel: "6".to_string(),
        encryption: "WPA-PSK".to_string(),
    };
    let bytes = info.encode_request("g").unwrap();
    assert_eq!(WifiInfo::decode(&bytes).unwrap(), info);
}

#[test]
fn wifi_mode_reads_station_in_any_case() {
    assert_eq!(WifiMode::from_str("STATION"), WifiMode::Station);
    assert_eq!(WifiMode::from_str("sta"), WifiMode::Ap);
    assert_eq!(WifiMode::Station.as_str(), "station");
}

#[test]
fn get_and_delete_requests_round_trip() {
    let g = GetProgram.encode_request("g").unwrap();
    assert_eq!(GetProgram::decode(&g).unwrap(), GetProgram);
    let d = DeleteProgram.encode_request("g").unwrap();
    assert_eq!(DeleteProgram::decode(&d).unwrap(), DeleteProgram);
}

#[test]
fn add_program_carries_screen_verbatim() {
    let screen = r#"<screen timeStamps="1721400000"><program id="0" guid="p1"/></screen>"#;
    let push = ProgramPush::add(screen);
    let bytes = push.encode("g").unwrap();
    let got = ProgramPush::decode(&bytes).unwrap();
    assert_eq!(got.method(), SdkMethod::AddProgram);
    assert_eq!(got.screen, screen);
}

#[test]
fn update_program_preserves_its_method() {
    let screen = r#"<screen><program id="0"/></screen>"#;
    let push = ProgramPush::update(screen);
    let bytes = push.encode("g").unwrap();
    let got = ProgramPush::decode(&bytes).unwrap();
    assert_eq!(got.method(), SdkMethod::UpdateProgram);
    assert_eq!(got.screen, screen);
}

#[test]
fn empty_add_program_clears() {
    let push = ProgramPush::add("");
    let bytes = push.encode("g").unwrap();
    let got = ProgramPush::decode(&bytes).unwrap();
    assert!(got.screen.is_empty());
}

#[test]
fn open_close_requests_round_trip() {
    let o = OpenScreen.encode_request("g").unwrap();
    assert_eq!(OpenScreen::decode(&o).unwrap(), OpenScreen);
    let c = CloseScreen.encode_request("g").unwrap();
    assert_eq!(CloseScreen::decode(&c).unwrap(), CloseScreen);
}

#[test]
fn server_get_request_round_trips() {
    let bytes = GetServer.encode_request("g").unwrap();
    assert_eq!(GetServer::decode(&bytes).unwrap(), GetServer);
}

#[test]
fn server_set_request_round_trips() {
    let info = ServerInfo { host: "srv.example.com".to_string(), port: 6000 };
    let bytes = info.encode_request("g").unwrap();
    assert_eq!(ServerInfo::decode(&bytes).unwrap(), info);
}

#[test]
fn server_get_reply_round_trips() {
    let info = ServerInfo { host: "10.0.0.9".to_string(), port: 10001 };
    let body = body_of(|x| info.write_body(x).unwrap());
    let bytes = encode_reply("g", SdkMethod::GetSdkTcpServer, &SdkResult::success(), &body).unwrap();
    assert_eq!(ServerInfo::decode(&bytes).unwrap(), info);
}

#[test]
fn server_port_falls_back_to_the_default() {
    assert_eq!(ServerInfo::default().port, DEFAULT_PORT);
    let bytes =
        encode_reply("g", SdkMethod::GetSdkTcpServer, &SdkResult::success(), "<server host=\"h\" port=\"70000\"/>")
            .unwrap();
    let info = ServerInfo::decode(&bytes).unwrap();
    assert_eq!(info.host, "h");
    assert_eq!(info.port, DEFAULT_PORT);
}

#[test]
fn switch_time_get_request_round_trips() {
    let bytes = GetSwitchTime.encode_request("g").unwrap();
    assert_eq!(GetSwitchTime::decode(&bytes).unwrap(), GetSwitchTime);
}

#[test]
fn switch_time_set_request_round_trips() {
    let info = SwitchTimeInfo {
        open_enabled: true,
        ploy_enabled: true,
        items: vec![SwitchTimeItem { enabled: true, start: "08:00:00".to_string(), end: "22:00:00".to_string() }],
    };
    let bytes = info.encode_request("g").unwrap();
    assert_eq!(SwitchTimeInfo::decode(&bytes).unwrap(), info);
}

#[test]
fn switch_time_get_reply_round_trips() {
    let info = SwitchTimeInfo {
        open_enabled: false,
        ploy_enabled: true,
        items: vec![
            SwitchTimeItem { enabled: true, start: "06:30:00".to_string(), end: "12:00:00".to_string() },
            SwitchTimeItem { enabled: false, start: "12:00:00".to_string(), end: "13:00:00".to_string() },
        ],
    };
    let body = body_of(|x| info.write_body(x).unwrap());
    let bytes = encode_reply("g", SdkMethod::GetSwitchTime, &SdkResult::success(), &body).unwrap();
    assert_eq!(SwitchTimeInfo::decode(&bytes).unwrap(), info);
}

#[test]
fn time_get_request_round_trips() {
    let bytes = GetTime.encode_request("g").unwrap();
    assert_eq!(GetTime::decode(&bytes).unwrap(), GetTime);
}

#[test]
fn time_set_request_round_trips() {
    let info = TimeInfo {
        timezone: "(UTC+03:00)Istanbul".to_string(),
        summer: false,
        sync: "none".to_string(),
        time: "2026-07-19 14:30:00".to_string(),
    };
    let bytes = info.encode_request("g").unwrap();
    assert_eq!(TimeInfo::decode(&bytes).unwrap(), info);
}

#[test]
fn time_get_reply_round_trips() {
    let info = TimeInfo {
        timezone: "(UTC+00:00)UTC".to_string(),
        summer: true,
        sync: "network".to_string(),
        time: String::new(),
    };
    let body = body_of(|x| info.write_body(x).unwrap());
    let bytes = encode_reply("g", SdkMethod::GetTimeInfo, &SdkResult::success(), &body).unwrap();
    assert_eq!(TimeInfo::decode(&bytes).unwrap(), info);
}

#[test]
fn time_summer_flag_reads_true_in_any_case() {
    let bytes = encode_reply("g", SdkMethod::GetTimeInfo, &SdkResult::success(), "<summer enable=\"TRUE\"/>").unwrap();
    assert!(TimeInfo::decode(&bytes).unwrap().summer);
}

#[test]
fn unreadable_attributes_fail_only_when_read() {
    // An unknown entity in an element the body does not read, and a
    // malformed attribute there, leave the decode alone.
    let bytes = encode_reply(
        "g",
        SdkMethod::GetDeviceInfo,
        &SdkResult::success(),
        "<extra a=\"&bogus;\"/><other b c=\"1\"/><device model=\"X\" note=\"&bogus;\"/>",
    )
    .unwrap();
    let info = DeviceInfo::decode(&bytes).unwrap();
    assert_eq!(info.model, "X");
    // The same entity in an attribute the body reads fails the decode.
    let bytes = encode_reply(
        "g",
        SdkMethod::GetDeviceInfo,
        &SdkResult::success(),
        "<device model=\"&bogus;\"/>",
    )
    .unwrap();
    assert!(matches!(DeviceInfo::decode(&bytes), Err(huidu::error::ProtoError::Xml(_))));
    // A malformed attribute before one the body reads fails it too.
    let bytes = encode_reply("g", SdkMethod::GetDeviceInfo, &SdkResult::success(), "<device b cpu=\"1\"/>").unwrap();
    assert!(matches!(DeviceInfo::decode(&bytes), Err(huidu::error::ProtoError::Xml(_))));
}
