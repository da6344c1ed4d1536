use chumby::real_net::{
    default_route, hex_le_to_ip, live_command, network_status_xml, parse_proc_wireless, read_dns,
    signal_strength_xml, xml_escape, LiveCommand, NetInfo,
};

/// Captured from a Pi 3B+ (brcmfmac): quality 63 of 70, −47 dBm signal,
/// −256 = noise unknown.
const PI_SAMPLE: &str = "\
Inter-| sta-|   Quality        |   Discarded packets               | Missed | WE
 face | tus | link level noise |  nwid  crypt   frag  retry   misc | beacon | 22
 wlan0: 0000   63.  -47.  -256        0      0      0      0      0        0";

/// A wireless-less machine: header only.
const EMPTY_SAMPLE: &str = "\
Inter-| sta-|   Quality        |   Discarded packets               | Missed | WE
 face | tus | link level noise |  nwid  crypt   frag  retry   misc | beacon | 22";

#[test]
fn test_parse_proc_wireless_pi_sample() {
    assert_eq!(parse_proc_wireless(PI_SAMPLE, "wlan0"), Some((90, -47, -256)));
}

#[test]
fn test_parse_proc_wireless_absent_interface() {
    assert_eq!(parse_proc_wireless(PI_SAMPLE, "wlan1"), None);
    assert_eq!(parse_proc_wireless(EMPTY_SAMPLE, "wlan0"), None);
}

#[test]
fn test_parse_proc_wireless_quality_clamps_to_scale() {
    let s = "h\nh\n wlan0: 0000  100.  -30.  -256        0 0 0 0 0 0";
    assert_eq!(parse_proc_wireless(s, "wlan0"), Some((100, -30, -256)));
}

#[test]
fn test_xml_escape() {
    assert_eq!(xml_escape(r#"a&b<c>"d""#), "a&amp;b&lt;c&gt;&quot;d&quot;");
}

#[test]
fn route_table_gives_the_default_gateway() {
    let table = "Iface\tDestination\tGateway \tFlags\tRefCnt\tUse\tMetric\tMask\tMTU\tWindow\tIRTT\n\
                 eth0\t0000A8C0\t00000000\t0001\t0\t0\t202\t00FFFFFF\t0\t0\t0\n\
                 wlan0\t00000000\t0101A8C0\t0003\t0\t0\t303\t00000000\t0\t0\t0\n";
    assert_eq!(
        default_route(table),
        Some(("wlan0".to_string(), "192.168.1.1".to_string()))
    );
    assert_eq!(default_route("Iface\tDestination\tGateway\n"), None);
    assert_eq!(hex_le_to_ip("0101A8C0"), "192.168.1.1");
    assert_eq!(hex_le_to_ip("zz"), "0.0.0.0");
}

#[test]
fn nameservers_from_resolv_conf() {
    let (a, b) = read_dns("# generated\nnameserver 1.1.1.1\nsearch lan\nnameserver 8.8.8.8\nnameserver 9.9.9.9\n");
    assert_eq!((a.as_str(), b.as_str()), ("1.1.1.1", "8.8.8.8"));
    let (a, b) = read_dns("");
    assert_eq!((a.as_str(), b.as_str()), ("", ""));
}

#[test]
fn status_xml_for_wired_and_wireless_links() {
    let n = NetInfo {
        iface: "eth0".to_string(),
        wireless: false,
        ip: "192.168.1.5".to_string(),
        netmask: "255.255.255.0".to_string(),
        gateway: "192.168.1.1".to_string(),
        dns1: "1.1.1.1".to_string(),
        dns2: "".to_string(),
    };
    assert_eq!(
        network_status_xml(&n, "ignored"),
        "<network><configuration type=\"lan\" ssid=\"\" auth=\"\" encryption=\"\"/>\
         <interface ip=\"192.168.1.5\" netmask=\"255.255.255.0\" gateway=\"192.168.1.1\" \
         nameserver1=\"1.1.1.1\" nameserver2=\"\"/></network>"
    );
    let w = NetInfo { wireless: true, ..n };
    assert!(network_status_xml(&w, "Cafe & Bar").contains("type=\"wlan\" ssid=\"Cafe &amp; Bar\""));
    assert_eq!(
        signal_strength_xml(Some((90, -47, -256))),
        "<wifi connected=\"1\" linkquality=\"90\" signalstrength=\"-47\" noiselevel=\"-256\"/>"
    );
    assert_eq!(signal_strength_xml(None), "<wifi connected=\"0\"/>");
}

#[test]
fn live_commands_by_leading_words() {
    assert_eq!(live_command("network_status.sh"), LiveCommand::NetworkStatus);
    assert_eq!(live_command("signal_strength wlan0"), LiveCommand::SignalStrength);
    assert_eq!(live_command("guidgen.sh"), LiveCommand::Guid);
    assert_eq!(live_command("chumby_version -n"), LiveCommand::HwSerial);
    assert_eq!(
        live_command("md5sum  /tmp/.guidhash "),
        LiveCommand::Md5sum { path: "/tmp/.guidhash".to_string() }
    );
    assert_eq!(live_command("ls"), LiveCommand::Other);
}
