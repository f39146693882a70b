use logscan::log::{hide_ips_line, redact_ips_line};

#[test]
fn redacts_plain_address() {
    assert_eq!(redact_ips_line("joined from 192.168.1.50:58381"), "joined from {ipv4}:58381");
}

#[test]
fn redacts_every_address() {
    assert_eq!(redact_ips_line("10.0.0.1 and 10.0.0.2"), "{ipv4} and {ipv4}");
}

#[test]
fn long_leading_run_shifts_the_match() {
    assert_eq!(redact_ips_line("1234.5.6.7"), "1{ipv4}");
}

#[test]
fn line_without_address_is_unchanged() {
    assert_eq!(redact_ips_line("plain text 12.34"), "plain text 12.34");
}

#[test]
fn plugin_banner_line_records_version_and_stays() {
    let (out, version) = hide_ips_line("[SetSpawn] Loading SetSpawn v4.8", &Vec::new());
    assert_eq!(out, "[SetSpawn] Loading SetSpawn v4.8");
    assert_eq!(version, Some("4.8".to_string()));
}

#[test]
fn loopback_marker_keeps_line_verbatim() {
    let (out, version) = hide_ips_line("Binding to 127.0.0.1 for local use", &Vec::new());
    assert_eq!(out, "Binding to 127.0.0.1 for local use");
    assert_eq!(version, None);
}

#[test]
fn known_version_line_with_location_is_still_scrubbed() {
    let versions = vec!["4.8".to_string()];
    let (out, version) = hide_ips_line("SetSpawn v4.8 at (10.20.30.40)", &versions);
    assert_eq!(out, "SetSpawn v4.8 at ({ipv4})");
    assert_eq!(version, None);
}

#[test]
fn ordinary_line_is_scrubbed() {
    let (out, version) = hide_ips_line("Player connected from 8.8.8.8", &Vec::new());
    assert_eq!(out, "Player connected from {ipv4}");
    assert_eq!(version, None);
}
