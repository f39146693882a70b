use logscan::analyzer::static_analyzer::StaticAnalyzer;
use logscan::analyzer::{Analyzer, Platform, PlatformDetails, PortsConfig};
use logscan::strmap::StrMap;

fn lines(v: &[&str]) -> Vec<String> {
    v.iter().map(|s| s.to_string()).collect()
}

fn empty_config() -> PortsConfig {
    PortsConfig { plugins: StrMap::new(), mods: StrMap::new() }
}

#[test]
fn paper_signature_takes_priority() {
    let input = lines(&[
        "This server is running Paper version 1.19 and This server is running CraftBukkit version x",
    ]);
    let analyzer = Analyzer::new(&input);
    assert!(matches!(analyzer.platform, Platform::Paper));
}

#[test]
fn craftbukkit_line_disambiguates_spigot() {
    let input = lines(&["This server is running CraftBukkit version git-Spigot-123"]);
    let analyzer = Analyzer::new(&input);
    assert!(matches!(analyzer.platform, Platform::Spigot));
}

#[test]
fn craftbukkit_without_submarks_stays_craftbukkit() {
    let input = lines(&["This server is running CraftBukkit version git-1234"]);
    let analyzer = Analyzer::new(&input);
    assert!(matches!(analyzer.platform, Platform::CraftBukkit));
}

#[test]
fn platform_defaults_to_vanilla() {
    let analyzer = Analyzer::new(&lines(&["nothing informative"]));
    assert!(matches!(analyzer.platform, Platform::Vanilla));
}

#[test]
fn forge_detected_by_loading_banner() {
    let analyzer = Analyzer::new(&lines(&["Forge mod loading, version 36.2.0"]));
    assert!(matches!(analyzer.platform, Platform::Forge));
    assert_eq!(analyzer.platform.name(), "forge");
    assert_eq!(analyzer.platform.display_name(), "Forge");
}

#[test]
fn plugin_banner_accepted_when_tag_matches_name() {
    let p = StaticAnalyzer::plugin_bukkit("[Essentials] Loading Essentials v2.19.0").unwrap();
    assert_eq!(p.name, "Essentials");
    assert_eq!(p.version, "2.19.0");
}

#[test]
fn plugin_banner_tag_normalisation_ignores_case_and_separators() {
    let p = StaticAnalyzer::plugin_bukkit("[essentials-x] Loading EssentialsX v2.20").unwrap();
    assert_eq!(p.name, "EssentialsX");
    assert_eq!(p.version, "2.20");
}

#[test]
fn plugin_banner_rejected_on_mismatched_tag() {
    assert!(StaticAnalyzer::plugin_bukkit("[Foo] Loading Bar v1.0").is_none());
}

#[test]
fn paper_plugin_banner_preferred() {
    let p = StaticAnalyzer::plugin_bukkit("[Essentials] Loading server plugin Essentials v2.19")
        .unwrap();
    assert_eq!(p.name, "Essentials");
    assert_eq!(p.version, "2.19");
}

#[test]
fn vanilla_port_found_after_colon() {
    let port =
        StaticAnalyzer::vanilla_port("Starting Minecraft server on *:25565", "Starting Minecraft server on");
    assert_eq!(port, Some(25565));
}

#[test]
fn vanilla_port_rejects_oversized_number() {
    let port =
        StaticAnalyzer::vanilla_port("Starting Minecraft server on *:99999", "Starting Minecraft server on");
    assert_eq!(port, None);
}

#[test]
fn vanilla_port_falls_back_to_bare_run() {
    let port = StaticAnalyzer::vanilla_port("Query running on 25565", "Query running on");
    assert_eq!(port, Some(25565));
}

#[test]
fn vanilla_port_needs_banner_text() {
    assert_eq!(StaticAnalyzer::vanilla_port("listening on *:25565", "Query running on"), None);
}

#[test]
fn addon_port_uses_bare_digit_fallback() {
    let r = StaticAnalyzer::port("dynmap".to_string(), "Dynmap webserver on 8123", "dynmap".to_string());
    assert_eq!(r, Some(("dynmap".to_string(), 8123)));
}

#[test]
fn addon_port_matches_case_insensitively() {
    let r = StaticAnalyzer::port("geyser".to_string(), "GEYSER listening on :19132", "Geyser".to_string());
    assert_eq!(r, Some(("geyser".to_string(), 19132)));
}

#[test]
fn version_banner_extracted() {
    let v = StaticAnalyzer::noproxy_server_version("[Server] Starting minecraft server version 1.19.2");
    assert_eq!(v, Some("1.19.2".to_string()));
}

#[test]
fn leaked_line_reported() {
    let line = "[Fake] This plugin was downloaded from BlackSpigot";
    assert_eq!(StaticAnalyzer::leaked_plugin(line), Some(line.to_string()));
}

#[test]
fn leaked_allowlist_suppresses_report() {
    let line = "cracked shots by crackshot";
    assert_eq!(StaticAnalyzer::leaked_plugin(line), None);
}

#[test]
fn leaked_clean_line_passes() {
    assert_eq!(StaticAnalyzer::leaked_plugin("[INFO] Loading worlds"), None);
}

#[test]
fn build_collects_plugins_and_version() {
    let input = lines(&[
        "This server is running Paper version 1.19",
        "[Essentials] Loading Essentials v2.19.0",
        "[Server] Starting minecraft server version 1.19.2",
        "Starting Minecraft server on *:25565",
    ]);
    let analyzer = Analyzer::new(&input);
    let config = empty_config();
    let dad = analyzer.build(&config, 100, 100, Vec::new());
    assert!(dad.is_bukkit_based);
    assert!(!dad.is_proxy);
    assert!(!dad.is_modded);
    assert_eq!(dad.version, Some("1.19.2".to_string()));
    assert_eq!(dad.ports.vanilla.server, Some(25565));
    assert_eq!(dad.ports.vanilla.query, None);
    assert_eq!(dad.plugins.get("Essentials"), Some(&"2.19.0".to_string()));
}

#[test]
fn build_skips_plugins_off_bukkit() {
    let input = lines(&["[Essentials] Loading Essentials v2.19.0"]);
    let analyzer = Analyzer::new(&input);
    let config = empty_config();
    let dad = analyzer.build(&config, 100, 100, Vec::new());
    assert!(matches!(dad.platform, Platform::Vanilla));
    assert_eq!(dad.plugins.len(), 0);
}

#[test]
fn build_reads_configured_addon_ports() {
    let input = lines(&[
        "This server is running Paper version 1.19",
        "Dynmap webserver started on :8123",
        "Dynmap webserver moved to :8124",
    ]);
    let analyzer = Analyzer::new(&input);
    let mut plugins: StrMap<Vec<String>> = StrMap::new();
    plugins.insert("dynmap".to_string(), vec!["Dynmap webserver".to_string()]);
    let config = PortsConfig { plugins, mods: StrMap::new() };
    let dad = analyzer.build(&config, 100, 100, Vec::new());
    assert_eq!(dad.ports.plugins.get("dynmap"), Some(&8124));
    assert_eq!(dad.ports.mods.len(), 0);
}

#[test]
fn vanilla_port_boundary_value_accepted() {
    let port = StaticAnalyzer::vanilla_port("Query running on 0.0.0.0:65535", "Query running on");
    assert_eq!(port, Some(65535));
}

#[test]
fn later_banner_for_same_plugin_overwrites() {
    let input = lines(&[
        "This server is running Paper version 1.19",
        "[Essentials] Loading Essentials v1.0",
        "[Essentials] Loading Essentials v2.0",
    ]);
    let config = empty_config();
    let dad = Analyzer::new(&input).build(&config, 100, 100, Vec::new());
    assert_eq!(dad.plugins.len(), 1);
    assert_eq!(dad.plugins.get("Essentials"), Some(&"2.0".to_string()));
}

#[test]
fn plugin_scan_respects_line_limit() {
    let input = lines(&[
        "This server is running Paper version 1.19",
        "[Essentials] Loading Essentials v2.19.0",
    ]);
    let config = empty_config();
    let dad = Analyzer::new(&input).build(&config, 1, 100, Vec::new());
    assert_eq!(dad.plugins.len(), 0);
}

#[test]
fn facts_extraction_is_idempotent() {
    let input = lines(&[
        "This server is running Paper version 1.19",
        "[Essentials] Loading Essentials v2.19.0",
        "[Server] Starting minecraft server version 1.19.2",
    ]);
    let config = empty_config();
    let first = Analyzer::new(&input).build(&config, 100, 100, Vec::new());
    let second = Analyzer::new(&input).build(&config, 100, 100, Vec::new());
    assert_eq!(first.version, second.version);
    assert_eq!(first.is_bukkit_based, second.is_bukkit_based);
    assert_eq!(first.plugins.len(), second.plugins.len());
    assert_eq!(first.plugins.get("Essentials"), second.plugins.get("Essentials"));
    assert_eq!(first.ports.vanilla.server, second.ports.vanilla.server);
}
