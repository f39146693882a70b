use logscan::analyzer::dynamic::chunks::Chunks;
use logscan::analyzer::dynamic::plugins::Plugins;
use logscan::analyzer::dynamic::ports::Ports as PortsAccessor;
use logscan::analyzer::dynamic::server::Server;
use logscan::analyzer::dynamic::{
    matches_server_version, matches_version, split_script, wrap_script,
};
use logscan::analyzer::{
    DynamicAnalyzerDetails, Platform, Ports, VanillaPorts,
};
use logscan::strmap::StrMap;

fn dad(chunks: &[&str]) -> DynamicAnalyzerDetails {
    DynamicAnalyzerDetails {
        lines: Vec::new(),
        chunks: chunks.iter().map(|s| s.to_string()).collect(),
        plugins: StrMap::new(),
        platform: Platform::Vanilla,
        version: None,
        is_modded: false,
        is_proxy: false,
        is_bukkit_based: false,
        ports: Ports {
            vanilla: VanillaPorts { server: None, query: None, rcon: None },
            plugins: StrMap::new(),
            mods: StrMap::new(),
        },
    }
}

#[test]
fn matchver_repairs_two_component_versions() {
    assert!(matches_version(Some("1.19".to_string()), ">=1.19.0, <1.20.0"));
}

#[test]
fn matchver_absent_value_is_false() {
    assert!(!matches_version(None, "*"));
}

#[test]
fn matchver_garbage_is_false() {
    assert!(!matches_version(Some("garbage".to_string()), "*"));
}

#[test]
fn matchver_extracts_version_from_noise() {
    assert!(matches_version(Some("git-Paper-1.19.2 stuff".to_string()), ">=1.19.0"));
}

#[test]
fn matchver_repairs_single_component() {
    assert!(matches_version(Some("v7".to_string()), ">=7.0.0"));
}

#[test]
fn matchver_range_excludes() {
    assert!(!matches_version(Some("1.20.1".to_string()), ">=1.19.0, <1.20.0"));
}

#[test]
fn matchserver_accepts_full_version() {
    assert!(matches_server_version("1.19.2", ">=1.19.0"));
}

#[test]
fn matchserver_rejects_short_version_without_repair() {
    assert!(!matches_server_version("1.19", ">=1.19.0"));
}

#[test]
fn matchserver_rejects_digitless_requirement() {
    assert!(!matches_server_version("1.19.2", "*"));
}

#[test]
fn has_line_finds_literal_text() {
    let c = Chunks::new(dad(&["WARN]: Could not bind port", "INFO]: done"]));
    assert!(c.has_line("bind port"));
    let c = Chunks::new(dad(&["WARN]: Could not bind port"]));
    assert!(!c.has_line("missing text"));
}

#[test]
fn has_line_permissive_ignores_case() {
    let c = Chunks::new(dad(&["WARN]: Could Not BIND port"]));
    assert!(c.has_line_permissive("could not bind"));
}

#[test]
fn has_line2_collects_ordered_captures() {
    let c = Chunks::new(dad(&["Server thread/WARN]: Loading class Foo"]));
    let records = c
        .has_line2("Server thread/{0}]: Loading class {1}", "x".to_string())
        .expect("one chunk matches");
    assert_eq!(records.len(), 1);
    assert_eq!(records[0].identifier, "x");
    assert_eq!(records[0].captures, vec!["WARN".to_string(), "Foo".to_string()]);
}

#[test]
fn has_line2_no_match_yields_sentinel() {
    let c = Chunks::new(dad(&["nothing relevant"]));
    assert!(c.has_line2("Server thread/{0}]: Loading class {1}", "x".to_string()).is_none());
}

#[test]
fn has_line2_without_placeholder_yields_sentinel() {
    let c = Chunks::new(dad(&["exact text"]));
    assert!(c.has_line2("exact text", "x".to_string()).is_none());
}

#[test]
fn has_line2_wildcards_stop_at_line_breaks() {
    let c = Chunks::new(dad(&["prefix A\nmiddle suffix"]));
    assert!(c.has_line2("middle {0}", "m".to_string()).is_some());
    let c2 = Chunks::new(dad(&["prefix A\nmiddle suffix"]));
    assert!(c2.has_line2("prefix {0} suffix", "p".to_string()).is_none());
}

#[test]
fn plugins_accessor_lookups() {
    let mut d = dad(&[]);
    let mut map: StrMap<String> = StrMap::new();
    map.insert("Essentials".to_string(), "2.19.0".to_string());
    d.plugins = map;
    assert!(Plugins::new(dad_with_plugins()).has("Essentials"));
    assert!(!Plugins::new(dad_with_plugins()).has("essentials"));
    assert!(Plugins::new(dad_with_plugins()).has_permissive("essentials"));
    assert_eq!(
        Plugins::new(dad_with_plugins()).version("ESSENTIALS"),
        Some("2.19.0".to_string())
    );
    assert_eq!(Plugins::new(dad_with_plugins()).version("other"), None);
    assert!(d.plugins.contains_key("Essentials"));
}

fn dad_with_plugins() -> DynamicAnalyzerDetails {
    let mut d = dad(&[]);
    let mut map: StrMap<String> = StrMap::new();
    map.insert("Essentials".to_string(), "2.19.0".to_string());
    d.plugins = map;
    d
}

#[test]
fn ports_accessor_namespaces_and_sentinel() {
    let mut d = dad(&[]);
    let mut plugin_ports: StrMap<u16> = StrMap::new();
    plugin_ports.insert("dynmap".to_string(), 8123);
    d.ports.plugins = plugin_ports;
    d.ports.vanilla.server = Some(25565);
    let mut acc = PortsAccessor::new(d);
    assert_eq!(acc.server(), 25565);
    assert_eq!(acc.query(), 0);
    let mut d2 = dad(&[]);
    let mut plugin_ports: StrMap<u16> = StrMap::new();
    plugin_ports.insert("dynmap".to_string(), 8123);
    d2.ports.plugins = plugin_ports;
    assert_eq!(PortsAccessor::new(d2).get("dynmap"), 8123);
    let mut d3 = dad(&[]);
    d3.is_modded = true;
    let mut plugin_ports: StrMap<u16> = StrMap::new();
    plugin_ports.insert("dynmap".to_string(), 8123);
    d3.ports.plugins = plugin_ports;
    assert_eq!(PortsAccessor::new(d3).get("dynmap"), 0);
}

#[test]
fn server_accessor_reports_version_state() {
    let mut d = dad(&[]);
    d.version = Some("1.19.2".to_string());
    d.platform = Platform::Paper;
    d.is_bukkit_based = true;
    let mut s = Server::new(d);
    assert!(s.is_known_version());
    assert_eq!(s.version(), "1.19.2");
    assert_eq!(s.platform(), "paper");
    let mut unknown = Server::new(dad(&[]));
    assert!(!unknown.is_known_version());
    assert_eq!(unknown.version(), "Unknown");
    assert!(Server::new(dad(&[])).is_proxy() == false);
}

#[test]
fn split_script_at_first_sentinel() {
    let r = split_script("if server.is_proxy() { report(\"a\") }\n///\n[a]\nheader = \"h\"\n");
    let (body, meta) = r.expect("sentinel present");
    assert_eq!(body, "if server.is_proxy() { report(\"a\") }\n");
    assert_eq!(meta, "\n[a]\nheader = \"h\"\n");
}

#[test]
fn split_script_without_sentinel_is_none() {
    assert!(split_script("no metadata here").is_none());
}

#[test]
fn wrap_script_adds_preamble_and_return() {
    let wrapped = wrap_script("let x = 1;");
    assert!(wrapped.starts_with("\n            let ports = new_ports(dad);"));
    assert!(wrapped.contains("let chunks = new_chunks(dad);"));
    assert!(wrapped.contains("let x = 1;"));
    assert!(wrapped.ends_with("\n            return ();\n            "));
}
