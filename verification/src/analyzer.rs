//! Fact extraction: which server software a log comes from, its version,
//! ports and add-ons, derived in independent passes over the raw lines.
pub mod dynamic;
pub mod static_analyzer;
pub mod template;

use crate::strmap::{assoc_put, StrMap};
use crate::text::has_sub;
use vstd::prelude::*;

verus! {

/// The server software family a log comes from.
#[derive(Clone, Copy, Debug, PartialEq, Eq, Structural)]
pub enum Platform {
    Vanilla,
    CraftBukkit,
    Spigot,
    Paper,
    Pufferfish,
    Purpur,
    Fabric,
    Forge,
    BungeeCord,
    Waterfall,
    Velocity,
}

/// Lower-case slug of a platform.
pub open spec fn platform_name_spec(p: Platform) -> Seq<char> {
    match p {
        Platform::Vanilla => "vanilla"@,
        Platform::CraftBukkit => "craftbukkit"@,
        Platform::Spigot => "spigot"@,
        Platform::Paper => "paper"@,
        Platform::Pufferfish => "pufferfish"@,
        Platform::Purpur => "purpur"@,
        Platform::Fabric => "fabric"@,
        Platform::Forge => "forge"@,
        Platform::BungeeCord => "bungeecord"@,
        Platform::Waterfall => "waterfall"@,
        Platform::Velocity => "velocity"@,
    }
}

/// Display name of a platform.
pub open spec fn platform_display_name_spec(p: Platform) -> Seq<char> {
    match p {
        Platform::Vanilla => "Vanilla"@,
        Platform::CraftBukkit => "CraftBukkit"@,
        Platform::Spigot => "Spigot"@,
        Platform::Paper => "Paper"@,
        Platform::Pufferfish => "Puferfish"@,
        Platform::Purpur => "Purpur"@,
        Platform::Fabric => "Fabric"@,
        Platform::Forge => "Forge"@,
        Platform::BungeeCord => "BungeeCord"@,
        Platform::Waterfall => "Waterfall"@,
        Platform::Velocity => "Velocity"@,
    }
}

/// Naming every platform variant carries.
pub trait PlatformDetails {
    /// Lower-case slug.
    spec fn name_spec(&self) -> Seq<char>;

    /// Display name.
    spec fn display_name_spec(&self) -> Seq<char>;

    /// Lower-case slug.
    fn name(&self) -> (r: &'static str)
        ensures
            r@ == self.name_spec(),
    ;

    /// Display name.
    fn display_name(&self) -> (r: &'static str)
        ensures
            r@ == self.display_name_spec(),
    ;
}

impl PlatformDetails for Platform {
    open spec fn name_spec(&self) -> Seq<char> {
        platform_name_spec(*self)
    }

    open spec fn display_name_spec(&self) -> Seq<char> {
        platform_display_name_spec(*self)
    }

    fn name(&self) -> (r: &'static str) {
        match self {
            Platform::Vanilla => "vanilla",
            Platform::CraftBukkit => "craftbukkit",
            Platform::Spigot => "spigot",
            Platform::Paper => "paper",
            Platform::Pufferfish => "pufferfish",
            Platform::Purpur => "purpur",
            Platform::Fabric => "fabric",
            Platform::Forge => "forge",
            Platform::BungeeCord => "bungeecord",
            Platform::Waterfall => "waterfall",
            Platform::Velocity => "velocity",
        }
    }

    fn display_name(&self) -> (r: &'static str) {
        match self {
            Platform::Vanilla => "Vanilla",
            Platform::CraftBukkit => "CraftBukkit",
            Platform::Spigot => "Spigot",
            Platform::Paper => "Paper",
            Platform::Pufferfish => "Puferfish",
            Platform::Purpur => "Purpur",
            Platform::Fabric => "Fabric",
            Platform::Forge => "Forge",
            Platform::BungeeCord => "BungeeCord",
            Platform::Waterfall => "Waterfall",
            Platform::Velocity => "Velocity",
        }
    }
}

/// A detected add-on: its reported name and version.
#[derive(Debug)]
pub struct Plugin {
    pub name: String,
    pub version: String,
}

/// The signature line announcing a CraftBukkit-family server.
pub open spec fn craftbukkit_sig() -> Seq<char> {
    "This server is running CraftBukkit version"@
}

/// The signature line announcing a Paper server.
pub open spec fn paper_sig() -> Seq<char> {
    "This server is running Paper version"@
}

/// The signature line announcing a Pufferfish server.
pub open spec fn pufferfish_sig() -> Seq<char> {
    "This server is running Pufferfish version"@
}

/// The signature line announcing a Purpur server.
pub open spec fn purpur_sig() -> Seq<char> {
    "This server is running Purpur version"@
}

/// The signature phrase announcing a Fabric loader.
pub open spec fn fabric_sig() -> Seq<char> {
    "with Fabric Loader"@
}

/// The signature phrase announcing Forge mod loading.
pub open spec fn forge_sig() -> Seq<char> {
    "Forge mod loading, version"@
}

/// The signature line announcing BungeeCord.
pub open spec fn bungeecord_sig() -> Seq<char> {
    "Enabled BungeeCord version"@
}

/// The signature line announcing Waterfall.
pub open spec fn waterfall_sig() -> Seq<char> {
    "Enabled Waterfall version"@
}

/// The signature line announcing Velocity.
pub open spec fn velocity_sig() -> Seq<char> {
    "Booting up Velocity"@
}

/// Some line contains the signature.
pub open spec fn any_line_has(lines: Seq<Seq<char>>, sig: Seq<char>) -> bool {
    exists|i: int| 0 <= i < lines.len() && has_sub(#[trigger] lines[i], sig)
}

/// The first line, at or after `i`, containing the signature.
pub open spec fn first_line_with_from(lines: Seq<Seq<char>>, sig: Seq<char>, i: int) -> Option<int>
    decreases lines.len() - i,
{
    if i < 0 || i >= lines.len() {
        None
    } else if has_sub(lines[i], sig) {
        Some(i)
    } else {
        first_line_with_from(lines, sig, i + 1)
    }
}

/// The first line containing the signature.
pub open spec fn first_line_with(lines: Seq<Seq<char>>, sig: Seq<char>) -> Option<int> {
    first_line_with_from(lines, sig, 0)
}

/// The platform the signature scan decides on.  A Paper signature wins
/// outright; a CraftBukkit-family signature line is then inspected for the
/// Spigot or Paper sub-signatures; the remaining signatures are checked in a
/// fixed priority order; the default is Vanilla.
pub open spec fn platform_spec(lines: Seq<Seq<char>>) -> Platform {
    if any_line_has(lines, paper_sig()) {
        Platform::Paper
    } else {
        match first_line_with(lines, craftbukkit_sig()) {
            Some(i) => {
                if has_sub(lines[i], "-Spigot"@) {
                    Platform::Spigot
                } else if has_sub(lines[i], "Paper"@) {
                    Platform::Paper
                } else {
                    Platform::CraftBukkit
                }
            },
            None => {
                if any_line_has(lines, purpur_sig()) {
                    Platform::Purpur
                } else if any_line_has(lines, pufferfish_sig()) {
                    Platform::Pufferfish
                } else if any_line_has(lines, bungeecord_sig()) {
                    Platform::BungeeCord
                } else if any_line_has(lines, waterfall_sig()) {
                    Platform::Waterfall
                } else if any_line_has(lines, velocity_sig()) {
                    Platform::Velocity
                } else if any_line_has(lines, forge_sig()) {
                    Platform::Forge
                } else if any_line_has(lines, fabric_sig()) {
                    Platform::Fabric
                } else {
                    Platform::Vanilla
                }
            },
        }
    }
}

/// Whether some line of the log contains the signature.
fn scan_any(lines: &Vec<String>, sig: &str) -> (b: bool)
    ensures
        b == any_line_has(lines.deep_view(), sig@),
{
    let mut i: usize = 0;
    while i < lines.len()
        invariant
            0 <= i <= lines@.len(),
            forall|j: int| 0 <= j < i ==> !has_sub(#[trigger] lines.deep_view()[j], sig@),
        decreases lines@.len() - i,
    {
        proof {
            assert(lines.deep_view()[i as int] == lines@[i as int]@);
        }
        if crate::text::str_contains(lines[i].as_str(), sig) {
            return true;
        }
        i += 1;
    }
    false
}

/// Index of the first line containing the signature, if any.
fn scan_first(lines: &Vec<String>, sig: &str) -> (r: Option<usize>)
    ensures
        match r {
            Some(i) => i < lines@.len() && first_line_with(lines.deep_view(), sig@) == Some(
                i as int,
            ),
            None => first_line_with(lines.deep_view(), sig@) is None,
        },
{
    let mut i: usize = 0;
    while i < lines.len()
        invariant
            0 <= i <= lines@.len(),
            first_line_with(lines.deep_view(), sig@) == first_line_with_from(
                lines.deep_view(),
                sig@,
                i as int,
            ),
        decreases lines@.len() - i,
    {
        proof {
            assert(lines.deep_view()[i as int] == lines@[i as int]@);
        }
        if crate::text::str_contains(lines[i].as_str(), sig) {
            return Some(i);
        }
        i += 1;
    }
    None
}

/// Decides the platform from the signature lines.
fn determine_platform(lines: &Vec<String>) -> (p: Platform)
    ensures
        p == platform_spec(lines.deep_view()),
{
    if scan_any(lines, "This server is running Paper version") {
        return Platform::Paper;
    }
    match scan_first(lines, "This server is running CraftBukkit version") {
        Some(i) => {
            proof {
                assert(lines.deep_view()[i as int] == lines@[i as int]@);
            }
            if crate::text::str_contains(lines[i].as_str(), "-Spigot") {
                Platform::Spigot
            } else if crate::text::str_contains(lines[i].as_str(), "Paper") {
                Platform::Paper
            } else {
                Platform::CraftBukkit
            }
        },
        None => {
            if scan_any(lines, "This server is running Purpur version") {
                Platform::Purpur
            } else if scan_any(lines, "This server is running Pufferfish version") {
                Platform::Pufferfish
            } else if scan_any(lines, "Enabled BungeeCord version") {
                Platform::BungeeCord
            } else if scan_any(lines, "Enabled Waterfall version") {
                Platform::Waterfall
            } else if scan_any(lines, "Booting up Velocity") {
                Platform::Velocity
            } else if scan_any(lines, "Forge mod loading, version") {
                Platform::Forge
            } else if scan_any(lines, "with Fabric Loader") {
                Platform::Fabric
            } else {
                Platform::Vanilla
            }
        },
    }
}

/// A proxy platform relays players to other servers.
pub open spec fn is_proxy_platform(p: Platform) -> bool {
    p is BungeeCord || p is Waterfall || p is Velocity
}

/// A modded platform runs a mod loader.
pub open spec fn is_modded_platform(p: Platform) -> bool {
    p is Forge || p is Fabric
}

/// A Bukkit-based platform loads Bukkit plugins.
pub open spec fn is_bukkit_platform(p: Platform) -> bool {
    p is CraftBukkit || p is Spigot || p is Paper || p is Pufferfish || p is Purpur
}

/// Scans raw lines once for the platform, then derives the remaining facts
/// on demand.
#[derive(Debug)]
pub struct Analyzer {
    pub lines: Vec<String>,
    pub platform: Platform,
}

impl Analyzer {
    /// Stores the lines and decides the platform.
    pub fn new(lines: &Vec<String>) -> (r: Analyzer)
        ensures
            r.lines.deep_view() == lines.deep_view(),
            r.platform == platform_spec(lines.deep_view()),
    {
        let platform = determine_platform(lines);
        let mut copy: Vec<String> = Vec::new();
        let mut i: usize = 0;
        while i < lines.len()
            invariant
                0 <= i <= lines@.len(),
                copy.deep_view() =~= lines.deep_view().subrange(0, i as int),
            decreases lines@.len() - i,
        {
            let ghost copy_old = copy.deep_view();
            proof {
                assert(copy.deep_view().len() == lines.deep_view().subrange(0, i as int).len());
                assert(copy@.len() == i as int);
            }
            copy.push(lines[i].clone());
            i += 1;
            proof {
                assert forall|j: int| 0 <= j < i implies copy.deep_view()[j] == lines.deep_view()[j]
                    by {
                    if j < i - 1 {
                        assert(copy.deep_view()[j] == copy_old[j]);
                    } else {
                        assert(copy.deep_view()[j] == lines@[j]@);
                    }
                }
                assert(copy.deep_view() =~= lines.deep_view().subrange(0, i as int));
            }
        }
        proof {
            assert(lines.deep_view().subrange(0, lines@.len() as int) =~= lines.deep_view());
        }
        Analyzer { lines: copy, platform }
    }

    /// Whether the detected platform is a proxy.
    fn is_proxy(&self) -> (b: bool)
        ensures
            b == is_proxy_platform(self.platform),
    {
        matches!(self.platform, Platform::BungeeCord | Platform::Waterfall | Platform::Velocity)
    }

    /// Whether the detected platform is modded.
    fn is_modded(&self) -> (b: bool)
        ensures
            b == is_modded_platform(self.platform),
    {
        matches!(self.platform, Platform::Forge | Platform::Fabric)
    }

    /// Whether the detected platform is Bukkit-based.
    fn is_bukkit_based(&self) -> (b: bool)
        ensures
            b == is_bukkit_platform(self.platform),
    {
        matches!(
            self.platform,
            Platform::CraftBukkit
                | Platform::Spigot
                | Platform::Paper
                | Platform::Pufferfish
                | Platform::Purpur,
        )
    }

    /// Scans the first `line_limit` lines for plugin-loading banners, on
    /// Bukkit-based platforms only.
    fn plugins(&self, line_limit: usize) -> (r: StrMap<String>)
        ensures
            r@ == plugins_spec(self.lines.deep_view(), self.platform, line_limit as int),
    {
        let ghost gl = self.lines.deep_view();
        let mut plugins: StrMap<String> = StrMap::new();
        if self.is_bukkit_based() {
            let bound = if line_limit < self.lines.len() {
                line_limit
            } else {
                self.lines.len()
            };
            let mut i: usize = 0;
            while i < bound
                invariant
                    gl == self.lines.deep_view(),
                    bound == scan_bound(line_limit as int, gl.len() as int),
                    bound <= gl.len(),
                    0 <= i <= bound,
                    plugins@ == plugins_fold(gl, i as int),
                decreases bound - i,
            {
                proof {
                    assert(gl[i as int] == self.lines@[i as int]@);
                }
                match static_analyzer::StaticAnalyzer::plugin_bukkit(self.lines[i].as_str()) {
                    Some(p) => {
                        plugins.insert(p.name, p.version);
                    },
                    None => {},
                }
                i += 1;
            }
        }
        plugins
    }

    /// The first version banner hit, on non-proxy platforms.
    fn version(&self) -> (r: Option<String>)
        ensures
            match r {
                Some(v) => version_spec(self.lines.deep_view(), self.platform) == Some(v@),
                None => version_spec(self.lines.deep_view(), self.platform) is None,
            },
    {
        let ghost gl = self.lines.deep_view();
        if self.is_proxy() {
            return None;
        }
        let mut i: usize = 0;
        while i < self.lines.len()
            invariant
                gl == self.lines.deep_view(),
                !is_proxy_platform(self.platform),
                0 <= i <= gl.len(),
                first_version_from(gl, 0) == first_version_from(gl, i as int),
            decreases gl.len() - i,
        {
            proof {
                assert(gl[i as int] == self.lines@[i as int]@);
            }
            match static_analyzer::StaticAnalyzer::noproxy_server_version(
                self.lines[i].as_str(),
            ) {
                Some(v) => {
                    return Some(v);
                },
                None => {},
            }
            i += 1;
        }
        None
    }

    /// The three vanilla ports; on each, the last banner line wins.
    fn vanilla_ports(&self) -> (r: VanillaPorts)
        ensures
            r.server == last_port_upto(
                self.lines.deep_view(),
                server_port_msg(),
                self.lines.deep_view().len() as int,
            ),
            r.query == last_port_upto(
                self.lines.deep_view(),
                query_port_msg(),
                self.lines.deep_view().len() as int,
            ),
            r.rcon == last_port_upto(
                self.lines.deep_view(),
                rcon_port_msg(),
                self.lines.deep_view().len() as int,
            ),
    {
        let ghost gl = self.lines.deep_view();
        let mut vanilla_ports = VanillaPorts { server: None, query: None, rcon: None };
        let mut i: usize = 0;
        while i < self.lines.len()
            invariant
                gl == self.lines.deep_view(),
                0 <= i <= gl.len(),
                vanilla_ports.server == last_port_upto(gl, server_port_msg(), i as int),
                vanilla_ports.query == last_port_upto(gl, query_port_msg(), i as int),
                vanilla_ports.rcon == last_port_upto(gl, rcon_port_msg(), i as int),
            decreases gl.len() - i,
        {
            proof {
                assert(gl[i as int] == self.lines@[i as int]@);
            }
            let line = self.lines[i].as_str();
            match static_analyzer::StaticAnalyzer::vanilla_port(
                line,
                "Starting Minecraft server on",
            ) {
                Some(port) => {
                    vanilla_ports.server = Some(port);
                },
                None => {},
            }
            match static_analyzer::StaticAnalyzer::vanilla_port(line, "Query running on") {
                Some(port) => {
                    vanilla_ports.query = Some(port);
                },
                None => {},
            }
            match static_analyzer::StaticAnalyzer::vanilla_port(line, "RCON running on") {
                Some(port) => {
                    vanilla_ports.rcon = Some(port);
                },
                None => {},
            }
            i += 1;
        }
        vanilla_ports
    }

    /// Tries every configured (name, wanted-text) pair on the first `limit`
    /// lines; the last hit for a name overwrites earlier ones.
    fn ports(&self, ports: &StrMap<Vec<String>>, limit: usize) -> (r: StrMap<u16>)
        ensures
            r@ == addon_ports_spec(self.lines.deep_view(), ports@, limit as int),
    {
        let ghost gl = self.lines.deep_view();
        let ghost cfg = ports@;
        let mut port_list: StrMap<u16> = StrMap::new();
        let bound = if limit < self.lines.len() {
            limit
        } else {
            self.lines.len()
        };
        let mut l: usize = 0;
        while l < bound
            invariant
                gl == self.lines.deep_view(),
                cfg == ports@,
                bound == scan_bound(limit as int, gl.len() as int),
                bound <= gl.len(),
                0 <= l <= bound,
                port_list@ == ports_fold(gl, cfg, l as int),
            decreases bound - l,
        {
            proof {
                assert(gl[l as int] == self.lines@[l as int]@);
            }
            let line = self.lines[l].as_str();
            let ghost line_v = gl[l as int];
            let ghost acc0 = port_list@;
            let mut c: usize = 0;
            while c < ports.len()
                invariant
                    gl == self.lines.deep_view(),
                    cfg == ports@,
                    l < gl.len(),
                    line@ == line_v,
                    line_v == gl[l as int],
                    acc0 == ports_fold(gl, cfg, l as int),
                    0 <= c <= cfg.len(),
                    port_list@ == ports_cfg_fold(line_v, cfg, c as int, acc0),
                decreases cfg.len() - c,
            {
                let name = ports.key_at(c);
                let musts = ports.val_at(c);
                let ghost accc = port_list@;
                let mut m: usize = 0;
                while m < musts.len()
                    invariant
                        cfg == ports@,
                        line@ == line_v,
                        c < cfg.len(),
                        name@ == cfg[c as int].0,
                        musts.deep_view() == cfg[c as int].1,
                        accc == ports_cfg_fold(line_v, cfg, c as int, acc0),
                        0 <= m <= musts@.len(),
                        port_list@ == ports_entry_fold(
                            line_v,
                            cfg[c as int].0,
                            cfg[c as int].1,
                            m as int,
                            accc,
                        ),
                    decreases musts@.len() - m,
                {
                    proof {
                        assert(musts.deep_view()[m as int] == musts@[m as int]@);
                    }
                    match static_analyzer::StaticAnalyzer::port(
                        name.clone(),
                        line,
                        musts[m].clone(),
                    ) {
                        Some(result) => {
                            port_list.insert(result.0, result.1);
                        },
                        None => {},
                    }
                    m += 1;
                }
                c += 1;
            }
            l += 1;
        }
        port_list
    }

    /// The plugin-namespace ports, on Bukkit-based platforms only.
    fn plugin_ports(&self, ports_config: &PortsConfig, ports_lines_limit: usize) -> (r: StrMap<
        u16,
    >)
        ensures
            r@ == plugin_ports_spec(
                self.lines.deep_view(),
                self.platform,
                ports_config.plugins@,
                ports_lines_limit as int,
            ),
    {
        if !self.is_bukkit_based() {
            let r = StrMap::new();
            return r;
        }
        self.ports(&ports_config.plugins, ports_lines_limit)
    }

    /// The mod-namespace ports, on modded platforms only.
    fn mod_ports(&self, ports_config: &PortsConfig, ports_lines_limit: usize) -> (r: StrMap<u16>)
        ensures
            r@ == mod_ports_spec(
                self.lines.deep_view(),
                self.platform,
                ports_config.mods@,
                ports_lines_limit as int,
            ),
    {
        if !self.is_modded() {
            let r = StrMap::new();
            return r;
        }
        self.ports(&ports_config.mods, ports_lines_limit)
    }

    /// Runs every extraction pass and assembles the read-only record the
    /// rule engine consumes.  The port mapping arrives already parsed, and
    /// the reconstructed entry texts come from the segmenter.
    pub fn build(
        self,
        ports_config: &PortsConfig,
        plugins_limit: usize,
        ports_limit: usize,
        chunks: Vec<String>,
    ) -> (r: DynamicAnalyzerDetails)
        ensures
            r.lines.deep_view() == self.lines.deep_view(),
            r.chunks.deep_view() == chunks.deep_view(),
            r.platform == self.platform,
            r.plugins@ == plugins_spec(
                self.lines.deep_view(),
                self.platform,
                plugins_limit as int,
            ),
            match r.version {
                Some(v) => version_spec(self.lines.deep_view(), self.platform) == Some(v@),
                None => version_spec(self.lines.deep_view(), self.platform) is None,
            },
            r.is_proxy == is_proxy_platform(self.platform),
            r.is_modded == is_modded_platform(self.platform),
            r.is_bukkit_based == is_bukkit_platform(self.platform),
            r.ports.vanilla.server == last_port_upto(
                self.lines.deep_view(),
                server_port_msg(),
                self.lines.deep_view().len() as int,
            ),
            r.ports.vanilla.query == last_port_upto(
                self.lines.deep_view(),
                query_port_msg(),
                self.lines.deep_view().len() as int,
            ),
            r.ports.vanilla.rcon == last_port_upto(
                self.lines.deep_view(),
                rcon_port_msg(),
                self.lines.deep_view().len() as int,
            ),
            r.ports.plugins@ == plugin_ports_spec(
                self.lines.deep_view(),
                self.platform,
                ports_config.plugins@,
                ports_limit as int,
            ),
            r.ports.mods@ == mod_ports_spec(
                self.lines.deep_view(),
                self.platform,
                ports_config.mods@,
                ports_limit as int,
            ),
    {
        let plugins = self.plugins(plugins_limit);
        let version = self.version();
        let vanilla = self.vanilla_ports();
        let plugin_ports = self.plugin_ports(ports_config, ports_limit);
        let mod_ports = self.mod_ports(ports_config, ports_limit);
        let is_modded = self.is_modded();
        let is_proxy = self.is_proxy();
        let is_bukkit_based = self.is_bukkit_based();
        DynamicAnalyzerDetails {
            lines: self.lines,
            chunks,
            plugins,
            platform: self.platform,
            version,
            is_modded,
            is_proxy,
            is_bukkit_based,
            ports: Ports { vanilla, plugins: plugin_ports, mods: mod_ports },
        }
    }
}

/// How many lines a bounded scan looks at.
pub open spec fn scan_bound(limit: int, n: int) -> int {
    if limit < n {
        limit
    } else {
        n
    }
}

/// The add-on table after scanning the first `n` lines for plugin banners;
/// a later banner for the same name overwrites the earlier one.
pub open spec fn plugins_fold(lines: Seq<Seq<char>>, n: int) -> Seq<(Seq<char>, Seq<char>)>
    decreases n,
{
    if n <= 0 {
        Seq::empty()
    } else {
        let prev = plugins_fold(lines, n - 1);
        if n > lines.len() {
            prev
        } else {
            match static_analyzer::plugin_bukkit_spec(lines[n - 1]) {
                None => prev,
                Some(p) => assoc_put(prev, p.0, p.1),
            }
        }
    }
}

/// The add-on table of a log: banners are read on Bukkit-based platforms
/// only, within the line limit.
pub open spec fn plugins_spec(lines: Seq<Seq<char>>, platform: Platform, limit: int) -> Seq<
    (Seq<char>, Seq<char>),
> {
    if is_bukkit_platform(platform) {
        plugins_fold(lines, scan_bound(limit, lines.len() as int))
    } else {
        Seq::empty()
    }
}

/// The first version banner hit, scanning from line `i` on.
pub open spec fn first_version_from(lines: Seq<Seq<char>>, i: int) -> Option<Seq<char>>
    decreases lines.len() - i,
{
    if i < 0 || i >= lines.len() {
        None
    } else {
        match static_analyzer::noproxy_version_spec(lines[i]) {
            Some(v) => Some(v),
            None => first_version_from(lines, i + 1),
        }
    }
}

/// The extracted server version: proxies yield none, others the first
/// version banner hit.
pub open spec fn version_spec(lines: Seq<Seq<char>>, platform: Platform) -> Option<Seq<char>> {
    if is_proxy_platform(platform) {
        None
    } else {
        first_version_from(lines, 0)
    }
}

/// The banner text before the vanilla server port.
pub open spec fn server_port_msg() -> Seq<char> {
    "Starting Minecraft server on"@
}

/// The banner text before the query port.
pub open spec fn query_port_msg() -> Seq<char> {
    "Query running on"@
}

/// The banner text before the RCON port.
pub open spec fn rcon_port_msg() -> Seq<char> {
    "RCON running on"@
}

/// The port from the last line among the first `n` that yields one for the
/// given banner text: a later hit overwrites an earlier one.
pub open spec fn last_port_upto(lines: Seq<Seq<char>>, must: Seq<char>, n: int) -> Option<u16>
    decreases n,
{
    if n <= 0 || n > lines.len() {
        None
    } else {
        match static_analyzer::vanilla_port_spec(lines[n - 1], must) {
            Some(p) => Some(p),
            None => last_port_upto(lines, must, n - 1),
        }
    }
}

/// The three vanilla ports, each optional.
#[derive(Debug)]
pub struct VanillaPorts {
    pub server: Option<u16>,
    pub query: Option<u16>,
    pub rcon: Option<u16>,
}

/// The add-on port table after one line and the first `m` wanted-text
/// entries of one named port.
pub open spec fn ports_entry_fold(
    line: Seq<char>,
    name: Seq<char>,
    musts: Seq<Seq<char>>,
    m: int,
    acc: Seq<(Seq<char>, u16)>,
) -> Seq<(Seq<char>, u16)>
    decreases m,
{
    if m <= 0 {
        acc
    } else {
        let prev = ports_entry_fold(line, name, musts, m - 1, acc);
        if m > musts.len() {
            prev
        } else {
            match static_analyzer::addon_port_spec(name, line, musts[m - 1]) {
                Some(p) => assoc_put(prev, p.0, p.1),
                None => prev,
            }
        }
    }
}

/// The add-on port table after one line and the first `c` configured ports.
pub open spec fn ports_cfg_fold(
    line: Seq<char>,
    cfg: Seq<(Seq<char>, Seq<Seq<char>>)>,
    c: int,
    acc: Seq<(Seq<char>, u16)>,
) -> Seq<(Seq<char>, u16)>
    decreases c,
{
    if c <= 0 {
        acc
    } else {
        let prev = ports_cfg_fold(line, cfg, c - 1, acc);
        if c > cfg.len() {
            prev
        } else {
            ports_entry_fold(line, cfg[c - 1].0, cfg[c - 1].1, cfg[c - 1].1.len() as int, prev)
        }
    }
}

/// The add-on port table after the first `n` lines.
pub open spec fn ports_fold(
    lines: Seq<Seq<char>>,
    cfg: Seq<(Seq<char>, Seq<Seq<char>>)>,
    n: int,
) -> Seq<(Seq<char>, u16)>
    decreases n,
{
    if n <= 0 {
        Seq::empty()
    } else {
        let prev = ports_fold(lines, cfg, n - 1);
        if n > lines.len() {
            prev
        } else {
            ports_cfg_fold(lines[n - 1], cfg, cfg.len() as int, prev)
        }
    }
}

/// The add-on port table of a log: every configured (name, wanted-text)
/// pair is tried on every line within the limit; the last hit for a name is
/// authoritative.
pub open spec fn addon_ports_spec(
    lines: Seq<Seq<char>>,
    cfg: Seq<(Seq<char>, Seq<Seq<char>>)>,
    limit: int,
) -> Seq<(Seq<char>, u16)> {
    ports_fold(lines, cfg, scan_bound(limit, lines.len() as int))
}

/// The plugin-namespace ports: read on Bukkit-based platforms only.
pub open spec fn plugin_ports_spec(
    lines: Seq<Seq<char>>,
    platform: Platform,
    cfg: Seq<(Seq<char>, Seq<Seq<char>>)>,
    limit: int,
) -> Seq<(Seq<char>, u16)> {
    if is_bukkit_platform(platform) {
        addon_ports_spec(lines, cfg, limit)
    } else {
        Seq::empty()
    }
}

/// The mod-namespace ports: read on modded platforms only.
pub open spec fn mod_ports_spec(
    lines: Seq<Seq<char>>,
    platform: Platform,
    cfg: Seq<(Seq<char>, Seq<Seq<char>>)>,
    limit: int,
) -> Seq<(Seq<char>, u16)> {
    if is_modded_platform(platform) {
        addon_ports_spec(lines, cfg, limit)
    } else {
        Seq::empty()
    }
}

/// The externally supplied, already-parsed port mapping: for each namespace,
/// port name to the texts a line must contain.
pub struct PortsConfig {
    pub plugins: StrMap<Vec<String>>,
    pub mods: StrMap<Vec<String>>,
}

/// All detected ports: the vanilla trio and the two add-on namespaces.
#[derive(Debug)]
pub struct Ports {
    pub vanilla: VanillaPorts,
    pub plugins: StrMap<u16>,
    pub mods: StrMap<u16>,
}

/// Everything the rule engine reads about one analyzed log: raw lines,
/// reconstructed entry texts, platform, version, flags, ports and add-ons.
#[derive(Debug)]
pub struct DynamicAnalyzerDetails {
    pub lines: Vec<String>,
    pub chunks: Vec<String>,
    pub plugins: StrMap<String>,
    pub platform: Platform,
    pub version: Option<String>,
    pub is_modded: bool,
    pub is_proxy: bool,
    pub is_bukkit_based: bool,
    pub ports: Ports,
}

/// The fact extractor is deterministic: every fact `build` derives is a
/// function of the lines, platform, port mapping and limits alone, so two
/// runs over identical input agree on every extracted fact.
pub proof fn lemma_facts_deterministic(
    r1: DynamicAnalyzerDetails,
    r2: DynamicAnalyzerDetails,
    lines: Seq<Seq<char>>,
    platform: Platform,
    cfg_plugins: Seq<(Seq<char>, Seq<Seq<char>>)>,
    cfg_mods: Seq<(Seq<char>, Seq<Seq<char>>)>,
    plugins_limit: int,
    ports_limit: int,
)
    requires
        r1.platform == platform,
        r2.platform == platform,
        r1.plugins@ == plugins_spec(lines, platform, plugins_limit),
        r2.plugins@ == plugins_spec(lines, platform, plugins_limit),
        match r1.version {
            Some(v) => version_spec(lines, platform) == Some(v@),
            None => version_spec(lines, platform) is None,
        },
        match r2.version {
            Some(v) => version_spec(lines, platform) == Some(v@),
            None => version_spec(lines, platform) is None,
        },
        r1.is_proxy == is_proxy_platform(platform),
        r2.is_proxy == is_proxy_platform(platform),
        r1.is_modded == is_modded_platform(platform),
        r2.is_modded == is_modded_platform(platform),
        r1.is_bukkit_based == is_bukkit_platform(platform),
        r2.is_bukkit_based == is_bukkit_platform(platform),
        r1.ports.vanilla.server == last_port_upto(lines, server_port_msg(), lines.len() as int),
        r2.ports.vanilla.server == last_port_upto(lines, server_port_msg(), lines.len() as int),
        r1.ports.vanilla.query == last_port_upto(lines, query_port_msg(), lines.len() as int),
        r2.ports.vanilla.query == last_port_upto(lines, query_port_msg(), lines.len() as int),
        r1.ports.vanilla.rcon == last_port_upto(lines, rcon_port_msg(), lines.len() as int),
        r2.ports.vanilla.rcon == last_port_upto(lines, rcon_port_msg(), lines.len() as int),
        r1.ports.plugins@ == plugin_ports_spec(lines, platform, cfg_plugins, ports_limit),
        r2.ports.plugins@ == plugin_ports_spec(lines, platform, cfg_plugins, ports_limit),
        r1.ports.mods@ == mod_ports_spec(lines, platform, cfg_mods, ports_limit),
        r2.ports.mods@ == mod_ports_spec(lines, platform, cfg_mods, ports_limit),
    ensures
        r1.platform == r2.platform,
        r1.plugins@ == r2.plugins@,
        r1.version.deep_view() == r2.version.deep_view(),
        r1.is_proxy == r2.is_proxy,
        r1.is_modded == r2.is_modded,
        r1.is_bukkit_based == r2.is_bukkit_based,
        r1.ports.vanilla.server == r2.ports.vanilla.server,
        r1.ports.vanilla.query == r2.ports.vanilla.query,
        r1.ports.vanilla.rcon == r2.ports.vanilla.rcon,
        r1.ports.plugins@ == r2.ports.plugins@,
        r1.ports.mods@ == r2.ports.mods@,
{
}

/// A line containing a Paper signature decides the platform as Paper, before
/// any CraftBukkit-family disambiguation — even when the same line, or any
/// other, also carries a CraftBukkit signature.
pub proof fn lemma_paper_takes_priority(lines: Seq<Seq<char>>, i: int)
    requires
        0 <= i < lines.len(),
        has_sub(lines[i], paper_sig()),
    ensures
        platform_spec(lines) == Platform::Paper,
{
}

} // verus!
