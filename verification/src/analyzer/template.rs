//! A display-oriented summary of one analyzed log.
use crate::analyzer::{Platform, Plugin, VanillaPorts};
use crate::strmap::StrMap;
use vstd::prelude::*;

verus! {

/// The facts a rendered report shows about one analyzed log.
pub struct TemplateInfo {
    pub platform: Platform,
    pub version: Option<String>,
    pub is_proxy: bool,
    pub is_modded: bool,
    pub ports: Ports,
    pub plugins: Vec<Plugin>,
}

/// The detected ports, grouped as a rendered report shows them.
#[derive(Debug)]
pub struct Ports {
    pub vanilla: VanillaPorts,
    pub plugins: StrMap<u16>,
    pub mods: StrMap<u16>,
}

} // verus!
