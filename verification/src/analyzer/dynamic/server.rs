//! The read-only `Server` accessor a rule script sees.
use crate::analyzer::{platform_name_spec, DynamicAnalyzerDetails, Platform, PlatformDetails};
use vstd::prelude::*;

verus! {

/// Read-only server facts, bound into a rule script.
pub struct Server {
    dad: DynamicAnalyzerDetails,
}

impl View for Server {
    type V = DynamicAnalyzerDetails;

    closed spec fn view(&self) -> DynamicAnalyzerDetails {
        self.dad
    }
}

impl Server {
    /// Binds the accessor over one analyzed log.
    pub fn new(dad: DynamicAnalyzerDetails) -> (r: Server)
        ensures
            r@ == dad,
    {
        Server { dad }
    }

    /// Whether the analyzed server is a proxy.
    pub fn is_proxy(self) -> (b: bool)
        ensures
            b == self@.is_proxy,
    {
        self.dad.is_proxy
    }

    /// Whether the analyzed server is modded.
    pub fn is_modded(self) -> (b: bool)
        ensures
            b == self@.is_modded,
    {
        self.dad.is_modded
    }

    /// Whether the analyzed server is Bukkit-based.
    pub fn is_bukkit_based(self) -> (b: bool)
        ensures
            b == self@.is_bukkit_based,
    {
        self.dad.is_bukkit_based
    }

    /// Whether version extraction succeeded.
    pub fn is_known_version(&mut self) -> (b: bool)
        ensures
            *final(self) == *old(self),
            b == (old(self)@.version is Some),
    {
        self.dad.version.is_some()
    }

    /// The extracted version, or the literal text `Unknown`.
    pub fn version(&mut self) -> (r: String)
        ensures
            *final(self) == *old(self),
            match old(self)@.version {
                None => r@ == "Unknown"@,
                Some(v) => r@ == v@,
            },
    {
        match &self.dad.version {
            None => String::from_str("Unknown"),
            Some(ver) => ver.clone(),
        }
    }

    /// The platform's lower-case slug.
    pub fn platform(&mut self) -> (r: &'static str)
        ensures
            *final(self) == *old(self),
            r@ == platform_name_spec(old(self)@.platform),
    {
        self.dad.platform.name()
    }
}

} // verus!
