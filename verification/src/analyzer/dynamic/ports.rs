//! The read-only `Ports` accessor a rule script sees.
use crate::analyzer::DynamicAnalyzerDetails;
use crate::strmap::assoc_get;
use vstd::prelude::*;

verus! {

/// Read-only port facts, bound into a rule script; 0 is the explicit
/// "absent" sentinel, never a valid port.
pub struct Ports {
    dad: DynamicAnalyzerDetails,
}

impl View for Ports {
    type V = DynamicAnalyzerDetails;

    closed spec fn view(&self) -> DynamicAnalyzerDetails {
        self.dad
    }
}

impl Ports {
    /// Binds the accessor over one analyzed log.
    pub fn new(dad: DynamicAnalyzerDetails) -> (r: Ports)
        ensures
            r@ == dad,
    {
        Ports { dad }
    }

    /// The named add-on port: from the mod namespace on a modded server,
    /// else from the plugin namespace; 0 when absent.
    pub fn get(self, name: &str) -> (r: i32)
        ensures
            r == (match assoc_get(
                if self@.is_modded {
                    self@.ports.mods@
                } else {
                    self@.ports.plugins@
                },
                name@,
            ) {
                None => 0int,
                Some(p) => p as int,
            }),
    {
        let port = if self.dad.is_modded {
            self.dad.ports.mods.get(name)
        } else {
            self.dad.ports.plugins.get(name)
        };
        match port {
            None => 0,
            Some(port) => *port as i32,
        }
    }

    /// The vanilla server port, or 0 when absent.
    pub fn server(&mut self) -> (r: i32)
        ensures
            *final(self) == *old(self),
            r == (match old(self)@.ports.vanilla.server {
                None => 0int,
                Some(p) => p as int,
            }),
    {
        match self.dad.ports.vanilla.server {
            None => 0,
            Some(p) => p as i32,
        }
    }

    /// The query port, or 0 when absent.
    pub fn query(&mut self) -> (r: i32)
        ensures
            *final(self) == *old(self),
            r == (match old(self)@.ports.vanilla.query {
                None => 0int,
                Some(p) => p as int,
            }),
    {
        match self.dad.ports.vanilla.query {
            None => 0,
            Some(p) => p as i32,
        }
    }

    /// The RCON port, or 0 when absent.
    pub fn rcon(&mut self) -> (r: i32)
        ensures
            *final(self) == *old(self),
            r == (match old(self)@.ports.vanilla.rcon {
                None => 0int,
                Some(p) => p as int,
            }),
    {
        match self.dad.ports.vanilla.rcon {
            None => 0,
            Some(p) => p as i32,
        }
    }
}

} // verus!
