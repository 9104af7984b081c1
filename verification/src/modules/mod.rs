//! The built-in network discovery modules. Each one turns the text that an
//! operating-system command printed into a table; running the command is
//! left to the caller.

pub mod arp;
pub mod dns;
pub mod gateway;
pub mod lldp;
pub mod wifi;

use crate::descriptor::{descriptor_of, DescriptorView, Module, ModuleDescriptor, Platform};
use crate::dispatcher::ModuleResult;
use crate::modules::arp::ARPModule;
use crate::modules::dns::DNSServerModule;
use crate::modules::gateway::GatewayModule;
use crate::modules::lldp::LLDPModule;
use crate::registry::derefs;
use crate::engine::run_picked;
use crate::runner::{accepts_each, is_run_of};
use crate::selector::selection;
use crate::text::{string_views, views_of};
use crate::utils::display_names_of;
use vstd::prelude::*;
use vstd::string::*;

verus! {

/// Why the output of a command could not be turned into a table.
#[derive(Clone, Copy, Debug, PartialEq, Eq, Structural, Hash)]
pub enum ParseError {
    /// No line names the network the host is connected to.
    MissingSsid,
    /// The signal strength of an access point is not a number from 0 to 255.
    InvalidSignal,
    /// The line of an access point ends before its frequency.
    MissingFrequency,
    /// A neighbour is announced without its chassis.
    ChassisNotFound,
    /// A neighbour is announced without its port.
    PortNotFound,
    /// A pattern that the report is searched with does not compile.
    InvalidPattern,
}

impl ParseError {
    /// The text shown for this error.
    pub open spec fn message_text(&self) -> Seq<char> {
        match self {
            ParseError::MissingSsid => "Could not determine current SSID"@,
            ParseError::InvalidSignal => "invalid digit found in signal strength"@,
            ParseError::MissingFrequency => "frequency not found"@,
            ParseError::ChassisNotFound => "Chassis information not found"@,
            ParseError::PortNotFound => "Port information not found"@,
            ParseError::InvalidPattern => "regex parse error"@,
        }
    }

    /// The text shown for this error.
    pub fn message(&self) -> (out: String)
        ensures
            out@ == self.message_text(),
    {
        match self {
            ParseError::MissingSsid => "Could not determine current SSID".to_owned(),
            ParseError::InvalidSignal => "invalid digit found in signal strength".to_owned(),
            ParseError::MissingFrequency => "frequency not found".to_owned(),
            ParseError::ChassisNotFound => "Chassis information not found".to_owned(),
            ParseError::PortNotFound => "Port information not found".to_owned(),
            ParseError::InvalidPattern => "regex parse error".to_owned(),
        }
    }
}

/// What is reported when a command ends with a failure status: a fixed
/// lead-in followed by what the command wrote to its error stream.
pub fn command_failure(stderr: &str) -> (out: String)
    ensures
        out@ == "Command execution failed: "@ + stderr@,
{
    let mut out = "Command execution failed: ".to_owned();
    out.append(stderr);
    out
}

/// The views of a list of descriptors.
pub open spec fn descriptor_views(modules: Seq<ModuleDescriptor>) -> Seq<DescriptorView> {
    Seq::new(modules.len(), |i: int| modules[i]@)
}

/// The built-in modules that are offered for a run.
pub struct ModuleManager {
    modules: Vec<ModuleDescriptor>,
}

impl ModuleManager {
    /// The modules that the manager holds, in the order they are offered.
    pub closed spec fn modules(&self) -> Seq<ModuleDescriptor> {
        self.modules@
    }

    /// A manager of the gateway, DNS, ARP and LLDP modules, in that order.
    pub fn new() -> (out: ModuleManager)
        ensures
            descriptor_views(out.modules()) == seq![
                GatewayModule.metadata(),
                DNSServerModule.metadata(),
                ARPModule.metadata(),
                LLDPModule.metadata(),
            ],
    {
        let mut modules: Vec<ModuleDescriptor> = Vec::new();
        modules.push(descriptor_of(&GatewayModule));
        modules.push(descriptor_of(&DNSServerModule));
        modules.push(descriptor_of(&ARPModule));
        modules.push(descriptor_of(&LLDPModule));
        assert(descriptor_views(modules@) =~= seq![
            GatewayModule.metadata(),
            DNSServerModule.metadata(),
            ARPModule.metadata(),
            LLDPModule.metadata(),
        ]);
        ModuleManager { modules }
    }

    /// The display names of the modules, in the order they are offered.
    pub fn get_module_names(&self) -> (out: Vec<String>)
        ensures
            string_views(out@) == display_names_of(self.modules()),
    {
        let mut out: Vec<String> = Vec::new();
        let n = self.modules.len();
        let mut i: usize = 0;
        while i < n
            invariant
                i <= n,
                n == self.modules@.len(),
                out@.len() == i,
                forall|k: int|
                    0 <= k < i ==> (#[trigger] out@[k])@ == self.modules@[k].display_name@,
            decreases n - i,
        {
            out.push(self.modules[i].display_name.clone());
            i = i + 1;
        }
        assert(string_views(out@) =~= display_names_of(self.modules()));
        out
    }

    /// Runs the modules that a request selects on `host`: those whose
    /// identifier is one of `selected` (all of them where `selected` is
    /// empty) and that apply to `host`, in the order they are offered. One
    /// result per such module comes back; a module that fails yields a
    /// failure in its place, and the others still run.
    pub fn run_selected_modules<F: Fn(&ModuleDescriptor) -> ModuleResult>(
        &self,
        selected: &Vec<&str>,
        host: Platform,
        run: &F,
    ) -> (out: Vec<ModuleResult>)
        requires
            accepts_each(*run, self.modules()),
        ensures
            is_run_of(*run, selection(self.modules(), views_of(selected@), host), out@),
    {
        let mut all: Vec<&ModuleDescriptor> = Vec::new();
        let n = self.modules.len();
        let mut i: usize = 0;
        while i < n
            invariant
                i <= n,
                n == self.modules@.len(),
                all@.len() == i,
                forall|k: int| 0 <= k < i ==> *(#[trigger] all@[k]) == self.modules@[k],
            decreases n - i,
        {
            all.push(&self.modules[i]);
            i = i + 1;
        }
        assert(derefs(all@) =~= self.modules@);
        run_picked(all, selected, host, run)
    }
}

} // verus!
