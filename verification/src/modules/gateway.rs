//! The default gateway, from the output of a routing-table query.

use crate::descriptor::{DescriptorView, ExecutionMode, Module, Platform};
use crate::table::{
    create_styled_table, label_value_row, labeled_row, title_row, Table, TableFormat, TableView,
};
use crate::text::{trim, trimmed, views_of};
use vstd::prelude::*;
use vstd::string::*;

verus! {

/// The module that reports the default gateway.
#[derive(Clone, Copy, Debug, PartialEq, Eq, Structural, Hash)]
pub struct GatewayModule;

/// The one body row of the gateway table: the address that the command
/// printed, or a notice where it printed nothing but whitespace.
pub open spec fn gateway_row(output: Seq<char>) -> Seq<crate::table::CellView> {
    if trimmed(output).len() > 0 {
        label_value_row("IP Address"@, trimmed(output))
    } else {
        label_value_row("Gateway IP"@, "No gateway IP found"@)
    }
}

impl Module for GatewayModule {
    open spec fn metadata(&self) -> DescriptorView {
        DescriptorView {
            display_name: "Gateway"@,
            identifier: "gateway"@,
            description: "Finds the default gateway"@,
            author: "Kidan Nelson"@,
            version: "0.1.0"@,
            category: "Network"@,
            platforms: seq![Platform::Windows, Platform::Linux],
            execution_mode: ExecutionMode::GlobalAsync,
        }
    }

    fn name(&self) -> (out: &'static str) {
        "Gateway"
    }

    fn identifier(&self) -> (out: &'static str) {
        "gateway"
    }

    fn description(&self) -> (out: &'static str) {
        "Finds the default gateway"
    }

    fn author(&self) -> (out: &'static str) {
        "Kidan Nelson"
    }

    fn version(&self) -> (out: &'static str) {
        "0.1.0"
    }

    fn category(&self) -> (out: &'static str) {
        "Network"
    }

    fn platforms(&self) -> (out: Vec<Platform>) {
        let mut out: Vec<Platform> = Vec::new();
        out.push(Platform::Windows);
        out.push(Platform::Linux);
        assert(out@ =~= seq![Platform::Windows, Platform::Linux]);
        out
    }

    fn execution_mode(&self) -> (out: ExecutionMode) {
        ExecutionMode::GlobalAsync
    }
}

impl GatewayModule {
    /// The command whose output the module reads, program first.
    pub fn command(&self, host: Platform) -> (out: Vec<&'static str>)
        ensures
            views_of(out@) == (if host == Platform::Windows {
                seq![
                    "powershell"@,
                    "-Command"@,
                    "Get-NetRoute -DestinationPrefix 0.0.0.0/0 | Select-Object -ExpandProperty NextHop"@,
                ]
            } else {
                seq!["sh"@, "-c"@, "ip route | grep default | awk '{print $3}'"@]
            }),
    {
        let mut out: Vec<&'static str> = Vec::new();
        if host == Platform::Windows {
            out.push("powershell");
            out.push("-Command");
            out.push(
                "Get-NetRoute -DestinationPrefix 0.0.0.0/0 | Select-Object -ExpandProperty NextHop",
            );
            assert(views_of(out@) =~= seq![
                "powershell"@,
                "-Command"@,
                "Get-NetRoute -DestinationPrefix 0.0.0.0/0 | Select-Object -ExpandProperty NextHop"@,
            ]);
        } else {
            out.push("sh");
            out.push("-c");
            out.push("ip route | grep default | awk '{print $3}'");
            assert(views_of(out@) =~= seq![
                "sh"@,
                "-c"@,
                "ip route | grep default | awk '{print $3}'"@,
            ]);
        }
        out
    }

    /// The module's table for what the command printed.
    pub fn table(&self, output: &str) -> (out: Table)
        ensures
            out@ == (TableView {
                titles: Some(title_row("Default Gateway(s)"@, 2)),
                rows: seq![gateway_row(output@)],
                format: TableFormat::Default,
            }),
    {
        let mut table = create_styled_table("Default Gateway(s)", 2);
        let gateway_ip = trim(output);
        if !gateway_ip.is_empty() {
            table.add_row(labeled_row("IP Address", gateway_ip));
        } else {
            table.add_row(labeled_row("Gateway IP", "No gateway IP found"));
        }
        assert(table@.rows =~= seq![gateway_row(output@)]);
        table
    }
}

} // verus!
