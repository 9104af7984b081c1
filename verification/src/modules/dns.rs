//! The DNS servers in use, from the terse device listing of `nmcli`: the
//! lines that begin with `IP4.DNS` carry one server each after the first
//! colon.

use crate::descriptor::{DescriptorView, ExecutionMode, Module, Platform};
use crate::table::{
    create_styled_table, label_value_row, labeled_row, title_row, CellView, Table, TableFormat,
    TableView,
};
use crate::text::{lines, lines_of, split, split_on, starts_with, trim, trimmed, views_of};
use vstd::prelude::*;
use vstd::string::*;

verus! {

/// The module that lists the DNS servers.
#[derive(Clone, Copy, Debug, PartialEq, Eq, Structural, Hash)]
pub struct DNSServerModule;

/// The server that a line names: what stands between the first and the
/// second colon of a line that begins with `IP4.DNS`, trimmed; empty where
/// the line has no colon.
pub open spec fn dns_server_on(line: Seq<char>) -> Option<Seq<char>> {
    if "IP4.DNS"@.is_prefix_of(line) {
        let fields = split_on(line, ':');
        if fields.len() >= 2 {
            Some(trimmed(fields[1]))
        } else {
            Some(trimmed(Seq::<char>::empty()))
        }
    } else {
        None
    }
}

/// The servers named on `lines`, in order.
pub open spec fn dns_servers_in(lines: Seq<Seq<char>>) -> Seq<Seq<char>>
    decreases lines.len(),
{
    if lines.len() == 0 {
        Seq::<Seq<char>>::empty()
    } else {
        let before = dns_servers_in(lines.drop_last());
        match dns_server_on(lines.last()) {
            Some(server) => before.push(server),
            None => before,
        }
    }
}

/// The body rows of the DNS table: one per server, or a notice where there
/// is none.
pub open spec fn dns_rows(servers: Seq<Seq<char>>) -> Seq<Seq<CellView>> {
    if servers.len() == 0 {
        seq![label_value_row("DNS Servers"@, "No DNS servers found"@)]
    } else {
        Seq::new(servers.len(), |i: int| label_value_row("DNS Server"@, servers[i]))
    }
}

impl Module for DNSServerModule {
    open spec fn metadata(&self) -> DescriptorView {
        DescriptorView {
            display_name: "DNS Server"@,
            identifier: "dns"@,
            description: "Lists the DNS servers in use"@,
            author: "Kidan Nelson"@,
            version: "0.1.0"@,
            category: "Network"@,
            platforms: seq![Platform::Windows, Platform::Linux],
            execution_mode: ExecutionMode::GlobalAsync,
        }
    }

    fn name(&self) -> (out: &'static str) {
        "DNS Server"
    }

    fn identifier(&self) -> (out: &'static str) {
        "dns"
    }

    fn description(&self) -> (out: &'static str) {
        "Lists the DNS servers in use"
    }

    fn author(&self) -> (out: &'static str) {
        "Kidan Nelson"
    }

    fn version(&self) -> (out: &'static str) {
        "0.1.0"
    }

    fn category(&self) -> (out: &'static str) {
        "Network"
    }

    fn platforms(&self) -> (out: Vec<Platform>) {
        let mut out: Vec<Platform> = Vec::new();
        out.push(Platform::Windows);
        out.push(Platform::Linux);
        assert(out@ =~= seq![Platform::Windows, Platform::Linux]);
        out
    }

    fn execution_mode(&self) -> (out: ExecutionMode) {
        ExecutionMode::GlobalAsync
    }
}

impl DNSServerModule {
    /// The command whose output the module reads, program first.
    pub fn command(&self, host: Platform) -> (out: Vec<&'static str>)
        ensures
            views_of(out@) == (if host == Platform::Windows {
                seq!["powershell"@, "Get-DnsClientServerAddress"@, "-AddressFamily"@, "IPv4"@]
            } else {
                seq!["nmcli"@, "--terse"@, "--fields"@, "IP4.DNS"@, "device"@, "show"@]
            }),
    {
        let mut out: Vec<&'static str> = Vec::new();
        if host == Platform::Windows {
            out.push("powershell");
            out.push("Get-DnsClientServerAddress");
            out.push("-AddressFamily");
            out.push("IPv4");
            assert(views_of(out@) =~= seq![
                "powershell"@,
                "Get-DnsClientServerAddress"@,
                "-AddressFamily"@,
                "IPv4"@,
            ]);
        } else {
            out.push("nmcli");
            out.push("--terse");
            out.push("--fields");
            out.push("IP4.DNS");
            out.push("device");
            out.push("show");
            assert(views_of(out@) =~= seq![
                "nmcli"@,
                "--terse"@,
                "--fields"@,
                "IP4.DNS"@,
                "device"@,
                "show"@,
            ]);
        }
        out
    }

    /// The servers that the command's output names, in order.
    pub fn servers<'a>(&self, output: &'a str) -> (out: Vec<&'a str>)
        ensures
            views_of(out@) == dns_servers_in(lines_of(output@)),
    {
        let all = lines(output);
        let ghost views = views_of(all@);
        let mut out: Vec<&'a str> = Vec::new();
        let n = all.len();
        let mut i: usize = 0;
        proof {
            assert(views.take(0) =~= Seq::<Seq<char>>::empty());
            assert(views_of(out@) =~= dns_servers_in(views.take(0)));
        }
        while i < n
            invariant
                i <= n,
                n == all@.len(),
                views == views_of(all@),
                views_of(out@) == dns_servers_in(views.take(i as int)),
            decreases n - i,
        {
            let line = all[i];
            let ghost before = views_of(out@);
            proof {
                assert(views.take(i as int + 1).drop_last() =~= views.take(i as int));
                assert(views.take(i as int + 1).last() == line@);
            }
            if starts_with(line, "IP4.DNS") {
                let fields = split(line, ':');
                let server = if fields.len() >= 2 {
                    assert(views_of(fields@)[1] == fields@[1]@);
                    trim(fields[1])
                } else {
                    trim("")
                };
                proof {
                    reveal_strlit("");
                    assert(""@ =~= Seq::<char>::empty());
                }
                out.push(server);
                assert(views_of(out@) =~= before.push(server@));
            }
            i = i + 1;
        }
        assert(views.take(n as int) =~= views);
        out
    }

    /// The module's table for the given servers.
    pub fn table(&self, servers: &Vec<&str>) -> (out: Table)
        ensures
            out@ == (TableView {
                titles: Some(title_row("DNS Server"@, 2)),
                rows: dns_rows(views_of(servers@)),
                format: TableFormat::Default,
            }),
    {
        let mut table = create_styled_table("DNS Server", 2);
        let n = servers.len();
        if n == 0 {
            table.add_row(labeled_row("DNS Servers", "No DNS servers found"));
            assert(table@.rows =~= dns_rows(views_of(servers@)));
        } else {
            let mut i: usize = 0;
            while i < n
                invariant
                    i <= n,
                    n == servers@.len(),
                    table@.titles == Some(title_row("DNS Server"@, 2)),
                    table@.format == TableFormat::Default,
                    table@.rows.len() == i,
                    forall|k: int|
                        0 <= k < i ==> #[trigger] table@.rows[k] == label_value_row(
                            "DNS Server"@,
                            servers@[k]@,
                        ),
                decreases n - i,
            {
                table.add_row(labeled_row("DNS Server", servers[i]));
                i = i + 1;
            }
            assert(table@.rows =~= dns_rows(views_of(servers@)));
        }
        table
    }

    /// From the command's output to the module's table.
    pub fn report(&self, output: &str) -> (out: Table)
        ensures
            out@ == (TableView {
                titles: Some(title_row("DNS Server"@, 2)),
                rows: dns_rows(dns_servers_in(lines_of(output@))),
                format: TableFormat::Default,
            }),
    {
        let servers = self.servers(output);
        self.table(&servers)
    }
}

} // verus!
