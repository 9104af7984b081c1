//! The neighbour table, from the output of `ip neighbor` (or `arp -a`): one
//! neighbour per line, fields separated by whitespace. The host name of each
//! neighbour is looked up by the caller, one `dig` query per address.

use crate::descriptor::{DescriptorView, ExecutionMode, Module, Platform};
use crate::table::{text_row, CellView, Row, Table, TableFormat, TableView};
use crate::text::{
    lines, lines_of, same_text, split_whitespace, trim, trimmed, views_of, words_of,
};
use vstd::prelude::*;
use vstd::string::*;

verus! {

/// The module that lists the neighbours of the host.
#[derive(Clone, Copy, Debug, PartialEq, Eq, Structural, Hash)]
pub struct ARPModule;

/// One line of the neighbour table.
#[derive(Clone, Debug, PartialEq, Eq)]
pub struct Neighbor {
    pub ip: String,
    pub device: String,
    /// The link-layer address; empty where the line gives none.
    pub mac: String,
    pub state: String,
}

/// The mathematical content of a `Neighbor`.
pub ghost struct NeighborView {
    pub ip: Seq<char>,
    pub device: Seq<char>,
    pub mac: Seq<char>,
    pub state: Seq<char>,
}

impl View for Neighbor {
    type V = NeighborView;

    open spec fn view(&self) -> NeighborView {
        NeighborView { ip: self.ip@, device: self.device@, mac: self.mac@, state: self.state@ }
    }
}

/// What was read from the command's output.
#[derive(Clone, Debug, PartialEq, Eq)]
pub struct ArpScan {
    /// Number of lines in the output, neighbours or not.
    pub line_count: usize,
    /// The neighbours, in the order of their lines.
    pub neighbors: Vec<Neighbor>,
}

/// The views of the neighbours of a scan.
pub open spec fn neighbor_views(neighbors: Seq<Neighbor>) -> Seq<NeighborView> {
    Seq::new(neighbors.len(), |i: int| neighbors[i]@)
}

/// The field that follows the first occurrence of `key`; empty where `key`
/// does not occur or is the last field.
pub open spec fn field_after(fields: Seq<Seq<char>>, key: Seq<char>) -> Seq<char>
    decreases fields.len(),
{
    if fields.len() == 0 {
        Seq::<char>::empty()
    } else if fields[0] == key {
        if fields.len() > 1 {
            fields[1]
        } else {
            Seq::<char>::empty()
        }
    } else {
        field_after(fields.drop_first(), key)
    }
}

/// The neighbour that a line describes, if it has at least four fields:
/// address, device, the field after `lladdr`, and the last field as state.
pub open spec fn neighbor_on(line: Seq<char>) -> Option<NeighborView> {
    let fields = words_of(line);
    if fields.len() >= 4 {
        Some(
            NeighborView {
                ip: fields[0],
                device: fields[1],
                mac: field_after(fields, "lladdr"@),
                state: fields.last(),
            },
        )
    } else {
        None
    }
}

/// The neighbours described on `lines`, in order.
pub open spec fn neighbors_in(lines: Seq<Seq<char>>) -> Seq<NeighborView>
    decreases lines.len(),
{
    if lines.len() == 0 {
        Seq::<NeighborView>::empty()
    } else {
        let before = neighbors_in(lines.drop_last());
        match neighbor_on(lines.last()) {
            Some(neighbor) => before.push(neighbor),
            None => before,
        }
    }
}

/// The host name to show for the neighbour in place `i`: the one that was
/// looked up, or `N/A` where none was.
pub open spec fn hostname_at(hostnames: Seq<String>, i: int) -> Seq<char> {
    if 0 <= i < hostnames.len() {
        hostnames[i]@
    } else {
        "N/A"@
    }
}

/// The titles of the neighbour table.
pub open spec fn arp_titles() -> Seq<Seq<char>> {
    seq!["IP Address"@, "Device"@, "MAC Address"@, "State"@, "Hostname"@]
}

/// The row shown where the command printed nothing.
pub open spec fn arp_notice() -> Seq<Seq<char>> {
    seq!["No ARP/NDP entries found"@, ""@, ""@, ""@, ""@]
}

/// The row of one neighbour.
pub open spec fn neighbor_texts(neighbor: NeighborView, hostname: Seq<char>) -> Seq<Seq<char>> {
    seq![neighbor.ip, neighbor.device, neighbor.mac, neighbor.state, hostname]
}

/// The body rows of the neighbour table.
pub open spec fn arp_rows(
    line_count: nat,
    neighbors: Seq<NeighborView>,
    hostnames: Seq<String>,
) -> Seq<Seq<CellView>> {
    if line_count == 0 {
        seq![text_row(arp_notice())]
    } else {
        Seq::new(
            neighbors.len(),
            |i: int| text_row(neighbor_texts(neighbors[i], hostname_at(hostnames, i))),
        )
    }
}

/// The field that follows the first occurrence of `key`.
pub fn find_field_after<'a>(fields: &Vec<&'a str>, key: &str) -> (out: &'a str)
    ensures
        out@ == field_after(views_of(fields@), key@),
{
    let ghost views = views_of(fields@);
    let n = fields.len();
    let mut i: usize = 0;
    assert(views.skip(0) =~= views);
    while i < n
        invariant
            i <= n,
            n == fields@.len(),
            views == views_of(fields@),
            field_after(views, key@) == field_after(views.skip(i as int), key@),
        decreases n - i,
    {
        assert(views.skip(i as int)[0] == fields@[i as int]@);
        assert(views.skip(i as int).drop_first() =~= views.skip(i as int + 1));
        if same_text(fields[i], key) {
            if i + 1 < n {
                assert(views.skip(i as int)[1] == fields@[i as int + 1]@);
                return fields[i + 1];
            } else {
                proof {
                    reveal_strlit("");
                    assert(""@ =~= Seq::<char>::empty());
                }
                return "";
            }
        }
        i = i + 1;
    }
    proof {
        reveal_strlit("");
        assert(""@ =~= Seq::<char>::empty());
    }
    ""
}

/// The neighbour that a line describes, if it describes one.
pub fn parse_neighbor(line: &str) -> (out: Option<Neighbor>)
    ensures
        match neighbor_on(line@) {
            Some(neighbor) => out is Some && out->Some_0@ == neighbor,
            None => out is None,
        },
{
    let parts = split_whitespace(line);
    let n = parts.len();
    if n >= 4 {
        let ghost fields = views_of(parts@);
        assert(fields[0] == parts@[0]@);
        assert(fields[1] == parts@[1]@);
        assert(fields.last() == parts@[n - 1]@);
        let mac = find_field_after(&parts, "lladdr");
        Some(
            Neighbor {
                ip: parts[0].to_owned(),
                device: parts[1].to_owned(),
                mac: mac.to_owned(),
                state: parts[n - 1].to_owned(),
            },
        )
    } else {
        None
    }
}

/// The host name that a reverse lookup printed: its first line, trimmed, or
/// `N/A` where it printed nothing.
pub fn hostname_from_lookup(first_line: Option<&str>) -> (out: String)
    ensures
        out@ == (match first_line {
            Some(line) => trimmed(line@),
            None => "N/A"@,
        }),
{
    match first_line {
        Some(line) => trim(line).to_owned(),
        None => "N/A".to_owned(),
    }
}

impl Module for ARPModule {
    open spec fn metadata(&self) -> DescriptorView {
        DescriptorView {
            display_name: "arp"@,
            identifier: "arp"@,
            description: "Lists the neighbours in the ARP and NDP tables"@,
            author: "Kidan Nelson"@,
            version: "0.1.0"@,
            category: "Network"@,
            platforms: seq![Platform::Windows, Platform::Linux],
            execution_mode: ExecutionMode::GlobalAsync,
        }
    }

    fn name(&self) -> (out: &'static str) {
        "arp"
    }

    fn identifier(&self) -> (out: &'static str) {
        "arp"
    }

    fn description(&self) -> (out: &'static str) {
        "Lists the neighbours in the ARP and NDP tables"
    }

    fn author(&self) -> (out: &'static str) {
        "Kidan Nelson"
    }

    fn version(&self) -> (out: &'static str) {
        "0.1.0"
    }

    fn category(&self) -> (out: &'static str) {
        "Network"
    }

    fn platforms(&self) -> (out: Vec<Platform>) {
        let mut out: Vec<Platform> = Vec::new();
        out.push(Platform::Windows);
        out.push(Platform::Linux);
        assert(out@ =~= seq![Platform::Windows, Platform::Linux]);
        out
    }

    fn execution_mode(&self) -> (out: ExecutionMode) {
        ExecutionMode::GlobalAsync
    }
}

impl ARPModule {
    /// The command whose output the module reads, program first.
    pub fn command(&self, host: Platform) -> (out: Vec<&'static str>)
        ensures
            views_of(out@) == (if host == Platform::Windows {
                seq!["arp"@, "-a"@]
            } else {
                seq!["ip"@, "neighbor"@]
            }),
    {
        let mut out: Vec<&'static str> = Vec::new();
        if host == Platform::Windows {
            out.push("arp");
            out.push("-a");
            assert(views_of(out@) =~= seq!["arp"@, "-a"@]);
        } else {
            out.push("ip");
            out.push("neighbor");
            assert(views_of(out@) =~= seq!["ip"@, "neighbor"@]);
        }
        out
    }

    /// The reverse lookup for one address, program first.
    pub fn lookup_command<'a>(&self, ip: &'a str) -> (out: Vec<&'a str>)
        ensures
            views_of(out@) == seq!["dig"@, "+short"@, "-x"@, ip@],
    {
        let mut out: Vec<&'a str> = Vec::new();
        out.push("dig");
        out.push("+short");
        out.push("-x");
        out.push(ip);
        assert(views_of(out@) =~= seq!["dig"@, "+short"@, "-x"@, ip@]);
        out
    }

    /// Reads the command's output: how many lines it has, and the
    /// neighbours that its lines describe.
    pub fn scan(&self, output: &str) -> (out: ArpScan)
        ensures
            out.line_count == lines_of(output@).len(),
            neighbor_views(out.neighbors@) == neighbors_in(lines_of(output@)),
    {
        let all = lines(output);
        let ghost views = views_of(all@);
        let mut neighbors: Vec<Neighbor> = Vec::new();
        let n = all.len();
        let mut i: usize = 0;
        proof {
            assert(views.take(0) =~= Seq::<Seq<char>>::empty());
            assert(neighbor_views(neighbors@) =~= neighbors_in(views.take(0)));
        }
        while i < n
            invariant
                i <= n,
                n == all@.len(),
                views == views_of(all@),
                neighbor_views(neighbors@) == neighbors_in(views.take(i as int)),
            decreases n - i,
        {
            let ghost before = neighbor_views(neighbors@);
            proof {
                assert(views.take(i as int + 1).drop_last() =~= views.take(i as int));
                assert(views.take(i as int + 1).last() == all@[i as int]@);
            }
            match parse_neighbor(all[i]) {
                Some(neighbor) => {
                    neighbors.push(neighbor);
                    assert(neighbor_views(neighbors@) =~= before.push(neighbor@));
                },
                None => {},
            }
            i = i + 1;
        }
        assert(views.take(n as int) =~= views);
        ArpScan { line_count: n, neighbors }
    }

    /// The module's table: a notice where the command printed nothing, one
    /// row per neighbour otherwise, each with the host name looked up for
    /// it (`hostnames` follows the order of the neighbours).
    pub fn table(&self, scan: &ArpScan, hostnames: &Vec<String>) -> (out: Table)
        ensures
            out@ == (TableView {
                titles: Some(text_row(arp_titles())),
                rows: arp_rows(scan.line_count as nat, neighbor_views(scan.neighbors@), hostnames@),
                format: TableFormat::Default,
            }),
    {
        let mut table = Table::new();
        let mut titles: Vec<&str> = Vec::new();
        titles.push("IP Address");
        titles.push("Device");
        titles.push("MAC Address");
        titles.push("State");
        titles.push("Hostname");
        assert(Seq::new(titles@.len(), |i: int| titles@[i]@) =~= arp_titles());
        table.set_titles(Row::from_texts(&titles));
        let ghost views = neighbor_views(scan.neighbors@);
        if scan.line_count == 0 {
            let mut notice: Vec<&str> = Vec::new();
            notice.push("No ARP/NDP entries found");
            notice.push("");
            notice.push("");
            notice.push("");
            notice.push("");
            assert(Seq::new(notice@.len(), |i: int| notice@[i]@) =~= arp_notice());
            table.add_row(Row::from_texts(&notice));
            assert(table@.rows =~= arp_rows(scan.line_count as nat, views, hostnames@));
        } else {
            let n = scan.neighbors.len();
            let mut i: usize = 0;
            while i < n
                invariant
                    i <= n,
                    n == scan.neighbors@.len(),
                    views == neighbor_views(scan.neighbors@),
                    table@.titles == Some(text_row(arp_titles())),
                    table@.format == TableFormat::Default,
                    table@.rows.len() == i,
                    forall|k: int|
                        0 <= k < i ==> #[trigger] table@.rows[k] == text_row(
                            neighbor_texts(views[k], hostname_at(hostnames@, k)),
                        ),
                decreases n - i,
            {
                let neighbor = &scan.neighbors[i];
                let hostname: &str = if i < hostnames.len() {
                    hostnames[i].as_str()
                } else {
                    "N/A"
                };
                let mut texts: Vec<&str> = Vec::new();
                texts.push(neighbor.ip.as_str());
                texts.push(neighbor.device.as_str());
                texts.push(neighbor.mac.as_str());
                texts.push(neighbor.state.as_str());
                texts.push(hostname);
                assert(Seq::new(texts@.len(), |i: int| texts@[i]@) =~= neighbor_texts(
                    views[i as int],
                    hostname_at(hostnames@, i as int),
                ));
                table.add_row(Row::from_texts(&texts));
                i = i + 1;
            }
            assert(table@.rows =~= arp_rows(scan.line_count as nat, views, hostnames@));
        }
        table
    }
}

} // verus!
