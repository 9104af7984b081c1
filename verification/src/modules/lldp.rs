//! LLDP neighbours, from the report of `lldpcli show neighbors`. The report
//! is free text; regular expressions pick the fields out of it.

use crate::descriptor::{DescriptorView, ExecutionMode, Module, Platform};
use crate::modules::ParseError;
use crate::table::{text_row, Row, Table, TableFormat, TableView};
use crate::text::{join, joined, remove_all, string_views, trim, trimmed, views_of, without};
use vstd::prelude::*;
use vstd::string::*;

verus! {

/// One section of the report: an interface and what was learnt about the
/// neighbour behind it.
pub const SECTION_PATTERN: &'static str =
    r"Interface: +(?P<interface>.+?),(?s:.+?)Capability: +(?P<caps>.+?)\n(?s:.+?Port:)?";

/// The chassis of a neighbour: its identifier, name and description.
pub const CHASSIS_PATTERN: &'static str =
    r"ChassisID: +(?P<chassisid>.+?)\n +SysName: +(?P<sysname>.+?)\n +SysDescr: +(?P<sysdescr>.+?)\n";

/// One management address.
pub const MGMT_IP_PATTERN: &'static str = r"MgmtIP: +(?P<mgmtip>[^\n]+)";

/// The port of a neighbour: its identifier and description.
pub const PORT_PATTERN: &'static str = r"PortID: +(?P<portid>.+?)\n +PortDescr: +(?P<portdescr>.+?)\n";

/// One capability and whether it is switched on.
pub const CAPABILITY_PATTERN: &'static str = r"Capability: +(\w+), +(\w+)";

/// The capture groups of one match: group 0 is the whole match, a group
/// that took no part in the match is `None`.
pub type Groups = Vec<Option<String>>;

/// The module that lists the LLDP neighbours.
#[derive(Clone, Copy, Debug, PartialEq, Eq, Structural, Hash)]
pub struct LLDPModule;

/// What is known of one neighbour.
#[derive(Clone, Debug, PartialEq, Eq)]
pub struct NeighborInfo {
    pub interface: String,
    pub chassis_id: String,
    pub sys_name: String,
    pub sys_descr: String,
    pub mgmt_ips: Vec<String>,
    pub port_id: String,
    pub port_descr: String,
    /// The capabilities that are switched on, separated by `, `.
    pub capabilities: String,
}

/// The mathematical content of a `NeighborInfo`.
pub ghost struct NeighborInfoView {
    pub interface: Seq<char>,
    pub chassis_id: Seq<char>,
    pub sys_name: Seq<char>,
    pub sys_descr: Seq<char>,
    pub mgmt_ips: Seq<Seq<char>>,
    pub port_id: Seq<char>,
    pub port_descr: Seq<char>,
    pub capabilities: Seq<char>,
}

impl View for NeighborInfo {
    type V = NeighborInfoView;

    open spec fn view(&self) -> NeighborInfoView {
        NeighborInfoView {
            interface: self.interface@,
            chassis_id: self.chassis_id@,
            sys_name: self.sys_name@,
            sys_descr: self.sys_descr@,
            mgmt_ips: string_views(self.mgmt_ips@),
            port_id: self.port_id@,
            port_descr: self.port_descr@,
            capabilities: self.capabilities@,
        }
    }
}

/// The views of a vector of neighbours.
pub open spec fn info_views(neighbors: Seq<NeighborInfo>) -> Seq<NeighborInfoView> {
    Seq::new(neighbors.len(), |i: int| neighbors[i]@)
}

/// The views of the groups of one match.
pub open spec fn group_views(groups: Seq<Option<String>>) -> Seq<Option<Seq<char>>> {
    Seq::new(
        groups.len(),
        |i: int|
            match groups[i] {
                Some(text) => Some(text@),
                None => None,
            },
    )
}

/// The views of the groups of every match.
pub open spec fn capture_views(all: Seq<Groups>) -> Seq<Seq<Option<Seq<char>>>> {
    Seq::new(all.len(), |i: int| group_views(all[i]@))
}

/// The error of the `regex` crate.
#[verifier::external_type_specification]
#[verifier::external_body]
pub struct ExRegexError(regex::Error);

/// The name of whether `regex::Regex::new` takes a pattern: whether the
/// pattern compiles.
pub uninterp spec fn pattern_compiles(pattern: Seq<char>) -> bool;

/// The name of what `Regex::captures_iter` finds with a pattern that
/// compiles: the capture groups of each non-overlapping match of the
/// pattern in the haystack, matches from left to right.
pub uninterp spec fn captures_in(pattern: Seq<char>, haystack: Seq<char>) -> Seq<
    Seq<Option<Seq<char>>>,
>;

/// `regex::Regex::new` followed by `Regex::captures_iter`, each match
/// written out as the text of its groups. Whether the pattern compiles
/// depends on the pattern alone, under the name `pattern_compiles`; a
/// pattern that does not compile gives the crate's error. Of the matches
/// nothing is claimed but that they depend on the pattern and the haystack
/// alone, under the name `captures_in`.
#[verifier::external_body]
fn captures_iter(pattern: &str, haystack: &str) -> (out: Result<Vec<Groups>, regex::Error>)
    ensures
        out is Ok <==> pattern_compiles(pattern@),
        out is Ok ==> capture_views(out->Ok_0@) == captures_in(pattern@, haystack@),
{
    let re = regex::Regex::new(pattern)?;
    Ok(
        re.captures_iter(haystack).map(
            |caps| caps.iter().map(|group| group.map(|m| m.as_str().to_owned())).collect(),
        ).collect(),
    )
}

/// The matches of `pattern` in `haystack`, each with the text of its
/// groups; an error for a pattern that does not compile.
pub fn find_captures(pattern: &str, haystack: &str) -> (out: Result<Vec<Groups>, ParseError>)
    ensures
        pattern_compiles(pattern@) ==> out is Ok && capture_views(out->Ok_0@) == captures_in(
            pattern@,
            haystack@,
        ),
        !pattern_compiles(pattern@) ==> out == Err::<Vec<Groups>, ParseError>(
            ParseError::InvalidPattern,
        ),
{
    match captures_iter(pattern, haystack) {
        Ok(all) => Ok(all),
        Err(_) => Err(ParseError::InvalidPattern),
    }
}

/// Whether a pattern compiles.
pub fn compiles(pattern: &str) -> (b: bool)
    ensures
        b == pattern_compiles(pattern@),
{
    match find_captures(pattern, "") {
        Ok(_) => true,
        Err(_) => false,
    }
}

/// The text of group `index`, empty where the match has no such group or
/// the group took no part in it.
pub open spec fn group_or_empty(groups: Seq<Option<Seq<char>>>, index: int) -> Seq<char> {
    if 0 <= index < groups.len() && groups[index] is Some {
        groups[index]->0
    } else {
        Seq::<char>::empty()
    }
}

/// The capability that a match of `CAPABILITY_PATTERN` switches on: its
/// first group, provided its second group is `on`. `first` is what
/// matching the pattern against the text of the match found.
pub open spec fn enabled_in(first: Seq<Seq<Option<Seq<char>>>>) -> Option<Seq<char>> {
    if first.len() > 0 && first[0].len() > 2 && first[0][2] == Some("on"@) && first[0][1] is Some {
        first[0][1]
    } else {
        None
    }
}

/// The capabilities switched on among `matches`, the matches of
/// `CAPABILITY_PATTERN` in one section: each match is searched with the
/// pattern once more, and kept if that switches a capability on.
pub open spec fn capability_names(matches: Seq<Seq<Option<Seq<char>>>>) -> Seq<Seq<char>>
    decreases matches.len(),
{
    if matches.len() == 0 {
        Seq::<Seq<char>>::empty()
    } else {
        let before = capability_names(matches.drop_last());
        match enabled_in(captures_in(CAPABILITY_PATTERN@, group_or_empty(matches.last(), 0))) {
            Some(name) => before.push(name),
            None => before,
        }
    }
}

/// The capabilities switched on in one section, separated by `, `.
pub open spec fn capabilities_in(section: Seq<char>) -> Seq<char> {
    joined(capability_names(captures_in(CAPABILITY_PATTERN@, section)), ", "@)
}

/// The capabilities of each section, in order.
pub open spec fn capability_lists(sections: Seq<Seq<Option<Seq<char>>>>) -> Seq<Seq<char>> {
    Seq::new(sections.len(), |i: int| capabilities_in(group_or_empty(sections[i], 0)))
}

/// The management addresses among `matches`, the matches of
/// `MGMT_IP_PATTERN`: each match without its `MgmtIP:` label, trimmed.
pub open spec fn address_list(matches: Seq<Seq<Option<Seq<char>>>>) -> Seq<Seq<char>> {
    Seq::new(
        matches.len(),
        |i: int| trimmed(without(group_or_empty(matches[i], 0), "MgmtIP:"@)),
    )
}

/// The neighbours of a report, given what each pattern found in it: one
/// neighbour per section. Every neighbour gets the first chassis and the
/// first port of the report and all its management addresses; a report
/// with sections but no chassis, or no port, is an error.
pub open spec fn neighbors_of(
    sections: Seq<Seq<Option<Seq<char>>>>,
    capabilities: Seq<Seq<char>>,
    chassis: Seq<Seq<Option<Seq<char>>>>,
    ports: Seq<Seq<Option<Seq<char>>>>,
    addresses: Seq<Seq<Option<Seq<char>>>>,
) -> Result<Seq<NeighborInfoView>, ParseError> {
    if sections.len() == 0 {
        Ok(Seq::<NeighborInfoView>::empty())
    } else if chassis.len() == 0 {
        Err(ParseError::ChassisNotFound)
    } else if ports.len() == 0 {
        Err(ParseError::PortNotFound)
    } else {
        Ok(
            Seq::new(
                sections.len(),
                |i: int|
                    NeighborInfoView {
                        interface: trimmed(group_or_empty(sections[i], 1)),
                        chassis_id: trimmed(group_or_empty(chassis[0], 1)),
                        sys_name: trimmed(group_or_empty(chassis[0], 2)),
                        sys_descr: trimmed(group_or_empty(chassis[0], 3)),
                        mgmt_ips: address_list(addresses),
                        port_id: trimmed(group_or_empty(ports[0], 1)),
                        port_descr: trimmed(group_or_empty(ports[0], 2)),
                        capabilities: if i < capabilities.len() {
                            capabilities[i]
                        } else {
                            Seq::<char>::empty()
                        },
                    },
            ),
        )
    }
}

/// Whether each of the five patterns compiles.
pub open spec fn patterns_compile() -> bool {
    &&& pattern_compiles(SECTION_PATTERN@)
    &&& pattern_compiles(CHASSIS_PATTERN@)
    &&& pattern_compiles(MGMT_IP_PATTERN@)
    &&& pattern_compiles(PORT_PATTERN@)
    &&& pattern_compiles(CAPABILITY_PATTERN@)
}

/// The neighbours that a report describes; an error, whatever the report,
/// where one of the patterns does not compile.
pub open spec fn lldp_neighbors(report: Seq<char>) -> Result<Seq<NeighborInfoView>, ParseError> {
    if !patterns_compile() {
        Err(ParseError::InvalidPattern)
    } else {
        neighbors_of(
            captures_in(SECTION_PATTERN@, report),
            capability_lists(captures_in(SECTION_PATTERN@, report)),
            captures_in(CHASSIS_PATTERN@, report),
            captures_in(PORT_PATTERN@, report),
            captures_in(MGMT_IP_PATTERN@, report),
        )
    }
}

/// The headings of the neighbour table.
pub open spec fn lldp_headings() -> Seq<Seq<char>> {
    seq![
        "Interface"@,
        "Chassis ID"@,
        "System Name"@,
        "System Description"@,
        "Management IP(s)"@,
        "Port ID"@,
        "Port Description"@,
        "Capabilities"@,
    ]
}

/// The row of one neighbour; its management addresses are separated by
/// `, `.
pub open spec fn info_texts(neighbor: NeighborInfoView) -> Seq<Seq<char>> {
    seq![
        neighbor.interface,
        neighbor.chassis_id,
        neighbor.sys_name,
        neighbor.sys_descr,
        joined(neighbor.mgmt_ips, ", "@),
        neighbor.port_id,
        neighbor.port_descr,
        neighbor.capabilities,
    ]
}

/// The rows of the neighbour table: the headings, then one row per
/// neighbour.
pub open spec fn lldp_rows(neighbors: Seq<NeighborInfoView>) -> Seq<Seq<Seq<char>>> {
    Seq::new(
        neighbors.len() + 1,
        |i: int|
            if i == 0 {
                lldp_headings()
            } else {
                info_texts(neighbors[i - 1])
            },
    )
}

/// The table of given neighbours.
pub open spec fn lldp_table(neighbors: Seq<NeighborInfoView>) -> TableView {
    TableView {
        titles: None,
        rows: Seq::new(neighbors.len() + 1, |i: int| text_row(lldp_rows(neighbors)[i])),
        format: TableFormat::Default,
    }
}

/// The text of group `index` of a match, empty where there is none.
pub fn group_text<'a>(groups: &'a Groups, index: usize) -> (out: &'a str)
    ensures
        out@ == group_or_empty(group_views(groups@), index as int),
{
    if index < groups.len() {
        match &groups[index] {
            Some(text) => {
                return text.as_str();
            },
            None => {},
        }
    }
    proof {
        reveal_strlit("");
        assert(""@ =~= Seq::<char>::empty());
    }
    ""
}

/// The capability that a match switches on, if it switches one on.
pub fn enabled_capability(first: &Vec<Groups>) -> (out: Option<String>)
    ensures
        match enabled_in(capture_views(first@)) {
            Some(name) => out is Some && out->Some_0@ == name,
            None => out is None,
        },
{
    if first.len() == 0 {
        return None;
    }
    let groups = &first[0];
    assert(capture_views(first@)[0] == group_views(groups@));
    if groups.len() <= 2 {
        return None;
    }
    let state = match &groups[2] {
        Some(state) => state,
        None => {
            return None;
        },
    };
    assert(group_views(groups@)[2] == Some(state@));
    if !crate::text::same_text(state.as_str(), "on") {
        return None;
    }
    match &groups[1] {
        Some(name) => {
            assert(group_views(groups@)[1] == Some(name@));
            Some(name.clone())
        },
        None => None,
    }
}

/// The capabilities switched on in one section of the report, separated by
/// `, `.
pub fn capabilities_of(section: &str) -> (out: Result<String, ParseError>)
    ensures
        pattern_compiles(CAPABILITY_PATTERN@) ==> out is Ok && out->Ok_0@ == capabilities_in(
            section@,
        ),
        !pattern_compiles(CAPABILITY_PATTERN@) ==> out == Err::<String, ParseError>(
            ParseError::InvalidPattern,
        ),
{
    let matches = match find_captures(CAPABILITY_PATTERN, section) {
        Ok(matches) => matches,
        Err(e) => {
            return Err(e);
        },
    };
    let ghost views = capture_views(matches@);
    let mut names: Vec<String> = Vec::new();
    let n = matches.len();
    let mut i: usize = 0;
    proof {
        assert(views.take(0) =~= Seq::<Seq<Option<Seq<char>>>>::empty());
        assert(string_views(names@) =~= Seq::<Seq<char>>::empty());
    }
    while i < n
        invariant
            i <= n,
            n == matches@.len(),
            views == capture_views(matches@),
            pattern_compiles(CAPABILITY_PATTERN@),
            capability_names(views.take(i as int)) == string_views(names@),
        decreases n - i,
    {
        let ghost before = string_views(names@);
        proof {
            assert(views.take(i as int + 1).drop_last() =~= views.take(i as int));
            assert(views.take(i as int + 1).last() == group_views(matches@[i as int]@));
        }
        let text = group_text(&matches[i], 0);
        let first = match find_captures(CAPABILITY_PATTERN, text) {
            Ok(first) => first,
            Err(e) => {
                return Err(e);
            },
        };
        match enabled_capability(&first) {
            Some(name) => {
                names.push(name);
                assert(string_views(names@) =~= before.push(name@));
            },
            None => {},
        }
        i = i + 1;
    }
    assert(views.take(n as int) =~= views);
    Ok(join(&names, ", "))
}

/// The management addresses among the matches of `MGMT_IP_PATTERN`.
pub fn addresses_of(matches: &Vec<Groups>) -> (out: Vec<String>)
    ensures
        string_views(out@) == address_list(capture_views(matches@)),
{
    let mut out: Vec<String> = Vec::new();
    let n = matches.len();
    let mut i: usize = 0;
    while i < n
        invariant
            i <= n,
            n == matches@.len(),
            out@.len() == i,
            forall|k: int|
                0 <= k < i ==> (#[trigger] out@[k])@ == trimmed(
                    without(group_or_empty(group_views(matches@[k]@), 0), "MgmtIP:"@),
                ),
        decreases n - i,
    {
        let bare = remove_all(group_text(&matches[i], 0), "MgmtIP:");
        out.push(trim(bare.as_str()).to_owned());
        i = i + 1;
    }
    assert(string_views(out@) =~= address_list(capture_views(matches@)));
    out
}

/// A copy of a list of strings.
fn copy_of(strings: &Vec<String>) -> (out: Vec<String>)
    ensures
        string_views(out@) == string_views(strings@),
{
    let mut out: Vec<String> = Vec::new();
    let n = strings.len();
    let mut i: usize = 0;
    while i < n
        invariant
            i <= n,
            n == strings@.len(),
            out@.len() == i,
            forall|k: int| 0 <= k < i ==> (#[trigger] out@[k])@ == strings@[k]@,
        decreases n - i,
    {
        out.push(strings[i].clone());
        i = i + 1;
    }
    assert(string_views(out@) =~= string_views(strings@));
    out
}

/// Builds the neighbours of a report from what each pattern found in it:
/// `sections`, `chassis`, `ports` and `addresses` are the matches of the
/// section, chassis, port and management-address patterns in the report,
/// and `capabilities` holds the capabilities of each section.
pub fn neighbors_from(
    sections: &Vec<Groups>,
    capabilities: &Vec<String>,
    chassis: &Vec<Groups>,
    ports: &Vec<Groups>,
    addresses: &Vec<Groups>,
) -> (out: Result<Vec<NeighborInfo>, ParseError>)
    ensures
        match neighbors_of(
            capture_views(sections@),
            string_views(capabilities@),
            capture_views(chassis@),
            capture_views(ports@),
            capture_views(addresses@),
        ) {
            Ok(neighbors) => out is Ok && info_views(out->Ok_0@) == neighbors,
            Err(e) => out == Err::<Vec<NeighborInfo>, ParseError>(e),
        },
{
    let mut neighbors: Vec<NeighborInfo> = Vec::new();
    let n = sections.len();
    if n == 0 {
        assert(info_views(neighbors@) =~= Seq::<NeighborInfoView>::empty());
        return Ok(neighbors);
    }
    if chassis.len() == 0 {
        return Err(ParseError::ChassisNotFound);
    }
    if ports.len() == 0 {
        return Err(ParseError::PortNotFound);
    }
    let mgmt_ips = addresses_of(addresses);
    let ghost expected = neighbors_of(
        capture_views(sections@),
        string_views(capabilities@),
        capture_views(chassis@),
        capture_views(ports@),
        capture_views(addresses@),
    )->Ok_0;
    let mut i: usize = 0;
    while i < n
        invariant
            i <= n,
            n == sections@.len(),
            n > 0,
            chassis@.len() > 0,
            ports@.len() > 0,
            string_views(mgmt_ips@) == address_list(capture_views(addresses@)),
            expected == neighbors_of(
                capture_views(sections@),
                string_views(capabilities@),
                capture_views(chassis@),
                capture_views(ports@),
                capture_views(addresses@),
            )->Ok_0,
            neighbors@.len() == i,
            forall|k: int| 0 <= k < i ==> (#[trigger] neighbors@[k])@ == expected[k],
        decreases n - i,
    {
        let list: &str = if i < capabilities.len() {
            capabilities[i].as_str()
        } else {
            proof {
                reveal_strlit("");
                assert(""@ =~= Seq::<char>::empty());
            }
            ""
        };
        let neighbor = NeighborInfo {
            interface: trim(group_text(&sections[i], 1)).to_owned(),
            chassis_id: trim(group_text(&chassis[0], 1)).to_owned(),
            sys_name: trim(group_text(&chassis[0], 2)).to_owned(),
            sys_descr: trim(group_text(&chassis[0], 3)).to_owned(),
            mgmt_ips: copy_of(&mgmt_ips),
            port_id: trim(group_text(&ports[0], 1)).to_owned(),
            port_descr: trim(group_text(&ports[0], 2)).to_owned(),
            capabilities: list.to_owned(),
        };
        proof {
            assert(capture_views(sections@)[i as int] == group_views(sections@[i as int]@));
            assert(capture_views(chassis@)[0] == group_views(chassis@[0]@));
            assert(capture_views(ports@)[0] == group_views(ports@[0]@));
            if i < capabilities@.len() {
                assert(string_views(capabilities@)[i as int] == capabilities@[i as int]@);
            }
            assert(neighbor@ == expected[i as int]);
        }
        neighbors.push(neighbor);
        i = i + 1;
    }
    assert(info_views(neighbors@) =~= expected);
    Ok(neighbors)
}

/// Reads the neighbours out of a report of `lldpcli show neighbors`. The
/// five patterns are compiled before the report is looked at.
pub fn parse_lldp_info(lldp_info: &str) -> (out: Result<Vec<NeighborInfo>, ParseError>)
    ensures
        match lldp_neighbors(lldp_info@) {
            Ok(neighbors) => out is Ok && info_views(out->Ok_0@) == neighbors,
            Err(e) => out == Err::<Vec<NeighborInfo>, ParseError>(e),
        },
{
    if !(compiles(SECTION_PATTERN) && compiles(CHASSIS_PATTERN) && compiles(MGMT_IP_PATTERN)
        && compiles(PORT_PATTERN) && compiles(CAPABILITY_PATTERN)) {
        return Err(ParseError::InvalidPattern);
    }
    let sections = match find_captures(SECTION_PATTERN, lldp_info) {
        Ok(sections) => sections,
        Err(e) => {
            return Err(e);
        },
    };
    let ghost section_views = capture_views(sections@);
    let mut capabilities: Vec<String> = Vec::new();
    let n = sections.len();
    let mut i: usize = 0;
    while i < n
        invariant
            i <= n,
            n == sections@.len(),
            section_views == capture_views(sections@),
            pattern_compiles(CAPABILITY_PATTERN@),
            capabilities@.len() == i,
            forall|k: int|
                0 <= k < i ==> (#[trigger] capabilities@[k])@ == capabilities_in(
                    group_or_empty(section_views[k], 0),
                ),
        decreases n - i,
    {
        assert(section_views[i as int] == group_views(sections@[i as int]@));
        match capabilities_of(group_text(&sections[i], 0)) {
            Ok(list) => {
                capabilities.push(list);
            },
            Err(e) => {
                return Err(e);
            },
        }
        i = i + 1;
    }
    assert(string_views(capabilities@) =~= capability_lists(section_views));
    let chassis = match find_captures(CHASSIS_PATTERN, lldp_info) {
        Ok(chassis) => chassis,
        Err(e) => {
            return Err(e);
        },
    };
    let ports = match find_captures(PORT_PATTERN, lldp_info) {
        Ok(ports) => ports,
        Err(e) => {
            return Err(e);
        },
    };
    let addresses = match find_captures(MGMT_IP_PATTERN, lldp_info) {
        Ok(addresses) => addresses,
        Err(e) => {
            return Err(e);
        },
    };
    neighbors_from(&sections, &capabilities, &chassis, &ports, &addresses)
}

impl Module for LLDPModule {
    open spec fn metadata(&self) -> DescriptorView {
        DescriptorView {
            display_name: "LLDP Neighbors"@,
            identifier: "lldp"@,
            description: "Lists the neighbours announced over LLDP"@,
            author: "Kidan Nelson"@,
            version: "0.1.0"@,
            category: "Network"@,
            platforms: seq![Platform::All],
            execution_mode: ExecutionMode::GlobalAsync,
        }
    }

    fn name(&self) -> (out: &'static str) {
        "LLDP Neighbors"
    }

    fn identifier(&self) -> (out: &'static str) {
        "lldp"
    }

    fn description(&self) -> (out: &'static str) {
        "Lists the neighbours announced over LLDP"
    }

    fn author(&self) -> (out: &'static str) {
        "Kidan Nelson"
    }

    fn version(&self) -> (out: &'static str) {
        "0.1.0"
    }

    fn category(&self) -> (out: &'static str) {
        "Network"
    }

    fn platforms(&self) -> (out: Vec<Platform>) {
        let mut out: Vec<Platform> = Vec::new();
        out.push(Platform::All);
        assert(out@ =~= seq![Platform::All]);
        out
    }

    fn execution_mode(&self) -> (out: ExecutionMode) {
        ExecutionMode::GlobalAsync
    }
}

impl LLDPModule {
    /// The command whose output the module reads, program first.
    pub fn command(&self) -> (out: Vec<&'static str>)
        ensures
            views_of(out@) == seq!["lldpcli"@, "show"@, "neighbors"@],
    {
        let mut out: Vec<&'static str> = Vec::new();
        out.push("lldpcli");
        out.push("show");
        out.push("neighbors");
        assert(views_of(out@) =~= seq!["lldpcli"@, "show"@, "neighbors"@]);
        out
    }

    /// What is reported when `lldpcli` ends with a failure status.
    pub fn command_failure(&self, stderr: &str) -> (out: String)
        ensures
            out@ == "lldpcli command execution failed: "@ + stderr@,
    {
        let mut out = "lldpcli command execution failed: ".to_owned();
        out.append(stderr);
        out
    }

    /// The table of the given neighbours: a heading row, then one row for
    /// each.
    pub fn table(&self, neighbors: &Vec<NeighborInfo>) -> (out: Table)
        ensures
            out@ == lldp_table(info_views(neighbors@)),
    {
        let ghost views = info_views(neighbors@);
        let mut table = Table::new();
        let mut headings: Vec<&str> = Vec::new();
        headings.push("Interface");
        headings.push("Chassis ID");
        headings.push("System Name");
        headings.push("System Description");
        headings.push("Management IP(s)");
        headings.push("Port ID");
        headings.push("Port Description");
        headings.push("Capabilities");
        assert(Seq::new(headings@.len(), |i: int| headings@[i]@) =~= lldp_headings());
        table.add_row(Row::from_texts(&headings));
        let n = neighbors.len();
        let mut i: usize = 0;
        while i < n
            invariant
                i <= n,
                n == neighbors@.len(),
                views == info_views(neighbors@),
                table@.titles is None,
                table@.format == TableFormat::Default,
                table@.rows.len() == i + 1,
                forall|k: int|
                    0 <= k <= i ==> #[trigger] table@.rows[k] == text_row(lldp_rows(views)[k]),
            decreases n - i,
        {
            let neighbor = &neighbors[i];
            let mgmt_ips = join(&neighbor.mgmt_ips, ", ");
            let mut texts: Vec<&str> = Vec::new();
            texts.push(neighbor.interface.as_str());
            texts.push(neighbor.chassis_id.as_str());
            texts.push(neighbor.sys_name.as_str());
            texts.push(neighbor.sys_descr.as_str());
            texts.push(mgmt_ips.as_str());
            texts.push(neighbor.port_id.as_str());
            texts.push(neighbor.port_descr.as_str());
            texts.push(neighbor.capabilities.as_str());
            assert(Seq::new(texts@.len(), |i: int| texts@[i]@) =~= info_texts(views[i as int]));
            table.add_row(Row::from_texts(&texts));
            i = i + 1;
        }
        assert(table@.rows =~= lldp_table(views).rows);
        table
    }

    /// From the report to the module's table.
    pub fn report(&self, lldp_info: &str) -> (out: Result<Table, ParseError>)
        ensures
            match lldp_neighbors(lldp_info@) {
                Ok(neighbors) => out is Ok && out->Ok_0@ == lldp_table(neighbors),
                Err(e) => out == Err::<Table, ParseError>(e),
            },
    {
        match parse_lldp_info(lldp_info) {
            Ok(neighbors) => Ok(self.table(&neighbors)),
            Err(e) => Err(e),
        }
    }
}

} // verus!
