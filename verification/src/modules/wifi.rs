//! Wireless access points, from the terse listing of `nmcli dev wifi` (or of
//! `netsh wlan show interfaces`): one network per line, fields separated by
//! colons, the network in use marked with a leading `*`.

use crate::descriptor::{DescriptorView, ExecutionMode, Module, Platform};
use crate::modules::ParseError;
use crate::table::{text_row, Row, Table, TableFormat, TableView};
use crate::text::{
    decimal_digits, decimal_text, lines, lines_of, parse_u8, parsed_unsigned, same_text, split,
    split_on, trim, trimmed, views_of,
};
use vstd::prelude::*;
use vstd::string::*;

verus! {

/// The module that lists the access points of the network in use.
#[derive(Clone, Copy, Debug, PartialEq, Eq, Structural, Hash)]
pub struct WirelessAccessPointModule;

/// One access point.
#[derive(Clone, Debug, PartialEq, Eq)]
pub struct AccessPoint {
    pub ssid: String,
    pub bssid: String,
    /// Signal strength in percent.
    pub signal_strength: u8,
    /// Frequency in MHz.
    pub frequency: u16,
}

/// The test "the field is not empty".
pub open spec fn is_filled() -> spec_fn(Seq<char>) -> bool {
    |field: Seq<char>| field.len() > 0
}

/// The non-empty fields of a line, split at colons.
pub open spec fn filled_fields(line: Seq<char>) -> Seq<Seq<char>> {
    split_on(line, ':').filter(is_filled())
}

/// The network that a line marks as in use: the second field, trimmed, of a
/// line that begins with `*`.
pub open spec fn ssid_on(line: Seq<char>) -> Option<Seq<char>> {
    if line.len() > 0 && line[0] == '*' && split_on(line, ':').len() >= 2 {
        Some(trimmed(split_on(line, ':')[1]))
    } else {
        None
    }
}

/// The network in use according to the first line that marks one.
pub open spec fn current_ssid_in(lines: Seq<Seq<char>>) -> Option<Seq<char>>
    decreases lines.len(),
{
    if lines.len() == 0 {
        None
    } else {
        match ssid_on(lines[0]) {
            Some(ssid) => Some(ssid),
            None => current_ssid_in(lines.drop_first()),
        }
    }
}

/// Whether a line describes an access point of the network `current`: it is
/// not blank, it has exactly four non-empty fields, and the second one,
/// trimmed, is `current`, which is not empty.
pub open spec fn describes(line: Seq<char>, current: Seq<char>) -> bool {
    &&& trimmed(line).len() > 0
    &&& filled_fields(line).len() == 4
    &&& trimmed(filled_fields(line)[1]) == current
    &&& current.len() > 0
}

/// Why a line that describes an access point cannot be read: its fourth
/// field is no signal strength, or else the frequency is missing, since it
/// would be the fifth of four fields.
pub open spec fn unreadable(line: Seq<char>) -> ParseError {
    if parsed_unsigned(filled_fields(line)[3], 255) is None {
        ParseError::InvalidSignal
    } else {
        ParseError::MissingFrequency
    }
}

/// The error on the first line that describes an access point of `current`.
pub open spec fn first_failure(lines: Seq<Seq<char>>, current: Seq<char>) -> Option<ParseError>
    decreases lines.len(),
{
    if lines.len() == 0 {
        None
    } else if describes(lines[0], current) {
        Some(unreadable(lines[0]))
    } else {
        first_failure(lines.drop_first(), current)
    }
}

/// The table row of an access point: SSID, BSSID, signal as a percentage,
/// frequency in MHz.
pub open spec fn access_point_texts(point: AccessPoint) -> Seq<Seq<char>> {
    seq![
        point.ssid@,
        point.bssid@,
        decimal_digits(point.signal_strength as nat) + "%"@,
        decimal_digits(point.frequency as nat) + "MHz"@,
    ]
}

/// The heading row of the access point table.
pub open spec fn access_point_headings() -> Seq<Seq<char>> {
    seq!["SSID"@, "BSSID"@, "Signal Strength"@, "Frequency"@]
}

/// The rows of the access point table: the headings, then one row per
/// access point.
pub open spec fn access_point_rows(points: Seq<AccessPoint>) -> Seq<Seq<Seq<char>>> {
    Seq::new(
        points.len() + 1,
        |i: int|
            if i == 0 {
                access_point_headings()
            } else {
                access_point_texts(points[i - 1])
            },
    )
}

/// The non-empty fields of a line, split at colons.
pub fn filled_parts<'a>(line: &'a str) -> (out: Vec<&'a str>)
    ensures
        views_of(out@) == filled_fields(line@),
{
    let pieces = split(line, ':');
    let ghost all = views_of(pieces@);
    let mut out: Vec<&'a str> = Vec::new();
    let n = pieces.len();
    let mut i: usize = 0;
    proof {
        reveal(Seq::filter);
        assert(all.take(0) =~= Seq::<Seq<char>>::empty());
        assert(views_of(out@) =~= all.take(0).filter(is_filled()));
    }
    while i < n
        invariant
            i <= n,
            n == pieces@.len(),
            all == views_of(pieces@),
            views_of(out@) == all.take(i as int).filter(is_filled()),
        decreases n - i,
    {
        let piece = pieces[i];
        let ghost before = views_of(out@);
        let keep = !piece.is_empty();
        if keep {
            out.push(piece);
        }
        proof {
            reveal(Seq::filter);
            assert(all.take(i as int + 1).drop_last() =~= all.take(i as int));
            assert(all.take(i as int + 1).last() == piece@);
            if keep {
                assert(views_of(out@) =~= before.push(piece@));
            }
        }
        i = i + 1;
    }
    assert(all.take(n as int) =~= all);
    out
}

/// The SSID of the network in use: the second field, trimmed, of the first
/// line that begins with `*` and has a second field.
pub fn get_current_ssid(raw_output: &str) -> (out: Option<String>)
    ensures
        match current_ssid_in(lines_of(raw_output@)) {
            Some(ssid) => out is Some && out->Some_0@ == ssid,
            None => out is None,
        },
{
    let all = lines(raw_output);
    let ghost views = views_of(all@);
    let n = all.len();
    let mut i: usize = 0;
    assert(views.skip(0) =~= views);
    while i < n
        invariant
            i <= n,
            n == all@.len(),
            views == views_of(all@),
            views == lines_of(raw_output@),
            current_ssid_in(views) == current_ssid_in(views.skip(i as int)),
        decreases n - i,
    {
        let line = all[i];
        assert(views.skip(i as int)[0] == line@);
        assert(views.skip(i as int).drop_first() =~= views.skip(i as int + 1));
        let chars = crate::text::chars_of(line);
        if chars.len() > 0 && chars[0] == '*' {
            let pieces = split(line, ':');
            if pieces.len() >= 2 {
                assert(views_of(pieces@)[1] == pieces@[1]@);
                return Some(trim(pieces[1]).to_owned());
            }
        }
        i = i + 1;
    }
    None
}

/// Reads the access points of the network `current_ssid` from a listing.
///
/// Blank lines and lines that do not describe an access point of that
/// network are passed over. The first line that does stops the reading with
/// an error: an access point is described by four fields, and its frequency
/// would be a fifth.
pub fn parse_access_points(raw_output: &str, current_ssid: &str) -> (out: Result<
    Vec<AccessPoint>,
    ParseError,
>)
    ensures
        match first_failure(lines_of(raw_output@), current_ssid@) {
            Some(e) => out == Err::<Vec<AccessPoint>, ParseError>(e),
            None => out is Ok && out->Ok_0@.len() == 0,
        },
{
    let access_points: Vec<AccessPoint> = Vec::new();
    let all = lines(raw_output);
    let ghost views = views_of(all@);
    let n = all.len();
    let mut i: usize = 0;
    assert(views.skip(0) =~= views);
    while i < n
        invariant
            i <= n,
            n == all@.len(),
            views == views_of(all@),
            views == lines_of(raw_output@),
            access_points@.len() == 0,
            first_failure(views, current_ssid@) == first_failure(
                views.skip(i as int),
                current_ssid@,
            ),
        decreases n - i,
    {
        let line = all[i];
        assert(views.skip(i as int)[0] == line@);
        assert(views.skip(i as int).drop_first() =~= views.skip(i as int + 1));
        if !trim(line).is_empty() {
            let parts = filled_parts(line);
            if parts.len() == 4 {
                assert(views_of(parts@)[1] == parts@[1]@);
                assert(views_of(parts@)[3] == parts@[3]@);
                let ssid = trim(parts[1]);
                if same_text(ssid, current_ssid) && !ssid.is_empty() {
                    match parse_u8(parts[3]) {
                        None => {
                            return Err(ParseError::InvalidSignal);
                        },
                        Some(_) => {
                            return Err(ParseError::MissingFrequency);
                        },
                    }
                }
            }
        }
        i = i + 1;
    }
    Ok(access_points)
}

impl Module for WirelessAccessPointModule {
    open spec fn metadata(&self) -> DescriptorView {
        DescriptorView {
            display_name: "Wireless Access Points"@,
            identifier: "wifi"@,
            description: "Lists the access points of the wireless network in use"@,
            author: "Kidan Nelson"@,
            version: "0.1.0"@,
            category: "Network"@,
            platforms: seq![Platform::Windows, Platform::Linux],
            execution_mode: ExecutionMode::GlobalAsync,
        }
    }

    fn name(&self) -> (out: &'static str) {
        "Wireless Access Points"
    }

    fn identifier(&self) -> (out: &'static str) {
        "wifi"
    }

    fn description(&self) -> (out: &'static str) {
        "Lists the access points of the wireless network in use"
    }

    fn author(&self) -> (out: &'static str) {
        "Kidan Nelson"
    }

    fn version(&self) -> (out: &'static str) {
        "0.1.0"
    }

    fn category(&self) -> (out: &'static str) {
        "Network"
    }

    fn platforms(&self) -> (out: Vec<Platform>) {
        let mut out: Vec<Platform> = Vec::new();
        out.push(Platform::Windows);
        out.push(Platform::Linux);
        assert(out@ =~= seq![Platform::Windows, Platform::Linux]);
        out
    }

    fn execution_mode(&self) -> (out: ExecutionMode) {
        ExecutionMode::GlobalAsync
    }
}

impl WirelessAccessPointModule {
    /// The command whose output the module reads, program first.
    pub fn command(&self, host: Platform) -> (out: Vec<&'static str>)
        ensures
            views_of(out@) == (if host == Platform::Windows {
                seq!["netsh"@, "wlan"@, "show"@, "interfaces"@]
            } else {
                seq!["nmcli"@, "-t"@, "-f"@, "in-use,ssid,bssid,signal,freq"@, "dev"@, "wifi"@]
            }),
    {
        let mut out: Vec<&'static str> = Vec::new();
        if host == Platform::Windows {
            out.push("netsh");
            out.push("wlan");
            out.push("show");
            out.push("interfaces");
            assert(views_of(out@) =~= seq!["netsh"@, "wlan"@, "show"@, "interfaces"@]);
        } else {
            out.push("nmcli");
            out.push("-t");
            out.push("-f");
            out.push("in-use,ssid,bssid,signal,freq");
            out.push("dev");
            out.push("wifi");
            assert(views_of(out@) =~= seq![
                "nmcli"@,
                "-t"@,
                "-f"@,
                "in-use,ssid,bssid,signal,freq"@,
                "dev"@,
                "wifi"@,
            ]);
        }
        out
    }

    /// The table of the given access points: a heading row, then one row
    /// for each.
    pub fn table(&self, points: &Vec<AccessPoint>) -> (out: Table)
        ensures
            out@ == (TableView {
                titles: None,
                rows: Seq::new(
                    points@.len() + 1,
                    |i: int| text_row(access_point_rows(points@)[i]),
                ),
                format: TableFormat::Default,
            }),
    {
        let mut table = Table::new();
        let mut headings: Vec<&str> = Vec::new();
        headings.push("SSID");
        headings.push("BSSID");
        headings.push("Signal Strength");
        headings.push("Frequency");
        assert(Seq::new(headings@.len(), |i: int| headings@[i]@) =~= access_point_headings());
        table.add_row(Row::from_texts(&headings));
        let n = points.len();
        let mut i: usize = 0;
        while i < n
            invariant
                i <= n,
                n == points@.len(),
                table@.titles is None,
                table@.format == TableFormat::Default,
                table@.rows.len() == i + 1,
                forall|k: int|
                    0 <= k <= i ==> #[trigger] table@.rows[k] == text_row(
                        access_point_rows(points@)[k],
                    ),
            decreases n - i,
        {
            let point = &points[i];
            let mut signal = decimal_text(point.signal_strength as u32);
            signal.append("%");
            let mut frequency = decimal_text(point.frequency as u32);
            frequency.append("MHz");
            let mut texts: Vec<&str> = Vec::new();
            texts.push(point.ssid.as_str());
            texts.push(point.bssid.as_str());
            texts.push(signal.as_str());
            texts.push(frequency.as_str());
            assert(Seq::new(texts@.len(), |i: int| texts@[i]@) =~= access_point_texts(*point));
            table.add_row(Row::from_texts(&texts));
            i = i + 1;
        }
        assert(table@.rows =~= Seq::new(
            points@.len() + 1,
            |i: int| text_row(access_point_rows(points@)[i]),
        ));
        table
    }

    /// From the command's output to the module's table: the network in use
    /// is found first, then its access points are read.
    pub fn report(&self, raw_output: &str) -> (out: Result<Table, ParseError>)
        ensures
            match current_ssid_in(lines_of(raw_output@)) {
                None => out == Err::<Table, ParseError>(ParseError::MissingSsid),
                Some(ssid) => match first_failure(lines_of(raw_output@), ssid) {
                    Some(e) => out == Err::<Table, ParseError>(e),
                    None => out is Ok && out->Ok_0@ == (TableView {
                        titles: None,
                        rows: seq![text_row(access_point_headings())],
                        format: TableFormat::Default,
                    }),
                },
            },
    {
        let current = match get_current_ssid(raw_output) {
            Some(ssid) => ssid,
            None => {
                return Err(ParseError::MissingSsid);
            },
        };
        let points = match parse_access_points(raw_output, current.as_str()) {
            Ok(points) => points,
            Err(e) => {
                return Err(e);
            },
        };
        let table = self.table(&points);
        assert(table@.rows =~= seq![text_row(access_point_headings())]);
        Ok(table)
    }
}

} // verus!
