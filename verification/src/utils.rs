//! What is known of the machine: the Java installations that were found, and
//! a summary of the system.

use crate::text::{
    contains, contains_text, lines, lines_of, parse_u64, parsed_u64, second_piece,
    second_piece_of, text_views, trim_text, trimmed,
};
use vstd::prelude::*;
use vstd::string::*;

verus! {

/// One Java installation.
#[derive(Debug)]
pub struct JavaInfo {
    pub version: String,
    /// The path of the executable, as text.
    pub path: String,
    pub vendor: String,
    pub is_64bit: bool,
    pub heap_size: u64,
}

/// What a `JavaInfo` is, with text as character sequences.
pub struct JavaInfoView {
    pub version: Seq<char>,
    pub path: Seq<char>,
    pub vendor: Seq<char>,
    pub is_64bit: bool,
    pub heap_size: u64,
}

impl View for JavaInfo {
    type V = JavaInfoView;

    open spec fn view(&self) -> JavaInfoView {
        JavaInfoView {
            version: self.version@,
            path: self.path@,
            vendor: self.vendor@,
            is_64bit: self.is_64bit,
            heap_size: self.heap_size,
        }
    }
}

/// The views of a sequence of installations.
pub open spec fn java_views(found: Seq<JavaInfo>) -> Seq<JavaInfoView> {
    found.map_values(|j: JavaInfo| j@)
}

/// A summary of the system. Memory is in gibibytes.
#[derive(Debug)]
pub struct SystemInfo {
    pub cpu: String,
    pub total_memory: u64,
    pub os: String,
}

impl SystemInfo {
    /// A summary that says nothing yet.
    pub fn new() -> (info: SystemInfo)
        ensures
            info.cpu@ == Seq::<char>::empty(),
            info.total_memory == 0,
            info.os@ == Seq::<char>::empty(),
    {
        SystemInfo { cpu: String::new(), total_memory: 0, os: String::new() }
    }
}

/// Remembers the Java installations of the last search.
#[derive(Debug)]
pub struct SystemUtils {
    java_versions: Vec<JavaInfo>,
}

impl SystemUtils {
    /// The installations that the last search found, in the order found.
    pub closed spec fn known(&self) -> Seq<JavaInfoView> {
        java_views(self.java_versions@)
    }

    /// Nothing was searched yet.
    pub fn new() -> (u: SystemUtils)
        ensures
            u.known() == Seq::<JavaInfoView>::empty(),
    {
        let u = SystemUtils { java_versions: Vec::new() };
        assert(u.known() =~= Seq::<JavaInfoView>::empty());
        u
    }

    /// Remembers `found` as what the last search found, in place of what was
    /// remembered before.
    pub fn remember(&mut self, found: Vec<JavaInfo>)
        ensures
            final(self).known() == java_views(found@),
    {
        self.java_versions = found;
    }

    /// The installations that the last search found, in the order found.
    pub fn java_versions(&self) -> (found: &Vec<JavaInfo>)
        ensures
            java_views(found@) == self.known(),
    {
        &self.java_versions
    }

    /// The first port from `start_port` on, and below 65535, that `probe`
    /// finds available; nothing if it finds none. The ports are probed in
    /// rising order, and none after the first that is available.
    pub fn find_available_port<F: Fn(u16) -> bool>(start_port: u16, probe: F) -> (r: Option<u16>)
        requires
            forall|p: u16| start_port <= p < 65535 ==> call_requires(probe, (p,)),
        ensures
            match r {
                Some(p) => {
                    &&& start_port <= p < 65535
                    &&& call_ensures(probe, (p,), true)
                    &&& forall|q: u16| start_port <= q < p ==> call_ensures(probe, (q,), false)
                },
                None => forall|q: u16| start_port <= q < 65535 ==> call_ensures(probe, (q,), false),
            },
    {
        let mut port: u16 = start_port;
        while port < 65535
            invariant
                start_port <= port,
                forall|p: u16| start_port <= p < 65535 ==> call_requires(probe, (p,)),
                forall|q: u16| start_port <= q < port ==> call_ensures(probe, (q,), false),
            decreases 65535 - port,
        {
            if probe(port) {
                return Some(port);
            }
            port = port + 1;
        }
        None
    }
}

/// What reading a runtime's version output has found so far.
pub struct Scan {
    pub version: Option<Seq<char>>,
    pub vendor: Option<Seq<char>>,
    pub is_64bit: bool,
}

/// What is known after one more line: a line that holds `version` sets the
/// version to its quoted text, or to nothing if it has no double quote; a
/// line that holds `Java(TM)` names Oracle as the vendor, else one that holds
/// `OpenJDK` names OpenJDK; a line that holds `64-Bit` marks the runtime as a
/// 64-bit one.
pub open spec fn scan_line(found: Scan, line: Seq<char>) -> Scan {
    Scan {
        version: if contains(line, "version"@) {
            second_piece(line, '"')
        } else {
            found.version
        },
        vendor: if contains(line, "Java(TM)"@) {
            Some("Oracle"@)
        } else if contains(line, "OpenJDK"@) {
            Some("OpenJDK"@)
        } else {
            found.vendor
        },
        is_64bit: found.is_64bit || contains(line, "64-Bit"@),
    }
}

/// What is known after the lines `all`, first to last.
pub open spec fn scan(all: Seq<Seq<char>>) -> Scan
    decreases all.len(),
{
    if all.len() == 0 {
        Scan { version: None, vendor: None, is_64bit: false }
    } else {
        scan_line(scan(all.drop_last()), all.last())
    }
}

/// The installation that the version output `output` describes, if it names
/// both a version and a vendor. Path and heap size are not in the output and
/// are `java` and zero.
pub open spec fn parsed(output: Seq<char>) -> Option<JavaInfoView> {
    let found = scan(lines(output));
    match (found.version, found.vendor) {
        (Some(version), Some(vendor)) => Some(
            JavaInfoView {
                version,
                path: "java"@,
                vendor,
                is_64bit: found.is_64bit,
                heap_size: 0,
            },
        ),
        _ => None,
    }
}

/// The views of an optional text.
pub open spec fn option_view(t: Option<String>) -> Option<Seq<char>> {
    match t {
        Some(s) => Some(s@),
        None => None,
    }
}

/// Reads what a runtime printed when asked for its version.
pub fn parse_java_version(output: &str) -> (r: Option<JavaInfo>)
    ensures
        match r {
            Some(info) => parsed(output@) == Some(info@),
            None => parsed(output@) is None,
        },
{
    let all = lines_of(output);
    let ghost texts = lines(output@);
    let mut version: Option<String> = None;
    let mut vendor: Option<String> = None;
    let mut is_64bit = false;
    let mut i: usize = 0;
    assert(texts.take(0) =~= Seq::<Seq<char>>::empty());
    while i < all.len()
        invariant
            text_views(all@) == texts,
            i <= all@.len(),
            scan(texts.take(i as int)) == (Scan {
                version: option_view(version),
                vendor: option_view(vendor),
                is_64bit,
            }),
        decreases all.len() - i,
    {
        let line = all[i].as_str();
        proof {
            assert(texts[i as int] == all@[i as int]@);
            assert(texts.take(i + 1).drop_last() =~= texts.take(i as int));
            assert(texts.take(i + 1).last() == texts[i as int]);
        }
        if contains_text(line, "version") {
            version = second_piece_of(line, '"');
        }
        if contains_text(line, "Java(TM)") {
            vendor = Some(String::from_str("Oracle"));
        } else if contains_text(line, "OpenJDK") {
            vendor = Some(String::from_str("OpenJDK"));
        }
        if contains_text(line, "64-Bit") {
            is_64bit = true;
        }
        i = i + 1;
    }
    assert(texts.take(i as int) =~= texts);
    match (version, vendor) {
        (Some(version), Some(vendor)) => Some(
            JavaInfo { version, path: String::from_str("java"), vendor, is_64bit, heap_size: 0 },
        ),
        _ => None,
    }
}

/// The number of bytes in a gibibyte.
pub const GIBIBYTE: u64 = 1073741824;

/// The name of the processor in the output of the query for it: the second
/// line, without the white space around it; the empty text if there is no
/// second line.
pub open spec fn cpu_name_in(output: Seq<char>) -> Seq<char> {
    if lines(output).len() > 1 {
        trimmed(lines(output)[1])
    } else {
        Seq::<char>::empty()
    }
}

/// The sum of the numbers that the lines `all` write, each without the white
/// space around it; a line that writes no number counts as zero.
pub open spec fn capacity_sum(all: Seq<Seq<char>>) -> nat
    decreases all.len(),
{
    if all.len() == 0 {
        0
    } else {
        capacity_sum(all.drop_last()) + match parsed_u64(trimmed(all.last())) {
            Some(n) => n as nat,
            None => 0,
        }
    }
}

/// The lines of `all` after the first.
pub open spec fn after_first(all: Seq<Seq<char>>) -> Seq<Seq<char>> {
    if all.len() > 0 {
        all.drop_first()
    } else {
        all
    }
}

/// The sum of the capacities, in bytes, that the output of the query for the
/// memory modules lists after its heading.
pub open spec fn memory_bytes_in(output: Seq<char>) -> nat {
    capacity_sum(after_first(lines(output)))
}

/// The name of the operating system that the lines `all` give: of the last
/// line that holds `OS Name`, the text after the first colon and before the
/// second, without the white space around it, or the empty text if that line
/// has no colon; the empty text if no line holds `OS Name`.
pub open spec fn os_name_of_lines(all: Seq<Seq<char>>) -> Seq<char>
    decreases all.len(),
{
    if all.len() == 0 {
        Seq::<char>::empty()
    } else if contains(all.last(), "OS Name"@) {
        match second_piece(all.last(), ':') {
            Some(name) => trimmed(name),
            None => Seq::<char>::empty(),
        }
    } else {
        os_name_of_lines(all.drop_last())
    }
}

/// The name of the processor in the output of the query for it.
pub fn cpu_name(output: &str) -> (name: String)
    ensures
        name@ == cpu_name_in(output@),
{
    let all = lines_of(output);
    if all.len() > 1 {
        assert(text_views(all@)[1] == all@[1]@);
        trim_text(all[1].as_str())
    } else {
        String::new()
    }
}

/// The sum of the capacities, in bytes, that the output of the query for the
/// memory modules lists, if it fits 64 bits.
pub fn memory_bytes(output: &str) -> (total: Option<u64>)
    ensures
        match total {
            Some(n) => n == memory_bytes_in(output@),
            None => memory_bytes_in(output@) > u64::MAX,
        },
{
    let all = lines_of(output);
    let ghost texts = lines(output@);
    let ghost rest = after_first(texts);
    let n = all.len();
    if n == 0 {
        return Some(0);
    }
    let mut sum: u128 = 0;
    let mut i: usize = 1;
    assert(rest.take(0) =~= Seq::<Seq<char>>::empty());
    while i < n
        invariant
            text_views(all@) == texts,
            rest == texts.drop_first(),
            n == all@.len(),
            1 <= i <= n,
            sum == capacity_sum(rest.take(i - 1)),
            sum <= (i - 1) * 0xffff_ffff_ffff_ffff,
        decreases n - i,
    {
        proof {
            assert(rest[i - 1] == all@[i as int]@);
            assert(rest.take(i as int).drop_last() =~= rest.take(i - 1));
            assert(rest.take(i as int).last() == rest[i - 1]);
        }
        let line = trim_text(all[i].as_str());
        match parse_u64(line.as_str()) {
            Some(v) => {
                sum = sum + v as u128;
            },
            None => {},
        }
        i = i + 1;
    }
    assert(rest.take(n - 1) =~= rest);
    if sum > u64::MAX as u128 {
        None
    } else {
        Some(sum as u64)
    }
}

/// The name of the operating system in the output of the query for the
/// system.
pub fn os_name(output: &str) -> (name: String)
    ensures
        name@ == os_name_of_lines(lines(output@)),
{
    let all = lines_of(output);
    let ghost texts = lines(output@);
    let mut name = String::new();
    let mut i: usize = 0;
    assert(texts.take(0) =~= Seq::<Seq<char>>::empty());
    while i < all.len()
        invariant
            text_views(all@) == texts,
            i <= all@.len(),
            name@ == os_name_of_lines(texts.take(i as int)),
        decreases all.len() - i,
    {
        let line = all[i].as_str();
        proof {
            assert(texts[i as int] == all@[i as int]@);
            assert(texts.take(i + 1).drop_last() =~= texts.take(i as int));
            assert(texts.take(i + 1).last() == texts[i as int]);
        }
        if contains_text(line, "OS Name") {
            name = match second_piece_of(line, ':') {
                Some(piece) => trim_text(piece.as_str()),
                None => String::new(),
            };
        }
        i = i + 1;
    }
    assert(texts.take(i as int) =~= texts);
    name
}

impl SystemInfo {
    /// The summary that the outputs of the three queries give: for the
    /// processor, for the memory modules and for the system. A query that
    /// could not be run, given as nothing, leaves its part of the summary
    /// empty. The memory is the sum of the capacities in whole gibibytes.
    /// There is no summary if that sum does not fit 64 bits.
    pub fn from_outputs(cpu: Option<&str>, memory: Option<&str>, system: Option<&str>) -> (r:
        Option<SystemInfo>)
        ensures
            match r {
                Some(info) => {
                    &&& info.cpu@ == match cpu {
                        Some(out) => cpu_name_in(out@),
                        None => Seq::<char>::empty(),
                    }
                    &&& info.total_memory == match memory {
                        Some(out) => memory_bytes_in(out@) / GIBIBYTE as nat,
                        None => 0,
                    }
                    &&& info.os@ == match system {
                        Some(out) => os_name_of_lines(lines(out@)),
                        None => Seq::<char>::empty(),
                    }
                },
                None => memory matches Some(out) && memory_bytes_in(out@) > u64::MAX,
            },
    {
        let mut info = SystemInfo::new();
        match memory {
            Some(out) => match memory_bytes(out) {
                Some(bytes) => {
                    info.total_memory = bytes / GIBIBYTE;
                },
                None => {
                    return None;
                },
            },
            None => {},
        }
        match cpu {
            Some(out) => {
                info.cpu = cpu_name(out);
            },
            None => {},
        }
        match system {
            Some(out) => {
                info.os = os_name(out);
            },
            None => {},
        }
        Some(info)
    }
}

} // verus!
