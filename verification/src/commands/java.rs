//! Discovery of Java runtimes: where to look, how to read what a runtime
//! says of its version, and the records that discovery yields.

use crate::text::{lines, lines_of, second_piece, second_piece_of, split, split_text, text_views};
use vstd::prelude::*;
use vstd::string::*;

verus! {

/// One runtime that discovery found.
#[derive(Debug)]
pub struct JavaInfo {
    /// The version that the runtime reported, or `Unknown`.
    pub version: String,
    /// The path of the runtime's executable.
    pub path: String,
    /// Whether the executable could be run.
    pub is_valid: bool,
}

/// What a `JavaInfo` is, with text as character sequences.
pub struct JavaInfoView {
    pub version: Seq<char>,
    pub path: Seq<char>,
    pub is_valid: bool,
}

impl View for JavaInfo {
    type V = JavaInfoView;

    open spec fn view(&self) -> JavaInfoView {
        JavaInfoView { version: self.version@, path: self.path@, is_valid: self.is_valid }
    }
}

/// Why no version could be read from what a runtime printed.
#[derive(Debug, Clone, Copy, PartialEq, Eq, Structural)]
pub enum VersionError {
    /// The runtime printed no line.
    NoOutput,
    /// The first line holds no quoted text.
    InvalidFormat,
}

impl VersionError {
    /// The message of the error, as it is shown to a user.
    pub fn message(&self) -> (m: String)
        ensures
            m@ == match *self {
                VersionError::NoOutput => "No version output"@,
                VersionError::InvalidFormat => "Invalid version format"@,
            },
    {
        match self {
            VersionError::NoOutput => String::from_str("No version output"),
            VersionError::InvalidFormat => String::from_str("Invalid version format"),
        }
    }
}

/// The executable of the runtime installed in `path`, for Windows or for a
/// Unix system.
pub open spec fn executable_of(path: Seq<char>, windows: bool) -> Seq<char> {
    if windows {
        path + "/bin/java.exe"@
    } else {
        path + "/bin/java"@
    }
}

/// The first line of `output`; the empty text if there is none.
pub open spec fn first_line(output: Seq<char>) -> Seq<char> {
    if lines(output).len() > 0 {
        lines(output)[0]
    } else {
        Seq::<char>::empty()
    }
}

/// The version that a runtime reports in `output`: the text between the
/// first two double quotes of the first line, or `Unknown` if that line has
/// no double quote.
pub open spec fn version_in(output: Seq<char>) -> Seq<char> {
    match second_piece(first_line(output), '"') {
        Some(v) => v,
        None => "Unknown"@,
    }
}

/// What is looked at for each directory of a search path: the directory and
/// then `/java`.
pub open spec fn candidates_of(path_var: Seq<char>, windows: bool) -> Seq<Seq<char>> {
    split(path_var, list_separator(windows)).map_values(|dir: Seq<char>| dir + "/java"@)
}

/// The character between the directories of a search path.
pub open spec fn list_separator(windows: bool) -> char {
    if windows {
        ';'
    } else {
        ':'
    }
}

/// The directories in which runtimes are commonly installed.
pub open spec fn common_paths_of(windows: bool) -> Seq<Seq<char>> {
    if windows {
        seq!["C:\\Program Files\\Java"@, "C:\\Program Files (x86)\\Java"@]
    } else {
        seq!["/usr/lib/jvm"@, "/usr/java"@, "/opt/java"@]
    }
}

/// The executable of the runtime installed in `path`.
pub fn java_executable(path: &str, windows: bool) -> (executable: String)
    ensures
        executable@ == executable_of(path@, windows),
{
    if windows {
        String::from_str(path).concat("/bin/java.exe")
    } else {
        String::from_str(path).concat("/bin/java")
    }
}

/// The directories in which runtimes are commonly installed.
pub fn common_paths(windows: bool) -> (paths: Vec<String>)
    ensures
        text_views(paths@) == common_paths_of(windows),
{
    let mut paths: Vec<String> = Vec::new();
    if windows {
        paths.push(String::from_str("C:\\Program Files\\Java"));
        paths.push(String::from_str("C:\\Program Files (x86)\\Java"));
    } else {
        paths.push(String::from_str("/usr/lib/jvm"));
        paths.push(String::from_str("/usr/java"));
        paths.push(String::from_str("/opt/java"));
    }
    assert(text_views(paths@) =~= common_paths_of(windows));
    paths
}

/// What is looked at for each directory of the search path `path_var`.
pub fn path_candidates(path_var: &str, windows: bool) -> (candidates: Vec<String>)
    ensures
        text_views(candidates@) == candidates_of(path_var@, windows),
{
    let sep = if windows {
        ';'
    } else {
        ':'
    };
    let dirs = split_text(path_var, sep);
    let ghost all = split(path_var@, sep);
    let mut candidates: Vec<String> = Vec::new();
    let mut i: usize = 0;
    while i < dirs.len()
        invariant
            text_views(dirs@) == all,
            i <= dirs@.len(),
            candidates@.len() == i,
            forall|k: int| 0 <= k < i ==> (#[trigger] candidates@[k])@ == all[k] + "/java"@,
        decreases dirs.len() - i,
    {
        let candidate = dirs[i].clone().concat("/java");
        assert(all[i as int] == dirs@[i as int]@);
        candidates.push(candidate);
        i = i + 1;
    }
    assert(text_views(candidates@) =~= candidates_of(path_var@, windows));
    candidates
}

/// The version that a runtime reports in `output`, or `Unknown`.
pub fn version_of_output(output: &str) -> (version: String)
    ensures
        version@ == version_in(output@),
{
    let all = lines_of(output);
    let first = if all.len() > 0 {
        assert(text_views(all@)[0] == all@[0]@);
        all[0].clone()
    } else {
        String::new()
    };
    match second_piece_of(first.as_str(), '"') {
        Some(v) => v,
        None => String::from_str("Unknown"),
    }
}

/// The version that a runtime reports in `output`. Fails with `NoOutput` if
/// `output` has no line, and with `InvalidFormat` if its first line has no
/// double quote.
pub fn get_java_version(output: &str) -> (r: Result<String, VersionError>)
    ensures
        match r {
            Ok(v) => lines(output@).len() > 0 && second_piece(lines(output@)[0], '"') == Some(v@),
            Err(VersionError::NoOutput) => lines(output@).len() == 0,
            Err(VersionError::InvalidFormat) => lines(output@).len() > 0 && second_piece(
                lines(output@)[0],
                '"',
            ) is None,
        },
{
    let all = lines_of(output);
    if all.len() == 0 {
        return Err(VersionError::NoOutput);
    }
    assert(text_views(all@)[0] == all@[0]@);
    match second_piece_of(all[0].as_str(), '"') {
        Some(v) => Ok(v),
        None => Err(VersionError::InvalidFormat),
    }
}

impl JavaInfo {
    /// The record of the runtime `executable` that could be run and printed
    /// `output`: valid, with the version that the output reports.
    pub fn from_output(executable: String, output: &str) -> (info: JavaInfo)
        ensures
            info@ == (JavaInfoView {
                version: version_in(output@),
                path: executable@,
                is_valid: true,
            }),
    {
        JavaInfo { version: version_of_output(output), path: executable, is_valid: true }
    }
}

} // verus!
