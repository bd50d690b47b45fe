use server_supervisor::commands::java::{
    common_paths, get_java_version, java_executable, path_candidates, version_of_output,
    JavaInfo, VersionError,
};
use server_supervisor::text::{contains_text, lines_of, second_piece_of, split_text};
use server_supervisor::utils::parse_java_version;

const OPENJDK: &str = "openjdk version \"17.0.9\" 2023-10-17\nOpenJDK Runtime Environment (build 17.0.9+9)\nOpenJDK 64-Bit Server VM (build 17.0.9+9, mixed mode, sharing)\n";
const ORACLE: &str = "java version \"1.8.0_391\"\r\nJava(TM) SE Runtime Environment (build 1.8.0_391-b13)\r\nJava HotSpot(TM) Client VM (build 25.391-b13, mixed mode)\r\n";

const SAMPLES: [&str; 14] = [
    "",
    "\n",
    "a",
    "a\n",
    "a\nb",
    "a\r\nb\r\n",
    "a\rb\n",
    "\r",
    "a\r",
    "\r\n\r\n",
    "\n\na\n\n",
    "x\"y\"z\"",
    "tab\tand space \u{a0}é\n",
    "a:b::c:",
];

#[test]
fn split_agrees_with_the_standard_library() {
    for s in SAMPLES {
        for sep in ['\n', ':', '"', 'a', 'é'] {
            let expected: Vec<String> = s.split(sep).map(|p| p.to_string()).collect();
            assert_eq!(split_text(s, sep), expected, "{:?} at {:?}", s, sep);
        }
    }
}

#[test]
fn split_yields_one_piece_more_than_separators() {
    assert_eq!(split_text("", ','), vec![""]);
    assert_eq!(split_text(",", ','), vec!["", ""]);
    assert_eq!(split_text("a,b,,c", ','), vec!["a", "b", "", "c"]);
    assert_eq!(split_text("abc", ','), vec!["abc"]);
}

#[test]
fn lines_agree_with_the_standard_library() {
    for s in SAMPLES {
        let expected: Vec<String> = s.lines().map(|p| p.to_string()).collect();
        assert_eq!(lines_of(s), expected, "{:?}", s);
    }
    assert_eq!(lines_of(OPENJDK).len(), 3);
    assert_eq!(lines_of(ORACLE)[0], "java version \"1.8.0_391\"");
}

#[test]
fn contains_agrees_with_the_standard_library() {
    let patterns = ["", "a", "b\n", "version", "\r\n", "é", "zz", "a\nb", "64-Bit"];
    for s in SAMPLES.iter().chain([OPENJDK, ORACLE].iter()) {
        for p in patterns {
            assert_eq!(contains_text(s, p), s.contains(p), "{:?} in {:?}", p, s);
        }
    }
    assert!(contains_text("", ""));
    assert!(!contains_text("ab", "abc"));
    assert!(contains_text("xxab", "ab"));
}

#[test]
fn second_piece_is_the_text_between_the_first_two_separators() {
    assert_eq!(second_piece_of("a\"b\"c", '"'), Some("b".to_string()));
    assert_eq!(second_piece_of("a\"b", '"'), Some("b".to_string()));
    assert_eq!(second_piece_of("a\"", '"'), Some("".to_string()));
    assert_eq!(second_piece_of("abc", '"'), None);
    assert_eq!(second_piece_of("", '"'), None);
    for s in SAMPLES {
        assert_eq!(second_piece_of(s, '"'), s.split('"').nth(1).map(|p| p.to_string()));
    }
}

#[test]
fn version_is_read_from_the_first_line() {
    assert_eq!(version_of_output(OPENJDK), "17.0.9");
    assert_eq!(version_of_output(ORACLE), "1.8.0_391");
    assert_eq!(version_of_output(""), "Unknown");
    assert_eq!(version_of_output("no quotes here\nversion \"9\""), "Unknown");
    assert_eq!(version_of_output("\nversion \"9\""), "Unknown");
    assert_eq!(version_of_output("x \"unterminated"), "unterminated");
}

#[test]
fn get_java_version_tells_its_failures_apart() {
    assert_eq!(get_java_version(OPENJDK), Ok("17.0.9".to_string()));
    assert_eq!(get_java_version(""), Err(VersionError::NoOutput));
    assert_eq!(get_java_version("java: command not found"), Err(VersionError::InvalidFormat));
    assert_eq!(get_java_version("\n\"late\""), Err(VersionError::InvalidFormat));
    assert_eq!(VersionError::NoOutput.message(), "No version output");
    assert_eq!(VersionError::InvalidFormat.message(), "Invalid version format");
}

#[test]
fn discovery_records_are_valid_and_carry_the_executable() {
    let info: JavaInfo = JavaInfo::from_output("/opt/jdk/bin/java".to_string(), OPENJDK);
    assert_eq!(info.version, "17.0.9");
    assert_eq!(info.path, "/opt/jdk/bin/java");
    assert!(info.is_valid);
    let unknown = JavaInfo::from_output("j".to_string(), "garbage");
    assert_eq!(unknown.version, "Unknown");
    assert!(unknown.is_valid);
}

#[test]
fn executables_and_candidates() {
    assert_eq!(java_executable("/usr/lib/jvm/java-17", false), "/usr/lib/jvm/java-17/bin/java");
    assert_eq!(java_executable("C:\\Java\\jdk", true), "C:\\Java\\jdk/bin/java.exe");
    assert_eq!(java_executable("", false), "/bin/java");
    assert_eq!(
        path_candidates("/usr/bin:/bin::/opt/x", false),
        vec!["/usr/bin/java", "/bin/java", "/java", "/opt/x/java"]
    );
    assert_eq!(path_candidates("C:\\a;D:\\b", true), vec!["C:\\a/java", "D:\\b/java"]);
    assert_eq!(path_candidates("C:\\a;D:\\b", false), vec!["C/java", "\\a;D/java", "\\b/java"]);
    assert_eq!(path_candidates("", false), vec!["/java"]);
    assert_eq!(common_paths(false), vec!["/usr/lib/jvm", "/usr/java", "/opt/java"]);
    assert_eq!(
        common_paths(true),
        vec!["C:\\Program Files\\Java", "C:\\Program Files (x86)\\Java"]
    );
}

#[test]
fn version_output_is_parsed_line_by_line() {
    let open = parse_java_version(OPENJDK).unwrap();
    assert_eq!(open.version, "17.0.9");
    assert_eq!(open.vendor, "OpenJDK");
    assert!(open.is_64bit);
    assert_eq!(open.path, "java");
    assert_eq!(open.heap_size, 0);
    let oracle = parse_java_version(ORACLE).unwrap();
    assert_eq!(oracle.version, "1.8.0_391");
    assert_eq!(oracle.vendor, "Oracle");
    assert!(!oracle.is_64bit);
}

#[test]
fn version_output_without_version_or_vendor_is_nothing() {
    assert!(parse_java_version("").is_none());
    assert!(parse_java_version("openjdk version \"17\"").is_none());
    assert!(parse_java_version("OpenJDK Runtime Environment").is_none());
    // A later line that says `version` without a quote takes the version away.
    assert!(parse_java_version("openjdk version \"17\"\nOpenJDK version unknown").is_none());
    // The last line that names a vendor decides; Oracle wins within a line.
    let both = parse_java_version("java version \"8\" OpenJDK Java(TM)\nOpenJDK").unwrap();
    assert_eq!(both.vendor, "OpenJDK");
    let one = parse_java_version("java version \"8\" OpenJDK Java(TM) 64-Bit").unwrap();
    assert_eq!(one.vendor, "Oracle");
    assert!(one.is_64bit);
}
