use server_supervisor::text::{is_whitespace, parse_u64, trim_text};
use server_supervisor::utils::{cpu_name, memory_bytes, os_name, SystemInfo, GIBIBYTE};

#[test]
fn whitespace_agrees_with_the_standard_library() {
    let mut c = 0u32;
    while c <= 0x10ffff {
        if let Some(ch) = char::from_u32(c) {
            assert_eq!(is_whitespace(ch), ch.is_whitespace(), "U+{:04X}", c);
        }
        c += 1;
    }
}

#[test]
fn trim_agrees_with_the_standard_library() {
    let samples = [
        "",
        " ",
        " \t\r\n",
        "a",
        "  a  ",
        "\u{a0}a b\u{3000}",
        " a\u{2003}b ",
        "\n\nIntel(R) Core(TM) i7  \r",
        "é ",
        "\u{200b}x\u{200b}",
    ];
    for s in samples {
        assert_eq!(trim_text(s), s.trim(), "{:?}", s);
    }
}

#[test]
fn numbers_parse_as_in_the_standard_library() {
    let samples = [
        "",
        "+",
        "-",
        "0",
        "+0",
        "007",
        "42",
        "+42",
        "-42",
        "4 2",
        " 42",
        "42 ",
        "4a",
        "++1",
        "1+",
        "18446744073709551615",
        "18446744073709551616",
        "+18446744073709551615",
        "99999999999999999999999",
        "000000000000000000000000000001",
        "٣",
        "1.5",
    ];
    for s in samples {
        assert_eq!(parse_u64(s), s.parse::<u64>().ok(), "{:?}", s);
    }
    assert_eq!(parse_u64("25565"), Some(25565));
    assert_eq!(parse_u64("18446744073709551616"), None);
}

#[test]
fn processor_name_is_the_second_line() {
    assert_eq!(cpu_name("Name  \r\nIntel(R) Core(TM) i7-9700K CPU @ 3.60GHz  \r\n\r\n"), "Intel(R) Core(TM) i7-9700K CPU @ 3.60GHz");
    assert_eq!(cpu_name("Name"), "");
    assert_eq!(cpu_name(""), "");
    assert_eq!(cpu_name("Name\n   \n"), "");
}

#[test]
fn memory_is_the_sum_of_the_capacities() {
    let out = "Capacity    \r\n8589934592  \r\n8589934592  \r\n\r\n";
    assert_eq!(memory_bytes(out), Some(17179869184));
    assert_eq!(memory_bytes("Capacity\nnot a number\n12\n+3\n-4\n"), Some(15));
    // The heading is skipped even if it writes a number.
    assert_eq!(memory_bytes("100\n1\n"), Some(1));
    assert_eq!(memory_bytes(""), Some(0));
    assert_eq!(memory_bytes("Capacity"), Some(0));
    assert_eq!(memory_bytes("h\n18446744073709551615\n"), Some(u64::MAX));
    assert_eq!(memory_bytes("h\n18446744073709551615\n1\n"), None);
}

#[test]
fn operating_system_name_is_taken_from_its_line() {
    let out = "Host Name:                 BOX\r\nOS Name:                   Microsoft Windows 11 Pro\r\nOS Version:                10.0\r\n";
    assert_eq!(os_name(out), "Microsoft Windows 11 Pro");
    assert_eq!(os_name("nothing here"), "");
    assert_eq!(os_name("OS Name without colon"), "");
    assert_eq!(os_name("OS Name: a: b"), "a");
    assert_eq!(os_name("OS Name: first\nOS Name: second\nother: x"), "second");
    assert_eq!(os_name("x: OS Name"), "OS Name");
}

#[test]
fn summary_is_put_together_from_the_three_outputs() {
    let info = SystemInfo::from_outputs(
        Some("Name\nSome CPU\n"),
        Some("Capacity\n8589934592\n8589934592\n1073741823\n"),
        Some("OS Name: Some OS\n"),
    )
    .unwrap();
    assert_eq!(info.cpu, "Some CPU");
    assert_eq!(info.total_memory, 16);
    assert_eq!(info.os, "Some OS");
    assert_eq!(GIBIBYTE, 1024 * 1024 * 1024);
    let empty = SystemInfo::from_outputs(None, None, None).unwrap();
    assert_eq!(empty.cpu, "");
    assert_eq!(empty.total_memory, 0);
    assert_eq!(empty.os, "");
    assert!(SystemInfo::from_outputs(None, Some("h\n18446744073709551615\n1\n"), None).is_none());
}
