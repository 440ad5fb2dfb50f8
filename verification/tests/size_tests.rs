use rmz::errors::RmzError;
use rmz::utils::duration_parser::{parse_duration, span_of_parts};
use rmz::utils::size_format::format_size;
use rmz::utils::size_parser::{parse_size, parse_size_suffixed, parse_upper_size, size_of_parts};
use rmz::utils::walk::{EntryKind, WalkEntry};

#[test]
fn list_test_format_size() {
    assert_eq!(rmz::commands::list::format_size(100), "100 B");
    assert_eq!(rmz::commands::list::format_size(1024), "1.0 KB");
    assert_eq!(rmz::commands::list::format_size(1536), "1.5 KB");
    assert_eq!(rmz::commands::list::format_size(1024 * 1024), "1.0 MB");
    assert_eq!(rmz::commands::list::format_size(1024 * 1024 * 1024), "1.0 GB");
}

#[test]
fn purge_test_parse_size() {
    assert_eq!(rmz::commands::purge::parse_size("1024").unwrap(), 1024);
    assert_eq!(rmz::commands::purge::parse_size("1KB").unwrap(), 1024);
    assert_eq!(rmz::commands::purge::parse_size("1MB").unwrap(), 1024 * 1024);
    assert_eq!(rmz::commands::purge::parse_size("1GB").unwrap(), 1024 * 1024 * 1024);
    assert_eq!(
        rmz::commands::purge::parse_size("1.5MB").unwrap(),
        (1.5 * 1024.0 * 1024.0) as u64
    );
    assert_eq!(rmz::commands::purge::parse_size("500B").unwrap(), 500);
}

#[test]
fn purge_test_format_size() {
    assert_eq!(rmz::commands::purge::format_size(512), "512 B");
    assert_eq!(rmz::commands::purge::format_size(1024), "1.0 KB");
    assert_eq!(rmz::commands::purge::format_size(1536), "1.5 KB");
    assert_eq!(rmz::commands::purge::format_size(1024 * 1024), "1.0 MB");
    assert_eq!(rmz::commands::purge::format_size(1024 * 1024 * 1024), "1.0 GB");
}

#[test]
fn status_test_format_size() {
    assert_eq!(rmz::commands::status::format_size(100), "100 B");
    assert_eq!(rmz::commands::status::format_size(1024), "1.0 KB");
    assert_eq!(rmz::commands::status::format_size(1536), "1.5 KB");
    assert_eq!(rmz::commands::status::format_size(1024 * 1024), "1.0 MB");
    assert_eq!(rmz::commands::status::format_size(1024 * 1024 * 1024), "1.0 GB");
}

#[test]
fn sizes_round_to_the_nearest_tenth() {
    assert_eq!(format_size(0), "0 B");
    assert_eq!(format_size(1023), "1023 B");
    // 1.25 and 1.75 lie half way: the even tenth is taken.
    assert_eq!(format_size(1280), "1.2 KB");
    assert_eq!(format_size(1792), "1.8 KB");
    assert_eq!(format_size(1100), "1.1 KB");
    // Just below the next unit the tenths reach 1024.0.
    assert_eq!(format_size(1024 * 1024 - 1), "1024.0 KB");
    assert_eq!(format_size(1024u64.pow(4)), "1.0 TB");
    assert_eq!(format_size(5 * 1024u64.pow(4) / 2), "2.5 TB");
    assert_eq!(format_size(u64::MAX), "16777216.0 TB");
}

#[test]
fn sizes_agree_with_binary_floating_point_on_common_values() {
    let samples: [u64; 30] = [
        1,
        999,
        1024,
        1025,
        1536,
        10_000,
        123_456,
        1_048_576,
        5_000_000,
        1_073_741_824,
        123_456_789_012,
        // Values half way between two tenths.
        1280,
        1792,
        2304,
        2816,
        1024 * 1024 + 256 * 1024,
        // Around the largest size that 53 bits hold, and beyond.
        9_007_199_254_740_991,
        9_007_199_254_740_992,
        9_007_199_254_740_993,
        9_007_199_254_740_995,
        9_007_474_132_647_937,
        9_007_474_132_647_935,
        32_769 * (1 << 38) + 1,
        32_771 * (1 << 38) - 1,
        (1 << 60) + (1 << 7),
        (1 << 60) + (1 << 7) + 1,
        (1 << 63) + (1 << 10),
        (1 << 63) + 3 * (1 << 10),
        u64::MAX - 1024,
        u64::MAX,
    ];
    for bytes in samples {
        let units = ["B", "KB", "MB", "GB", "TB"];
        let mut size = bytes as f64;
        let mut unit = 0;
        while size >= 1024.0 && unit < units.len() - 1 {
            size /= 1024.0;
            unit += 1;
        }
        let expected = if unit == 0 {
            format!("{} {}", bytes, units[0])
        } else {
            format!("{:.1} {}", size, units[unit])
        };
        assert_eq!(format_size(bytes), expected);
    }
}

#[test]
fn sizes_with_a_unit_after_the_number() {
    assert_eq!(parse_size_suffixed("1tb"), Ok(1024u64.pow(4)));
    assert_eq!(parse_size_suffixed("0.5kb"), Ok(512));
    assert_eq!(parse_size_suffixed(".5KB"), Ok(512));
    assert_eq!(parse_size_suffixed("5.KB"), Ok(5120));
    assert_eq!(parse_size_suffixed("0.0009765625KB"), Ok(1));
    assert_eq!(parse_size_suffixed("0.001KB"), Ok(1));
    assert_eq!(parse_size_suffixed("0.0009KB"), Ok(0));
    // Every unit at the end is taken off, one after the other.
    assert_eq!(parse_upper_size("2KBKB"), Ok(2048));
    assert_eq!(parse_upper_size("7BB"), Ok(7));
    // More than 64 bits hold is cut down to what they hold.
    assert_eq!(parse_size_suffixed("99999999999999999999TB"), Ok(u64::MAX));
    assert_eq!(parse_size_suffixed("18446744073709551615"), Ok(u64::MAX));
    assert_eq!(parse_size_suffixed("16777216TB"), Ok(u64::MAX));
    assert_eq!(
        parse_size_suffixed(""),
        Err(RmzError::InvalidSizeFormat { text: String::new() })
    );
    assert_eq!(
        parse_size_suffixed("kb"),
        Err(RmzError::InvalidSizeFormat { text: String::from("KB") })
    );
    assert_eq!(
        parse_size_suffixed("1 KB"),
        Err(RmzError::InvalidSizeFormat { text: String::from("1 KB") })
    );
    assert_eq!(
        parse_size_suffixed("."),
        Err(RmzError::InvalidSizeFormat { text: String::from(".") })
    );
    // The uppercase form is what the caller says it is.
    assert_eq!(parse_upper_size("1kb"), Err(RmzError::InvalidSizeFormat { text: String::from("1kb") }));
}

#[test]
fn sizes_with_number_and_unit_in_any_place() {
    assert_eq!(parse_size("10MB"), Ok(10 * 1024 * 1024));
    assert_eq!(parse_size("1.5GB"), Ok(1024 * 1024 * 1024 * 3 / 2));
    assert_eq!(parse_size("  2 k  "), Ok(2048));
    assert_eq!(parse_size("3 Mb"), Ok(3 * 1024 * 1024));
    assert_eq!(parse_size("1t"), Ok(1024u64.pow(4)));
    assert_eq!(parse_size("42"), Ok(42));
    assert_eq!(parse_size("42b"), Ok(42));
    // Digits and points make the number wherever they stand.
    assert_eq!(parse_size("1K5B"), Ok(15 * 1024));
    assert_eq!(parse_size(""), Err(RmzError::EmptyInput));
    assert_eq!(parse_size("   "), Err(RmzError::EmptyInput));
    assert_eq!(parse_size("MB"), Err(RmzError::InvalidNumber { text: String::new() }));
    assert_eq!(parse_size("1.2.3MB"), Err(RmzError::InvalidNumber { text: String::from("1.2.3") }));
    assert_eq!(parse_size("10XB"), Err(RmzError::InvalidUnit { text: String::from("XB") }));
    assert_eq!(parse_size("1e3"), Err(RmzError::InvalidUnit { text: String::from("e") }));
    // The parts are what the caller says they are.
    assert_eq!(size_of_parts("2", "kb", "KB"), Ok(2048));
    assert_eq!(size_of_parts("2", "KB", "KB"), Err(RmzError::InvalidUnit { text: String::from("KB") }));
}

#[test]
fn spans_of_time() {
    assert_eq!(parse_duration("30d"), Ok(30 * 86_400));
    assert_eq!(parse_duration("7w"), Ok(49 * 86_400));
    assert_eq!(parse_duration("2 Months"), Ok(60 * 86_400));
    assert_eq!(parse_duration("1y"), Ok(365 * 86_400));
    assert_eq!(parse_duration(" 3 days "), Ok(3 * 86_400));
    assert_eq!(parse_duration("0d"), Ok(0));
    assert_eq!(parse_duration(""), Err(RmzError::EmptyDuration));
    assert_eq!(parse_duration("d"), Err(RmzError::InvalidDurationNumber { text: String::new() }));
    assert_eq!(parse_duration("5"), Err(RmzError::InvalidDurationUnit { text: String::new() }));
    assert_eq!(parse_duration("5h"), Err(RmzError::InvalidDurationUnit { text: String::from("h") }));
    // The longest span is a thousandth of the largest count of seconds.
    assert_eq!(parse_duration("106751991167d"), Ok(106_751_991_167 * 86_400));
    assert_eq!(
        parse_duration("106751991168d"),
        Err(RmzError::InvalidDurationNumber { text: String::from("106751991168") })
    );
    assert_eq!(
        parse_duration("99999999999999999999999d"),
        Err(RmzError::InvalidDurationNumber { text: String::from("99999999999999999999999") })
    );
    assert_eq!(span_of_parts("2", "week", "WEEK"), Ok(14 * 86_400));
    assert_eq!(span_of_parts("2x", "d", "d"), Err(RmzError::InvalidDurationNumber { text: String::from("2x") }));
}

fn file(size: u64) -> WalkEntry {
    WalkEntry { kind: EntryKind::File, size }
}

fn dir() -> WalkEntry {
    WalkEntry { kind: EntryKind::Directory, size: 4096 }
}

#[test]
fn test_count_directory_contents() {
    // 2 files + 1 subdir + 1 file in subdir
    let entries = vec![file(7), file(7), dir(), file(7)];
    let count = rmz::commands::delete::count_directory_contents(&entries);
    assert_eq!(count, 4);
}

#[test]
fn delete_test_calculate_directory_size() {
    // 5 + 10 + 3 = 18 bytes
    let entries = vec![file(5), file(10), dir(), file(3)];
    let size = rmz::commands::delete::calculate_directory_size(&entries);
    assert_eq!(size, 18);
}

#[test]
fn config_test_calculate_directory_size() {
    let entries = vec![file(5), file(5)];
    let size = rmz::commands::config::calculate_directory_size(&entries);
    assert_eq!(size, 10);
}

#[test]
fn test_count_files_in_directory() {
    // 2 files in root + 1 file in subdir
    let entries = vec![file(7), file(7), dir(), file(7)];
    let count = rmz::commands::config::count_files_in_directory(&entries);
    assert_eq!(count, 3);
}

#[test]
fn directory_sizes_stop_at_the_largest_number() {
    let entries = vec![file(u64::MAX), file(1), WalkEntry { kind: EntryKind::Other, size: 9 }];
    assert_eq!(rmz::utils::walk::calculate_directory_size(&entries), u64::MAX);
    assert_eq!(rmz::utils::walk::calculate_directory_size(&Vec::new()), 0);
}

#[test]
fn parsed_sizes_agree_with_binary_floating_point_on_common_values() {
    let samples = [
        ("1.1", "GB", 1u64 << 30),
        ("0.3", "KB", 1 << 10),
        ("2.75", "MB", 1 << 20),
        ("0.1", "TB", 1 << 40),
        ("100", "MB", 1 << 20),
        (".5", "GB", 1 << 30),
        ("12.5", "KB", 1 << 10),
        ("999.999", "GB", 1 << 30),
        ("0", "B", 1),
        ("1.9", "B", 1),
        ("3.14159", "MB", 1 << 20),
    ];
    for (number, unit, multiplier) in samples {
        let expected = (number.parse::<f64>().unwrap() * multiplier as f64) as u64;
        assert_eq!(parse_size_suffixed(&format!("{}{}", number, unit)), Ok(expected));
        assert_eq!(parse_size(&format!("{} {}", number, unit)), Ok(expected));
    }
}

#[test]
fn every_digit_of_a_fraction_counts() {
    // Two to the power of minus thirty, written out in full.
    let exact = "0.000000000931322574615478515625GB";
    let under = "0.000000000931322574615478515624GB";
    assert_eq!(parse_size(exact), Ok(1));
    assert_eq!(parse_size(under), Ok(0));
    assert_eq!(parse_size_suffixed(exact), Ok(1));
    assert_eq!(parse_size_suffixed(under), Ok(0));
    assert_eq!(parse_upper_size(exact), Ok(1));
    assert_eq!(rmz::commands::purge::parse_size(exact), Ok(1));
    assert_eq!(rmz::commands::purge::parse_size(under), Ok(0));
    assert_eq!(rmz::commands::config::parse_size(exact), Ok(1));
    assert_eq!(rmz::commands::config::parse_size(under), Ok(0));
    // Two to the power of minus forty, with the terabyte.
    assert_eq!(parse_size("0.0000000000009094947017729282379150390625TB"), Ok(1));
    assert_eq!(parse_size("0.0000000000009094947017729282379150390624TB"), Ok(0));
    assert_eq!(parse_size("2.0000000000009094947017729282379150390625TB"), Ok(2 * 1024u64.pow(4) + 1));
    // Forty nines after the point stay under one.
    assert_eq!(parse_size("0.9999999999999999999999999999999999999999KB"), Ok(1023));
    assert_eq!(parse_size("0.5000000000000000000000000000000000000000KB"), Ok(512));
    assert_eq!(parse_size("0.0000000000000000000000000000000000000000MB"), Ok(0));
    assert_eq!(parse_size("1.0009765625KB"), Ok(1025));
    assert_eq!(parse_size("1.0009765624KB"), Ok(1024));
}
