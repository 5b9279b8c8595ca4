use regex::Regex;
use stale_macs::chars::basename;
use stale_macs::history::{load_history, parse_sighting};
use stale_macs::inventory::{normalize_mac, read_inventory_line, InventoryLine};
use stale_macs::months::{elapsed_months, months_between, DateError, YearMonth};
use stale_macs::report::{assess, check_line, find_stale, Config, ScanError, StaleHost};
use stale_macs::sighting::{Mac, SightingIndex};

fn lines(v: &[&str]) -> Vec<String> {
    v.iter().map(|s| s.to_string()).collect()
}

fn ym(year: i32, month: u32) -> YearMonth {
    YearMonth { year, month }
}

const HOST7: &str = "10.0.0.1%host7%a%b%c%d%e%f%AA-BB-CC-DD-EE-FF";

#[test]
fn new_record_is_empty() {
    let m = Mac::new();
    assert!(m.dates().is_empty());
    assert_eq!(m.count(), 0);
}

#[test]
fn window_keeps_last_two_in_order() {
    let mut m = Mac::new();
    for d in ["20180101_000000", "20180301_000000", "20180201_000000", "20180401_000000"] {
        m.record(d.to_string());
    }
    assert_eq!(m.dates(), &lines(&["20180201_000000", "20180401_000000"]));
    assert_eq!(m.count(), 4);
}

#[test]
fn index_keeps_records_apart() {
    let mut idx = SightingIndex::new();
    idx.record("AA".to_string(), "20180101_000000".to_string());
    idx.record("BB".to_string(), "20180201_000000".to_string());
    idx.record("AA".to_string(), "20180301_000000".to_string());
    idx.record("AA".to_string(), "20180401_000000".to_string());
    let a = idx.lookup("AA").unwrap();
    assert_eq!(a.dates(), &lines(&["20180301_000000", "20180401_000000"]));
    assert_eq!(a.count(), 3);
    assert_eq!(idx.lookup("BB").unwrap().count(), 1);
    assert!(idx.lookup("CC").is_none());
}

#[test]
fn months_between_dates() {
    let now = ym(2030, 1);
    assert_eq!(elapsed_months("20190101_000000", Some("20190701_000000"), now), Ok(6));
    assert_eq!(elapsed_months("20190701_000000", Some("20190101_000000"), now), Ok(-6));
}

#[test]
fn months_to_now() {
    // Whole calendar months: the day of the month plays no part.
    assert_eq!(elapsed_months("20180615_000000", None, ym(2019, 6)), Ok(12));
    assert_eq!(elapsed_months("20180615_000000", None, ym(2019, 5)), Ok(11));
}

#[test]
fn month_difference_ignores_days() {
    assert_eq!(months_between(ym(2018, 1), ym(2019, 1)), 12);
    assert_eq!(months_between(ym(2019, 12), ym(2018, 1)), -23);
    assert_eq!(elapsed_months("20180131_235959", Some("20180201_000000"), ym(2000, 1)), Ok(1));
}

#[test]
fn bad_stamps_are_reported() {
    let now = ym(2019, 6);
    assert_eq!(elapsed_months("20181301_000000", None, now), Err(DateError::BadStart));
    assert_eq!(elapsed_months("2018", None, now), Err(DateError::BadStart));
    assert_eq!(elapsed_months("20180101_000000", Some("x"), now), Err(DateError::BadEnd));
}

#[test]
fn clock_month_is_a_month() {
    let now = YearMonth::now();
    assert!(1 <= now.month && now.month <= 12);
    assert!(now.year >= 2000);
}

#[test]
fn sighting_lines_parse() {
    let r = parse_sighting("20180101_000000 sw1 gi0/1 vlan10 AABBCCDDEEFF extra");
    assert_eq!(r, Some(("20180101_000000".to_string(), "AABBCCDDEEFF".to_string())));
    let r = parse_sighting("20180101_000000\tsw1  p  v   AB,CD,,EF");
    assert_eq!(r, Some(("20180101_000000".to_string(), "AB,CD,".to_string())));
    assert_eq!(parse_sighting("20180101_000000 sw1 p v aabb"), None);
    assert_eq!(parse_sighting("20180101 sw1 p v AABB"), None);
    assert_eq!(parse_sighting("x20180101_000000 sw1 p v AABB"), None);
    assert_eq!(parse_sighting("20180101_000000 sw1 p AABB"), None);
    assert_eq!(parse_sighting(""), None);
}

#[test]
fn sighting_lines_follow_the_log_pattern() {
    let re = Regex::new(r"^(\d+)_\d+\s+\S+\s+\S+\s+\S+\s+(([0-9A-F]+,?)+)").unwrap();
    let samples = [
        "20180101_000000 sw1 gi0/1 vlan10 AABBCCDDEEFF",
        "20180101_000000 sw1 gi0/1 vlan10 AA,BB,CC rest",
        "20180101_000000 sw1 gi0/1 vlan10 AA,,BB",
        "20180101_000000 sw1 gi0/1 vlan10 AAbb",
        "20180101_000000x sw1 gi0/1 vlan10 AA",
        "20180101_ sw1 gi0/1 vlan10 AA",
        "_000000 sw1 gi0/1 vlan10 AA",
        "20180101_000000 sw1 gi0/1 vlan10 ,AA",
        "20180101_000000 sw1 gi0/1 vlan10",
        "20180101_000000\u{a0}sw1 gi0/1 vlan10 F0",
        "# 20180101_000000 sw1 gi0/1 vlan10 AA",
    ];
    for s in samples {
        let ours = parse_sighting(s);
        match re.captures(s) {
            Some(c) => {
                let (date, mac) = ours.expect(s);
                assert_eq!(date.split('_').next().unwrap(), &c[1]);
                assert_eq!(mac, &c[2]);
            }
            None => assert_eq!(ours, None, "{}", s),
        }
    }
}

#[test]
fn history_is_loaded_in_order() {
    let idx = load_history(&lines(&[
        "20180101_000000 sw1 p v AABBCCDDEEFF",
        "garbage",
        "20180201_000000 sw1 p v AABBCCDDEEFF",
        "20180301_000000 sw2 p v AABBCCDDEEFF",
        "20180401_000000 sw2 p v 001122334455",
    ]));
    let m = idx.lookup("AABBCCDDEEFF").unwrap();
    assert_eq!(m.dates(), &lines(&["20180201_000000", "20180301_000000"]));
    assert_eq!(m.count(), 3);
    assert_eq!(idx.lookup("001122334455").unwrap().count(), 1);
}

#[test]
fn mac_is_normalized() {
    assert_eq!(normalize_mac("aa-bb-cc-dd-ee-ff"), "AABBCCDDEEFF");
    assert_eq!(normalize_mac("00:1a:2B:3c:4D:5e"), "001A2B3C4D5E");
    assert_eq!(normalize_mac(""), "");
}

#[test]
fn inventory_fields_are_read() {
    let ex = Config::standard().exclusions;
    match read_inventory_line(HOST7, &ex) {
        InventoryLine::Host(e) => {
            assert_eq!(e.ip, "10.0.0.1");
            assert_eq!(e.host, "host7");
            assert_eq!(e.mac, "AA-BB-CC-DD-EE-FF");
        }
        _ => panic!("expected a host"),
    }
    assert!(matches!(read_inventory_line("1%2%3%4%5%6%7%8", &ex), InventoryLine::Malformed));
    assert!(matches!(read_inventory_line("# note", &ex), InventoryLine::Skipped));
    assert!(matches!(read_inventory_line(" \t ", &ex), InventoryLine::Skipped));
    assert!(matches!(read_inventory_line("", &ex), InventoryLine::Skipped));
    assert!(matches!(
        read_inventory_line("10.0.0.2%host42%a%b%c%d%e%f%AA", &ex),
        InventoryLine::Skipped
    ));
}

#[test]
fn standard_config() {
    let c = Config::standard();
    assert_eq!(c.threshold, 6);
    assert_eq!(c.exclusions, lines(&["host13", "host42"]));
}

#[test]
fn unsighted_mac_is_not_reported() {
    let now = ym(2030, 1);
    let r = find_stale(
        &lines(&["20100101_000000 sw p v 001122334455"]),
        &lines(&[HOST7, "10.0.0.9%h%a%b%c%d%e%f%00-11-22-33-44-56"]),
        &Config::standard(),
        now,
    );
    assert!(r.stale.is_empty());
    assert!(r.errors.is_empty());
}

#[test]
fn single_sighting_is_measured_to_now() {
    let idx = load_history(&lines(&["20180101_000000 sw p v AABBCCDDEEFF"]));
    let c = Config::standard();
    let s = check_line(HOST7, &c, &idx, ym(2018, 9)).unwrap().unwrap();
    assert_eq!(s.months, 8);
    assert_eq!(s.line(), "DING! 10.0.0.1 host7 AABBCCDDEEFF Months: 8");
    assert_eq!(check_line(HOST7, &c, &idx, ym(2018, 6)).unwrap().is_none(), true);
    let r = find_stale(
        &lines(&["20180101_000000 sw p v AABBCCDDEEFF"]),
        &lines(&[HOST7]),
        &c,
        ym(2018, 7),
    );
    assert_eq!(r.stale.len(), 1);
    assert_eq!(r.stale[0].months, 6);
}

#[test]
fn two_sightings_a_month_apart_not_reported() {
    let r = find_stale(
        &lines(&[
            "20180101_000000 sw p v AABBCCDDEEFF",
            "20180201_000000 sw p v AABBCCDDEEFF",
        ]),
        &lines(&[HOST7]),
        &Config::standard(),
        ym(2030, 1),
    );
    assert!(r.stale.is_empty());
    assert!(r.errors.is_empty());
}

#[test]
fn two_sightings_a_year_apart_reported() {
    let r = find_stale(
        &lines(&[
            "20180101_000000 sw p v AABBCCDDEEFF",
            "20190101_000000 sw p v AABBCCDDEEFF",
        ]),
        &lines(&[HOST7]),
        &Config::standard(),
        ym(2030, 1),
    );
    assert_eq!(r.stale.len(), 1);
    assert_eq!(r.stale[0].months, 12);
    assert_eq!(r.stale[0].line(), "DING! 10.0.0.1 host7 AABBCCDDEEFF Months: 12");
}

#[test]
fn skipped_lines_are_quiet() {
    let r = find_stale(
        &lines(&["20100101_000000 sw p v AABBCCDDEEFF"]),
        &lines(&[
            "# 10.0.0.1%host7%a%b%c%d%e%f%AA-BB-CC-DD-EE-FF",
            "",
            "   ",
            "10.0.0.1%host13%a%b%c%d%e%f%AA-BB-CC-DD-EE-FF",
            "10.0.0.1%host42",
        ]),
        &Config::standard(),
        ym(2030, 1),
    );
    assert!(r.stale.is_empty());
    assert!(r.errors.is_empty());
}

#[test]
fn scan_errors_carry_line_numbers() {
    let r = find_stale(
        &lines(&[
            "2018_1 sw p v AABBCCDDEEFF",
            "20180101_000000 sw p v 001122334455",
            "20181301_000000 sw p v 001122334455",
        ]),
        &lines(&[
            HOST7,
            "short%line",
            "10.0.0.3%h3%a%b%c%d%e%f%00-11-22-33-44-55",
        ]),
        &Config::standard(),
        ym(2030, 1),
    );
    assert!(r.stale.is_empty());
    assert_eq!(r.errors.len(), 3);
    assert_eq!(r.errors[0].line_number, 1);
    assert_eq!(r.errors[0].error, ScanError::BadDate(DateError::BadStart));
    assert_eq!(r.errors[1].line_number, 2);
    assert_eq!(r.errors[1].error, ScanError::Malformed);
    assert_eq!(r.errors[2].line_number, 3);
    assert_eq!(r.errors[2].error, ScanError::BadDate(DateError::BadEnd));
}

#[test]
fn assess_uses_the_threshold() {
    let idx = load_history(&lines(&["20180101_000000 sw p v AB"]));
    let s = assess(&idx, "ip", "h", "AB", ym(2018, 4), 3).unwrap().unwrap();
    assert_eq!((s.ip.as_str(), s.host.as_str(), s.mac.as_str(), s.months), ("ip", "h", "AB", 3));
    assert!(assess(&idx, "ip", "h", "AB", ym(2018, 4), 4).unwrap().is_none());
    assert!(assess(&idx, "ip", "h", "CD", ym(2018, 4), 0).unwrap().is_none());
}

#[test]
fn report_line_writes_negative_months() {
    let s = StaleHost {
        ip: "1.2.3.4".to_string(),
        host: "h".to_string(),
        mac: "AB".to_string(),
        months: -120,
    };
    assert_eq!(s.line(), "DING! 1.2.3.4 h AB Months: -120");
}

#[test]
fn basename_strips_suffix() {
    assert_eq!(basename("prog.exe", ".exe"), "prog");
    assert_eq!(basename("prog", ".exe"), "prog");
    assert_eq!(basename("/usr/bin/prog", ""), "/usr/bin/prog");
    assert_eq!(basename("é.rs", ".rs"), "é");
}
