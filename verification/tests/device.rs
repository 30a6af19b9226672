use brook_controller_relay::device::{format_device_id, parse_device_id, IdError};
use brook_controller_relay::device_list::{collect_hid_devices, RawDevice};

#[test]
fn parse_ids() {
    assert_eq!(parse_device_id("0x0f0d"), Ok(0x0f0d));
    assert_eq!(parse_device_id("0202"), Ok(0x0202));
    assert_eq!(parse_device_id("0x0x12"), Ok(0x12));
    assert_eq!(parse_device_id("0xABcd"), Ok(0xabcd));
    assert_eq!(parse_device_id("+10"), Ok(16));
    assert_eq!(parse_device_id("-1"), Ok(-1));
    assert_eq!(parse_device_id("0x7fffffff"), Ok(i32::MAX));
    assert_eq!(parse_device_id("-80000000"), Ok(i32::MIN));
    assert_eq!(parse_device_id("00000000000000001"), Ok(1));
}

#[test]
fn parse_id_errors() {
    assert_eq!(parse_device_id(""), Err(IdError::Empty));
    assert_eq!(parse_device_id("0x"), Err(IdError::Empty));
    assert_eq!(parse_device_id("+"), Err(IdError::InvalidDigit));
    assert_eq!(parse_device_id("-"), Err(IdError::InvalidDigit));
    assert_eq!(parse_device_id("0X12"), Err(IdError::InvalidDigit));
    assert_eq!(parse_device_id("12g"), Err(IdError::InvalidDigit));
    assert_eq!(parse_device_id(" 12"), Err(IdError::InvalidDigit));
    assert_eq!(parse_device_id("0x80000000"), Err(IdError::PosOverflow));
    assert_eq!(parse_device_id("-80000001"), Err(IdError::NegOverflow));
    assert_eq!(parse_device_id("800000000z"), Err(IdError::PosOverflow));
}

#[test]
fn parse_agrees_with_std() {
    for text in ["0x0f0d", "", "0x", "+", "-", "-0", "7fffffff", "80000000", "-80000000", "-80000001", "1g", "é", "0x0x0x"] {
        let expected = i32::from_str_radix(text.trim_start_matches("0x"), 16);
        let got = parse_device_id(text);
        match (expected, got) {
            (Ok(a), Ok(b)) => assert_eq!(a, b),
            (Err(e), Err(g)) => assert_eq!(e.to_string(), g.message()),
            (e, g) => panic!("{:?} vs {:?} for {:?}", e, g, text),
        }
    }
}

#[test]
fn format_ids() {
    assert_eq!(format_device_id(0x0f0d), "0x0f0d");
    assert_eq!(format_device_id(1), "0x0001");
    assert_eq!(format_device_id(0x12345), "0x12345");
    assert_eq!(format_device_id(-1), "0xffffffff");
    assert_eq!(format_device_id(0), "0x0000");
}

#[test]
fn formatted_ids_parse_back() {
    for v in [0, 1, 0xf0d, 0x202, 0xffff, 0x10000, i32::MAX] {
        assert_eq!(parse_device_id(&format_device_id(v)), Ok(v));
    }
}

fn raw(name: &str, vid: i32, pid: i32) -> RawDevice {
    RawDevice { name: name.to_string(), vid, pid }
}

#[test]
fn device_list_filters_sorts_and_dedups() {
    let devices = vec![
        raw("Keyboard", 0x05ac, 0x0250),
        raw("", 0x1234, 0x0001),
        raw("Brook", 0x0f0d, 0x0202),
        raw("Zero", 0, 0),
        raw("Brook", 0x0f0d, 0x0202),
        raw("Apple Trackpad", 0x05ac, 0x0265),
        raw("Brook", 0x0f0d, 0x0203),
        raw("Keyboard", 0x05ac, 0x0250),
    ];
    let out = collect_hid_devices(&devices);
    let view: Vec<(String, String, String)> =
        out.iter().map(|d| (d.name.clone(), d.vid.clone(), d.pid.clone())).collect();
    assert_eq!(
        view,
        vec![
            ("Apple Trackpad".to_string(), "0x05ac".to_string(), "0x0265".to_string()),
            ("Brook".to_string(), "0x0f0d".to_string(), "0x0202".to_string()),
            ("Brook".to_string(), "0x0f0d".to_string(), "0x0203".to_string()),
            ("Keyboard".to_string(), "0x05ac".to_string(), "0x0250".to_string()),
        ]
    );
}

#[test]
fn device_list_dedup_only_removes_neighbours() {
    let devices = vec![raw("A", 1, 1), raw("B", 2, 2), raw("C", 1, 1), raw("A", 3, 0)];
    let out = collect_hid_devices(&devices);
    let names: Vec<&str> = out.iter().map(|d| d.name.as_str()).collect();
    assert_eq!(names, vec!["A", "A", "B", "C"]);
    assert_eq!(out[1].vid, "0x0003");
    assert_eq!(out[1].pid, "0x0000");
}
