use qyoobs_vnc::probe::{Monitor, Probe, Window};
use qyoobs_vnc::wire::{parse_probe, serialize_probe};

fn sample_probe() -> Probe {
    Probe {
        windows: vec![
            Window {
                id: 0x1a2b3c,
                x: -5,
                y: 12,
                width: 800,
                height: 600,
                name: Some("Files \u{2014} ~/mail".to_string()),
                wm_name: None,
            },
            Window {
                id: u64::MAX,
                x: i32::MIN,
                y: i32::MAX,
                width: 2,
                height: 2,
                name: None,
                wm_name: Some("π \u{1F600}".to_string()),
            },
        ],
        monitors: vec![
            Monitor { id: 0, x: 0, y: 0, width: 1920, height: 1080 },
            Monitor { id: 1, x: i16::MIN, y: i16::MAX, width: 640, height: 480 },
        ],
    }
}

fn assert_probes_equal(a: &Probe, b: &Probe) {
    assert_eq!(a.windows.len(), b.windows.len());
    for (wa, wb) in a.windows.iter().zip(b.windows.iter()) {
        assert_eq!(wa.id, wb.id);
        assert_eq!(wa.x, wb.x);
        assert_eq!(wa.y, wb.y);
        assert_eq!(wa.width, wb.width);
        assert_eq!(wa.height, wb.height);
        assert_eq!(wa.name, wb.name);
        assert_eq!(wa.wm_name, wb.wm_name);
    }
    assert_eq!(a.monitors.len(), b.monitors.len());
    for (ma, mb) in a.monitors.iter().zip(b.monitors.iter()) {
        assert_eq!(ma, mb);
    }
}

#[test]
fn wire_round_trip() {
    let p = sample_probe();
    let text = serialize_probe(&p);
    let q = parse_probe(&text).expect("wire text must parse");
    assert_probes_equal(&p, &q);
}

#[test]
fn wire_round_trip_empty() {
    let p = Probe { windows: vec![], monitors: vec![] };
    let text = serialize_probe(&p);
    assert_eq!(text.len(), 32);
    let q = parse_probe(&text).expect("wire text must parse");
    assert_probes_equal(&p, &q);
}

#[test]
fn wire_text_is_hex_groups() {
    let p = Probe {
        windows: vec![],
        monitors: vec![Monitor { id: 0, x: 0, y: 0, width: 100, height: 50 }],
    };
    let text = serialize_probe(&p);
    assert_eq!(text.len(), 7 * 16);
    assert!(text.chars().all(|c| c.is_ascii_hexdigit()));
    // The window count comes first, then the monitor count.
    assert_eq!(&text[0..16], "0000000000000000");
    assert_eq!(&text[16..32], "0000000000000001");
    // Monitor id 0 carries the 32-bit bias.
    assert_eq!(&text[32..48], "0000000080000000");
}

#[test]
fn parse_rejects_damaged_text() {
    let p = sample_probe();
    let text = serialize_probe(&p);
    // Non-hex character.
    let mut bad = text.clone();
    bad.replace_range(0..1, "g");
    assert!(parse_probe(&bad).is_none());
    // Truncated to a partial group.
    assert!(parse_probe(&text[..text.len() - 1]).is_none());
    // Truncated whole groups.
    assert!(parse_probe(&text[..32]).is_none());
    // Trailing data.
    let mut long = text.clone();
    long.push_str("0000000000000000");
    assert!(parse_probe(&long).is_none());
    // The undamaged text parses fine.
    assert!(parse_probe(&text).is_some());
}

#[test]
fn parse_rejects_empty_text() {
    // An empty record still has its two counts; nothing shorter parses.
    assert!(parse_probe("").is_none());
    assert!(parse_probe("0000000000000000").is_none());
}
