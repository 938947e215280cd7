use qyoobs_vnc::probe::{build_probe, window_from_raw, Monitor, RawWindow, Window};

fn raw(id: u64, width: i32, height: i32, class: i32, map_state: i32) -> RawWindow {
    RawWindow {
        id,
        x: 0,
        y: 0,
        width,
        height,
        class,
        map_state,
        name: None,
        wm_name: None,
    }
}

const INPUT_OUTPUT: i32 = 1;
const INPUT_ONLY: i32 = 2;
const IS_UNMAPPED: i32 = 0;
const IS_VIEWABLE: i32 = 2;

#[test]
fn admits_ordinary_window() {
    let w = window_from_raw(raw(7, 800, 600, INPUT_OUTPUT, IS_VIEWABLE)).unwrap();
    assert_eq!(w.id, 7);
    assert_eq!(w.width, 800);
    assert_eq!(w.height, 600);
}

#[test]
fn keeps_names_and_geometry() {
    let mut r = raw(9, 640, 480, INPUT_OUTPUT, IS_VIEWABLE);
    r.x = -5;
    r.y = 10;
    r.name = Some("Files".to_string());
    r.wm_name = Some("files \u{2014} home".to_string());
    let w = window_from_raw(r).unwrap();
    assert_eq!(w.x, -5);
    assert_eq!(w.y, 10);
    assert_eq!(w.name.as_deref(), Some("Files"));
    assert_eq!(w.wm_name.as_deref(), Some("files \u{2014} home"));
}

#[test]
fn rejects_input_only_window() {
    assert!(window_from_raw(raw(1, 800, 600, INPUT_ONLY, IS_VIEWABLE)).is_none());
}

#[test]
fn rejects_unviewable_window() {
    assert!(window_from_raw(raw(1, 800, 600, INPUT_OUTPUT, IS_UNMAPPED)).is_none());
}

#[test]
fn rejects_decoy_window() {
    assert!(window_from_raw(raw(1, 1, 1, INPUT_OUTPUT, IS_VIEWABLE)).is_none());
    assert!(window_from_raw(raw(1, 1, 600, INPUT_OUTPUT, IS_VIEWABLE)).is_none());
    assert!(window_from_raw(raw(1, 800, 1, INPUT_OUTPUT, IS_VIEWABLE)).is_none());
}

#[test]
fn probe_filters_decoys_and_keeps_order() {
    // Two viewable windows and one 1x1 decoy: exactly the two survive.
    let raws = vec![
        raw(10, 1024, 768, INPUT_OUTPUT, IS_VIEWABLE),
        raw(11, 1, 1, INPUT_OUTPUT, IS_VIEWABLE),
        raw(12, 300, 200, INPUT_OUTPUT, IS_VIEWABLE),
    ];
    let monitors = vec![Monitor { id: 0, x: 0, y: 0, width: 1920, height: 1080 }];
    let p = build_probe(raws, monitors);
    assert_eq!(p.windows.len(), 2);
    assert_eq!(p.windows[0].id, 10);
    assert_eq!(p.windows[1].id, 12);
    assert_eq!(p.monitors.len(), 1);
    assert_eq!(p.monitors[0].width, 1920);
    for w in &p.windows {
        assert!(w.width > 1 && w.height > 1);
    }
}

#[test]
fn window_label_formats() {
    let w = Window {
        id: 42,
        x: -3,
        y: 7,
        width: 800,
        height: 600,
        name: None,
        wm_name: None,
    };
    assert_eq!(w.to_string(), "42: Unknown window 800x600 -3+7");

    let named = Window { name: Some("Files".to_string()), ..w.clone() };
    assert_eq!(named.to_string(), "42: Files");

    let wm_only = Window { wm_name: Some("files".to_string()), ..w.clone() };
    assert_eq!(wm_only.to_string(), "42: files");

    let both = Window {
        name: Some("Files".to_string()),
        wm_name: Some("files".to_string()),
        ..w.clone()
    };
    assert_eq!(both.to_string(), "42: Files (files)");
}

#[test]
fn monitor_label_formats() {
    let m = Monitor { id: 1, x: 1920, y: 0, width: 1280, height: 1024 };
    assert_eq!(m.to_string(), "1: 1280x1024 +1920+0");
    let n = Monitor { id: 0, x: -100, y: -1, width: 640, height: 480 };
    assert_eq!(n.to_string(), "0: 640x480 -100-1");
}
