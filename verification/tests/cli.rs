use qyoobs_vnc::cli::{
    menu_items, parse_u32_from_str, probe_program_ident, selector_for_choice, ConnectArgs,
    MenuChoice,
};
use qyoobs_vnc::probe::{Monitor, Probe, Window};
use qyoobs_vnc::selector::ProtocolError;

fn args(monitor: Option<u32>, window: Option<u32>, choose: bool) -> ConnectArgs {
    ConnectArgs {
        target_vmname: "vmA".to_string(),
        monitor,
        window,
        choose,
    }
}

#[test]
fn parse_decimal_and_hex_ids() {
    assert_eq!(parse_u32_from_str("26"), Ok(26));
    assert_eq!(parse_u32_from_str("0"), Ok(0));
    assert_eq!(parse_u32_from_str("0x1a2b3c"), Ok(0x1a2b3c));
    assert_eq!(parse_u32_from_str("0xFFFFFFFF"), Ok(u32::MAX));
    assert_eq!(parse_u32_from_str("4294967295"), Ok(u32::MAX));
}

#[test]
fn parse_rejects_bad_ids() {
    assert_eq!(parse_u32_from_str(""), Err(ProtocolError::BadNumber));
    assert_eq!(parse_u32_from_str("0x"), Err(ProtocolError::BadNumber));
    assert_eq!(parse_u32_from_str("0xg"), Err(ProtocolError::BadNumber));
    assert_eq!(parse_u32_from_str("12a"), Err(ProtocolError::BadNumber));
    assert_eq!(parse_u32_from_str("-1"), Err(ProtocolError::BadNumber));
    assert_eq!(parse_u32_from_str("4294967296"), Err(ProtocolError::BadNumber));
    assert_eq!(parse_u32_from_str("0x100000000"), Err(ProtocolError::BadNumber));
}

#[test]
fn hex_window_id_selects_that_window() {
    // `connect vmA --window 0x1a2b3c` encodes window id 0x1a2b3c.
    let id = parse_u32_from_str("0x1a2b3c").unwrap();
    let a = args(None, Some(id), false);
    assert_eq!(a.region_selection(None), Ok("window1715004".to_string()));
    assert_eq!(
        a.qrexec_program_ident(None),
        Ok("qyoobs.VNC+window1715004".to_string())
    );
}

#[test]
fn region_selection_defaults_to_display() {
    assert_eq!(args(None, None, false).region_selection(None), Ok("display".to_string()));
}

#[test]
fn region_selection_monitor() {
    assert_eq!(
        args(Some(2), None, false).region_selection(None),
        Ok("monitor2".to_string())
    );
}

#[test]
fn selection_methods_are_mutually_exclusive() {
    let choice = MenuChoice::Display;
    assert_eq!(
        args(Some(1), Some(2), false).region_selection(Some(&choice)),
        Err(ProtocolError::MutuallyExclusive)
    );
    assert_eq!(
        args(Some(1), None, true).region_selection(Some(&choice)),
        Err(ProtocolError::MutuallyExclusive)
    );
    assert_eq!(
        args(None, Some(2), true).region_selection(Some(&choice)),
        Err(ProtocolError::MutuallyExclusive)
    );
    assert_eq!(
        args(Some(1), Some(2), true).region_selection(Some(&choice)),
        Err(ProtocolError::MutuallyExclusive)
    );
    // And the error is raised before any selector is produced.
    assert_eq!(
        args(Some(1), Some(2), false).qrexec_program_ident(Some(&choice)),
        Err(ProtocolError::MutuallyExclusive)
    );
}

#[test]
fn target_vmname_is_kept() {
    assert_eq!(args(None, None, false).target_vmname(), "vmA");
}

#[test]
fn probe_ident() {
    assert_eq!(probe_program_ident(), "qyoobs.VNC+probe");
}

fn sample_probe() -> Probe {
    Probe {
        windows: vec![Window {
            id: 12,
            x: 0,
            y: 0,
            width: 800,
            height: 600,
            name: Some("Files".to_string()),
            wm_name: Some("files".to_string()),
        }],
        monitors: vec![Monitor { id: 0, x: 0, y: 0, width: 1024, height: 768 }],
    }
}

#[test]
fn menu_lists_display_then_windows_then_monitors() {
    let items = menu_items(sample_probe());
    assert_eq!(items.len(), 3);
    assert!(matches!(items[0], MenuChoice::Display));
    assert!(matches!(&items[1], MenuChoice::Window(w) if w.id == 12));
    assert!(matches!(&items[2], MenuChoice::Monitor(m) if m.id == 0));
}

#[test]
fn menu_labels() {
    let items = menu_items(sample_probe());
    assert_eq!(items[0].label(), "Whole display");
    assert_eq!(items[1].label(), "Window 12: Files (files)");
    assert_eq!(items[2].label(), "Monitor 0: 1024x768 +0+0");
}

#[test]
fn choice_maps_to_selector() {
    let items = menu_items(sample_probe());
    assert_eq!(selector_for_choice(&items[0]), "display");
    assert_eq!(selector_for_choice(&items[1]), "window12");
    assert_eq!(selector_for_choice(&items[2]), "monitor0");
}

#[test]
fn interactive_choice_drives_selection() {
    let items = menu_items(sample_probe());
    let a = args(None, None, true);
    assert_eq!(a.region_selection(Some(&items[1])), Ok("window12".to_string()));
    assert_eq!(
        a.qrexec_program_ident(Some(&items[2])),
        Ok("qyoobs.VNC+monitor0".to_string())
    );
}
