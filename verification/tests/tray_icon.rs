use gatedesk::tray::{
    id_item, menu_items, service_label, sessions_key, shows_service_item, small_icon_size,
    start_query_session_count, start_tray, toggle_service, tooltip, tray_icon_image, tray_step,
    windows_icon_from_rgba, TrayAction, TrayInput, TrayItem, CLICK_DEBOUNCE_MS,
    DEFAULT_ICON_EDGE,
};

fn png(width: u32, height: u32, px: [u8; 4]) -> Vec<u8> {
    let img = image::RgbaImage::from_pixel(width, height, image::Rgba(px));
    let mut out = std::io::Cursor::new(Vec::new());
    img.write_to(&mut out, image::ImageFormat::Png).unwrap();
    out.into_inner()
}

#[test]
fn tray_runs_unless_hidden_off_macos() {
    assert!(start_tray("", false));
    assert!(start_tray("N", false));
    assert!(!start_tray("Y", false));
    assert!(start_tray("Y", true));
}

#[test]
fn small_icon_size_falls_back_to_16() {
    assert_eq!(DEFAULT_ICON_EDGE, 16);
    assert_eq!(small_icon_size(20, 24), (20, 24));
    assert_eq!(small_icon_size(0, -3), (16, 16));
}

#[test]
fn windows_icon_bits_swap_red_and_blue() {
    let rgba = vec![1, 2, 3, 4, 5, 6, 7, 8];
    let bits = windows_icon_from_rgba(&rgba, 2, 1).ok().unwrap();
    assert_eq!(bits.bgra, vec![3, 2, 1, 4, 7, 6, 5, 8]);
    assert_eq!(bits.mask_len, 4);
    let bits = windows_icon_from_rgba(&vec![0u8; 33 * 2 * 4], 33, 2).ok().unwrap();
    assert_eq!(bits.mask_len, 16);
    assert_eq!(windows_icon_from_rgba(&rgba, 3, 1).err().unwrap(), "icon data is not 3x1");
    assert_eq!(windows_icon_from_rgba(&rgba, 0, 1).err().unwrap(), "icon data is not 0x1");
    assert_eq!(windows_icon_from_rgba(&rgba, 2147483648, 0).err().unwrap(), "icon data is not 2147483648x0");
    let bits = windows_icon_from_rgba(&rgba, 1, 1).ok().unwrap();
    assert_eq!(bits.bgra, vec![3, 2, 1, 4]);
    assert_eq!(
        windows_icon_from_rgba(&rgba, u32::MAX, u32::MAX).err().unwrap(),
        "icon data is not 4294967295x4294967295"
    );
    assert!(windows_icon_from_rgba(&rgba, 2147483647, 2147483647).is_err());
}

#[test]
fn tray_image_prefers_the_asset_and_resizes_on_windows() {
    let embedded = png(4, 4, [10, 20, 30, 255]);
    let asset = png(3, 3, [200, 100, 50, 128]);
    let img = tray_icon_image(&embedded, None, None).ok().unwrap();
    assert_eq!((img.width, img.height), (4, 4));
    assert_eq!(img.rgba.len(), 64);
    assert_eq!(&img.rgba[0..4], &[10, 20, 30, 255]);
    let img = tray_icon_image(&embedded, Some(&asset), None).ok().unwrap();
    assert_eq!((img.width, img.height), (3, 3));
    assert_eq!(&img.rgba[0..4], &[200, 100, 50, 128]);
    let img = tray_icon_image(&embedded, Some(&asset), Some((3, 3))).ok().unwrap();
    assert_eq!((img.width, img.height, img.rgba.len()), (3, 3, 36));
    let img = tray_icon_image(&embedded, None, Some((2, 2))).ok().unwrap();
    assert_eq!((img.width, img.height, img.rgba.len()), (2, 2, 16));
    let img = tray_icon_image(&embedded, Some(b"not a png"), None).ok().unwrap();
    assert_eq!((img.width, img.height), (4, 4));
}

#[test]
fn no_tray_image_without_the_embedded_icon() {
    let asset = png(3, 3, [1, 2, 3, 4]);
    assert_eq!(tray_icon_image(b"junk", Some(&asset), None).err().unwrap(), "Failed to open icon path");
}

#[test]
fn menu_and_labels() {
    assert_eq!(service_label("Y"), "Enable service");
    assert_eq!(service_label(""), "Stop service");
    assert_eq!(toggle_service("Y"), ("", "Stop service"));
    assert_eq!(toggle_service(""), ("Y", "Enable service"));
    assert!(shows_service_item(""));
    assert!(!shows_service_item("Y"));
    assert_eq!(menu_items(true), vec![TrayItem::Id, TrayItem::ToggleService, TrayItem::Exit]);
    assert_eq!(menu_items(false), vec![TrayItem::Id, TrayItem::Exit]);
    assert_eq!(id_item("ID:", "123 456 789"), "ID: 123 456 789");
}

#[test]
fn tooltip_texts() {
    assert_eq!(sessions_key(3), "{3} sessions");
    assert_eq!(tooltip(0, "GateDesk", "Service is running", "Ready", "unused"), "GateDesk Service is running");
    assert_eq!(tooltip(2, "GateDesk", "Service is running", "Ready", "2 sessions"), "GateDesk - Ready\n2 sessions");
}

#[test]
fn session_counts_are_passed_on_when_they_change() {
    assert!(!start_query_session_count(0, 0));
    assert!(start_query_session_count(0, 2));
    assert!(start_query_session_count(2, 0));
}

#[test]
fn tray_event_loop_decisions() {
    assert_eq!(CLICK_DEBOUNCE_MS, 1000);
    assert!(matches!(tray_step(TrayInput::Started { hide_tray_option: "Y".to_string() }, true), TrayAction::Ignore));
    assert!(matches!(tray_step(TrayInput::Started { hide_tray_option: "".to_string() }, false), TrayAction::ShowIcon));
    assert!(matches!(
        tray_step(TrayInput::ServiceItemClicked { stop_service_option: "Y".to_string() }, true),
        TrayAction::SetStopService { value: "", label: "Stop service" }
    ));
    assert!(matches!(
        tray_step(TrayInput::ServiceItemClicked { stop_service_option: "".to_string() }, false),
        TrayAction::SetStopService { value: "Y", label: "Enable service" }
    ));
    assert!(matches!(tray_step(TrayInput::ExitClicked, true), TrayAction::ExitApplication));
    assert!(matches!(tray_step(TrayInput::ExitClicked, false), TrayAction::ExitLoop));
    assert!(matches!(tray_step(TrayInput::OpenClicked, false), TrayAction::OpenWindow));
    assert!(matches!(tray_step(TrayInput::IconLeftClicked { since_last_click_ms: 999 }, true), TrayAction::SkipTurn));
    assert!(matches!(tray_step(TrayInput::IconLeftClicked { since_last_click_ms: 1000 }, true), TrayAction::RememberClick));
    assert!(matches!(tray_step(TrayInput::IconLeftClicked { since_last_click_ms: 0 }, false), TrayAction::Ignore));
    assert!(matches!(tray_step(TrayInput::SessionCount { count: 4 }, true), TrayAction::SetTooltip { count: 4 }));
    assert!(matches!(tray_step(TrayInput::SessionCount { count: 4 }, false), TrayAction::Ignore));
}

#[test]
fn toggling_twice_restores_the_service_state() {
    for start in ["Y", "", "N"] {
        let (once, label) = toggle_service(start);
        assert_eq!(label, service_label(once));
        assert_ne!(once == "Y", start == "Y");
        let (twice, _) = toggle_service(once);
        assert_eq!(twice == "Y", start == "Y");
    }
}
