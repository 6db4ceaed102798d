use autocapcut::config::{default_max_retries, default_notify_on_done, default_notify_sound, AppConfig};
use autocapcut::detect::{bgra_to_rgba, capture_screen_region, capture_window, match_to_screen, template_origin, TEMPLATE_SIZE};
use autocapcut::notification::{notify_batch_done, notify_project_done, send_test_notification};
use autocapcut::text::{
    ascii_lowercase, push_decimal, push_hex_lower, push_hex_upper_fixed, push_signed, push_zero_padded, text_contains,
    text_ends_with, text_eq, text_starts_with,
};
use autocapcut::tray::{stop_item_enabled, tray_tooltip, TRAY_ID};
use autocapcut::validation::{
    is_capcut_installed, is_coord_in_screen, name_mentions_capcut, validate_config, InstallProbe, ValidationProbe,
    VirtualScreen,
};

fn screen() -> Option<VirtualScreen> {
    Some(VirtualScreen { x: -1920, y: 0, width: 3840, height: 1080 })
}

fn good_probe() -> ValidationProbe {
    ValidationProbe {
        project_folder_exists: true,
        project_folder_read_error: None,
        export_create_error: None,
        export_writable: Some(true),
        screen: screen(),
        capcut_installed: true,
    }
}

fn errors_of(project: &str, export: &str, first: [i32; 2], export_box: [i32; 2], names: usize, probe: &ValidationProbe) -> Vec<(String, String)> {
    let names: Vec<String> = (0..names).map(|i| format!("p{}", i)).collect();
    let r = validate_config(project, export, first, export_box, &names, probe);
    assert_eq!(r.ok, r.errors.is_empty());
    r.errors.into_iter().map(|e| (e.field, e.message)).collect()
}

fn pair(a: &str, b: &str) -> (String, String) {
    (a.to_string(), b.to_string())
}

#[test]
fn a_complete_configuration_passes() {
    let r = validate_config("C:/p", "C:/e", [100, 200], [300, 400], &vec!["a".to_string()], &good_probe());
    assert!(r.ok);
    assert!(r.errors.is_empty());
}

#[test]
fn every_check_reports_in_order() {
    let probe = ValidationProbe {
        project_folder_exists: false,
        project_folder_read_error: None,
        export_create_error: Some("denied".to_string()),
        export_writable: Some(false),
        screen: screen(),
        capcut_installed: false,
    };
    let errs = errors_of("C:/missing", "C:/e", [0, 0], [5000, 10], 0, &probe);
    assert_eq!(
        errs,
        vec![
            pair("project_folder", "Thư mục không tồn tại: C:/missing"),
            pair("export_folder", "Không thể tạo thư mục export: denied"),
            pair("export_folder", "Thư mục export không có quyền ghi"),
            pair("first_project_coords", "Chưa calibrate tọa độ Project (Tọa độ XY)"),
            pair("export_box_coords", "Tọa độ Export (5000,10) nằm ngoài màn hình"),
            pair("capcut", "Không tìm thấy CapCut Desktop. Vui lòng cài đặt CapCut trước."),
            pair("project_names", "Chưa chọn project nào để render"),
        ]
    );
}

#[test]
fn empty_folders_and_uncalibrated_export() {
    let errs = errors_of("", "", [-5, 7], [0, 0], 1, &good_probe());
    assert_eq!(
        errs,
        vec![
            pair("project_folder", "Chưa chọn thư mục Projects"),
            pair("export_folder", "Chưa chọn thư mục Export"),
            pair("export_box_coords", "Chưa calibrate tọa độ Export Path"),
        ]
    );
    let no_screen = ValidationProbe { screen: None, ..good_probe() };
    let errs = errors_of("a", "b", [-5, 7], [1, 1], 1, &no_screen);
    assert_eq!(errs, vec![pair("first_project_coords", "Tọa độ Project (-5,7) nằm ngoài màn hình")]);
}

#[test]
fn coordinates_on_the_virtual_screen() {
    assert!(is_coord_in_screen([-1920, 0], screen()));
    assert!(is_coord_in_screen([1919, 1079], screen()));
    assert!(!is_coord_in_screen([1920, 5], screen()));
    assert!(!is_coord_in_screen([0, 1080], screen()));
    assert!(is_coord_in_screen([1, 1], None));
    assert!(!is_coord_in_screen([0, 1], None));
}

#[test]
fn capcut_installation_is_found_by_file_or_registry() {
    let none = InstallProbe { program_files_exe: false, local_apps_dir: false, uninstall_entries: vec![] };
    assert!(!is_capcut_installed(&none));
    assert!(is_capcut_installed(&InstallProbe { program_files_exe: true, ..InstallProbe { program_files_exe: false, local_apps_dir: false, uninstall_entries: vec![] } }));
    assert!(is_capcut_installed(&InstallProbe { program_files_exe: false, local_apps_dir: true, uninstall_entries: vec![] }));
    let by_key = InstallProbe {
        program_files_exe: false,
        local_apps_dir: false,
        uninstall_entries: vec![("{1234}".to_string(), "Other".to_string()), ("CapCut_is1".to_string(), String::new())],
    };
    assert!(is_capcut_installed(&by_key));
    let by_name = InstallProbe {
        program_files_exe: false,
        local_apps_dir: false,
        uninstall_entries: vec![("{1234}".to_string(), "CAPCUT Desktop".to_string())],
    };
    assert!(is_capcut_installed(&by_name));
    let other = InstallProbe {
        program_files_exe: false,
        local_apps_dir: false,
        uninstall_entries: vec![("{1}".to_string(), "Cap Cut".to_string())],
    };
    assert!(!is_capcut_installed(&other));
    assert!(name_mentions_capcut("ByteDance CapCut"));
    assert!(!name_mentions_capcut("Capture"));
}

#[test]
fn settings_defaults() {
    assert_eq!(default_max_retries(), 2);
    assert!(default_notify_on_done());
    assert!(default_notify_sound());
    let c = AppConfig::default();
    assert_eq!(c.project_folder, "");
    assert_eq!(c.first_project_coords, [0, 0]);
    assert_eq!(c.max_retries, 0);
    assert!(!c.notify_on_done && !c.notify_sound && !c.wizard_completed);
}

#[test]
fn captured_pixels_become_rgba() {
    let mut px = vec![1, 2, 3, 4, 5, 6, 7, 8, 9, 10];
    bgra_to_rgba(&mut px);
    assert_eq!(px, vec![3, 2, 1, 255, 7, 6, 5, 255, 9, 10]);
    let mut empty: Vec<u8> = vec![];
    bgra_to_rgba(&mut empty);
    assert!(empty.is_empty());
}

#[test]
fn screen_region_capture() {
    assert!(capture_screen_region(0, 0, 0, 10, |_, _, _, _, _| Some(vec![0u8; 4])).is_none());
    let got = capture_screen_region(5, 6, 2, 1, |x, y, w, h, len| {
        assert_eq!((x, y, w, h, len), (5, 6, 2, 1, 8));
        Some(vec![10, 20, 30, 40, 50, 60, 70, 80])
    });
    assert_eq!(got, Some((vec![30, 20, 10, 255, 70, 60, 50, 255], 2, 1)));
    assert!(capture_screen_region(0, 0, 1, 1, |_, _, _, _, _| None).is_none());
}

#[test]
fn window_capture() {
    assert!(capture_window(None, |_, _, _| Some(vec![])).is_none());
    assert!(capture_window(Some((10, 10, 10, 20)), |_, _, _| Some(vec![])).is_none());
    let got = capture_window(Some((100, 200, 101, 202)), |w, h, len| {
        assert_eq!((w, h, len), (1, 2, 8));
        Some(vec![1, 2, 3, 4, 5, 6, 7, 8])
    });
    assert_eq!(got, Some((vec![3, 2, 1, 255, 7, 6, 5, 255], 1, 2)));
}

#[test]
fn template_coordinates() {
    assert_eq!(TEMPLATE_SIZE, 48);
    assert_eq!(template_origin(100, 30), (76, 6));
    assert_eq!(match_to_screen(-1920, 10, 24, 24), (-1896, 34));
}

#[test]
fn notification_texts() {
    let n = notify_project_done("P1", true);
    assert_eq!(n.title, "CapCut Auto Tool");
    assert_eq!(n.body, "✅ Render xong: P1");
    assert_eq!(notify_project_done("P2", false).body, "❌ Render thất bại: P2");
    let n = notify_batch_done(5, 5, 0);
    assert_eq!(n.title, "CapCut Auto Tool — Render xong");
    assert_eq!(n.body, "🎉 Hoàn thành 5 project!");
    assert_eq!(notify_batch_done(5, 3, 2).body, "✅ 3 thành công  ❌ 2 thất bại / 5 tổng");
    let n = send_test_notification();
    assert_eq!(n.title, "CapCut Auto Tool");
    assert_eq!(n.body, "🔔 Thông báo hoạt động bình thường!");
}

#[test]
fn tray_follows_the_status() {
    assert_eq!(TRAY_ID, "main");
    assert_eq!(tray_tooltip("running"), "AutoCapcut — Đang render ▶");
    assert_eq!(tray_tooltip("stopping"), "AutoCapcut — Đang dừng ⏸");
    assert_eq!(tray_tooltip("error"), "AutoCapcut — Lỗi ❌");
    assert_eq!(tray_tooltip("idle"), "AutoCapcut — Idle");
    assert_eq!(tray_tooltip("whatever"), "AutoCapcut — Idle");
    assert!(stop_item_enabled("running"));
    assert!(!stop_item_enabled("stopping"));
}

#[test]
fn text_helpers() {
    let mut s = String::new();
    push_decimal(&mut s, 0);
    s.push('|');
    push_decimal(&mut s, 18446744073709551615);
    s.push('|');
    push_signed(&mut s, i64::MIN);
    s.push('|');
    push_zero_padded(&mut s, 7, 3);
    s.push('|');
    push_zero_padded(&mut s, 12345, 3);
    s.push('|');
    push_hex_lower(&mut s, &[0x00, 0xab, 0x0f]);
    s.push('|');
    push_hex_upper_fixed(&mut s, 0xBEEF, 8);
    assert_eq!(s, "0|18446744073709551615|-9223372036854775808|007|12345|00ab0f|0000BEEF");
    assert!(text_eq("a", "a") && !text_eq("a", "A"));
    assert!(text_starts_with("CapCut", "Cap") && !text_starts_with("Cap", "CapCut"));
    assert!(text_contains("xxNot Respondingxx", "Not Responding"));
    assert!(text_contains("abc", ""));
    assert!(!text_contains("ab", "abc"));
    assert!(text_ends_with("CAPCUT.EXE", "EXE") && !text_ends_with("exe", "EXE"));
    // full Unicode lower case where names are compared
    assert!(name_mentions_capcut("ĐÀ NẴNG CAPCUT"));
    assert_eq!(ascii_lowercase("ĐÀ Nẵng ABC"), "ĐÀ nẵng abc");
}

#[test]
fn an_unreadable_projects_folder_is_reported() {
    let probe = ValidationProbe { project_folder_read_error: Some("Access is denied.".to_string()), ..good_probe() };
    let errs = errors_of("C:/p", "C:/e", [100, 200], [300, 400], 1, &probe);
    assert_eq!(errs, vec![pair("project_folder", "Không đọc được thư mục Projects: Access is denied.")]);
}

#[test]
fn captures_of_the_wrong_size_are_dropped() {
    assert!(capture_screen_region(0, 0, 2, 1, |_, _, _, _, _| Some(vec![1, 2, 3, 4])).is_none());
    assert!(capture_window(Some((0, 0, 1, 1)), |_, _, _| Some(vec![1, 2, 3, 4, 5])).is_none());
    let (px, w, h) = capture_screen_region(0, 0, 2, 2, |_, _, _, _, len| Some(vec![7u8; len])).unwrap();
    assert_eq!((w, h, px.len()), (2, 2, 16));
    assert!(px.chunks(4).all(|p| p[3] == 255));
}
