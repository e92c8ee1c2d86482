use findout::origin::api_origin;
use findout::metrics::{metric_row, metrics_append_text, METRICS_HEADER};
use findout::popup::{
    hide_after_focus_loss, is_current_generation, next_generation, popup_position,
    reset_after_grace, select_theme, tray_wait_step, PopupGeometry, TrayWait,
    TRAY_WAIT_ATTEMPTS, POPUP_HEIGHT, POPUP_WIDTH, THEME_DARK,
    THEME_LIGHT, THEME_RETRO,
};
use findout::system::{
    os_release_name, package_manager, preferred_package_manager, system_context_line,
    PACKAGE_MANAGER_COUNT,
};

#[test]
fn keeps_popup_inside_workarea() {
    let geometry = PopupGeometry {
        cursor_x: 1_910,
        cursor_y: 1_070,
        work_x: 0,
        work_y: 0,
        work_width: 1_920,
        work_height: 1_080,
    };
    let position = popup_position(&geometry, POPUP_WIDTH, POPUP_HEIGHT);
    assert_eq!(position, (1_360, 760));
}

#[test]
fn popup_centres_on_the_pointer_when_it_fits() {
    let geometry = PopupGeometry {
        cursor_x: 1_000,
        cursor_y: 500,
        work_x: 100,
        work_y: 40,
        work_width: 1_820,
        work_height: 1_000,
    };
    assert_eq!(popup_position(&geometry, 560, 320), (720, 340));
    let corner = PopupGeometry { cursor_x: 0, cursor_y: 0, ..geometry };
    assert_eq!(popup_position(&corner, 560, 320), (100, 40));
    let tiny = PopupGeometry { work_width: 300, work_height: 200, ..geometry };
    assert_eq!(popup_position(&tiny, 560, 320), (100, 40));
}

#[test]
fn only_the_latest_generation_is_current() {
    let mut generation = 0_u64;
    let first = next_generation(&mut generation);
    assert_eq!(first, 1);
    assert!(is_current_generation(&generation, first));
    let second = next_generation(&mut generation);
    assert!(!is_current_generation(&generation, first));
    assert!(is_current_generation(&generation, second));
    let mut last = u64::MAX;
    assert_eq!(next_generation(&mut last), 0);
}

#[test]
fn api_origin_is_checked() {
    assert_eq!(
        api_origin(Some("https://api.example.com/".to_owned()), None, false).unwrap(),
        "https://api.example.com"
    );
    assert_eq!(
        api_origin(None, Some("https://built.example.com"), false).unwrap(),
        "https://built.example.com"
    );
    assert_eq!(
        api_origin(None, None, true).unwrap(),
        "http://127.0.0.1:8787"
    );
    assert_eq!(
        api_origin(None, None, false).err().unwrap(),
        "FINDOUT_API_ORIGIN must be set when building a release"
    );
    assert_eq!(
        api_origin(Some("not a url".to_owned()), None, false).err().unwrap(),
        "FINDOUT_API_ORIGIN is not a valid URL"
    );
    assert_eq!(
        api_origin(Some("mailto:a@b.c".to_owned()), None, false).err().unwrap(),
        "FINDOUT_API_ORIGIN must include a host"
    );
    assert_eq!(
        api_origin(Some("https://a.example/?x=1".to_owned()), None, false).err().unwrap(),
        "FINDOUT_API_ORIGIN cannot contain a query or fragment"
    );
    assert_eq!(
        api_origin(Some("http://a.example".to_owned()), None, false).err().unwrap(),
        "FINDOUT_API_ORIGIN must use HTTPS in release builds"
    );
    assert!(api_origin(Some("http://a.example".to_owned()), None, true).is_ok());
    assert!(api_origin(Some("http://localhost:3000".to_owned()), None, false).is_ok());
    assert!(api_origin(Some("http://dev.localhost".to_owned()), None, false).is_ok());
    assert!(api_origin(Some("http://[::1]:3000".to_owned()), None, false).is_err());
}

#[test]
fn os_release_name_reads_the_first_name_line() {
    let content = "PRETTY_NAME=\"Arch\"\r\nNAME=\"Arch Linux\"\r\nNAME=\"Other\"\n";
    assert_eq!(os_release_name(content), Some("Arch Linux".to_owned()));
    assert_eq!(os_release_name("NAME=Debian\n"), None);
    assert_eq!(os_release_name(""), None);
    assert_eq!(os_release_name("NAME=\"Fedora\"\"\""), Some("Fedora".to_owned()));
}

#[test]
fn system_context_joins_what_is_known() {
    assert_eq!(
        system_context_line(Some("Arch Linux".to_owned()), Some("pacman"), Some("/bin/zsh")),
        "Arch Linux | pkg:pacman | shell:/bin/zsh"
    );
    assert_eq!(system_context_line(None, None, Some("")), "");
    assert_eq!(system_context_line(None, Some("apt-get"), None), "pkg:apt-get");
}

#[test]
fn a_hidden_popup_resets_only_after_the_latest_hide() {
    let mut generation = 7_u64;
    let mut requests = 3_u64;
    let hidden = next_generation(&mut generation);
    assert!(reset_after_grace(&generation, hidden, &mut requests, false));
    assert_eq!(requests, 4);
    // Shown again before the grace period ended: nothing is reset.
    next_generation(&mut generation);
    assert!(!reset_after_grace(&generation, hidden, &mut requests, false));
    assert_eq!(requests, 4);
    // Still the latest hide, but the popup is visible again.
    let hidden = next_generation(&mut generation);
    assert!(!reset_after_grace(&generation, hidden, &mut requests, true));
    assert_eq!(requests, 5);
}

#[test]
fn focus_loss_hides_unless_focus_returned() {
    let generation = 4_u64;
    assert!(hide_after_focus_loss(false, &generation, 4));
    assert!(!hide_after_focus_loss(true, &generation, 4));
    assert!(!hide_after_focus_loss(false, &generation, 3));
}

#[test]
fn unknown_themes_fall_back_to_light() {
    assert_eq!(select_theme(THEME_DARK), THEME_DARK);
    assert_eq!(select_theme(THEME_RETRO), THEME_RETRO);
    assert_eq!(select_theme(THEME_LIGHT), THEME_LIGHT);
    assert_eq!(select_theme(9), THEME_LIGHT);
    assert_eq!(select_theme(-1), THEME_LIGHT);
}

#[test]
fn package_managers_are_taken_in_order() {
    assert_eq!(PACKAGE_MANAGER_COUNT, 7);
    assert_eq!(package_manager(0), "pacman");
    assert_eq!(package_manager(6), "emerge");
    let mut found = [false; 7];
    assert_eq!(preferred_package_manager(&found), None);
    found[5] = true;
    assert_eq!(preferred_package_manager(&found), Some("xbps-install"));
    found[1] = true;
    assert_eq!(preferred_package_manager(&found), Some("apt-get"));
}

#[test]
fn metric_rows_hold_only_timings_and_flags() {
    assert_eq!(
        METRICS_HEADER,
        "timestamp_unix_ms,roundtrip_ms,outcome,searched,force_search,had_image"
    );
    assert_eq!(
        metric_row(1_700_000_000_123, 812, "ok", true, false, true),
        "1700000000123,812,ok,true,false,true"
    );
    assert_eq!(metric_row(0, 0, "error", false, true, false), "0,0,error,false,true,false");
}

#[test]
fn tray_wait_gives_up_after_thirty_attempts() {
    assert_eq!(TRAY_WAIT_ATTEMPTS, 30);
    assert!(matches!(tray_wait_step(0, true), TrayWait::Ready));
    assert!(matches!(tray_wait_step(29, true), TrayWait::Ready));
    assert!(matches!(tray_wait_step(0, false), TrayWait::Retry));
    assert!(matches!(tray_wait_step(28, false), TrayWait::Retry));
    match tray_wait_step(29, false) {
        TrayWait::GiveUp(e) => assert_eq!(
            e,
            "No desktop tray host became ready; enable a StatusNotifier/AppIndicator tray host and restart FindOut"
        ),
        _ => panic!("the thirtieth failed attempt must give up"),
    }
}

#[test]
fn an_empty_log_gets_its_header_first() {
    assert_eq!(
        metrics_append_text(None, "1,2,ok,true,false,false"),
        format!("{METRICS_HEADER}\n1,2,ok,true,false,false\n")
    );
    assert_eq!(
        metrics_append_text(Some(0), "r"),
        format!("{METRICS_HEADER}\nr\n")
    );
    assert_eq!(metrics_append_text(Some(120), "r"), "r\n");
}
