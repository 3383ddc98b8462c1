use mouse_unlock::click::Click;
use mouse_unlock::keys::usb_listed;
use mouse_unlock::saved::load_config;
use mouse_unlock::screen::{
    action_lines, click_spans, info_lines, key, label, ui, Color, Content, Height, Line, Style,
};
use mouse_unlock::service::{
    config_display, config_path, daemon_candidates, find_daemon_binary, require_root, sh_result,
    Candidate,
};
use mouse_unlock::setup::{App, Mode};
use mouse_unlock::usb::{list_usb, read_sys, usb_device, SysNode, UsbDev};

fn app() -> App {
    App::new(load_config(None))
}

fn plain(lines: &[Line]) -> Vec<String> {
    lines.iter().map(|l| l.spans.iter().map(|s| s.text.as_str()).collect()).collect()
}

#[test]
fn root_decides_where_the_settings_are() {
    assert_eq!(config_path(true), "/etc/mouse-unlock.conf");
    assert_eq!(config_path(false), "mouse-unlock.conf");
    assert_eq!(config_display(true), "/etc/mouse-unlock.conf");
    assert_eq!(config_display(false), "mouse-unlock.conf (cwd, not root)");
    assert_eq!(require_root(true), Ok(()));
    assert_eq!(
        require_root(false),
        Err("needs root — re-run with: sudo mouse-unlock-setup".to_string())
    );
}

#[test]
fn a_failed_shell_command_is_named() {
    assert_eq!(sh_result("x y", true, "noise"), Ok(()));
    assert_eq!(
        sh_result("x y", false, "\n no such unit \n"),
        Err("`x y` failed: no such unit".to_string())
    );
}

#[test]
fn the_daemon_is_looked_for_in_order() {
    let names = |known: bool| -> Vec<String> {
        daemon_candidates(known)
            .iter()
            .map(|c| match c {
                Candidate::BesideProgram(n) => format!("./{n}"),
                Candidate::At(p) => p.clone(),
            })
            .collect()
    };
    let fixed = vec![
        "target/release/mouse-unlock".to_string(),
        "target/debug/mouse-unlock".to_string(),
        "/usr/local/bin/mouse-unlock".to_string(),
    ];
    assert_eq!(names(false), fixed);
    assert_eq!(names(true)[0], "./mouse-unlock");
    assert_eq!(names(true)[1..], fixed[..]);
    assert_eq!(find_daemon_binary(&vec![false, true, true]), Some(1));
    assert_eq!(find_daemon_binary(&vec![false, false]), None);
    assert_eq!(find_daemon_binary(&vec![]), None);
}

fn node(v: &[Option<&str>; 5]) -> SysNode {
    let s = |i: usize| v[i].map(|t| t.to_string());
    SysNode { id_vendor: s(0), id_product: s(1), serial: s(2), product: s(3), manufacturer: s(4) }
}

#[test]
fn attributes_are_trimmed_and_lowered() {
    assert_eq!(read_sys(&Some(" 046D\n".into())).as_deref(), Some("046d"));
    assert_eq!(read_sys(&Some(" \n".into())), None);
    assert_eq!(read_sys(&None), None);
}

#[test]
fn usb_devices_are_named() {
    let d = usb_device(&node(&[
        Some("046D\n"), Some("C52B\n"), Some("AB12\n"), Some("USB Receiver\n"), Some("Logitech\n"),
    ]))
    .unwrap();
    assert_eq!((d.id.as_str(), d.name.as_str()), ("046d:c52b:ab12", "usb receiver"));
    let d = usb_device(&node(&[Some("1"), Some("2"), Some(""), None, Some("Maker")])).unwrap();
    assert_eq!((d.id.as_str(), d.name.as_str()), ("1:2", "maker"));
    let d = usb_device(&node(&[Some("1"), Some("2"), None, Some(" "), None])).unwrap();
    assert_eq!((d.id.as_str(), d.name.as_str()), ("1:2", "unknown device"));
}

#[test]
fn interfaces_and_root_hubs_are_left_out() {
    let nodes = vec![
        node(&[None, Some("2"), None, None, None]),
        node(&[Some("1D6B\n"), Some("2"), None, None, None]),
        node(&[Some("1"), Some(" "), None, None, None]),
        node(&[Some("a"), Some("b"), None, None, None]),
        node(&[Some("c"), Some("d"), None, None, None]),
    ];
    let ids: Vec<String> = list_usb(&nodes).into_iter().map(|d| d.id).collect();
    assert_eq!(ids, vec!["a:b", "c:d"]);
    assert!(list_usb(&vec![]).is_empty());
}

#[test]
fn clicks_are_shown_in_color() {
    let s = click_spans(&vec![Click::Left, Click::Middle]);
    let shown: Vec<(&str, Style)> = s.iter().map(|s| (s.text.as_str(), s.style)).collect();
    assert_eq!(
        shown,
        vec![
            ("L", Style { fg: Some(Color::Green), bold: true }),
            (" ", Style { fg: None, bold: false }),
            ("M", Style { fg: Some(Color::Yellow), bold: true }),
        ]
    );
    assert!(click_spans(&vec![]).is_empty());
}

#[test]
fn labels_and_keys_stand_out() {
    let l = label("Pattern : ");
    assert_eq!(l.text, "Pattern : ");
    assert_eq!(l.style, Style { fg: Some(Color::Gray), bold: true });
    let k = key("Esc");
    assert_eq!(k.text, "[Esc]");
    assert_eq!(k.style, Style { fg: Some(Color::Yellow), bold: true });
}

#[test]
fn the_settings_are_shown() {
    let mut a = app();
    assert_eq!(
        plain(&info_lines(&a, true)),
        vec![
            "Pattern : (not set)",
            "Timeout : 2000 ms",
            "Unlock  : loginctl unlock-sessions",
            "USB 2FA : (none — optional)",
            "Lockout : after 5 fails, 2000–300000 ms backoff",
            "Config  : /etc/mouse-unlock.conf   root: yes",
        ]
    );
    a.existing_hash = Some("$secret".into());
    a.require_usb = Some("1:2".into());
    let lines = plain(&info_lines(&a, false));
    assert_eq!(lines[0], "Pattern : configured (hidden, hashed)");
    assert_eq!(lines[3], "USB 2FA : 1:2");
    assert_eq!(
        lines[5],
        "Config  : mouse-unlock.conf (cwd, not root)   root: no (sudo needed to install)"
    );
    a.new_pattern = Some(vec![Click::Left, Click::Right]);
    assert_eq!(plain(&info_lines(&a, true))[0], "Pattern : L R  (new, unsaved)");
    a.mode = Mode::Recording;
    assert_eq!(plain(&info_lines(&a, true))[0], "Pattern : (recording…)");
    a.record_buf = vec![Click::Middle];
    assert_eq!(plain(&info_lines(&a, true))[0], "Pattern : M");
    assert_eq!(info_lines(&a, true).len(), 6);
}

#[test]
fn what_is_edited_is_shown() {
    let mut a = app();
    a.input = "15".into();
    a.mode = Mode::EditTimeout;
    assert_eq!(plain(&info_lines(&a, true))[6], "New timeout (ms): 15_");
    a.mode = Mode::EditCmd;
    assert_eq!(plain(&info_lines(&a, true))[6], "New unlock cmd: 15_");
}

#[test]
fn the_actions_of_each_mode_are_shown() {
    let mut a = app();
    assert_eq!(
        plain(&action_lines(&a)),
        vec![
            "[r] Record pattern     [c] Clear pattern",
            "[t] Edit timeout       [u] Edit unlock cmd",
            "[k] USB factor (optional)",
            "[1] Save config        [2] Install service",
            "[3] Save + Install     [4] Uninstall service",
            "[q] Quit",
        ]
    );
    a.mode = Mode::Recording;
    assert_eq!(
        plain(&action_lines(&a)),
        vec![
            "Click in this window to add:  Left=L   Right=R   Middle=M",
            "[Backspace] undo   [Enter] save   [Esc] cancel",
        ]
    );
    for m in [Mode::EditTimeout, Mode::EditCmd] {
        a.mode = m;
        assert_eq!(
            plain(&action_lines(&a)),
            vec![
                "Type a value, then confirm.",
                "[Enter] confirm   [Esc] cancel   [Backspace] delete",
            ]
        );
    }
}

#[test]
fn the_devices_to_pick_from_are_shown() {
    let mut a = app();
    usb_listed(&mut a, vec![]);
    assert_eq!(
        plain(&action_lines(&a)),
        vec![
            "Select a USB device as the second factor:",
            "  (no USB devices detected)",
            "[c] disable USB factor   [Esc] cancel",
        ]
    );
    let many = (0..11).map(|i| UsbDev { id: format!("a:{i}"), name: format!("d{i}") }).collect();
    usb_listed(&mut a, many);
    let lines = plain(&action_lines(&a));
    assert_eq!(lines.len(), 11);
    assert_eq!(lines[1], "[1] d0  a:0");
    assert_eq!(lines[9], "[9] d8  a:8");
    assert_eq!(lines[10], "[c] disable USB factor   [Esc] cancel");
}

#[test]
fn there_are_three_panels() {
    let mut a = app();
    a.status = "two\nlines".into();
    let panels = ui(&a, true);
    let titles: Vec<&str> = panels.iter().map(|p| p.title.text.as_str()).collect();
    assert_eq!(titles, vec![" Mouse Unlock — Setup ", " Actions ", " Status "]);
    assert!(panels.iter().all(|p| p.title.style.bold));
    let heights: Vec<Height> = panels.iter().map(|p| p.height).collect();
    assert_eq!(heights, vec![Height::Exactly(11), Height::AtLeast(8), Height::Exactly(3)]);
    let wraps: Vec<bool> = panels.iter().map(|p| p.wrap).collect();
    assert_eq!(wraps, vec![false, true, true]);
    match &panels[2].content {
        Content::Text(t) => assert_eq!(t, "two\nlines"),
        Content::Lines(_) => panic!("the status is text"),
    }
}
