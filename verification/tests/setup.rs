use argon2::password_hash::{PasswordHash, Salt};
use argon2::{Algorithm, Argon2, Params, PasswordHasher, PasswordVerifier, Version};
use mouse_unlock::click::Click;
use mouse_unlock::daemon;
use mouse_unlock::hash::{hash_pattern, hash_under, hash_with_salt, verify_pattern};
use mouse_unlock::keys::{
    on_event, on_key, on_mouse, usb_listed, Event, KeyCode, MouseButton, MouseEventKind, Request,
};
use mouse_unlock::requests::{begin, begin_save, finish, Stage};
use mouse_unlock::saved::load_config;
use mouse_unlock::service::{Found, Job, Op};
use mouse_unlock::setup::{apply, App, Mode};
use mouse_unlock::usb::UsbDev;

fn app() -> App {
    App::new(load_config(None))
}

fn press(a: &mut App, keys: &str) {
    for c in keys.chars() {
        assert_eq!(on_key(a, KeyCode::Char(c)), None);
    }
}

fn click(a: &mut App, b: MouseButton) {
    on_mouse(a, MouseEventKind::Down(b));
}

fn direct_hash(pattern: &str, salt: &str) -> String {
    let params = Params::new(8 * 1024, 3, 1, None).unwrap();
    Argon2::new(Algorithm::Argon2id, Version::V0x13, params)
        .hash_password(pattern.as_bytes(), Salt::from_b64(salt).unwrap())
        .unwrap()
        .to_string()
}

const SALT: &str = "AAECAwQFBgcICQoLDA0ODw";

#[test]
fn a_hash_under_a_salt_is_that_of_argon2() {
    let h = hash_with_salt("LLRRL", SALT).unwrap();
    assert_eq!(h, direct_hash("LLRRL", SALT));
    assert!(h.starts_with("$argon2id$v=19$m=8192,t=3,p=1$AAECAwQFBgcICQoLDA0ODw$"));
    assert_ne!(h, hash_with_salt("LLRRM", SALT).unwrap());
    assert_eq!(hash_with_salt("L", "a").unwrap_err(), "salt invalid: value to short");
    assert_eq!(hash_under("LLRRL", &Ok(SALT.into())).unwrap(), h);
    assert_eq!(hash_under("LLRRL", &Err("no randomness".into())).unwrap_err(), "no randomness");
}

#[test]
fn a_hash_verifies_its_pattern_and_no_other() {
    let h = hash_with_salt("LRM", SALT).unwrap();
    assert!(verify_pattern(&h, "LRM"));
    assert!(!verify_pattern(&h, "LR"));
    assert!(!verify_pattern("LRM", "LRM"));
    assert!(!verify_pattern(&h[..h.len() - 1], "LRM"));
}

#[test]
fn a_random_salt_gives_a_hash_that_verifies() {
    let h = hash_pattern("LRM").unwrap();
    let other = hash_pattern("LRM").unwrap();
    assert_ne!(h, other);
    let parsed = PasswordHash::new(&h).unwrap();
    assert_eq!(parsed.salt.unwrap().as_str().len(), 22);
    assert!(Argon2::default().verify_password(b"LRM", &parsed).is_ok());
    assert!(Argon2::default().verify_password(b"LRL", &parsed).is_err());
    assert!(h.chars().all(|c| c.is_ascii_graphic()));
    assert!(h.starts_with("$argon2id$v=19$m=8192,t=3,p=1$"));
    assert!(verify_pattern(&h, "LRM") && verify_pattern(&other, "LRM"));
}

#[test]
fn settings_start_from_defaults() {
    let a = app();
    assert_eq!(a.existing_hash, None);
    assert_eq!(a.timeout_ms, 2000);
    assert_eq!(a.unlock_cmd, "loginctl unlock-sessions");
    assert_eq!((a.max_failures, a.lockout_base_ms, a.lockout_max_ms), (5, 2000, 300_000));
    assert_eq!(a.require_usb, None);
    assert_eq!(a.mode, Mode::Normal);
    assert_eq!(a.status, "ready — press [r] to record a click pattern");
    assert!(!a.should_quit);
}

#[test]
fn settings_are_read_from_a_file() {
    let c = load_config(Some(
        "# x\npattern_hash = $argon2id$v=19$x\ntimeout_ms = 1500 # slow\nunlock_cmd = u\n\
         max_failures = 7\nlockout_base_ms = 8\nlockout_max_ms = 9\nrequire_usb = 1:2\n\
         pattern_hash =\nunlock_cmd =\nmax_failures = 4294967296\nlockout_max_ms = x\n\
         require_usb =\nother = 1\n",
    ));
    assert_eq!(c.pattern_hash.as_deref(), Some("$argon2id$v=19$x"));
    assert_eq!(c.timeout_ms, 1500);
    assert_eq!(c.unlock_cmd, "u");
    assert_eq!((c.max_failures, c.lockout_base_ms, c.lockout_max_ms), (7, 8, 9));
    assert_eq!(c.require_usb.as_deref(), Some("1:2"));
}

#[test]
fn the_settings_file_is_rendered() {
    let mut a = app();
    a.require_usb = Some("dead:beef:42".into());
    assert_eq!(
        a.render_config("$h"),
        "# mouse-unlock configuration (managed by mouse-unlock-setup)\n\
         # pattern_hash is an Argon2 hash of your click sequence — keep this file 0600.\n\
         \n\
         pattern_hash = $h\n\
         timeout_ms = 2000\n\
         unlock_cmd = loginctl unlock-sessions\n\
         \n\
         # Brute-force lockout (failures counted only while the screen is locked):\n\
         max_failures = 5\n\
         lockout_base_ms = 2000\n\
         lockout_max_ms = 300000\n\
         \n\
         # Optional second factor: only unlock if this USB device is present\n\
         # (vendor:product[:serial]). Empty = disabled.\n\
         require_usb = dead:beef:42\n"
    );
    a.require_usb = None;
    assert!(a.render_config("$h").ends_with("require_usb = \n"));
}

#[test]
fn a_saved_file_reads_back() {
    let mut a = app();
    a.timeout_ms = u64::MAX;
    a.unlock_cmd = "a = b#c '# d'".into();
    a.max_failures = 0;
    a.lockout_base_ms = 1;
    a.lockout_max_ms = 99;
    a.require_usb = Some("1:2:x = y".into());
    let c = load_config(Some(&a.render_config("$argon2id$v=19$m=8,t=1,p=1$s$h")));
    assert_eq!(c.pattern_hash.as_deref(), Some("$argon2id$v=19$m=8,t=1,p=1$s$h"));
    assert_eq!(c.timeout_ms, u64::MAX);
    assert_eq!(c.unlock_cmd, "a = b#c '# d'");
    assert_eq!((c.max_failures, c.lockout_base_ms, c.lockout_max_ms), (0, 1, 99));
    assert_eq!(c.require_usb.as_deref(), Some("1:2:x = y"));
    a.require_usb = None;
    assert_eq!(load_config(Some(&a.render_config("h"))).require_usb, None);
}

#[test]
fn the_daemon_reads_a_saved_file() {
    let mut a = app();
    a.timeout_ms = 123;
    a.unlock_cmd = "go".into();
    a.max_failures = 3;
    a.require_usb = Some("1:2".into());
    let l = daemon::load_config("f", Some(&a.render_config("$h")));
    assert_eq!(l.config.pattern_hash.as_deref(), Some("$h"));
    assert_eq!(l.config.timeout_ms, 123);
    assert_eq!(l.config.unlock_cmd, "go");
    assert_eq!(l.config.max_failures, 3);
    assert_eq!(l.config.require_usb.as_deref(), Some("1:2"));
    assert!(l.notes.is_empty());
}

#[test]
fn what_is_recorded_unlocks() {
    let mut a = app();
    press(&mut a, "r");
    click(&mut a, MouseButton::Right);
    click(&mut a, MouseButton::Right);
    on_key(&mut a, KeyCode::Enter);
    let save = a.save_config(true).unwrap();
    let contents = match &save.job.steps[0].op {
        Op::Write { contents, .. } => contents.clone(),
        _ => panic!("the settings are written first"),
    };
    let c = daemon::load_config("f", Some(&contents)).config;
    let mut d = daemon::Daemon::new(c, false, 0);
    assert_eq!(d.on_click(Click::Right, 1, true, &vec![]).run, None);
    let r = d.on_click(Click::Right, 2, true, &vec![]);
    assert_eq!(r.run.as_deref(), Some("loginctl unlock-sessions"));
}

#[test]
fn a_comment_in_a_saved_command_is_not_run() {
    let mut a = app();
    a.unlock_cmd = "go # now".into();
    let file = a.render_config(&hash_with_salt("M", SALT).unwrap());
    assert_eq!(load_config(Some(&file)).unlock_cmd, "go");
    let mut d = daemon::Daemon::new(daemon::load_config("f", Some(&file)).config, false, 0);
    assert_eq!(d.on_click(Click::Middle, 1, true, &vec![]).run.as_deref(), Some("go"));
}

#[test]
fn a_hashed_pattern_unlocks_again_after_a_pause() {
    let mut a = app();
    a.timeout_ms = 10;
    let file = a.render_config(&hash_with_salt("LM", SALT).unwrap());
    let mut d = daemon::Daemon::new(daemon::load_config("f", Some(&file)).config, false, 0);
    let at = |ms: u128| ms * 1_000_000;
    assert_eq!(d.on_click(Click::Right, at(1), true, &vec![]).run, None);
    for start in [20, 40] {
        assert_eq!(d.on_click(Click::Left, at(start), true, &vec![]).run, None);
        assert!(d.on_click(Click::Middle, at(start + 10), true, &vec![]).run.is_some());
    }
}

#[test]
fn the_hash_to_save_is_resolved() {
    let mut a = app();
    assert_eq!(a.resolve_hash().unwrap_err(), "no pattern set — press [r] to record one");
    assert_eq!(a.resolve_hash_with(&Ok(SALT.into())).unwrap_err(), "no pattern set — press [r] to record one");
    a.existing_hash = Some("$old".into());
    assert_eq!(a.resolve_hash().unwrap(), "$old");
    a.new_pattern = Some(vec![]);
    assert_eq!(a.resolve_hash().unwrap_err(), "recorded pattern is empty");
    a.new_pattern = Some(vec![Click::Left, Click::Right]);
    assert_eq!(a.resolve_hash_with(&Ok(SALT.into())).unwrap(), direct_hash("LR", SALT));
    assert_eq!(a.resolve_hash_with(&Err("x".into())).unwrap_err(), "x");
    let h = a.resolve_hash().unwrap();
    let parsed = PasswordHash::new(&h).unwrap();
    assert!(Argon2::default().verify_password(b"LR", &parsed).is_ok());
}

#[test]
fn a_recording_takes_the_clicks_until_enter() {
    let mut a = app();
    click(&mut a, MouseButton::Left);
    assert!(a.record_buf.is_empty());
    press(&mut a, "r");
    assert_eq!(a.mode, Mode::Recording);
    assert_eq!(a.status, "recording — click in this window; Enter=save, Esc=cancel");
    click(&mut a, MouseButton::Left);
    click(&mut a, MouseButton::Middle);
    click(&mut a, MouseButton::Right);
    on_mouse(&mut a, MouseEventKind::Other);
    on_key(&mut a, KeyCode::Backspace);
    click(&mut a, MouseButton::Right);
    press(&mut a, "q1");
    on_key(&mut a, KeyCode::Enter);
    assert_eq!(a.new_pattern, Some(vec![Click::Left, Click::Middle, Click::Right]));
    assert_eq!(a.status, "recorded a 3-click pattern (unsaved) — press [1] to save");
    assert_eq!(a.mode, Mode::Normal);
    assert!(!a.should_quit);
    press(&mut a, "c");
    assert_eq!(a.new_pattern, None);
    assert_eq!(a.status, "discarded the unsaved recording");
}

#[test]
fn an_empty_or_cancelled_recording_keeps_what_there_was() {
    let mut a = app();
    a.new_pattern = Some(vec![Click::Right]);
    press(&mut a, "r");
    on_key(&mut a, KeyCode::Backspace);
    on_key(&mut a, KeyCode::Enter);
    assert_eq!(a.status, "nothing recorded");
    assert_eq!(a.new_pattern, Some(vec![Click::Right]));
    press(&mut a, "r");
    click(&mut a, MouseButton::Left);
    on_key(&mut a, KeyCode::Esc);
    assert_eq!(a.status, "recording cancelled");
    assert_eq!(a.new_pattern, Some(vec![Click::Right]));
    assert_eq!(a.mode, Mode::Normal);
}

#[test]
fn the_timeout_is_edited() {
    let mut a = app();
    press(&mut a, "t");
    assert_eq!((a.mode, a.input.as_str()), (Mode::EditTimeout, "2000"));
    on_key(&mut a, KeyCode::Backspace);
    press(&mut a, "x7-é");
    assert_eq!(a.input, "2007");
    on_key(&mut a, KeyCode::Enter);
    assert_eq!(a.timeout_ms, 2007);
    assert_eq!(a.status, "timeout set to 2007 ms");
    press(&mut a, "t");
    press(&mut a, "99999999999999999999");
    on_key(&mut a, KeyCode::Enter);
    assert_eq!(a.timeout_ms, 2007);
    assert_eq!(a.status, "invalid timeout (must be a positive number)");
    a.timeout_ms = 0;
    press(&mut a, "t");
    on_key(&mut a, KeyCode::Enter);
    assert_eq!(a.status, "invalid timeout (must be a positive number)");
    press(&mut a, "t5");
    on_key(&mut a, KeyCode::Esc);
    assert_eq!((a.mode, a.timeout_ms), (Mode::Normal, 0));
}

#[test]
fn the_unlock_command_is_edited() {
    let mut a = app();
    press(&mut a, "u");
    assert_eq!((a.mode, a.input.as_str()), (Mode::EditCmd, "loginctl unlock-sessions"));
    press(&mut a, " || é ");
    on_key(&mut a, KeyCode::Enter);
    assert_eq!(a.unlock_cmd, "loginctl unlock-sessions || é");
    assert_eq!(a.status, "unlock command updated");
    press(&mut a, "u");
    for _ in 0..40 {
        on_key(&mut a, KeyCode::Backspace);
    }
    assert_eq!(a.input, "");
    press(&mut a, " ");
    on_key(&mut a, KeyCode::Enter);
    assert_eq!(a.status, "unlock command cannot be empty");
    assert_eq!(a.unlock_cmd, "loginctl unlock-sessions || é");
    press(&mut a, "u!");
    on_key(&mut a, KeyCode::Esc);
    assert_eq!(a.unlock_cmd, "loginctl unlock-sessions || é");
}

fn devices(n: usize) -> Vec<UsbDev> {
    (0..n).map(|i| UsbDev { id: format!("a:{i}"), name: format!("dev {i}") }).collect()
}

#[test]
fn a_usb_device_is_picked() {
    let mut a = app();
    assert_eq!(on_key(&mut a, KeyCode::Char('k')), Some(Request::ListUsb));
    assert_eq!(a.mode, Mode::Normal);
    usb_listed(&mut a, devices(3));
    assert_eq!(a.mode, Mode::UsbSelect);
    assert_eq!(a.status, "pick a USB device by number, [c] disable, [Esc] cancel");
    press(&mut a, "0x4");
    assert_eq!(a.mode, Mode::UsbSelect);
    press(&mut a, "2");
    assert_eq!(a.require_usb.as_deref(), Some("a:1"));
    assert_eq!(a.status, "USB factor set: dev 1 (a:1)");
    assert_eq!(a.mode, Mode::Normal);
    usb_listed(&mut a, devices(12));
    press(&mut a, "9");
    assert_eq!(a.require_usb.as_deref(), Some("a:8"));
    usb_listed(&mut a, devices(1));
    on_key(&mut a, KeyCode::Esc);
    assert_eq!(a.require_usb.as_deref(), Some("a:8"));
    usb_listed(&mut a, devices(0));
    press(&mut a, "c");
    assert_eq!(a.require_usb, None);
    assert_eq!(a.status, "USB factor disabled");
}

#[test]
fn keys_ask_for_outside_work_in_normal_mode_only() {
    let wants = [
        ('k', Request::ListUsb),
        ('1', Request::Save),
        ('2', Request::Install),
        ('3', Request::SaveAndInstall),
        ('4', Request::Uninstall),
    ];
    for (c, want) in wants {
        let mut a = app();
        assert_eq!(on_event(&mut a, Event::Key { code: KeyCode::Char(c), press: true }), Some(want));
        assert_eq!(on_event(&mut a, Event::Key { code: KeyCode::Char(c), press: false }), None);
        a.mode = Mode::EditCmd;
        assert_eq!(on_event(&mut a, Event::Key { code: KeyCode::Char(c), press: true }), None);
    }
    let mut a = app();
    assert_eq!(on_event(&mut a, Event::Other), None);
    assert_eq!(on_event(&mut a, Event::Key { code: KeyCode::Char('q'), press: false }), None);
    assert!(!a.should_quit);
    on_event(&mut a, Event::Key { code: KeyCode::Char('q'), press: true });
    assert!(a.should_quit);
    a.mode = Mode::Recording;
    assert_eq!(on_event(&mut a, Event::Mouse(MouseEventKind::Down(MouseButton::Left))), None);
    assert_eq!(a.record_buf, vec![Click::Left]);
}

fn run(mut job: Job, fails: &[&str]) -> (Result<String, String>, Vec<String>) {
    let mut log = Vec::new();
    while let Some(op) = job.next_op() {
        let said = match op {
            Op::Write { path, .. } => format!("write {path}"),
            Op::Chmod { path, mode } => format!("chmod {path} {mode:o}"),
            Op::CopyDaemon { to } => format!("copy {to}"),
            Op::Remove { path } => format!("remove {path}"),
            Op::Shell { cmd } => format!("sh {cmd}"),
        };
        let failed = fails.iter().any(|f| said.starts_with(f));
        log.push(said);
        job.report(if failed { Err("boom".into()) } else { Ok(()) });
    }
    (job.outcome(), log)
}

#[test]
fn saving_writes_then_restricts_then_restarts() {
    let mut a = app();
    a.existing_hash = Some("$h".into());
    let save = a.save_config(true).unwrap();
    assert_eq!(save.hash, "$h");
    match &save.job.steps[0].op {
        Op::Write { contents, .. } => assert_eq!(*contents, a.render_config("$h")),
        _ => panic!("the settings are written first"),
    }
    let (r, log) = run(save.job, &["sh"]);
    assert_eq!(r.unwrap(), "config saved to /etc/mouse-unlock.conf (0600)");
    assert_eq!(
        log,
        vec![
            "write /etc/mouse-unlock.conf",
            "chmod /etc/mouse-unlock.conf 600",
            "sh systemctl try-restart mouse-unlock.service",
        ]
    );
    let (r, log) = run(a.save_config(false).unwrap().job, &[]);
    assert_eq!(r.unwrap(), "config saved to mouse-unlock.conf (0600)");
    assert_eq!(log, vec!["write mouse-unlock.conf", "chmod mouse-unlock.conf 600"]);
}

#[test]
fn saving_stops_at_the_first_failure() {
    let mut a = app();
    assert!(a.save_config(true).is_err());
    a.existing_hash = Some("$h".into());
    let (r, log) = run(a.save_config(false).unwrap().job, &["write"]);
    assert_eq!(r.unwrap_err(), "write mouse-unlock.conf: boom");
    assert_eq!(log.len(), 1);
    let (r, log) = run(a.save_config(true).unwrap().job, &["chmod"]);
    assert_eq!(r.unwrap_err(), "chmod /etc/mouse-unlock.conf: boom");
    assert_eq!(log.len(), 2);
}

#[test]
fn a_recorded_pattern_is_kept_until_it_is_saved() {
    let mut a = app();
    a.new_pattern = Some(vec![Click::Left]);
    let save = a.save_config(false).unwrap();
    a.finish_save(save.hash.clone(), &Err("disk full".into()));
    assert_eq!(a.existing_hash, None);
    assert_eq!(a.new_pattern, Some(vec![Click::Left]));
    a.finish_save(save.hash.clone(), &Ok("saved".into()));
    assert_eq!(a.existing_hash, Some(save.hash));
    assert_eq!(a.new_pattern, None);
}

#[test]
fn installing_needs_root_and_a_daemon() {
    let a = app();
    let found = Some(Found { dest_exists: true, same_file: true });
    assert_eq!(
        a.install_service(false, found, "u").err().unwrap(),
        "needs root — re-run with: sudo mouse-unlock-setup"
    );
    assert_eq!(
        a.install_service(true, None, "u").err().unwrap(),
        "daemon binary not found — run `cargo build --release` first"
    );
    let (r, log) = run(a.install_service(true, found, "u").unwrap(), &[]);
    assert_eq!(r.unwrap(), "service installed and started");
    assert_eq!(
        log,
        vec![
            "chmod /usr/local/bin/mouse-unlock 755",
            "write /etc/systemd/system/mouse-unlock.service",
            "sh systemctl daemon-reload",
            "sh systemctl enable --now mouse-unlock.service",
        ]
    );
}

#[test]
fn installing_copies_a_daemon_that_is_not_in_place() {
    let a = app();
    for (dest_exists, same_file) in [(false, false), (false, true), (true, false)] {
        let job = a.install_service(true, Some(Found { dest_exists, same_file }), "u").unwrap();
        let (r, log) = run(job, &["copy"]);
        assert_eq!(r.unwrap_err(), "copy daemon binary: boom");
        assert_eq!(log, vec!["copy /usr/local/bin/mouse-unlock"]);
    }
    let found = Some(Found { dest_exists: false, same_file: false });
    let fails = [
        ("chmod", "chmod binary: boom"),
        ("write", "write service: boom"),
        ("sh systemctl daemon-reload", "boom"),
        ("sh systemctl enable", "boom"),
    ];
    for (f, want) in fails {
        let (r, _) = run(a.install_service(true, found, "u").unwrap(), &[f]);
        assert_eq!(r.unwrap_err(), want);
    }
}

#[test]
fn uninstalling_goes_on_whatever_fails() {
    let a = app();
    assert_eq!(
        a.uninstall_service(false).err().unwrap(),
        "needs root — re-run with: sudo mouse-unlock-setup"
    );
    let (r, log) = run(a.uninstall_service(true).unwrap(), &["sh", "remove"]);
    assert_eq!(
        r.unwrap(),
        "service & binary removed (config kept at /etc/mouse-unlock.conf)"
    );
    assert_eq!(
        log,
        vec![
            "sh systemctl disable --now mouse-unlock.service",
            "remove /etc/systemd/system/mouse-unlock.service",
            "sh systemctl daemon-reload",
            "remove /usr/local/bin/mouse-unlock",
        ]
    );
}

#[test]
fn saving_and_installing_say_what_both_say() {
    let ok = |s: &str| -> Result<String, String> { Ok(s.into()) };
    let err = |s: &str| -> Result<String, String> { Err(s.into()) };
    assert_eq!(App::save_and_install(ok("a"), ok("b")).unwrap(), "a; b");
    assert_eq!(App::save_and_install(ok("a"), err("e")).unwrap_err(), "e");
    assert_eq!(App::save_and_install(err("x"), ok("b")).unwrap_err(), "x");
}

const FOUND: Option<Found> = Some(Found { dest_exists: true, same_file: true });

#[test]
fn a_request_to_save_is_answered() {
    let mut a = app();
    assert!(begin(&mut a, Request::Save, true, FOUND, "u").is_none());
    assert_eq!(a.status, "ERROR — no pattern set — press [r] to record one");
    a.new_pattern = Some(vec![Click::Left]);
    let save = a.save_with("$h".into(), false);
    let task = begin_save(&mut a, Ok(save), false).unwrap();
    let (outcome, _) = run(task.job, &["chmod"]);
    assert!(finish(&mut a, task.stage, outcome, false, FOUND, "u").is_none());
    assert_eq!(a.status, "ERROR — chmod mouse-unlock.conf: boom");
    assert_eq!(a.new_pattern, Some(vec![Click::Left]));
    let save = a.save_with("$h".into(), false);
    let task = begin_save(&mut a, Ok(save), false).unwrap();
    let (outcome, _) = run(task.job, &[]);
    assert!(finish(&mut a, task.stage, outcome, false, FOUND, "u").is_none());
    assert_eq!(a.status, "OK — config saved to mouse-unlock.conf (0600)");
    assert_eq!(a.existing_hash.as_deref(), Some("$h"));
    assert_eq!(a.new_pattern, None);
}

#[test]
fn a_request_to_save_and_install_is_answered() {
    let mut a = app();
    a.existing_hash = Some("$h".into());
    let task = begin(&mut a, Request::SaveAndInstall, true, FOUND, "u").unwrap();
    let (outcome, _) = run(task.job, &[]);
    let task = finish(&mut a, task.stage, outcome, true, FOUND, "u").unwrap();
    assert!(matches!(task.stage, Stage::Installing { saved: Some(_) }));
    let (outcome, log) = run(task.job, &[]);
    assert_eq!(log.len(), 4);
    assert!(finish(&mut a, task.stage, outcome, true, FOUND, "u").is_none());
    assert_eq!(
        a.status,
        "OK — config saved to /etc/mouse-unlock.conf (0600); service installed and started"
    );
    // Saved without root, there is nothing to install.
    let task = begin(&mut a, Request::SaveAndInstall, false, FOUND, "u").unwrap();
    let (outcome, _) = run(task.job, &[]);
    assert!(finish(&mut a, task.stage, outcome, false, FOUND, "u").is_none());
    assert_eq!(a.status, "ERROR — needs root — re-run with: sudo mouse-unlock-setup");
    // Nothing is installed where saving fails.
    let task = begin(&mut a, Request::SaveAndInstall, true, FOUND, "u").unwrap();
    let (outcome, _) = run(task.job, &["write"]);
    assert!(finish(&mut a, task.stage, outcome, true, FOUND, "u").is_none());
    assert_eq!(a.status, "ERROR — write /etc/mouse-unlock.conf: boom");
}

#[test]
fn requests_about_the_service_are_answered() {
    let mut a = app();
    for request in [Request::Install, Request::Uninstall] {
        assert!(begin(&mut a, request, false, FOUND, "u").is_none());
        assert_eq!(a.status, "ERROR — needs root — re-run with: sudo mouse-unlock-setup");
    }
    let task = begin(&mut a, Request::Install, true, FOUND, "u").unwrap();
    let (outcome, _) = run(task.job, &[]);
    assert!(finish(&mut a, task.stage, outcome, true, FOUND, "u").is_none());
    assert_eq!(a.status, "OK — service installed and started");
    let task = begin(&mut a, Request::Uninstall, true, None, "u").unwrap();
    let (outcome, _) = run(task.job, &[]);
    assert!(finish(&mut a, task.stage, outcome, true, None, "u").is_none());
    assert_eq!(a.status, "OK — service & binary removed (config kept at /etc/mouse-unlock.conf)");
    assert!(begin(&mut a, Request::ListUsb, true, None, "u").is_none());
}

#[test]
fn outcomes_are_shown_in_the_status_line() {
    let mut a = app();
    apply(&mut a, Ok("done".into()));
    assert_eq!(a.status, "OK — done");
    apply(&mut a, Err("no".into()));
    assert_eq!(a.status, "ERROR — no");
}
