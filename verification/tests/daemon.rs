use mouse_unlock::click::{label_text, parse_pattern, Click};
use mouse_unlock::daemon::{
    load_config, parse_args, refusal, screen_locked, start_line, Config, Daemon, Reaction,
};
use mouse_unlock::hash::hash_pattern;
use mouse_unlock::saved;
use mouse_unlock::tries::Lockout;
use mouse_unlock::usb::{is_present, UsbDev};

fn load(content: &str) -> (String, u64, String, Vec<String>) {
    let l = load_config("f", Some(content));
    (label_text(&l.config.pattern), l.config.timeout_ms, l.config.unlock_cmd, l.notes)
}

#[test]
fn defaults_where_there_is_no_file() {
    let l = load_config("/etc/mouse-unlock.conf", None);
    assert_eq!(label_text(&l.config.pattern), "LLRRL");
    assert_eq!(l.config.timeout_ms, 2000);
    assert_eq!(l.config.unlock_cmd, "loginctl unlock-sessions");
    assert_eq!(l.notes, vec!["[mouse-unlock] /etc/mouse-unlock.conf not found, using defaults"]);
}

#[test]
fn the_documented_file_is_read() {
    let (pattern, timeout, cmd, notes) = load(
        "pattern    = LLRRL                    # L=left, R=right, M=middle\n\
         timeout_ms = 2000                     # max time between two clicks\n\
         unlock_cmd = loginctl unlock-sessions # command to run on match\n",
    );
    assert_eq!(pattern, "LLRRL");
    assert_eq!(timeout, 2000);
    assert_eq!(cmd, "loginctl unlock-sessions");
    assert!(notes.is_empty());
}

#[test]
fn the_setup_program_reads_the_documented_file_too() {
    let c = saved::load_config(Some(
        "pattern    = LLRRL                    # L=left, R=right, M=middle\n\
         timeout_ms = 2000                     # max time between two clicks\n\
         unlock_cmd = loginctl unlock-sessions # command to run on match\n",
    ));
    assert_eq!(c.timeout_ms, 2000);
    assert_eq!(c.unlock_cmd, "loginctl unlock-sessions");
    assert_eq!(c.pattern_hash, None);
}

#[test]
fn comments_may_follow_a_value() {
    let (pattern, timeout, cmd, _) =
        load("pattern = MR # L\ntimeout_ms = 750\t# a while\nunlock_cmd = a b #c # d\n");
    assert_eq!((pattern.as_str(), timeout, cmd.as_str()), ("MR", 750, "a b"));
    let (pattern, _, cmd, _) = load("pattern = M#R\nunlock_cmd = a#b\n");
    assert_eq!((pattern.as_str(), cmd.as_str()), ("MR", "a#b"));
}

#[test]
fn a_value_that_starts_with_a_number_sign_is_no_comment() {
    let (pattern, _, cmd, _) = load("pattern =#R\nunlock_cmd = #x\n");
    assert_eq!((pattern.as_str(), cmd.as_str()), ("R", "#x"));
}

#[test]
fn a_quoted_number_sign_is_no_comment() {
    for cmd in ["say \"a # b\"", "say 'a # b'", "say \\ # b", "say \"\\\" # b\"", "say '\\' '# b'"] {
        assert_eq!(load(&format!("unlock_cmd = {cmd} # c")).2, cmd);
    }
    assert_eq!(load("unlock_cmd = say 'a' \"b\" # 'c'").2, "say 'a' \"b\"");
}

#[test]
fn only_what_every_shell_reads_as_a_comment_is_cut() {
    for cmd in [
        "a \"$(b \" # c\")\"",
        "a \"`b \" # c\"`\"",
        "a `b # c` d",
        "a ${x:-b # c} d",
        "a \"${x:-\"b # c\"}\"",
        "a $((16 # 3)) d",
        "a $[16 # 3] d",
        "((x = 16 # 3)); a",
        "a $'b\\' # c'",
        "a\u{a0}# b",
        "a\u{3000}# b",
    ] {
        assert_eq!(load(&format!("unlock_cmd = {cmd}")).2, cmd);
    }
    for cmd in ["a \"${HOME}/b\"", "a ${x} $y", "a $(b \"c # d\")", "(a; b)", "a \"$b\"$", "a \"$\""] {
        assert_eq!(load(&format!("unlock_cmd = {cmd} \t# c")).2, cmd);
    }
}

#[test]
fn entries_are_trimmed_and_later_ones_win() {
    let (pattern, timeout, cmd, notes) = load(
        "  # a comment\r\n\r\n  pattern=l r m \r\n pattern =  \r\ntimeout_ms=5\r\n\
         timeout_ms = +6\r\nunlock_cmd=a = b || c\r\nunlock_cmd =\r\nno entry here",
    );
    assert_eq!(pattern, "LRM");
    assert_eq!(timeout, 6);
    assert_eq!(cmd, "a = b || c");
    assert!(notes.is_empty());
}

#[test]
fn values_that_do_not_read_change_nothing() {
    let (pattern, timeout, cmd, _) = load("pattern = ???\ntimeout_ms = soon\nunlock_cmd =  ");
    assert_eq!(pattern, "LLRRL");
    assert_eq!(timeout, 2000);
    assert_eq!(cmd, "loginctl unlock-sessions");
    assert_eq!(load("timeout_ms = 18446744073709551616").1, 2000);
    assert_eq!(load("timeout_ms = 0").1, 0);
}

#[test]
fn unknown_keys_are_reported() {
    let (_, _, _, notes) = load(
        "colour = red\n= x\npattern_hash = $a\ntimeout_ms = 1\nmax_failures = 1\n\
         lockout_base_ms = 1\nlockout_max_ms = 1\nrequire_usb = x\nPattern = L\n",
    );
    assert_eq!(
        notes,
        vec![
            "[mouse-unlock] unknown config key: colour",
            "[mouse-unlock] unknown config key: ",
            "[mouse-unlock] unknown config key: Pattern",
        ]
    );
}

#[test]
fn there_is_always_a_pattern() {
    for content in ["", "pattern = ", "pattern = #L", "pattern = 123\npattern=!"] {
        let l = load_config("f", Some(content));
        assert!(!l.config.pattern.is_empty());
        assert_eq!(refusal(&l.config, "f"), None);
    }
    let mut none = Config { pattern: vec![], ..config() };
    assert_eq!(
        refusal(&none, "/x.conf").unwrap(),
        "[mouse-unlock] ERROR: empty pattern. Check /x.conf"
    );
    none.pattern_hash = Some("$h".into());
    assert_eq!(refusal(&none, "/x.conf"), None);
}

#[test]
fn the_daemon_reads_every_setting() {
    let c = load_config(
        "f",
        Some(
            "pattern_hash = $x\nmax_failures = 7\nlockout_base_ms = 8\nlockout_max_ms = 9\n\
             require_usb = 1:2\n",
        ),
    )
    .config;
    assert_eq!(c.pattern_hash.as_deref(), Some("$x"));
    assert_eq!((c.max_failures, c.lockout_base_ms, c.lockout_max_ms), (7, 8, 9));
    assert_eq!(c.require_usb.as_deref(), Some("1:2"));
    let d = load_config("f", None).config;
    assert_eq!((d.pattern_hash, d.require_usb), (None, None));
    assert_eq!((d.max_failures, d.lockout_base_ms, d.lockout_max_ms), (5, 2000, 300_000));
}

fn args(list: &[&str]) -> (String, bool, bool, Vec<String>) {
    let v: Vec<String> = list.iter().map(|s| s.to_string()).collect();
    let a = parse_args(&v);
    (a.config_path, a.test_mode, a.help, a.notes)
}

#[test]
fn arguments_are_read() {
    assert_eq!(args(&[]), ("/etc/mouse-unlock.conf".into(), false, false, vec![]));
    assert_eq!(args(&["p"]), ("/etc/mouse-unlock.conf".into(), false, false, vec![]));
    assert_eq!(args(&["p", "-t"]).1, true);
    assert_eq!(args(&["p", "--test", "--config", "/a"]), ("/a".into(), true, false, vec![]));
    assert_eq!(args(&["p", "-c", "/a", "-c", "-t"]), ("-t".into(), false, false, vec![]));
    assert_eq!(args(&["p", "-c"]), ("/etc/mouse-unlock.conf".into(), false, false, vec![]));
}

#[test]
fn help_ends_the_arguments_and_others_are_reported() {
    assert_eq!(
        args(&["--test", "x", "-h", "y", "-t"]),
        (
            "/etc/mouse-unlock.conf".into(),
            false,
            true,
            vec!["[mouse-unlock] ignoring unknown argument: x".into()]
        )
    );
    assert!(args(&["p", "--help"]).2);
}

#[test]
fn the_start_line_tells_the_settings() {
    let c = load_config("f", None).config;
    assert_eq!(
        start_line(&c, false),
        "[mouse-unlock] starting | pattern=LLRRL | timeout=2000ms | test=false"
    );
    assert_eq!(
        start_line(&c, true),
        "[mouse-unlock] starting | pattern=LLRRL | timeout=2000ms | test=true"
    );
    let hashed = Config { pattern_hash: Some("$h".into()), ..c };
    assert_eq!(
        start_line(&hashed, false),
        "[mouse-unlock] starting | pattern=(hashed) | timeout=2000ms | test=false"
    );
}

fn config() -> Config {
    Config {
        pattern: parse_pattern("LR"),
        pattern_hash: None,
        timeout_ms: 10,
        unlock_cmd: "cmd".into(),
        max_failures: 2,
        lockout_base_ms: 100,
        lockout_max_ms: 250,
        require_usb: None,
    }
}

/// A click at a millisecond, on a locked screen, with no USB device there.
fn at(d: &mut Daemon, c: Click, ms: u128) -> Reaction {
    d.on_click(c, ms * 1_000_000, true, &vec![])
}

#[test]
fn a_match_runs_the_command() {
    let mut d = Daemon::new(config(), false, 0);
    let r = at(&mut d, Click::Left, 1);
    assert!(r.notes.is_empty() && r.run.is_none());
    let r = at(&mut d, Click::Right, 2);
    assert_eq!(r.notes, vec!["[mouse-unlock] >>> PATTERN MATCHED"]);
    assert_eq!(r.run.as_deref(), Some("cmd"));
    let r = at(&mut d, Click::Right, 3);
    assert!(r.notes.is_empty() && r.run.is_none());
}

#[test]
fn test_mode_shows_the_clicks_and_runs_nothing() {
    let mut d = Daemon::new(config(), true, 0);
    assert_eq!(at(&mut d, Click::Left, 1).notes, vec!["[mouse-unlock] buffer = L"]);
    let r = at(&mut d, Click::Right, 2);
    assert_eq!(
        r.notes,
        vec![
            "[mouse-unlock] buffer = LR",
            "[mouse-unlock] >>> PATTERN MATCHED",
            "[mouse-unlock] (test) would run: cmd",
        ]
    );
    assert_eq!(r.run, None);
}

#[test]
fn a_plain_pattern_is_never_locked_out() {
    let mut d = Daemon::new(config(), false, 0);
    for i in 1..20 {
        assert!(at(&mut d, Click::Right, i * 1000).notes.is_empty());
    }
    at(&mut d, Click::Left, 20_000);
    assert_eq!(at(&mut d, Click::Right, 20_001).run.as_deref(), Some("cmd"));
}

fn device(id: &str) -> UsbDev {
    UsbDev { id: id.into(), name: "key".into() }
}

#[test]
fn nothing_is_run_without_the_required_device() {
    let with_usb = || Config { require_usb: Some("1234:5678".into()), ..config() };
    let mut d = Daemon::new(with_usb(), false, 0);
    at(&mut d, Click::Left, 1);
    let r = d.on_click(Click::Right, 2_000_000, true, &vec![device("1234:9999")]);
    assert_eq!(
        r.notes,
        vec![
            "[mouse-unlock] >>> PATTERN MATCHED",
            "[mouse-unlock] required USB device not present: 1234:5678",
        ]
    );
    assert_eq!(r.run, None);
    at(&mut d, Click::Left, 3);
    let r = d.on_click(Click::Right, 4_000_000, true, &vec![device("9:9"), device("1234:5678")]);
    assert_eq!(r.run.as_deref(), Some("cmd"));
    let mut d = Daemon::new(with_usb(), true, 0);
    at(&mut d, Click::Left, 1);
    let r = at(&mut d, Click::Right, 2);
    assert_eq!(r.notes.len(), 3);
    assert_eq!(r.notes[2], "[mouse-unlock] required USB device not present: 1234:5678");
}

#[test]
fn a_required_device_is_recognised() {
    let has = |req: &str, ids: &[&str]| {
        is_present(&Some(req.into()), &ids.iter().map(|i| device(i)).collect::<Vec<_>>())
    };
    assert!(is_present(&None, &vec![]));
    assert!(!has("1:2", &[]));
    assert!(has("1:2", &["1:2"]));
    assert!(has("1:2", &["0:0", "1:2:serial"]));
    assert!(!has("1:2", &["1:23", "11:2", "1:2x:3"]));
    assert!(has("1:2:s", &["1:2:s"]));
    assert!(!has("1:2:s", &["1:2", "1:2:t", "1:2:s:t"]));
    assert!(has("1D:AB", &["1d:ab:9"]));
    assert!(!has("1", &["1:2"]));
}

fn hashed(pattern: &str) -> Config {
    Config { pattern_hash: Some(hash_pattern(pattern).unwrap()), ..config() }
}

#[test]
fn a_hashed_pattern_unlocks() {
    let mut d = Daemon::new(hashed("RM"), false, 0);
    assert_eq!(at(&mut d, Click::Right, 1).run, None);
    let r = at(&mut d, Click::Middle, 2);
    assert_eq!(r.run.as_deref(), Some("cmd"));
    assert_eq!(r.notes, vec!["[mouse-unlock] >>> PATTERN MATCHED"]);
}

#[test]
fn other_clicks_do_not_match_a_hash() {
    let mut d = Daemon::new(hashed("RM"), true, 0);
    for (c, ms, window) in [
        (Click::Left, 1, "L"),
        (Click::Right, 2, "LR"),
        (Click::Middle, 3, "LRM"),
        (Click::Right, 20, "R"),
        (Click::Right, 21, "RR"),
    ] {
        let r = at(&mut d, c, ms);
        assert_eq!(r.notes, vec![format!("[mouse-unlock] buffer = {window}")]);
        assert_eq!(r.run, None);
    }
}

#[test]
fn a_hash_takes_the_place_of_the_pattern() {
    let mut d = Daemon::new(hashed("M"), false, 0);
    assert_eq!(at(&mut d, Click::Left, 1).run, None);
    assert_eq!(at(&mut d, Click::Right, 2).run, None);
    assert_eq!(at(&mut d, Click::Middle, 30).run.as_deref(), Some("cmd"));
}

#[test]
fn a_text_that_is_no_hash_never_matches() {
    for h in ["", "LR", "$argon2id$v=19$m=8192,t=3,p=1$", "$argon2id$v=19$m=8192,t=3,p=1$x$y"] {
        let mut d = Daemon::new(Config { pattern_hash: Some(h.into()), ..config() }, false, 0);
        assert_eq!(at(&mut d, Click::Left, 1).run, None);
        assert_eq!(at(&mut d, Click::Right, 2).run, None);
    }
}

const IGNORED: &str = "[mouse-unlock] locked out, click ignored";

#[test]
fn failures_lock_out_for_longer_and_longer() {
    let mut d = Daemon::new(hashed("M"), false, 0);
    assert!(at(&mut d, Click::Left, 0).notes.is_empty());
    // The first failure is below the limit.
    assert!(at(&mut d, Click::Left, 20).notes.is_empty());
    // The second one ends at 30 and locks out until 130.
    assert_eq!(at(&mut d, Click::Middle, 129).notes, vec![IGNORED]);
    assert!(at(&mut d, Click::Left, 130).notes.is_empty());
    // The third one ends at 140 and locks out until 340.
    assert_eq!(at(&mut d, Click::Middle, 339).notes, vec![IGNORED]);
    assert!(at(&mut d, Click::Left, 340).notes.is_empty());
    // The fourth one ends at 350 and locks out for no longer than 250.
    assert_eq!(at(&mut d, Click::Middle, 599).notes, vec![IGNORED]);
    assert_eq!(at(&mut d, Click::Middle, 600).run.as_deref(), Some("cmd"));
    // The match forgave them.
    assert!(at(&mut d, Click::Left, 700).notes.is_empty());
    assert!(at(&mut d, Click::Left, 720).notes.is_empty());
}

#[test]
fn failures_count_on_a_locked_screen_only() {
    let mut d = Daemon::new(Config { pattern_hash: Some("$".into()), ..config() }, false, 0);
    for i in 0..10 {
        let r = d.on_click(Click::Left, i * 20_000_000, false, &vec![]);
        assert!(r.notes.is_empty());
    }
}

#[test]
fn lockouts_double_up_to_the_longest() {
    let l = Lockout { max_failures: 5, base_ms: 2000, max_ms: 300_000 };
    let got: Vec<u64> = [0, 4, 5, 6, 7, 12, 13, u64::MAX].iter().map(|n| l.duration_ms(*n)).collect();
    assert_eq!(got, vec![0, 0, 2000, 4000, 8000, 256_000, 300_000, 300_000]);
    let l = Lockout { max_failures: 0, base_ms: u64::MAX - 1, max_ms: u64::MAX };
    assert_eq!((l.duration_ms(0), l.duration_ms(1)), (u64::MAX - 1, u64::MAX));
    let l = Lockout { max_failures: 1, base_ms: 0, max_ms: 9 };
    assert_eq!(l.duration_ms(u64::MAX), 0);
    let l = Lockout { max_failures: 1, base_ms: 10, max_ms: 9 };
    assert_eq!(l.duration_ms(1), 9);
}

#[test]
fn the_screen_counts_as_locked_where_nothing_tells() {
    assert!(screen_locked(None));
    assert!(screen_locked(Some("")));
    assert!(!screen_locked(Some("LockedHint=no\n")));
    assert!(screen_locked(Some("LockedHint=no\nLockedHint=yes\n")));
}
