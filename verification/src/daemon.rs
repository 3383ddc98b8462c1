//! The daemon: its arguments, its settings, and what it does on a click.

use vstd::prelude::*;
use crate::click;
use crate::click::Click;
use crate::entries;
use crate::entries::Entry;
use crate::hash;
use crate::matcher;
use crate::matcher::{Matcher, Seen};
use crate::number;
use crate::saved;
use crate::saved::LoadedConfig;
use crate::text;
use crate::tries;
use crate::tries::{Lockout, Press, Tried, Tries};
use crate::usb;
use crate::usb::UsbDev;

verus! {

/// The settings file that is read where no other is named.
pub const DEFAULT_CONFIG_PATH: &'static str = "/etc/mouse-unlock.conf";

/// The pattern where the settings name none.
pub const DEFAULT_PATTERN: &'static str = "LLRRL";

/// The longest pause between two clicks, in milliseconds, where the settings
/// name none.
pub const DEFAULT_TIMEOUT_MS: u64 = 2000;

/// The unlock command where the settings name none.
pub const DEFAULT_UNLOCK_CMD: &'static str = "loginctl unlock-sessions";

/// The settings of the daemon.
pub struct Config {
    pub pattern: Vec<Click>,
    /// Where there is a hash, it takes the place of the pattern.
    pub pattern_hash: Option<String>,
    pub timeout_ms: u64,
    pub unlock_cmd: String,
    pub max_failures: u32,
    pub lockout_base_ms: u64,
    pub lockout_max_ms: u64,
    /// The second factor, as `vendor:product[:serial]`.
    pub require_usb: Option<String>,
}

/// What the settings say.
#[verifier::ext_equal]
pub struct Settings {
    pub pattern: Seq<Click>,
    pub pattern_hash: Option<Seq<char>>,
    pub timeout_ms: nat,
    pub unlock_cmd: Seq<char>,
    pub max_failures: u32,
    pub lockout_base_ms: u64,
    pub lockout_max_ms: u64,
    pub require_usb: Option<Seq<char>>,
}

impl View for Config {
    type V = Settings;

    open spec fn view(&self) -> Settings {
        Settings {
            pattern: self.pattern@,
            pattern_hash: text::maybe(self.pattern_hash),
            timeout_ms: self.timeout_ms as nat,
            unlock_cmd: self.unlock_cmd@,
            max_failures: self.max_failures,
            lockout_base_ms: self.lockout_base_ms,
            lockout_max_ms: self.lockout_max_ms,
            require_usb: text::maybe(self.require_usb),
        }
    }
}

/// The settings with a pattern, and with what the setup program saves.
pub open spec fn settings(pattern: Seq<Click>, s: saved::Saved) -> Settings {
    Settings {
        pattern,
        pattern_hash: s.pattern_hash,
        timeout_ms: s.timeout_ms,
        unlock_cmd: s.unlock_cmd,
        max_failures: s.max_failures as u32,
        lockout_base_ms: s.lockout_base_ms as u64,
        lockout_max_ms: s.lockout_max_ms as u64,
        require_usb: s.require_usb,
    }
}

/// The settings of an empty file, or of none.
pub open spec fn default_settings() -> Settings {
    settings(click::clicks_in(DEFAULT_PATTERN@), saved::default_saved())
}

/// A key that the daemon knows.
pub open spec fn is_known(key: Seq<char>) -> bool {
    ||| key == "pattern"@
    ||| key == "pattern_hash"@
    ||| key == "timeout_ms"@
    ||| key == "unlock_cmd"@
    ||| key == "max_failures"@
    ||| key == "lockout_base_ms"@
    ||| key == "lockout_max_ms"@
    ||| key == "require_usb"@
}

/// The pattern after an entry: one without clicks changes nothing. A comment may
/// follow a pattern.
pub open spec fn pattern_with(p: Seq<Click>, e: (Seq<char>, Seq<char>)) -> Seq<Click> {
    let q = click::clicks_in(entries::uncommented(e.1));
    if e.0 == "pattern"@ && q.len() > 0 {
        q
    } else {
        p
    }
}

/// The pattern that a row of entries names; later ones win.
pub open spec fn pattern_of(es: Seq<(Seq<char>, Seq<char>)>) -> Seq<Click>
    decreases es.len(),
{
    if es.len() == 0 {
        click::clicks_in(DEFAULT_PATTERN@)
    } else {
        pattern_with(pattern_of(es.drop_last()), es.last())
    }
}

/// The settings that a row of entries makes; later ones win.
pub open spec fn settings_of(es: Seq<(Seq<char>, Seq<char>)>) -> Settings {
    settings(pattern_of(es), saved::saved_of(es))
}

/// The line that reports a key that the daemon does not know.
pub open spec fn unknown_key_note(key: Seq<char>) -> Seq<char> {
    "[mouse-unlock] unknown config key: "@ + key
}

/// The lines that report the keys of a row of entries that the daemon does not
/// know, in order.
pub open spec fn unknown_key_notes(es: Seq<(Seq<char>, Seq<char>)>) -> Seq<Seq<char>>
    decreases es.len(),
{
    if es.len() == 0 {
        Seq::empty()
    } else {
        let before = unknown_key_notes(es.drop_last());
        if is_known(es.last().0) {
            before
        } else {
            before.push(unknown_key_note(es.last().0))
        }
    }
}

/// Settings as they were read, with the lines to report along with them.
pub struct Loaded {
    pub config: Config,
    pub notes: Vec<String>,
}

/// Makes the settings from what the file at `path` holds, or from nothing where
/// it could not be read.
pub fn load_config(path: &str, content: Option<&str>) -> (r: Loaded)
    ensures
        match content {
            Some(c) => {
                &&& r.config@ == settings_of(entries::entries(c@))
                &&& text::texts(r.notes@) == unknown_key_notes(entries::entries(c@))
            },
            None => {
                &&& r.config@ == default_settings()
                &&& text::texts(r.notes@) == seq![
                    "[mouse-unlock] "@ + path@ + " not found, using defaults"@,
                ]
            },
        },
{
    let mut pattern: Vec<Click> = click::parse_pattern(DEFAULT_PATTERN);
    let mut rest: LoadedConfig = saved::default_config();
    let mut notes: Vec<String> = Vec::new();
    assert(text::texts(notes@) =~= Seq::empty());
    match content {
        Some(c) => {
            let es: Vec<Entry> = entries::read_entries(c);
            let ghost all = entries::entries(c@);
            let mut i: usize = 0;
            assert(all.take(0) =~= Seq::empty());
            while i < es.len()
                invariant
                    i <= es@.len(),
                    all == entries::entry_views(es@),
                    pattern@ == pattern_of(all.take(i as int)),
                    rest@ == saved::saved_of(all.take(i as int)),
                    text::texts(notes@) == unknown_key_notes(all.take(i as int)),
                decreases es@.len() - i,
            {
                let e: &Entry = &es[i];
                proof {
                    assert(all[i as int] == e@);
                    assert(all.take(i + 1).drop_last() =~= all.take(i as int));
                    assert(all.take(i + 1).last() == e@);
                }
                set_pattern(&mut pattern, e);
                saved::set_saved(&mut rest, e);
                if !knows(&e.key) {
                    text::add_text(
                        &mut notes,
                        text::join("[mouse-unlock] unknown config key: ", e.key.as_str()),
                    );
                }
                i += 1;
            }
            assert(all.take(all.len() as int) =~= all);
        },
        None => {
            text::add_text(
                &mut notes,
                text::join3("[mouse-unlock] ", path, " not found, using defaults"),
            );
            assert(text::texts(notes@) =~= seq![
                "[mouse-unlock] "@ + path@ + " not found, using defaults"@,
            ]);
        },
    }
    let config: Config = Config {
        pattern,
        pattern_hash: rest.pattern_hash,
        timeout_ms: rest.timeout_ms,
        unlock_cmd: rest.unlock_cmd,
        max_failures: rest.max_failures,
        lockout_base_ms: rest.lockout_base_ms,
        lockout_max_ms: rest.lockout_max_ms,
        require_usb: rest.require_usb,
    };
    assert(config@ =~= settings(pattern@, rest@));
    Loaded { config, notes }
}

/// Tells whether the daemon knows a key.
fn knows(key: &String) -> (r: bool)
    ensures
        r == is_known(key@),
{
    text::same_text(key, "pattern") || text::same_text(key, "pattern_hash") || text::same_text(
        key,
        "timeout_ms",
    ) || text::same_text(key, "unlock_cmd") || text::same_text(key, "max_failures")
        || text::same_text(key, "lockout_base_ms") || text::same_text(key, "lockout_max_ms")
        || text::same_text(key, "require_usb")
}

/// Takes the pattern of an entry, where it names one.
fn set_pattern(pattern: &mut Vec<Click>, e: &Entry)
    ensures
        final(pattern)@ == pattern_with(old(pattern)@, e@),
{
    if text::same_text(&e.key, "pattern") {
        let bare: String = entries::strip_comment(e.value.as_str());
        let p: Vec<Click> = click::parse_pattern(bare.as_str());
        if p.len() > 0 {
            *pattern = p;
        }
    }
}

/// What the arguments ask for.
pub struct Args {
    pub config_path: String,
    pub test_mode: bool,
    pub help: bool,
    pub notes: Vec<String>,
}

/// What the arguments ask for, with the lines that report those passed over.
#[verifier::ext_equal]
pub struct Asked {
    pub config_path: Seq<char>,
    pub test_mode: bool,
    pub help: bool,
    pub notes: Seq<Seq<char>>,
}

impl View for Args {
    type V = Asked;

    open spec fn view(&self) -> Asked {
        Asked {
            config_path: self.config_path@,
            test_mode: self.test_mode,
            help: self.help,
            notes: text::texts(self.notes@),
        }
    }
}

/// What is asked for where there are no arguments.
pub open spec fn nothing_asked() -> Asked {
    Asked {
        config_path: DEFAULT_CONFIG_PATH@,
        test_mode: false,
        help: false,
        notes: Seq::empty(),
    }
}

/// What the arguments from `i` on add to what was asked before them. A path
/// follows `--config`; what stands behind `--help` is not read.
pub open spec fn asked_from(args: Seq<Seq<char>>, i: int, a: Asked) -> Asked
    decreases args.len() - i,
{
    if i >= args.len() {
        a
    } else if args[i] == "--test"@ || args[i] == "-t"@ {
        asked_from(args, i + 1, Asked { test_mode: true, ..a })
    } else if args[i] == "--config"@ || args[i] == "-c"@ {
        if i + 1 < args.len() {
            asked_from(args, i + 2, Asked { config_path: args[i + 1], ..a })
        } else {
            a
        }
    } else if args[i] == "--help"@ || args[i] == "-h"@ {
        Asked { help: true, ..a }
    } else {
        asked_from(
            args,
            i + 1,
            Asked {
                notes: a.notes.push("[mouse-unlock] ignoring unknown argument: "@ + args[i]),
                ..a
            },
        )
    }
}

/// Reads the arguments; the first is the name of the program.
pub fn parse_args(args: &Vec<String>) -> (r: Args)
    ensures
        r@ == asked_from(text::texts(args@), 1, nothing_asked()),
{
    let mut r: Args = Args {
        config_path: DEFAULT_CONFIG_PATH.to_owned(),
        test_mode: false,
        help: false,
        notes: Vec::new(),
    };
    let ghost all = text::texts(args@);
    assert(r@ =~= nothing_asked());
    let mut i: usize = 1;
    while i < args.len()
        invariant
            all == text::texts(args@),
            1 <= i,
            asked_from(all, i as int, r@) == asked_from(all, 1, nothing_asked()),
        decreases args@.len() - i,
    {
        let a: &String = &args[i];
        assert(all[i as int] == a@);
        let ghost before = r@;
        if text::same_text(a, "--test") || text::same_text(a, "-t") {
            r.test_mode = true;
            assert(r@ =~= (Asked { test_mode: true, ..before }));
            i += 1;
        } else if text::same_text(a, "--config") || text::same_text(a, "-c") {
            if args.len() - i < 2 {
                return r;
            }
            r.config_path = args[i + 1].clone();
            assert(all[i + 1] == r.config_path@);
            assert(r@ =~= (Asked { config_path: all[i + 1], ..before }));
            i += 2;
        } else if text::same_text(a, "--help") || text::same_text(a, "-h") {
            r.help = true;
            assert(r@ =~= (Asked { help: true, ..before }));
            return r;
        } else {
            text::add_text(
                &mut r.notes,
                text::join("[mouse-unlock] ignoring unknown argument: ", a.as_str()),
            );
            assert(r@ =~= (Asked {
                notes: before.notes.push("[mouse-unlock] ignoring unknown argument: "@ + a@),
                ..before
            }));
            i += 1;
        }
    }
    r
}

/// A truth value in words.
pub open spec fn truth(b: bool) -> Seq<char> {
    if b {
        "true"@
    } else {
        "false"@
    }
}

/// The pattern as the daemon tells it: a hashed one is not told.
pub open spec fn pattern_told(s: Settings) -> Seq<char> {
    match s.pattern_hash {
        Some(_) => "(hashed)"@,
        None => click::labels(s.pattern),
    }
}

/// The line that the daemon starts with.
pub fn start_line(config: &Config, test_mode: bool) -> (r: String)
    ensures
        r@ == "[mouse-unlock] starting | pattern="@ + pattern_told(config@) + " | timeout="@
            + number::decimal(config@.timeout_ms) + "ms | test="@ + truth(test_mode),
{
    let mut r: String = "[mouse-unlock] starting | pattern=".to_owned();
    match &config.pattern_hash {
        Some(_) => r.append("(hashed)"),
        None => r.append(click::label_text(&config.pattern).as_str()),
    }
    r.append(" | timeout=");
    r.append(number::to_decimal(config.timeout_ms).as_str());
    r.append("ms | test=");
    r.append(
        if test_mode {
            "true"
        } else {
            "false"
        },
    );
    r
}

/// The line that refuses settings with neither a pattern nor a hash.
pub fn refusal(config: &Config, path: &str) -> (r: Option<String>)
    ensures
        text::maybe(r) == (if config@.pattern.len() == 0 && config@.pattern_hash is None {
            Some("[mouse-unlock] ERROR: empty pattern. Check "@ + path@)
        } else {
            None
        }),
{
    if config.pattern.len() == 0 && config.pattern_hash.is_none() {
        Some(text::join("[mouse-unlock] ERROR: empty pattern. Check ", path))
    } else {
        None
    }
}

/// Asks every session whether it is locked.
pub const LOCK_STATE_CMD: &'static str =
    "loginctl list-sessions --no-legend | while read -r id _; do loginctl show-session \"$id\" -p LockedHint; done";

/// An answer tells of a session that is locked, or not.
pub open spec fn tells(answer: Seq<char>, hint: Seq<char>) -> bool {
    entries::entries(answer).contains(("LockedHint"@, hint))
}

/// The screen is locked where a session says so. Where none says anything, it
/// counts as locked.
pub open spec fn tells_locked(answer: Option<Seq<char>>) -> bool {
    match answer {
        Some(a) => tells(a, "yes"@) || !tells(a, "no"@),
        None => true,
    }
}

/// Tells whether an answer holds a hint.
fn has_hint(answer: &str, hint: &str) -> (r: bool)
    ensures
        r == tells(answer@, hint@),
{
    let es: Vec<Entry> = entries::read_entries(answer);
    let ghost all = entries::entries(answer@);
    let mut i: usize = 0;
    while i < es.len()
        invariant
            i <= es@.len(),
            all == entries::entry_views(es@),
            all == entries::entries(answer@),
            forall|k: int| 0 <= k < i ==> #[trigger] all[k] != ("LockedHint"@, hint@),
        decreases es@.len() - i,
    {
        assert(all[i as int] == es@[i as int]@);
        if text::same_text(&es[i].key, "LockedHint") && text::same_text(&es[i].value, hint) {
            assert(all.contains(("LockedHint"@, hint@)));
            return true;
        }
        i += 1;
    }
    false
}

/// Tells whether the screen is locked, from the answer to the question.
pub fn screen_locked(answer: Option<&str>) -> (r: bool)
    ensures
        r == tells_locked(
            match answer {
                Some(a) => Some(a@),
                None => None,
            },
        ),
{
    match answer {
        Some(a) => has_hint(a, "yes") || !has_hint(a, "no"),
        None => true,
    }
}

/// What the daemon watches for: a pattern, or one that is hashed.
enum Watcher {
    Plain(Matcher),
    Hashed(Tries),
}

/// The running daemon.
pub struct Daemon {
    watcher: Watcher,
    unlock_cmd: String,
    require_usb: Option<String>,
    test_mode: bool,
}

/// What is watched for: a pattern, or one that is hashed.
pub enum Watching {
    Plain(matcher::Watch),
    Hashed(tries::Trial),
}

/// What the running daemon holds.
pub struct Running {
    pub watching: Watching,
    pub unlock_cmd: Seq<char>,
    pub require_usb: Option<Seq<char>>,
    pub test_mode: bool,
}

impl View for Daemon {
    type V = Running;

    closed spec fn view(&self) -> Running {
        Running {
            watching: match self.watcher {
                Watcher::Plain(m) => Watching::Plain(m@),
                Watcher::Hashed(t) => Watching::Hashed(t@),
            },
            unlock_cmd: self.unlock_cmd@,
            require_usb: text::maybe(self.require_usb),
            test_mode: self.test_mode,
        }
    }
}

/// When failures lock out, by the settings.
pub open spec fn lockout_of(s: Settings) -> Lockout {
    Lockout {
        max_failures: s.max_failures,
        base_ms: s.lockout_base_ms,
        max_ms: s.lockout_max_ms,
    }
}

/// The daemon as it starts.
pub open spec fn started(s: Settings, test_mode: bool, now: int) -> Running {
    Running {
        watching: match s.pattern_hash {
            Some(h) => Watching::Hashed(tries::fresh(h, s.timeout_ms, lockout_of(s), now)),
            None => Watching::Plain(matcher::fresh(s.pattern, s.timeout_ms, now)),
        },
        unlock_cmd: s.unlock_cmd,
        require_usb: s.require_usb,
        test_mode,
    }
}

/// What a click leads to: lines to print, then a command to run.
pub struct Reaction {
    pub notes: Vec<String>,
    pub run: Option<String>,
}

/// The clicks that are looked at with a click.
pub open spec fn window(w: Watching, c: Click, now: int) -> Seq<Click> {
    match w {
        Watching::Plain(m) => matcher::pushed(m, c, now),
        Watching::Hashed(t) => tries::attempt(t, c, now),
    }
}

/// Failures lock out at `now`.
pub open spec fn locked_out(w: Watching, now: int) -> bool {
    match w {
        Watching::Plain(_) => false,
        Watching::Hashed(t) => tries::locked_out(t, now),
    }
}

/// The click completes the pattern.
pub open spec fn completes(w: Watching, c: Click, now: int) -> bool {
    match w {
        Watching::Plain(m) => matcher::completes(m, c, now),
        Watching::Hashed(t) => tries::opens(t, c, now),
    }
}

/// What is watched for after a click, with the screen locked or not.
pub open spec fn watched(w: Watching, c: Click, now: int, screen_locked: bool) -> Watching {
    match w {
        Watching::Plain(m) => Watching::Plain(matcher::clicked(m, c, now)),
        Watching::Hashed(t) => Watching::Hashed(tries::clicked(t, c, now, screen_locked)),
    }
}

/// The daemon after a click.
pub open spec fn clicked(d: Running, c: Click, now: int, screen_locked: bool) -> Running {
    Running { watching: watched(d.watching, c, now, screen_locked), ..d }
}

/// The line that names the required device where it is missing.
pub open spec fn missing_note(required: Option<Seq<char>>) -> Seq<char> {
    "[mouse-unlock] required USB device not present: "@ + (match required {
        Some(r) => r,
        None => ""@,
    })
}

/// The lines that a click leads to: the window in test mode, that it was locked
/// out, the match, and then that the required device is missing or, in test
/// mode, what would be run.
pub open spec fn click_notes(
    d: Running,
    c: Click,
    now: int,
    devices: Seq<(Seq<char>, Seq<char>)>,
) -> Seq<Seq<char>> {
    let shown = if d.test_mode {
        seq!["[mouse-unlock] buffer = "@ + click::labels(window(d.watching, c, now))]
    } else {
        Seq::empty()
    };
    if locked_out(d.watching, now) {
        shown.push("[mouse-unlock] locked out, click ignored"@)
    } else if !completes(d.watching, c, now) {
        shown
    } else if !usb::present(d.require_usb, devices) {
        shown.push("[mouse-unlock] >>> PATTERN MATCHED"@).push(missing_note(d.require_usb))
    } else if d.test_mode {
        shown.push("[mouse-unlock] >>> PATTERN MATCHED"@).push(
            "[mouse-unlock] (test) would run: "@ + d.unlock_cmd,
        )
    } else {
        shown.push("[mouse-unlock] >>> PATTERN MATCHED"@)
    }
}

/// The command that a click has run: the unlock command, on a match with the
/// required device there, and never in test mode.
pub open spec fn click_run(
    d: Running,
    c: Click,
    now: int,
    devices: Seq<(Seq<char>, Seq<char>)>,
) -> Option<Seq<char>> {
    if completes(d.watching, c, now) && usb::present(d.require_usb, devices) && !d.test_mode {
        Some(d.unlock_cmd)
    } else {
        None
    }
}

impl Daemon {
    /// Starts to watch for the pattern of the settings, or for the one that is
    /// hashed where there is one.
    pub fn new(config: Config, test_mode: bool, now: u128) -> (r: Daemon)
        ensures
            r@ == started(config@, test_mode, now as int),
    {
        let lockout: Lockout = Lockout {
            max_failures: config.max_failures,
            base_ms: config.lockout_base_ms,
            max_ms: config.lockout_max_ms,
        };
        let watcher: Watcher = match config.pattern_hash {
            Some(h) => Watcher::Hashed(Tries::new(h, config.timeout_ms, lockout, now)),
            None => Watcher::Plain(Matcher::new(config.pattern, config.timeout_ms, now)),
        };
        Daemon {
            watcher,
            unlock_cmd: config.unlock_cmd,
            require_usb: config.require_usb,
            test_mode,
        }
    }

    /// Takes in a click that came at `now`, in nanoseconds, with the screen
    /// locked or not, and with these USB devices there.
    pub fn on_click(
        &mut self,
        c: Click,
        now: u128,
        screen_locked: bool,
        devices: &Vec<UsbDev>,
    ) -> (r: Reaction)
        ensures
            final(self)@ == clicked(old(self)@, c, now as int, screen_locked),
            text::texts(r.notes@) == click_notes(
                old(self)@,
                c,
                now as int,
                usb::device_views(devices@),
            ),
            text::maybe(r.run) == click_run(
                old(self)@,
                c,
                now as int,
                usb::device_views(devices@),
            ),
    {
        let seen: Tried = match &mut self.watcher {
            Watcher::Plain(m) => {
                let s: Seen = m.click(c, now);
                Tried { window: s.window, locked_out: false, opened: s.matched }
            },
            Watcher::Hashed(t) => t.click(c, now, screen_locked),
        };
        let mut notes: Vec<String> = Vec::new();
        let mut run: Option<String> = None;
        assert(text::texts(notes@) =~= Seq::empty());
        if self.test_mode {
            text::add_text(
                &mut notes,
                text::join("[mouse-unlock] buffer = ", click::label_text(&seen.window).as_str()),
            );
            assert(text::texts(notes@) =~= seq![
                "[mouse-unlock] buffer = "@ + click::labels(seen.window@),
            ]);
        }
        if seen.locked_out {
            text::add_text(&mut notes, "[mouse-unlock] locked out, click ignored".to_owned());
        } else if seen.opened {
            text::add_text(&mut notes, "[mouse-unlock] >>> PATTERN MATCHED".to_owned());
            if !usb::is_present(&self.require_usb, devices) {
                let required: String = match &self.require_usb {
                    Some(u) => u.clone(),
                    None => "".to_owned(),
                };
                text::add_text(
                    &mut notes,
                    text::join(
                        "[mouse-unlock] required USB device not present: ",
                        required.as_str(),
                    ),
                );
            } else if self.test_mode {
                text::add_text(
                    &mut notes,
                    text::join("[mouse-unlock] (test) would run: ", self.unlock_cmd.as_str()),
                );
            } else {
                run = Some(self.unlock_cmd.clone());
            }
        }
        Reaction { notes, run }
    }
}

/// The pattern that is watched for where the settings name none.
pub proof fn law_default_pattern()
    ensures
        default_settings().pattern == seq![
            Click::Left,
            Click::Left,
            Click::Right,
            Click::Right,
            Click::Left,
        ],
{
    reveal_strlit("LLRRL");
    reveal_with_fuel(click::clicks_in, 6);
    let s = DEFAULT_PATTERN@;
    assert(s =~= seq!['L', 'L', 'R', 'R', 'L']);
    assert(s.drop_last() =~= seq!['L', 'L', 'R', 'R']);
    assert(s.drop_last().drop_last() =~= seq!['L', 'L', 'R']);
    assert(s.drop_last().drop_last().drop_last() =~= seq!['L', 'L']);
    assert(s.drop_last().drop_last().drop_last().drop_last() =~= seq!['L']);
    assert(click::clicks_in(s) =~= seq![
        Click::Left,
        Click::Left,
        Click::Right,
        Click::Right,
        Click::Left,
    ]);
}

/// Whatever the settings file holds, there is a pattern to watch for and a
/// command to run.
pub proof fn law_settings_are_usable(content: Seq<char>)
    ensures
        settings_of(entries::entries(content)).pattern.len() > 0,
        settings_of(entries::entries(content)).unlock_cmd.len() > 0,
{
    lemma_pattern_has_clicks(entries::entries(content));
    saved::law_loaded_settings_are_storable(content);
}

/// A comment may follow a pattern, a timeout and a command: spaces or tabs, a `#`
/// and whatever comes behind it change nothing, where none starts in the value
/// itself and words are separated behind it.
pub proof fn law_comments_may_follow_values(
    p: Seq<Click>,
    s: saved::Saved,
    value: Seq<char>,
    space: Seq<char>,
    comment: Seq<char>,
)
    requires
        text::is_trimmed(value),
        entries::no_comment(value),
        entries::separates(entries::quote_at(value, value.len() as int)),
        space.len() > 0,
        forall|i: int| 0 <= i < space.len() ==> entries::is_blank(#[trigger] space[i]),
    ensures
        ({
            let longer = value + space + seq!['#'] + comment;
            &&& pattern_with(p, ("pattern"@, longer)) == pattern_with(p, ("pattern"@, value))
            &&& saved::saved_with(s, ("timeout_ms"@, longer)) == saved::saved_with(
                s,
                ("timeout_ms"@, value),
            )
            &&& saved::saved_with(s, ("unlock_cmd"@, longer)) == saved::saved_with(
                s,
                ("unlock_cmd"@, value),
            )
        }),
{
    entries::law_trailing_comments_are_ignored(value, space, comment);
    entries::lemma_no_comment_kept(value);
    saved::lemma_keys_differ();
}

proof fn lemma_pattern_has_clicks(es: Seq<(Seq<char>, Seq<char>)>)
    ensures
        pattern_of(es).len() > 0,
    decreases es.len(),
{
    if es.len() == 0 {
        law_default_pattern();
    } else {
        lemma_pattern_has_clicks(es.drop_last());
    }
}

/// A row of clicks by their clicks and times.
pub open spec fn timed(ev: Seq<Press>) -> Seq<(Click, int)> {
    ev.map_values(|e: Press| (e.click, e.at))
}

/// The daemon after a row of clicks.
pub open spec fn clicked_all(d: Running, ev: Seq<Press>) -> Running
    decreases ev.len(),
{
    if ev.len() == 0 {
        d
    } else {
        let e = ev.last();
        clicked(clicked_all(d, ev.drop_last()), e.click, e.at, e.screen_locked)
    }
}

/// The command that click `i` of a row has run, with these devices there.
pub open spec fn run_at(
    d: Running,
    ev: Seq<Press>,
    i: int,
    devices: Seq<(Seq<char>, Seq<char>)>,
) -> Option<Seq<char>> {
    click_run(clicked_all(d, ev.take(i)), ev[i].click, ev[i].at, devices)
}

proof fn lemma_clicked_all(d: Running, ev: Seq<Press>)
    ensures
        clicked_all(d, ev) == (Running {
            watching: match d.watching {
                Watching::Plain(w) => Watching::Plain(matcher::clicked_all(w, timed(ev))),
                Watching::Hashed(t) => Watching::Hashed(tries::clicked_all(t, ev)),
            },
            ..d
        }),
    decreases ev.len(),
{
    if ev.len() > 0 {
        lemma_clicked_all(d, ev.drop_last());
        assert(timed(ev).drop_last() =~= timed(ev.drop_last()));
    }
}

/// A daemon that has just started runs the unlock command on a click exactly
/// where the pattern ends with it and the required device is there, and never in
/// test mode.
pub proof fn law_command_runs_exactly_on_the_pattern(
    d: Running,
    ev: Seq<Press>,
    i: int,
    devices: Seq<(Seq<char>, Seq<char>)>,
)
    requires
        d.watching is Plain,
        d.watching->Plain_0.buf.len() == 0,
        d.watching->Plain_0.pattern.len() > 0,
        0 <= i < ev.len(),
    ensures
        run_at(d, ev, i, devices) == (if !d.test_mode && usb::present(d.require_usb, devices)
            && matcher::pattern_ends_at(d.watching->Plain_0, timed(ev), i) {
            Some(d.unlock_cmd)
        } else {
            None
        }),
{
    lemma_clicked_all(d, ev.take(i));
    assert(timed(ev).take(i) =~= timed(ev.take(i)));
    matcher::law_unlocks_exactly_on_the_pattern(d.watching->Plain_0, timed(ev), i);
}

/// Without the device that is required, nothing is run, whatever is clicked.
pub proof fn law_nothing_runs_without_the_device(
    d: Running,
    c: Click,
    now: int,
    devices: Seq<(Seq<char>, Seq<char>)>,
)
    requires
        !usb::present(d.require_usb, devices),
    ensures
        click_run(d, c, now, devices) is None,
{
}

/// In test mode nothing is run, whatever is clicked.
pub proof fn law_test_mode_runs_nothing(
    d: Running,
    c: Click,
    now: int,
    devices: Seq<(Seq<char>, Seq<char>)>,
)
    requires
        d.test_mode,
    ensures
        click_run(d, c, now, devices) is None,
{
}

/// A daemon that has just started with a hash has the command run by latest
/// clicks only that verify against the hash, with the required device there.
pub proof fn law_only_clicks_that_verify_run_the_command(
    s: Settings,
    test_mode: bool,
    now: int,
    ev: Seq<Press>,
    i: int,
    devices: Seq<(Seq<char>, Seq<char>)>,
)
    requires
        s.pattern_hash is Some,
        0 <= i < ev.len(),
        run_at(started(s, test_mode, now), ev, i, devices) is Some,
    ensures
        run_at(started(s, test_mode, now), ev, i, devices) == Some(s.unlock_cmd),
        usb::present(s.require_usb, devices),
        exists|from: int|
            0 <= from <= i && tries::in_time(s.timeout_ms, ev, from, i + 1)
                && #[trigger] hash::verifies(
                s.pattern_hash.unwrap(),
                click::labels(tries::clicks_of(ev, from, i + 1)),
            ),
{
    let d = started(s, test_mode, now);
    lemma_clicked_all(d, ev.take(i));
    tries::law_only_clicks_that_verify_open(d.watching->Hashed_0, ev, i);
}

/// Of a row of clicks, the last one has a command run, unless one before it had
/// one run.
pub open spec fn runs_by_the_last(
    d: Running,
    ev: Seq<Press>,
    devices: Seq<(Seq<char>, Seq<char>)>,
    cmd: Seq<char>,
) -> bool {
    (forall|k: int| 0 <= k < ev.len() - 1 ==> #[trigger] run_at(d, ev, k, devices) is None)
        ==> run_at(d, ev, ev.len() - 1, devices) == Some(cmd)
}

/// Of a row of clicks, the ones up to `k` are the first that have a command run.
pub open spec fn runs_first_at(
    d: Running,
    ev: Seq<Press>,
    k: int,
    devices: Seq<(Seq<char>, Seq<char>)>,
) -> bool {
    &&& run_at(d, ev, k, devices) is Some
    &&& forall|j: int| 0 <= j < k ==> #[trigger] run_at(d, ev, j, devices) is None
}

/// Clicking a pattern that verifies runs the command. Whatever a daemon that
/// watches for a hash has seen before: with no try under way or after a pause
/// that ended it, a pattern that verifies and is clicked in time, with the
/// required device there and no lockout, has the unlock command run by its last
/// click, unless a beginning of it had it run before, which it does only where it
/// verifies as well.
pub proof fn law_clicking_a_pattern_that_verifies_runs_the_command(
    d: Running,
    pattern: Seq<Click>,
    ev: Seq<Press>,
    devices: Seq<(Seq<char>, Seq<char>)>,
)
    requires
        d.watching is Hashed,
        !d.test_mode,
        usb::present(d.require_usb, devices),
        pattern.len() > 0,
        tries::spells(d.watching->Hashed_0, ev, pattern),
        tries::settled(d.watching->Hashed_0, ev[0].at).tried.len() == 0,
        hash::verifies(d.watching->Hashed_0.hash, click::labels(pattern)),
    ensures
        runs_by_the_last(d, ev, devices, d.unlock_cmd),
        forall|k: int|
            0 <= k < ev.len() && #[trigger] runs_first_at(d, ev, k, devices) ==> hash::verifies(
                d.watching->Hashed_0.hash,
                click::labels(pattern.take(k + 1)),
            ),
{
    let t = d.watching->Hashed_0;
    let last = ev.len() - 1;
    assert forall|k: int| 0 <= k < ev.len() implies (#[trigger] run_at(d, ev, k, devices) == (
    if tries::opens_at(t, ev, k) {
        Some(d.unlock_cmd)
    } else {
        None
    })) by {
        lemma_clicked_all(d, ev.take(k));
    }
    assert forall|k: int|
        0 <= k <= last && (forall|j: int|
            0 <= j < k ==> #[trigger] run_at(d, ev, j, devices) is None) implies (
    #[trigger] run_at(d, ev, k, devices) is Some <==> hash::verifies(
        t.hash,
        click::labels(pattern.take(k + 1)),
    )) by {
        assert forall|j: int| 0 <= j < k implies !#[trigger] tries::opens_at(t, ev, j) by {
            assert(run_at(d, ev, j, devices) is None);
        }
        tries::law_clicking_a_pattern_that_verifies_opens(t, ev, pattern, k);
    }
    assert(pattern.take(last + 1) =~= pattern);
    assert forall|k: int|
        0 <= k < ev.len() && #[trigger] runs_first_at(d, ev, k, devices) implies hash::verifies(
        t.hash,
        click::labels(pattern.take(k + 1)),
    ) by {
        assert(run_at(d, ev, k, devices) is Some);
    }
}

/// What is recorded unlocks. The setup program saves settings with the hash of a
/// recorded pattern; a daemon that starts from the saved file has the unlock
/// command run, without a comment that starts in it, by the last click of the
/// pattern when it is clicked in time and the required device is there, unless a
/// beginning of it had it run before. And no beginning does that has another
/// hash.
pub proof fn law_a_recorded_pattern_unlocks(
    s: saved::Saved,
    pattern: Seq<Click>,
    salt: Seq<char>,
    hash: Seq<char>,
    now: int,
    ev: Seq<Press>,
    devices: Seq<(Seq<char>, Seq<char>)>,
)
    requires
        saved::is_writable(s),
        hash::is_hash_of(hash, click::labels(pattern), salt),
        pattern.len() > 0,
        ev.len() == pattern.len(),
        forall|k: int| 0 <= k < ev.len() ==> (#[trigger] ev[k]).click == pattern[k],
        forall|k: int| 0 <= k < ev.len() ==> now <= (#[trigger] ev[k]).at,
        tries::in_time(s.timeout_ms, ev, 0, ev.len() as int),
        usb::present(s.require_usb, devices),
    ensures
        ({
            let d = started(
                settings_of(entries::entries(saved::rendered(s, hash))),
                false,
                now,
            );
            &&& runs_by_the_last(d, ev, devices, entries::uncommented(s.unlock_cmd))
            &&& forall|k: int|
                0 <= k < ev.len() && #[trigger] runs_first_at(d, ev, k, devices) ==> hash::hashed(
                    click::labels(pattern.take(k + 1)),
                    salt,
                ) == hash::hashed(click::labels(pattern), salt)
        }),
{
    hash::law_hashes_can_be_saved(hash, click::labels(pattern), salt);
    hash::law_a_hash_verifies_its_pattern(
        hash,
        click::labels(pattern),
        salt,
        click::labels(pattern),
    );
    saved::law_daemon_reads_saved_settings(s, hash);
    let settings = settings_of(entries::entries(saved::rendered(s, hash)));
    let d = started(settings, false, now);
    let t = d.watching->Hashed_0;
    assert(t == tries::fresh(hash, s.timeout_ms, lockout_of(settings), now));
    assert(tries::settled(t, ev[0].at) == t);
    assert(tries::spells(t, ev, pattern));
    law_clicking_a_pattern_that_verifies_runs_the_command(d, pattern, ev, devices);
    assert forall|k: int|
        0 <= k < ev.len() && #[trigger] runs_first_at(d, ev, k, devices) implies hash::hashed(
        click::labels(pattern.take(k + 1)),
        salt,
    ) == hash::hashed(click::labels(pattern), salt) by {
        hash::law_a_hash_verifies_its_pattern(
            hash,
            click::labels(pattern),
            salt,
            click::labels(pattern.take(k + 1)),
        );
    }
}

/// The time between click `k` of a row and the one before it, in nanoseconds.
pub open spec fn gap(ev: Seq<Press>, k: int) -> int {
    ev[k].at - ev[k - 1].at
}

/// Click `i` of a row is a match.
pub open spec fn matches_at(d: Running, ev: Seq<Press>, i: int) -> bool {
    completes(clicked_all(d, ev.take(i)).watching, ev[i].click, ev[i].at)
}

/// A daemon that starts from settings without a hash: whatever is clicked, a click
/// is a match exactly where the latest clicks, as many as the pattern of the
/// settings has, spell that pattern from its first to its last click, each of
/// them within the timeout of the settings after the one before it, and none of
/// them but the last is a match itself. On a match, and on nothing else, the
/// command of the settings is run, where the device that they require is there
/// and it is not test mode.
pub proof fn law_a_plain_pattern_unlocks_as_a_whole(
    s: Settings,
    test_mode: bool,
    now: int,
    ev: Seq<Press>,
    i: int,
    devices: Seq<(Seq<char>, Seq<char>)>,
)
    requires
        s.pattern_hash is None,
        s.pattern.len() > 0,
        0 <= i < ev.len(),
    ensures
        ({
            let d = started(s, test_mode, now);
            let first = i + 1 - s.pattern.len();
            &&& matches_at(d, ev, i) <==> {
                &&& first >= 0
                &&& forall|k: int| first <= k <= i ==> (#[trigger] ev[k]).click == s.pattern[k
                    - first]
                &&& forall|k: int| first < k <= i ==> #[trigger] gap(ev, k) <= s.timeout_ms
                    * 1_000_000
                &&& forall|k: int| first <= k < i ==> !#[trigger] matches_at(d, ev, k)
            }
            &&& run_at(d, ev, i, devices) == (if matches_at(d, ev, i) && usb::present(
                s.require_usb,
                devices,
            ) && !test_mode {
                Some(s.unlock_cmd)
            } else {
                None
            })
        }),
{
    let d = started(s, test_mode, now);
    let w = d.watching->Plain_0;
    let tv = timed(ev);
    let first = i + 1 - s.pattern.len();
    assert forall|k: int| 0 <= k < ev.len() implies (#[trigger] matches_at(d, ev, k)
        == matcher::fires(w, tv, k)) by {
        lemma_clicked_all(d, ev.take(k));
        assert(tv.take(k) =~= timed(ev.take(k)));
    }
    assert(matches_at(d, ev, i) == matcher::fires(w, tv, i));
    matcher::law_unlocks_exactly_on_the_pattern(w, tv, i);
    if first >= 0 {
        assert forall|k: int| first < k <= i implies (#[trigger] gap(ev, k) <= s.timeout_ms
            * 1_000_000 <==> !matcher::late(w, tv, k)) by {
            assert(tv[k].1 == ev[k].at);
            assert(tv[k - 1].1 == ev[k - 1].at);
        }
        assert forall|k: int| first <= k <= i implies tv[k].0 == (#[trigger] ev[k]).click by {}
        if matcher::pattern_ends_at(w, tv, i) {
            assert forall|k: int| first <= k <= i implies (#[trigger] ev[k]).click == s.pattern[k
                - first] by {
                assert(tv[k].0 == w.pattern[k - first]);
            }
            assert forall|k: int| first < k <= i implies #[trigger] gap(ev, k) <= s.timeout_ms
                * 1_000_000 by {
                assert(!matcher::late(w, tv, k));
            }
            assert forall|k: int| first <= k < i implies !#[trigger] matches_at(d, ev, k) by {
                assert(!matcher::fires(w, tv, k));
            }
        }
        if {
            &&& forall|k: int| first <= k <= i ==> (#[trigger] ev[k]).click == s.pattern[k - first]
            &&& forall|k: int| first < k <= i ==> #[trigger] gap(ev, k) <= s.timeout_ms * 1_000_000
            &&& forall|k: int| first <= k < i ==> !#[trigger] matches_at(d, ev, k)
        } {
            assert forall|k: int| first <= k <= i implies (#[trigger] tv[k]).0 == w.pattern[k
                - first] by {
                assert(ev[k].click == s.pattern[k - first]);
            }
            assert forall|k: int| first < k <= i implies !#[trigger] matcher::late(w, tv, k) by {
                assert(gap(ev, k) <= s.timeout_ms * 1_000_000);
            }
            assert forall|k: int| first <= k < i implies !#[trigger] matcher::fires(w, tv, k) by {
                assert(!matches_at(d, ev, k));
            }
            assert(matcher::pattern_ends_at(w, tv, i));
        }
    }
    lemma_clicked_all(d, ev.take(i));
}

/// Fewer clicks than the pattern of the settings has never have anything run.
pub proof fn law_a_part_of_the_pattern_is_not_enough(
    s: Settings,
    test_mode: bool,
    now: int,
    ev: Seq<Press>,
    i: int,
    devices: Seq<(Seq<char>, Seq<char>)>,
)
    requires
        s.pattern_hash is None,
        s.pattern.len() > 0,
        0 <= i < ev.len(),
        i + 1 < s.pattern.len(),
    ensures
        run_at(started(s, test_mode, now), ev, i, devices) is None,
{
    law_a_plain_pattern_unlocks_as_a_whole(s, test_mode, now, ev, i, devices);
}

/// A daemon that starts from settings with a hash: the first click has the command
/// run exactly where it verifies by itself against that hash, and each click
/// behind it, in time and with no match before it, exactly where all the clicks
/// so far do.
pub proof fn law_a_hashed_pattern_unlocks_as_a_whole(
    s: Settings,
    now: int,
    ev: Seq<Press>,
    i: int,
    devices: Seq<(Seq<char>, Seq<char>)>,
)
    requires
        s.pattern_hash is Some,
        0 <= i < ev.len(),
        forall|k: int| 0 <= k < ev.len() ==> now <= (#[trigger] ev[k]).at,
        forall|k: int| 0 < k <= i ==> #[trigger] gap(ev, k) <= s.timeout_ms * 1_000_000,
        forall|k: int|
            0 <= k < i ==> !#[trigger] hash::verifies(
                s.pattern_hash.unwrap(),
                click::labels(tries::clicks_of(ev, 0, k + 1)),
            ),
    ensures
        run_at(started(s, false, now), ev, i, devices) == (if hash::verifies(
            s.pattern_hash.unwrap(),
            click::labels(tries::clicks_of(ev, 0, i + 1)),
        ) && usb::present(s.require_usb, devices) {
            Some(s.unlock_cmd)
        } else {
            None
        }),
{
    let d = started(s, false, now);
    let t = d.watching->Hashed_0;
    let h = s.pattern_hash.unwrap();
    let row = ev.take(i + 1);
    let p = tries::clicks_of(ev, 0, i + 1);
    assert(tries::settled(t, row[0].at) == t);
    assert forall|k: int| 0 < k < row.len() implies !#[trigger] tries::late(t.timeout_ms, row, k) by {
        assert(gap(ev, k) <= s.timeout_ms * 1_000_000);
        assert(row[k] == ev[k] && row[k - 1] == ev[k - 1]);
    }
    assert forall|k: int| 0 <= k < row.len() implies (#[trigger] row[k]).click == p[k] && row[k].at
        >= t.until by {
        assert(row[k] == ev[k]);
    }
    assert(tries::spells(t, row, p));
    lemma_not_before(t, row, p, ev, i, i);
    tries::law_clicking_a_pattern_that_verifies_opens(t, row, p, i);
    assert(p.take(i + 1) =~= p);
    assert(row.take(i) =~= ev.take(i));
    lemma_clicked_all(d, ev.take(i));
}

proof fn lemma_not_before(
    t: tries::Trial,
    row: Seq<Press>,
    p: Seq<Click>,
    ev: Seq<Press>,
    i: int,
    n: int,
)
    requires
        0 <= n <= i < ev.len(),
        row == ev.take(i + 1),
        p == tries::clicks_of(ev, 0, i + 1),
        tries::spells(t, row, p),
        tries::settled(t, row[0].at).tried.len() == 0,
        forall|k: int|
            0 <= k < i ==> !#[trigger] hash::verifies(
                t.hash,
                click::labels(tries::clicks_of(ev, 0, k + 1)),
            ),
    ensures
        forall|k: int| 0 <= k < n ==> !#[trigger] tries::opens_at(t, row, k),
    decreases n,
{
    if n > 0 {
        lemma_not_before(t, row, p, ev, i, n - 1);
        tries::law_clicking_a_pattern_that_verifies_opens(t, row, p, n - 1);
        assert(p.take(n) =~= tries::clicks_of(ev, 0, n - 1 + 1));
        assert(!hash::verifies(t.hash, click::labels(tries::clicks_of(ev, 0, n - 1 + 1))));
    }
}

/// The daemon starts with what the settings say: their command and their second
/// factor, and either their hash with their limits or else their pattern, both
/// with their timeout. No click is counted yet.
pub proof fn law_the_daemon_starts_from_its_settings(s: Settings, test_mode: bool, now: int)
    ensures
        ({
            let d = started(s, test_mode, now);
            &&& d.unlock_cmd == s.unlock_cmd
            &&& d.require_usb == s.require_usb
            &&& d.test_mode == test_mode
            &&& match d.watching {
                Watching::Plain(w) => {
                    &&& s.pattern_hash is None
                    &&& w.pattern == s.pattern
                    &&& w.timeout_ms == s.timeout_ms
                    &&& w.buf.len() == 0
                },
                Watching::Hashed(t) => {
                    &&& s.pattern_hash == Some(t.hash)
                    &&& t.timeout_ms == s.timeout_ms
                    &&& t.lockout.max_failures == s.max_failures
                    &&& t.lockout.base_ms == s.lockout_base_ms
                    &&& t.lockout.max_ms == s.lockout_max_ms
                    &&& t.tried.len() == 0
                    &&& t.failures == 0
                },
            }
        }),
{
}

/// A click changes what is watched for, and neither the command nor the second
/// factor nor the mode.
pub proof fn law_clicks_change_no_setting(d: Running, c: Click, now: int, screen_locked: bool)
    ensures
        ({
            let e = clicked(d, c, now, screen_locked);
            &&& e.unlock_cmd == d.unlock_cmd
            &&& e.require_usb == d.require_usb
            &&& e.test_mode == d.test_mode
            &&& e.watching is Plain <==> d.watching is Plain
        }),
{
}

/// Test mode is the daemon without the command: on every click it sees what the
/// daemon would see, tells the clicks that are looked at, and where that one
/// would have a command run, tells which.
pub proof fn law_test_mode_tells_what_would_be_run(
    d: Running,
    c: Click,
    now: int,
    screen_locked: bool,
    devices: Seq<(Seq<char>, Seq<char>)>,
)
    requires
        d.test_mode,
    ensures
        ({
            let e = Running { test_mode: false, ..d };
            let told = click_notes(d, c, now, devices);
            &&& told.len() >= 1
            &&& told[0] == "[mouse-unlock] buffer = "@ + click::labels(window(d.watching, c, now))
            &&& click_run(d, c, now, devices) is None
            &&& clicked(d, c, now, screen_locked).watching == clicked(
                e,
                c,
                now,
                screen_locked,
            ).watching
            &&& click_run(e, c, now, devices) matches Some(cmd) ==> told.skip(1) == seq![
                "[mouse-unlock] >>> PATTERN MATCHED"@,
                "[mouse-unlock] (test) would run: "@ + cmd,
            ]
            &&& click_run(e, c, now, devices) is None ==> told.skip(1) == click_notes(
                e,
                c,
                now,
                devices,
            )
        }),
{
    let e = Running { test_mode: false, ..d };
    let told = click_notes(d, c, now, devices);
    if click_run(e, c, now, devices) is Some {
        assert(told.skip(1) =~= seq![
            "[mouse-unlock] >>> PATTERN MATCHED"@,
            "[mouse-unlock] (test) would run: "@ + d.unlock_cmd,
        ]);
    } else {
        assert(told.skip(1) =~= click_notes(e, c, now, devices));
    }
}

/// Outside test mode the daemon reports matches, clicks that are locked out and
/// nothing else: a match where a command is run, and a match and the missing
/// device where one would be run if it were there.
pub proof fn law_what_the_daemon_reports(
    d: Running,
    c: Click,
    now: int,
    devices: Seq<(Seq<char>, Seq<char>)>,
)
    requires
        !d.test_mode,
    ensures
        ({
            let told = click_notes(d, c, now, devices);
            let free = Running { require_usb: None, ..d };
            &&& click_run(d, c, now, devices) is Some ==> told == seq![
                "[mouse-unlock] >>> PATTERN MATCHED"@,
            ]
            &&& click_run(d, c, now, devices) is None && click_run(free, c, now, devices) is Some
                ==> d.require_usb is Some && told == seq![
                "[mouse-unlock] >>> PATTERN MATCHED"@,
                "[mouse-unlock] required USB device not present: "@ + d.require_usb.unwrap(),
            ]
            &&& click_run(free, c, now, devices) is None && !locked_out(d.watching, now)
                ==> told.len() == 0
            &&& locked_out(d.watching, now) ==> told == seq![
                "[mouse-unlock] locked out, click ignored"@,
            ]
        }),
{
    let told = click_notes(d, c, now, devices);
    if locked_out(d.watching, now) {
        assert(told =~= seq!["[mouse-unlock] locked out, click ignored"@]);
    } else if completes(d.watching, c, now) {
        if usb::present(d.require_usb, devices) {
            assert(told =~= seq!["[mouse-unlock] >>> PATTERN MATCHED"@]);
        } else {
            assert(told =~= seq![
                "[mouse-unlock] >>> PATTERN MATCHED"@,
                "[mouse-unlock] required USB device not present: "@ + d.require_usb.unwrap(),
            ]);
        }
    }
}

/// Failures lock out a hashed pattern only, and exactly until the time that was
/// set.
pub proof fn law_a_plain_pattern_is_never_locked_out(w: Watching, now: int)
    ensures
        w is Plain ==> !locked_out(w, now),
        w matches Watching::Hashed(t) ==> locked_out(w, now) == tries::locked_out(t, now),
        w matches Watching::Hashed(t) ==> t.tried.len() == 0 ==> (locked_out(w, now) <==> now
            < t.until),
{
}

/// A line that names a pattern sets it, all of it, however long it is and whatever
/// stands before it in the file; and a comment may follow it.
pub proof fn law_a_pattern_is_read_as_a_whole(
    before: Seq<char>,
    p: Seq<Click>,
    space: Seq<char>,
    comment: Seq<char>,
)
    requires
        p.len() > 0,
        space.len() > 0,
        forall|i: int| 0 <= i < space.len() ==> #[trigger] space[i] == ' ' || space[i] == '\t',
        text::one_line(comment),
        comment.len() > 0 ==> !text::white_space(comment[comment.len() - 1]),
    ensures
        settings_of(
            entries::entries(saved::with_line(before, "pattern"@, click::labels(p))),
        ).pattern == p,
        settings_of(
            entries::entries(
                saved::with_line(
                    before,
                    "pattern"@,
                    click::labels(p) + space + seq!['#'] + comment,
                ),
            ),
        ).pattern == p,
{
    let v = click::labels(p);
    let w = v + space + seq!['#'] + comment;
    lemma_pattern_key();
    lemma_letters(p);
    entries::law_a_number_sign_in_a_word_is_kept(v);
    entries::law_a_comment_behind_an_ordinary_value_is_cut(v, space, comment);
    click::law_pattern_round_trip(p);
    assert(w[0] == v[0]);
    assert(comment.len() > 0 ==> w.last() == comment[comment.len() - 1]);
    assert forall|i: int| 0 <= i < w.len() implies #[trigger] w[i] != '\n' by {
        if i < v.len() {
            assert(w[i] == v[i]);
        } else if i < v.len() + space.len() {
            assert(w[i] == space[i - v.len()]);
        } else if i > v.len() + space.len() {
            assert(w[i] == comment[i - v.len() - space.len() - 1]);
        }
    }
    saved::lemma_entry_behind(before, "pattern"@, v);
    saved::lemma_entry_behind(before, "pattern"@, w);
    lemma_pattern_behind(entries::entries(before), ("pattern"@, v));
    lemma_pattern_behind(entries::entries(before), ("pattern"@, w));
}

proof fn lemma_pattern_key()
    ensures
        "pattern"@.len() > 0,
        "pattern"@[0] != '#',
        saved::is_clean("pattern"@),
        forall|i: int| 0 <= i < "pattern"@.len() ==> #[trigger] "pattern"@[i] != '=',
{
    reveal_strlit("pattern");
}

proof fn lemma_letters(p: Seq<Click>)
    ensures
        saved::is_clean(click::labels(p)),
        entries::all_ordinary(click::labels(p)),
        entries::without_number_sign(click::labels(p)),
{
    let v = click::labels(p);
    assert forall|i: int| 0 <= i < v.len() implies #[trigger] v[i] == 'L' || v[i] == 'R' || v[i]
        == 'M' by {
        assert(v[i] == click::label_of(p[i]));
    }
}

proof fn lemma_pattern_behind(es: Seq<(Seq<char>, Seq<char>)>, e: (Seq<char>, Seq<char>))
    ensures
        pattern_of(es.push(e)) == pattern_with(pattern_of(es), e),
        unknown_key_notes(es.push(e)) == (if is_known(e.0) {
            unknown_key_notes(es)
        } else {
            unknown_key_notes(es).push(unknown_key_note(e.0))
        }),
{
    assert(es.push(e).drop_last() =~= es);
}

/// The last entry for a pattern that has a click in it gives the pattern: exactly
/// the clicks of its value.
pub proof fn law_the_last_pattern_with_a_click_wins(es: Seq<(Seq<char>, Seq<char>)>, k: int)
    requires
        0 <= k < es.len(),
        es[k].0 == "pattern"@,
        entries::without_number_sign(es[k].1),
        text::is_trimmed(es[k].1),
        click::clicks_in(es[k].1).len() > 0,
        forall|j: int|
            k < j < es.len() && (#[trigger] es[j]).0 == "pattern"@ ==> click::clicks_in(
                entries::uncommented(es[j].1),
            ).len() == 0,
    ensures
        settings_of(es).pattern == click::clicks_in(es[k].1),
    decreases es.len(),
{
    if k == es.len() - 1 {
        entries::law_a_number_sign_in_a_word_is_kept(es[k].1);
    } else {
        let front = es.drop_last();
        assert(front[k] == es[k]);
        law_the_last_pattern_with_a_click_wins(front, k);
        assert(es[es.len() - 1] == es.last());
    }
}

/// Where no entry for a pattern has a click in it, the pattern is Left, Left,
/// Right, Right, Left.
pub proof fn law_the_pattern_where_none_is_named(es: Seq<(Seq<char>, Seq<char>)>)
    requires
        forall|j: int|
            0 <= j < es.len() && (#[trigger] es[j]).0 == "pattern"@ ==> click::clicks_in(
                entries::uncommented(es[j].1),
            ).len() == 0,
    ensures
        settings_of(es).pattern == seq![
            Click::Left,
            Click::Left,
            Click::Right,
            Click::Right,
            Click::Left,
        ],
    decreases es.len(),
{
    law_default_pattern();
    if es.len() > 0 {
        let front = es.drop_last();
        assert forall|j: int|
            0 <= j < front.len() && (#[trigger] front[j]).0 == "pattern"@ implies click::clicks_in(
            entries::uncommented(front[j].1),
        ).len() == 0 by {
            assert(front[j] == es[j]);
        }
        law_the_pattern_where_none_is_named(front);
        assert(es[es.len() - 1] == es.last());
    }
}

/// Beside the pattern, the daemon reads from every file what the setup program
/// reads from it.
pub proof fn law_both_programs_read_alike(content: Seq<char>)
    ensures
        ({
            let d = settings_of(entries::entries(content));
            let s = saved::saved_of(entries::entries(content));
            &&& d.pattern_hash == s.pattern_hash
            &&& d.timeout_ms == s.timeout_ms
            &&& d.unlock_cmd == s.unlock_cmd
            &&& d.max_failures == s.max_failures
            &&& d.lockout_base_ms == s.lockout_base_ms
            &&& d.lockout_max_ms == s.lockout_max_ms
            &&& d.require_usb == s.require_usb
        }),
        ({
            let d = default_settings();
            let s = saved::default_saved();
            &&& d.pattern_hash == s.pattern_hash
            &&& d.timeout_ms == s.timeout_ms
            &&& d.unlock_cmd == s.unlock_cmd
            &&& d.max_failures == s.max_failures
            &&& d.lockout_base_ms == s.lockout_base_ms
            &&& d.lockout_max_ms == s.lockout_max_ms
            &&& d.require_usb == s.require_usb
        }),
{
    saved::law_loaded_settings_are_storable(content);
}

/// Keys that are not known are reported, one line for each of them in the order
/// of the file, and no others are.
pub proof fn law_unknown_keys_are_reported(
    a: Seq<(Seq<char>, Seq<char>)>,
    b: Seq<(Seq<char>, Seq<char>)>,
    key: Seq<char>,
    value: Seq<char>,
)
    ensures
        unknown_key_notes(a + b) == unknown_key_notes(a) + unknown_key_notes(b),
        unknown_key_notes(seq![(key, value)]) == (if key == "pattern"@ || key == "pattern_hash"@
            || key == "timeout_ms"@ || key == "unlock_cmd"@ || key == "max_failures"@ || key
            == "lockout_base_ms"@ || key == "lockout_max_ms"@ || key == "require_usb"@ {
            Seq::empty()
        } else {
            seq!["[mouse-unlock] unknown config key: "@ + key]
        }),
    decreases b.len(),
{
    let one = seq![(key, value)];
    assert(one.drop_last() =~= Seq::empty());
    assert(unknown_key_notes(one.drop_last()) =~= Seq::empty());
    assert(one.last() == (key, value));
    if !is_known(key) {
        assert(unknown_key_notes(one) =~= seq!["[mouse-unlock] unknown config key: "@ + key]);
    }
    if b.len() == 0 {
        assert(a + b =~= a);
        assert(unknown_key_notes(a) + unknown_key_notes(b) =~= unknown_key_notes(a));
    } else {
        law_unknown_keys_are_reported(a, b.drop_last(), key, value);
        assert((a + b).drop_last() =~= a + b.drop_last());
        assert((a + b).last() == b.last());
        assert(unknown_key_notes(a + b) =~= unknown_key_notes(a) + unknown_key_notes(b));
    }
}

/// From a file that the setup program saved, the daemon takes each setting.
pub proof fn law_the_daemon_takes_each_saved_setting(s: saved::Saved, hash: Seq<char>)
    requires
        saved::is_writable(s),
        entries::no_comment(s.unlock_cmd),
        saved::is_clean(hash),
        hash.len() > 0,
    ensures
        ({
            let d = settings_of(entries::entries(saved::rendered(s, hash)));
            &&& d.pattern_hash == Some(hash)
            &&& d.timeout_ms == s.timeout_ms
            &&& d.unlock_cmd == s.unlock_cmd
            &&& d.max_failures == s.max_failures
            &&& d.lockout_base_ms == s.lockout_base_ms
            &&& d.lockout_max_ms == s.lockout_max_ms
            &&& d.require_usb == s.require_usb
        }),
{
    saved::law_each_saved_setting_reads_back(s, hash);
    law_both_programs_read_alike(saved::rendered(s, hash));
}

/// A hashed pattern is not told: whatever the hash and whatever else stands in
/// the settings, the daemon tells the same. A plain pattern is told click by
/// click.
pub proof fn law_a_hashed_pattern_is_not_told(a: Settings, b: Settings)
    ensures
        a.pattern_hash is Some && b.pattern_hash is Some ==> pattern_told(a) == pattern_told(b),
        a.pattern_hash is None ==> pattern_told(a) == click::labels(a.pattern),
        a.pattern_hash is None && b.pattern_hash is None && pattern_told(a) == pattern_told(b)
            ==> a.pattern == b.pattern,
{
    if a.pattern_hash is None && b.pattern_hash is None && pattern_told(a) == pattern_told(b) {
        click::law_pattern_round_trip(a.pattern);
        click::law_pattern_round_trip(b.pattern);
    }
}

/// What is said of settings is what they hold.
pub proof fn law_settings_are_what_they_hold(c: Config, a: Args)
    ensures
        c@.pattern == c.pattern@,
        c@.pattern_hash == text::maybe(c.pattern_hash),
        c@.timeout_ms == c.timeout_ms,
        c@.unlock_cmd == c.unlock_cmd@,
        c@.max_failures == c.max_failures,
        c@.lockout_base_ms == c.lockout_base_ms,
        c@.lockout_max_ms == c.lockout_max_ms,
        c@.require_usb == text::maybe(c.require_usb),
        a@.config_path == a.config_path@,
        a@.test_mode == a.test_mode,
        a@.help == a.help,
        a@.notes == text::texts(a.notes@),
{
}

/// A session that says it is locked makes the screen count as locked, whatever
/// other sessions say; where sessions say that they are not, and none says that it
/// is, it does not; and where nothing is said it does.
pub proof fn law_when_the_screen_counts_as_locked(a: Seq<char>, b: Seq<char>)
    ensures
        tells_locked(None),
        tells_locked(Some(Seq::empty())),
        tells_locked(Some(a + seq!['\n'] + "LockedHint=yes"@ + seq!['\n'] + b)),
        (a == "LockedHint=no"@ || !tells_locked(Some(a))) ==> !tells_locked(
            Some(a + seq!['\n'] + "LockedHint=no"@),
        ),
{
    reveal_strlit("LockedHint=yes");
    reveal_strlit("LockedHint=no");
    reveal_strlit("LockedHint");
    reveal_strlit("yes");
    reveal_strlit("no");
    let none: Seq<char> = Seq::empty();
    let yes = ("LockedHint"@, "yes"@);
    let no = ("LockedHint"@, "no"@);
    entries::law_an_entry_in_white_space(none, "LockedHint"@, none, none, "yes"@, none);
    entries::law_an_entry_in_white_space(none, "LockedHint"@, none, none, "no"@, none);
    assert(none + "LockedHint"@ + none + seq!['='] + none + "yes"@ + none =~= "LockedHint=yes"@);
    assert(none + "LockedHint"@ + none + seq!['='] + none + "no"@ + none =~= "LockedHint=no"@);
    entries::law_entries_of_a_line("LockedHint=yes"@);
    entries::law_entries_of_a_line("LockedHint=no"@);
    entries::law_entries_of_a_line(none);
    entries::law_lines_without_an_entry(none, none);
    let first = a + seq!['\n'] + "LockedHint=yes"@;
    entries::law_entries_of_the_parts(a, "LockedHint=yes"@);
    entries::law_entries_of_the_parts(first, b);
    let all = entries::entries(first + seq!['\n'] + b);
    assert(all[entries::entries(a).len() as int] == yes);
    assert(all.contains(yes));
    entries::law_entries_of_the_parts(a, "LockedHint=no"@);
    let ea = entries::entries(a);
    let more = entries::entries(a + seq!['\n'] + "LockedHint=no"@);
    assert(more =~= ea.push(no));
    assert(more[ea.len() as int] == no);
    assert(more.contains(no));
    assert("yes"@.len() != "no"@.len());
    if more.contains(yes) {
        let k = choose|k: int| 0 <= k < more.len() && more[k] == yes;
        assert(ea[k] == yes);
        assert(ea.contains(yes));
        if a == "LockedHint=no"@ {
            assert(ea =~= seq![no]);
        }
    }
}

/// The clicks that are looked at with a click that comes in time are those before
/// it and that click: of a plain pattern as many as it has, of a hashed one all
/// of the try. A click after a pause is looked at alone.
pub proof fn law_the_clicks_that_are_looked_at(w: Watching, c: Click, now: int)
    ensures
        w matches Watching::Plain(m) ==> m.pattern.len() > 0 && m.buf.len() <= m.pattern.len() ==> {
            &&& now - m.last <= m.timeout_ms * 1_000_000 && m.buf.len() < m.pattern.len() ==> window(
                w,
                c,
                now,
            ) == m.buf.push(c)
            &&& now - m.last <= m.timeout_ms * 1_000_000 && m.buf.len() == m.pattern.len()
                ==> window(w, c, now) == m.buf.push(c).drop_first()
            &&& now - m.last > m.timeout_ms * 1_000_000 ==> window(w, c, now) == seq![c]
        },
        w matches Watching::Hashed(t) ==> now >= t.until && now - t.last <= t.timeout_ms * 1_000_000
            ==> window(w, c, now) == t.tried.push(c),
{
    match w {
        Watching::Plain(m) => {
            if m.pattern.len() > 0 && m.buf.len() <= m.pattern.len() {
                if now - m.last <= m.timeout_ms * 1_000_000 {
                    matcher::law_the_window_holds_the_latest_clicks(m, c, now);
                } else {
                    matcher::law_a_pause_starts_over(m, c, now);
                }
            }
        },
        Watching::Hashed(_) => {},
    }
}

/// An argument that asks for test mode.
pub open spec fn asks_test(a: Seq<char>) -> bool {
    a == "--test"@ || a == "-t"@
}

/// An argument that asks for help.
pub open spec fn asks_help(a: Seq<char>) -> bool {
    a == "--help"@ || a == "-h"@
}

/// An argument that a path follows.
pub open spec fn takes_path(a: Seq<char>) -> bool {
    a == "--config"@ || a == "-c"@
}

/// The argument at `i` is read as an option: it is not the path that follows
/// another one, and help was not asked for before it.
#[verifier::opaque]
pub open spec fn is_option(args: Seq<Seq<char>>, i: int) -> bool
    decreases i,
{
    if i <= 1 {
        i == 1
    } else {
        ||| is_option(args, i - 1) && !takes_path(args[i - 1]) && !asks_help(args[i - 1])
        ||| i >= 3 && is_option(args, i - 2) && takes_path(args[i - 2])
    }
}

/// The argument at `i` is an option that the path behind it belongs to.
pub open spec fn names_path(args: Seq<Seq<char>>, i: int) -> bool {
    is_option(args, i) && takes_path(args[i]) && i + 1 < args.len()
}

/// The lines that report the options from `from` up to `to` that are not known.
pub open spec fn unknown_options(args: Seq<Seq<char>>, from: int, to: int) -> Seq<Seq<char>>
    decreases to - from,
{
    if from >= to {
        Seq::empty()
    } else {
        let rest = unknown_options(args, from + 1, to);
        if is_option(args, from) && !asks_test(args[from]) && !asks_help(args[from]) && !takes_path(
            args[from],
        ) {
            seq!["[mouse-unlock] ignoring unknown argument: "@ + args[from]] + rest
        } else {
            rest
        }
    }
}

proof fn lemma_options_differ(a: Seq<char>)
    ensures
        !(asks_test(a) && asks_help(a)),
        !(asks_test(a) && takes_path(a)),
        !(asks_help(a) && takes_path(a)),
{
    reveal_strlit("--test");
    reveal_strlit("-t");
    reveal_strlit("--help");
    reveal_strlit("-h");
    reveal_strlit("--config");
    reveal_strlit("-c");
    assert("--test"@[2] == 't' && "--help"@[2] == 'h' && "--config"@[2] == 'c');
    assert("-t"@[1] == 't' && "-h"@[1] == 'h' && "-c"@[1] == 'c');
    assert("--test"@[1] == '-' && "--help"@[1] == '-' && "--config"@[1] == '-');
}

/// What follows an option that takes a path is no option.
proof fn lemma_path_is_no_option(args: Seq<Seq<char>>, i: int)
    requires
        is_option(args, i),
        takes_path(args[i]),
    ensures
        !is_option(args, i + 1),
    decreases i,
{
    reveal(is_option);
    if i >= 2 && is_option(args, i - 1) && takes_path(args[i - 1]) {
        lemma_path_is_no_option(args, i - 1);
    }
}

/// What follows an option that takes no path and does not ask for help is an
/// option, and so is what follows a path.
proof fn lemma_next_option(args: Seq<Seq<char>>, i: int)
    requires
        1 <= i,
        is_option(args, i),
    ensures
        takes_path(args[i]) ==> is_option(args, i + 2),
        !takes_path(args[i]) && !asks_help(args[i]) ==> is_option(args, i + 1),
{
    reveal(is_option);
}

/// Behind help there is no option.
proof fn lemma_no_option_behind_help(args: Seq<Seq<char>>, i: int, j: int)
    requires
        is_option(args, i),
        asks_help(args[i]),
        i < j,
    ensures
        !is_option(args, j),
    decreases j,
{
    reveal(is_option);
    lemma_options_differ(args[i]);
    if j == i + 1 {
        if i >= 2 && is_option(args, i - 1) && takes_path(args[i - 1]) {
            lemma_path_is_no_option(args, i - 1);
        }
    } else {
        lemma_no_option_behind_help(args, i, j - 1);
        if j - 2 > i {
            lemma_no_option_behind_help(args, i, j - 2);
        }
    }
}

proof fn lemma_no_unknown(args: Seq<Seq<char>>, from: int, to: int)
    requires
        forall|j: int| from <= j < to ==> !#[trigger] is_option(args, j),
    ensures
        unknown_options(args, from, to) == Seq::<Seq<char>>::empty(),
    decreases to - from,
{
    if from < to {
        assert(!is_option(args, from));
        lemma_no_unknown(args, from + 1, to);
    }
}

proof fn lemma_asked_flags(args: Seq<Seq<char>>, i: int, a: Asked)
    requires
        1 <= i,
        i < args.len() ==> is_option(args, i),
    ensures
        asked_from(args, i, a).test_mode <==> a.test_mode || exists|j: int|
            i <= j < args.len() && #[trigger] is_option(args, j) && asks_test(args[j]),
        asked_from(args, i, a).help <==> a.help || exists|j: int|
            i <= j < args.len() && #[trigger] is_option(args, j) && asks_help(args[j]),
    decreases args.len() - i,
{
    if i < args.len() {
        lemma_options_differ(args[i]);
        lemma_next_option(args, i);
        if asks_test(args[i]) {
            lemma_asked_flags(args, i + 1, Asked { test_mode: true, ..a });
        } else if takes_path(args[i]) {
            lemma_path_is_no_option(args, i);
            if i + 1 < args.len() {
                lemma_asked_flags(args, i + 2, Asked { config_path: args[i + 1], ..a });
            }
        } else if asks_help(args[i]) {
            assert forall|j: int| i < j < args.len() implies !#[trigger] is_option(args, j) by {
                lemma_no_option_behind_help(args, i, j);
            }
        } else {
            lemma_asked_flags(
                args,
                i + 1,
                Asked {
                    notes: a.notes.push("[mouse-unlock] ignoring unknown argument: "@ + args[i]),
                    ..a
                },
            );
        }
    }
}

proof fn lemma_asked_path(args: Seq<Seq<char>>, i: int, a: Asked)
    requires
        1 <= i,
        i < args.len() ==> is_option(args, i),
    ensures
        (forall|j: int| i <= j < args.len() ==> !#[trigger] names_path(args, j)) ==> asked_from(
            args,
            i,
            a,
        ).config_path == a.config_path,
        forall|j: int|
            i <= j < args.len() && #[trigger] names_path(args, j) && (forall|k: int|
                j < k < args.len() ==> !#[trigger] names_path(args, k)) ==> asked_from(
                args,
                i,
                a,
            ).config_path == args[j + 1],
    decreases args.len() - i,
{
    if i < args.len() {
        lemma_options_differ(args[i]);
        lemma_next_option(args, i);
        if asks_test(args[i]) {
            assert(!names_path(args, i));
            lemma_asked_path(args, i + 1, Asked { test_mode: true, ..a });
        } else if takes_path(args[i]) {
            lemma_path_is_no_option(args, i);
            assert(!names_path(args, i + 1));
            if i + 1 < args.len() {
                assert(names_path(args, i));
                lemma_asked_path(args, i + 2, Asked { config_path: args[i + 1], ..a });
            } else {
                assert(!names_path(args, i));
            }
        } else if asks_help(args[i]) {
            assert forall|j: int| i <= j < args.len() implies !#[trigger] names_path(args, j) by {
                if j > i {
                    lemma_no_option_behind_help(args, i, j);
                }
            }
        } else {
            assert(!names_path(args, i));
            lemma_asked_path(
                args,
                i + 1,
                Asked {
                    notes: a.notes.push("[mouse-unlock] ignoring unknown argument: "@ + args[i]),
                    ..a
                },
            );
        }
    }
}

proof fn lemma_asked_notes(args: Seq<Seq<char>>, i: int, a: Asked)
    requires
        1 <= i,
        i < args.len() ==> is_option(args, i),
    ensures
        asked_from(args, i, a).notes == a.notes + unknown_options(args, i, args.len() as int),
    decreases args.len() - i,
{
    let n = args.len() as int;
    if i >= n {
        assert(a.notes + unknown_options(args, i, n) =~= a.notes);
    } else {
        lemma_options_differ(args[i]);
        lemma_next_option(args, i);
        if asks_test(args[i]) {
            lemma_asked_notes(args, i + 1, Asked { test_mode: true, ..a });
        } else if takes_path(args[i]) {
            lemma_path_is_no_option(args, i);
            assert(unknown_options(args, i, n) == unknown_options(args, i + 1, n));
            if i + 1 < n {
                lemma_asked_notes(args, i + 2, Asked { config_path: args[i + 1], ..a });
                assert(unknown_options(args, i + 1, n) == unknown_options(args, i + 2, n));
            } else {
                assert(a.notes + unknown_options(args, i, n) =~= a.notes);
            }
        } else if asks_help(args[i]) {
            assert forall|j: int| i + 1 <= j < n implies !#[trigger] is_option(args, j) by {
                lemma_no_option_behind_help(args, i, j);
            }
            lemma_no_unknown(args, i + 1, n);
            assert(a.notes + unknown_options(args, i, n) =~= a.notes);
        } else {
            let note = "[mouse-unlock] ignoring unknown argument: "@ + args[i];
            lemma_asked_notes(args, i + 1, Asked { notes: a.notes.push(note), ..a });
            assert(a.notes.push(note) + unknown_options(args, i + 1, n) =~= a.notes + (seq![note]
                + unknown_options(args, i + 1, n)));
        }
    }
}

/// What the arguments ask for, wherever they stand: test mode exactly where
/// `--test` or `-t` is one of the options, help exactly where `--help` or `-h` is,
/// the path behind the last `--config` or `-c` that one follows, or else
/// `/etc/mouse-unlock.conf`, and a line for each other option, in order. Options
/// are all arguments behind the name of the program but the paths that follow
/// `--config` or `-c`, up to the one that asks for help.
pub proof fn law_options_count_wherever_they_stand(args: Seq<Seq<char>>)
    ensures
        ({
            let r = asked_from(args, 1, nothing_asked());
            let n = args.len() as int;
            &&& r.test_mode <==> exists|j: int|
                1 <= j < n && #[trigger] is_option(args, j) && asks_test(args[j])
            &&& r.help <==> exists|j: int|
                1 <= j < n && #[trigger] is_option(args, j) && asks_help(args[j])
            &&& (forall|j: int| 1 <= j < n ==> !#[trigger] names_path(args, j)) ==> r.config_path
                == "/etc/mouse-unlock.conf"@
            &&& forall|j: int|
                1 <= j < n && #[trigger] names_path(args, j) && (forall|k: int|
                    j < k < n ==> !#[trigger] names_path(args, k)) ==> r.config_path == args[j + 1]
            &&& r.notes == unknown_options(args, 1, n)
        }),
{
    assert(is_option(args, 1)) by {
        reveal(is_option);
    }
    lemma_asked_flags(args, 1, nothing_asked());
    lemma_asked_path(args, 1, nothing_asked());
    lemma_asked_notes(args, 1, nothing_asked());
    assert(nothing_asked().notes + unknown_options(args, 1, args.len() as int)
        =~= unknown_options(args, 1, args.len() as int));
}

/// The order of the path and of test mode makes no difference, nor does the long
/// or the short form: for every path they ask for that path, in test mode, and for
/// nothing else.
pub proof fn law_the_order_of_options_makes_no_difference(
    program: Seq<char>,
    config: Seq<char>,
    path: Seq<char>,
    test: Seq<char>,
)
    requires
        takes_path(config),
        asks_test(test),
    ensures
        ({
            let wanted = Asked {
                config_path: path,
                test_mode: true,
                help: false,
                notes: Seq::empty(),
            };
            &&& asked_from(seq![program, config, path, test], 1, nothing_asked()) == wanted
            &&& asked_from(seq![program, test, config, path], 1, nothing_asked()) == wanted
        }),
{
    lemma_options_differ(config);
    lemma_options_differ(test);
    reveal_with_fuel(asked_from, 4);
}

/// Without arguments nothing is asked for: the daemon reads
/// `/etc/mouse-unlock.conf`, and is not in test mode.
pub proof fn law_without_arguments(program: Seq<char>)
    ensures
        ({
            let wanted = Asked {
                config_path: "/etc/mouse-unlock.conf"@,
                test_mode: false,
                help: false,
                notes: Seq::empty(),
            };
            &&& asked_from(seq![program], 1, nothing_asked()) == wanted
            &&& asked_from(Seq::empty(), 1, nothing_asked()) == wanted
        }),
{
}

/// The sessions are asked, each by its number, for the hint that is looked for in
/// their answers.
pub proof fn law_what_the_sessions_are_asked()
    ensures
        LOCK_STATE_CMD@ == "loginctl list-sessions --no-legend | while read -r id _; do loginctl show-session \"$id\" -p LockedHint; done"@,
{
}

} // verus!
