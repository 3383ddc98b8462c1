//! The setup program: its state, and what it saves, installs and takes away.

use vstd::prelude::*;
use crate::click;
use crate::click::Click;
use crate::entries;
use crate::hash;
use crate::saved;
use crate::saved::LoadedConfig;
use crate::service;
use crate::service::{Found, Job, Op, Step};
use crate::text;
use crate::usb;
use crate::usb::UsbDev;

verus! {

/// What the keys are for at the moment.
#[derive(Clone, Copy, PartialEq, Eq, Structural, Debug)]
pub enum Mode {
    Normal,
    Recording,
    EditTimeout,
    EditCmd,
    UsbSelect,
}

/// The setup program.
pub struct App {
    pub existing_hash: Option<String>,
    /// Recorded, and not saved yet.
    pub new_pattern: Option<Vec<Click>>,
    pub timeout_ms: u64,
    pub unlock_cmd: String,
    pub max_failures: u32,
    pub lockout_base_ms: u64,
    pub lockout_max_ms: u64,
    pub require_usb: Option<String>,
    pub mode: Mode,
    pub record_buf: Vec<Click>,
    pub input: String,
    pub usb_list: Vec<UsbDev>,
    pub status: String,
    pub should_quit: bool,
}

/// What the setup program holds.
#[verifier::ext_equal]
pub struct State {
    pub existing_hash: Option<Seq<char>>,
    pub new_pattern: Option<Seq<Click>>,
    pub timeout_ms: nat,
    pub unlock_cmd: Seq<char>,
    pub max_failures: nat,
    pub lockout_base_ms: nat,
    pub lockout_max_ms: nat,
    pub require_usb: Option<Seq<char>>,
    pub mode: Mode,
    pub record_buf: Seq<Click>,
    pub input: Seq<char>,
    pub usb_list: Seq<(Seq<char>, Seq<char>)>,
    pub status: Seq<char>,
    pub should_quit: bool,
}

/// An optional row of clicks by what it holds.
pub open spec fn maybe_clicks(o: Option<Vec<Click>>) -> Option<Seq<Click>> {
    match o {
        Some(v) => Some(v@),
        None => None,
    }
}

impl View for App {
    type V = State;

    open spec fn view(&self) -> State {
        State {
            existing_hash: text::maybe(self.existing_hash),
            new_pattern: maybe_clicks(self.new_pattern),
            timeout_ms: self.timeout_ms as nat,
            unlock_cmd: self.unlock_cmd@,
            max_failures: self.max_failures as nat,
            lockout_base_ms: self.lockout_base_ms as nat,
            lockout_max_ms: self.lockout_max_ms as nat,
            require_usb: text::maybe(self.require_usb),
            mode: self.mode,
            record_buf: self.record_buf@,
            input: self.input@,
            usb_list: usb::device_views(self.usb_list@),
            status: self.status@,
            should_quit: self.should_quit,
        }
    }
}

/// The program as it starts from its settings.
pub open spec fn started(c: saved::Saved) -> State {
    State {
        existing_hash: c.pattern_hash,
        new_pattern: None,
        timeout_ms: c.timeout_ms,
        unlock_cmd: c.unlock_cmd,
        max_failures: c.max_failures,
        lockout_base_ms: c.lockout_base_ms,
        lockout_max_ms: c.lockout_max_ms,
        require_usb: c.require_usb,
        mode: Mode::Normal,
        record_buf: Seq::empty(),
        input: Seq::empty(),
        usb_list: Seq::empty(),
        status: "ready — press [r] to record a click pattern"@,
        should_quit: false,
    }
}

/// The settings that the program would save, with the hash that it has.
pub open spec fn settings(s: State) -> saved::Saved {
    saved::Saved {
        pattern_hash: s.existing_hash,
        timeout_ms: s.timeout_ms,
        unlock_cmd: s.unlock_cmd,
        max_failures: s.max_failures,
        lockout_base_ms: s.lockout_base_ms,
        lockout_max_ms: s.lockout_max_ms,
        require_usb: s.require_usb,
    }
}

/// The hash to save, where a recorded pattern is hashed under what was drawn as
/// its salt: that of the recorded pattern, or else the one there is.
pub open spec fn resolved(
    s: State,
    drawn: Result<Seq<char>, Seq<char>>,
) -> Result<Seq<char>, Seq<char>> {
    match s.new_pattern {
        Some(p) => if p.len() > 0 {
            hash::hashed_under(click::labels(p), drawn)
        } else {
            Err("recorded pattern is empty"@)
        },
        None => match s.existing_hash {
            Some(h) => Ok(h),
            None => Err("no pattern set — press [r] to record one"@),
        },
    }
}

/// What resolving the hash to save comes to, with what was drawn as a salt.
pub open spec fn is_resolution(
    s: State,
    drawn: Result<Seq<char>, Seq<char>>,
    r: Result<Seq<char>, Seq<char>>,
) -> bool {
    &&& r == resolved(s, drawn)
    &&& s.new_pattern matches Some(p) ==> p.len() > 0 ==> hash::is_outcome(
        r,
        click::labels(p),
        drawn,
    )
}

/// The program once settings with a hash are saved, or could not be.
pub open spec fn after_save(s: State, hash: Seq<char>, ok: bool) -> State {
    if ok {
        State { existing_hash: Some(hash), new_pattern: None, ..s }
    } else {
        s
    }
}

/// The outcome of two things done one after the other.
pub open spec fn both(
    first: Result<Seq<char>, Seq<char>>,
    second: Result<Seq<char>, Seq<char>>,
) -> Result<Seq<char>, Seq<char>> {
    match (first, second) {
        (Err(e), _) => Err(e),
        (Ok(_), Err(e)) => Err(e),
        (Ok(a), Ok(b)) => Ok(a + "; "@ + b),
    }
}

/// Settings that are ready to be saved.
pub struct Save {
    pub hash: String,
    pub job: Job,
}

/// The hash that is to be saved, and the job that saves it.
pub struct Saving {
    pub hash: Seq<char>,
    pub job: service::Progress,
}

impl View for Save {
    type V = Saving;

    open spec fn view(&self) -> Saving {
        Saving { hash: self.hash@, job: self.job@ }
    }
}

/// Settings that are ready to be saved, or the error that keeps them from it.
pub open spec fn save_or_error(r: Result<Save, String>) -> Result<Saving, Seq<char>> {
    match r {
        Ok(save) => Ok(save@),
        Err(e) => Err(e@),
    }
}

/// The plan to save the settings with a hash.
pub open spec fn save_plan(s: State, root: bool, hash: Seq<char>) -> Saving {
    Saving {
        hash,
        job: service::planned(
            service::save_steps(root, saved::rendered(settings(s), hash)),
            service::save_message(root),
        ),
    }
}

/// The plan to save the settings with a hash, or the error where there is none.
pub open spec fn saving(
    s: State,
    root: bool,
    hash: Result<Seq<char>, Seq<char>>,
) -> Result<Saving, Seq<char>> {
    match hash {
        Ok(h) => Ok(save_plan(s, root, h)),
        Err(e) => Err(e),
    }
}

/// The plan to install the service, or why it cannot be.
pub open spec fn installing(root: bool, daemon: Option<Found>, unit: Seq<char>) -> Result<
    service::Progress,
    Seq<char>,
> {
    if !root {
        Err(service::root_error())
    } else {
        match daemon {
            None => Err("daemon binary not found — run `cargo build --release` first"@),
            Some(found) => Ok(
                service::planned(
                    service::install_steps(found, unit),
                    "service installed and started"@,
                ),
            ),
        }
    }
}

/// The plan to take the service away, or why it cannot be.
pub open spec fn uninstalling(root: bool) -> Result<service::Progress, Seq<char>> {
    if root {
        Ok(
            service::planned(
                service::uninstall_steps(),
                "service & binary removed (config kept at "@ + service::CONFIG_PATH@ + ")"@,
            ),
        )
    } else {
        Err(service::root_error())
    }
}

impl App {
    /// The program as it starts from its settings.
    pub fn new(c: LoadedConfig) -> (r: App)
        ensures
            r@ == started(c@),
    {
        let r: App = App {
            existing_hash: c.pattern_hash,
            new_pattern: None,
            timeout_ms: c.timeout_ms,
            unlock_cmd: c.unlock_cmd,
            max_failures: c.max_failures,
            lockout_base_ms: c.lockout_base_ms,
            lockout_max_ms: c.lockout_max_ms,
            require_usb: c.require_usb,
            mode: Mode::Normal,
            record_buf: Vec::new(),
            input: String::new(),
            usb_list: Vec::new(),
            status: "ready — press [r] to record a click pattern".to_owned(),
            should_quit: false,
        };
        assert(r@ =~= started(c@));
        r
    }

    /// The hash to save, with what was drawn as a salt for a recorded pattern.
    pub fn resolve_hash_with(&self, drawn: &Result<String, String>) -> (r: Result<String, String>)
        ensures
            text::outcome(r) == resolved(self@, text::outcome(*drawn)),
            hash::is_drawn(text::outcome(*drawn)) ==> is_resolution(
                self@,
                text::outcome(*drawn),
                text::outcome(r),
            ),
    {
        match &self.new_pattern {
            Some(p) => {
                if p.len() > 0 {
                    hash::hash_under(click::label_text(p).as_str(), drawn)
                } else {
                    Err("recorded pattern is empty".to_owned())
                }
            },
            None => match &self.existing_hash {
                Some(h) => Ok(h.clone()),
                None => Err("no pattern set — press [r] to record one".to_owned()),
            },
        }
    }

    /// The hash to save: that of a recorded pattern, under a new random salt,
    /// or else the one there is.
    pub fn resolve_hash(&self) -> (r: Result<String, String>)
        ensures
            exists|drawn: Result<Seq<char>, Seq<char>>|
                hash::is_drawn(drawn) && #[trigger] is_resolution(self@, drawn, text::outcome(r)),
    {
        match &self.new_pattern {
            Some(p) if p.len() > 0 => {
                let r: Result<String, String> = hash::hash_pattern(click::label_text(p).as_str());
                proof {
                    let drawn = choose|drawn: Result<Seq<char>, Seq<char>>|
                        hash::is_drawn(drawn) && #[trigger] hash::is_outcome(
                            text::outcome(r),
                            click::labels(p@),
                            drawn,
                        );
                    assert(is_resolution(self@, drawn, text::outcome(r)));
                }
                r
            },
            _ => {
                let unused: Result<String, String> = Err("".to_owned());
                let r: Result<String, String> = self.resolve_hash_with(&unused);
                assert(is_resolution(self@, text::outcome(unused), text::outcome(r)));
                r
            },
        }
    }

    /// The settings file, with a hash as the pattern.
    pub fn render_config(&self, hash: &str) -> (r: String)
        ensures
            r@ == saved::rendered(settings(self@), hash@),
    {
        let c: LoadedConfig = LoadedConfig {
            pattern_hash: self.existing_hash.clone(),
            timeout_ms: self.timeout_ms,
            unlock_cmd: self.unlock_cmd.clone(),
            max_failures: self.max_failures,
            lockout_base_ms: self.lockout_base_ms,
            lockout_max_ms: self.lockout_max_ms,
            require_usb: self.require_usb.clone(),
        };
        assert(c@ =~= settings(self@));
        c.render(hash)
    }

    /// Plans to save the settings with a hash.
    pub fn save_with(&self, hash: String, root: bool) -> (r: Save)
        ensures
            r@ == save_plan(self@, root, hash@),
    {
        let contents: String = self.render_config(hash.as_str());
        Save { hash, job: service::save_job(root, contents) }
    }

    /// Plans to save the settings, or tells why there is no pattern to save.
    pub fn save_config(&self, root: bool) -> (r: Result<Save, String>)
        ensures
            exists|drawn: Result<Seq<char>, Seq<char>>, hash: Result<Seq<char>, Seq<char>>|
                hash::is_drawn(drawn) && #[trigger] is_resolution(self@, drawn, hash)
                    && save_or_error(r) == saving(self@, root, hash),
    {
        let h: Result<String, String> = self.resolve_hash();
        let ghost resolution = text::outcome(h);
        let ghost drawn = choose|drawn: Result<Seq<char>, Seq<char>>|
            hash::is_drawn(drawn) && #[trigger] is_resolution(self@, drawn, resolution);
        assert(is_resolution(self@, drawn, resolution));
        match h {
            Ok(h) => {
                let r: Result<Save, String> = Ok(self.save_with(h, root));
                assert(save_or_error(r) == saving(self@, root, resolution));
                r
            },
            Err(e) => {
                let r: Result<Save, String> = Err(e);
                assert(save_or_error(r) == saving(self@, root, resolution));
                r
            },
        }
    }

    /// Takes in how saving settings with a hash came out: once they are saved,
    /// the hash is the one there is, and nothing is left to save.
    pub fn finish_save(&mut self, hash: String, outcome: &Result<String, String>)
        ensures
            final(self)@ == after_save(old(self)@, hash@, outcome is Ok),
    {
        if outcome.is_ok() {
            self.existing_hash = Some(hash);
            self.new_pattern = None;
        }
        assert(self@ =~= after_save(old(self)@, hash@, outcome is Ok));
    }

    /// Plans to install the service, with `unit` as its unit and the daemon that
    /// was found, if one was.
    pub fn install_service(&self, root: bool, daemon: Option<Found>, unit: &str) -> (r: Result<
        Job,
        String,
    >)
        ensures
            service::job_or_error(r) == installing(root, daemon, unit@),
    {
        match service::require_root(root) {
            Ok(_) => {},
            Err(e) => {
                return Err(e);
            },
        }
        let found: Found = match daemon {
            Some(f) => f,
            None => {
                return Err(
                    "daemon binary not found — run `cargo build --release` first".to_owned(),
                );
            },
        };
        let mut steps: Vec<Step> = Vec::new();
        if !(found.dest_exists && found.same_file) {
            steps.push(
                Step {
                    op: Op::CopyDaemon { to: service::DAEMON_DEST.to_owned() },
                    failure: Some("copy daemon binary: ".to_owned()),
                },
            );
        }
        steps.push(
            Step {
                op: Op::Chmod {
                    path: service::DAEMON_DEST.to_owned(),
                    mode: service::PROGRAM_MODE,
                },
                failure: Some("chmod binary: ".to_owned()),
            },
        );
        steps.push(
            Step {
                op: Op::Write { path: service::SERVICE_DEST.to_owned(), contents: unit.to_owned() },
                failure: Some("write service: ".to_owned()),
            },
        );
        steps.push(
            Step {
                op: Op::Shell { cmd: "systemctl daemon-reload".to_owned() },
                failure: Some("".to_owned()),
            },
        );
        steps.push(
            Step {
                op: Op::Shell { cmd: "systemctl enable --now mouse-unlock.service".to_owned() },
                failure: Some("".to_owned()),
            },
        );
        assert(service::step_views(steps@) =~= service::install_steps(found, unit@));
        let success: String = "service installed and started".to_owned();
        Ok(Job { steps, done: 0, failed: None, success })
    }

    /// How saving and then installing came out: what both say, or the first
    /// error.
    pub fn save_and_install(
        saved: Result<String, String>,
        installed: Result<String, String>,
    ) -> (r: Result<String, String>)
        ensures
            text::outcome(r) == both(text::outcome(saved), text::outcome(installed)),
    {
        match saved {
            Err(e) => Err(e),
            Ok(a) => match installed {
                Err(e) => Err(e),
                Ok(b) => Ok(text::join3(a.as_str(), "; ", b.as_str())),
            },
        }
    }

    /// Plans to take the service away.
    pub fn uninstall_service(&self, root: bool) -> (r: Result<Job, String>)
        ensures
            service::job_or_error(r) == uninstalling(root),
    {
        match service::require_root(root) {
            Ok(_) => {},
            Err(e) => {
                return Err(e);
            },
        }
        let mut steps: Vec<Step> = Vec::new();
        steps.push(
            Step {
                op: Op::Shell { cmd: "systemctl disable --now mouse-unlock.service".to_owned() },
                failure: None,
            },
        );
        steps.push(
            Step { op: Op::Remove { path: service::SERVICE_DEST.to_owned() }, failure: None },
        );
        steps.push(
            Step { op: Op::Shell { cmd: "systemctl daemon-reload".to_owned() }, failure: None },
        );
        steps.push(
            Step { op: Op::Remove { path: service::DAEMON_DEST.to_owned() }, failure: None },
        );
        assert(service::step_views(steps@) =~= service::uninstall_steps());
        let success: String = text::join3(
            "service & binary removed (config kept at ",
            service::CONFIG_PATH,
            ")",
        );
        Ok(Job { steps, done: 0, failed: None, success })
    }
}

/// The status line for an outcome.
pub open spec fn status_of(r: Result<Seq<char>, Seq<char>>) -> Seq<char> {
    match r {
        Ok(m) => "OK — "@ + m,
        Err(e) => "ERROR — "@ + e,
    }
}

/// The program with an outcome in its status line.
pub open spec fn shown(s: State, r: Result<Seq<char>, Seq<char>>) -> State {
    State { status: status_of(r), ..s }
}

/// Shows an outcome in the status line.
pub fn apply(app: &mut App, r: Result<String, String>)
    ensures
        final(app)@ == shown(old(app)@, text::outcome(r)),
{
    app.status = match r {
        Ok(m) => text::join("OK — ", m.as_str()),
        Err(e) => text::join("ERROR — ", e.as_str()),
    };
    assert(app@ =~= shown(old(app)@, text::outcome(r)));
}

/// The program starts with the settings that it read, all of them, with nothing
/// recorded, and ready for keys.
pub proof fn law_starts_with_the_settings_it_read(c: saved::Saved)
    ensures
        settings(started(c)) == c,
        started(c).existing_hash == c.pattern_hash,
        started(c).new_pattern is None,
        started(c).mode == Mode::Normal,
        started(c).record_buf.len() == 0,
        started(c).input.len() == 0,
        started(c).usb_list.len() == 0,
        !started(c).should_quit,
        started(c).status == "ready — press [r] to record a click pattern"@,
{
}

/// The settings that the program would save are those it has, each its own.
pub proof fn law_the_settings_are_those_it_has(s: State)
    ensures
        settings(s).pattern_hash == s.existing_hash,
        settings(s).timeout_ms == s.timeout_ms,
        settings(s).unlock_cmd == s.unlock_cmd,
        settings(s).max_failures == s.max_failures,
        settings(s).lockout_base_ms == s.lockout_base_ms,
        settings(s).lockout_max_ms == s.lockout_max_ms,
        settings(s).require_usb == s.require_usb,
{
}

/// To start again from what was saved gives back what was saved: the program has
/// that hash and those settings, and to save them once more, with nothing
/// recorded in between, writes the same file.
pub proof fn law_starting_again_gives_back_what_was_saved(
    s: State,
    hash: Seq<char>,
    drawn: Result<Seq<char>, Seq<char>>,
    root: bool,
)
    requires
        saved::fits(settings(s)),
        saved::is_clean(hash),
        hash.len() > 0,
    ensures
        ({
            let file = saved::rendered(settings(s), hash);
            let again = started(saved::saved_of(entries::entries(file)));
            &&& again.existing_hash == Some(hash)
            &&& again.timeout_ms == s.timeout_ms
            &&& again.unlock_cmd == s.unlock_cmd
            &&& again.max_failures == s.max_failures
            &&& again.lockout_base_ms == s.lockout_base_ms
            &&& again.lockout_max_ms == s.lockout_max_ms
            &&& again.require_usb == s.require_usb
            &&& resolved(again, drawn) == Ok::<Seq<char>, Seq<char>>(hash)
            &&& save_plan(again, root, hash).job.steps[0].0 == service::Deed::Write {
                path: service::path_of(root),
                contents: file,
            }
        }),
{
    let file = saved::rendered(settings(s), hash);
    saved::law_saved_settings_read_back(settings(s), hash);
    let again = started(saved::saved_of(entries::entries(file)));
    let a = settings(s);
    let b = settings(again);
    assert(b == saved::Saved { pattern_hash: Some(hash), ..a });
    assert(saved::rendered_rows(a, hash) =~= saved::rendered_rows(b, hash));
}

/// What is saved: a recorded pattern by the hash of all of its clicks, or else the
/// hash there is; a recording without clicks, or neither of them, is refused.
pub proof fn law_which_hash_is_saved(s: State, salt: Seq<char>, error: Seq<char>)
    ensures
        s.new_pattern matches Some(p) ==> {
            &&& p.len() > 0 ==> resolved(s, Ok(salt)) == hash::argon2_phc(
                "argon2id"@,
                19,
                8192,
                3,
                1,
                click::labels(p),
                salt,
            )
            &&& p.len() > 0 ==> resolved(s, Err(error)) == Err::<Seq<char>, Seq<char>>(error)
            &&& p.len() == 0 ==> resolved(s, Ok(salt)) == Err::<Seq<char>, Seq<char>>(
                "recorded pattern is empty"@,
            )
        },
        s.new_pattern is None ==> (s.existing_hash matches Some(h) ==> resolved(s, Ok(salt)) == Ok::<
            Seq<char>,
            Seq<char>,
        >(h)),
        s.new_pattern is None && s.existing_hash is None ==> resolved(s, Ok(salt)) == Err::<
            Seq<char>,
            Seq<char>,
        >("no pattern set — press [r] to record one"@),
{
}

/// Once a hash is saved it is the one there is, and nothing is left to save; where
/// saving failed, all is as it was. Nothing else changes.
pub proof fn law_what_saving_changes(s: State, hash: Seq<char>)
    ensures
        after_save(s, hash, false) == s,
        ({
            let t = after_save(s, hash, true);
            &&& t.existing_hash == Some(hash)
            &&& t.new_pattern is None
            &&& t == State { existing_hash: Some(hash), new_pattern: None, ..s }
        }),
{
}

/// What is written when settings are saved with a hash reads back, in both
/// programs, as those settings with that hash.
pub proof fn law_what_is_written_reads_back(s: State, root: bool, hash: Seq<char>)
    requires
        saved::fits(settings(s)),
        saved::is_clean(hash),
        hash.len() > 0,
    ensures
        save_plan(s, root, hash).hash == hash,
        save_plan(s, root, hash).job.done == 0,
        save_plan(s, root, hash).job.failed is None,
        save_plan(s, root, hash).job.steps[0].0 matches service::Deed::Write { path, contents } ==> {
            &&& path == service::path_of(root)
            &&& saved::saved_of(entries::entries(contents)) == saved::Saved {
                pattern_hash: Some(hash),
                timeout_ms: s.timeout_ms,
                unlock_cmd: s.unlock_cmd,
                max_failures: s.max_failures,
                lockout_base_ms: s.lockout_base_ms,
                lockout_max_ms: s.lockout_max_ms,
                require_usb: s.require_usb,
            }
        },
        save_plan(s, root, hash).job.steps[0].0 is Write,
        save_plan(s, root, hash).job.steps[1].0 == (service::Deed::Chmod {
            path: service::path_of(root),
            mode: 0o600,
        }),
        saving(s, root, Ok(hash)) == Ok::<Saving, Seq<char>>(save_plan(s, root, hash)),
{
    saved::law_saved_settings_read_back(settings(s), hash);
}

/// The service is installed with root and with a daemon that was found, and only
/// then: the plan writes the unit that was handed in to its place, exactly once,
/// and says so at its end. What is missing is told, root first.
pub proof fn law_when_the_service_is_installed(
    root: bool,
    daemon: Option<Found>,
    unit: Seq<char>,
)
    ensures
        !root ==> installing(root, daemon, unit) == Err::<service::Progress, Seq<char>>(
            "needs root — re-run with: sudo mouse-unlock-setup"@,
        ),
        root && daemon is None ==> installing(root, daemon, unit) == Err::<
            service::Progress,
            Seq<char>,
        >("daemon binary not found — run `cargo build --release` first"@),
        root && daemon is Some ==> installing(root, daemon, unit) is Ok && {
            let job = installing(root, daemon, unit)->Ok_0;
            let n = job.steps.len() as int;
            &&& job.done == 0
            &&& job.failed is None
            &&& job.success == "service installed and started"@
            &&& n == (if daemon.unwrap().dest_exists && daemon.unwrap().same_file {
                4int
            } else {
                5int
            })
            &&& job.steps[n - 3].0 == service::Deed::Write {
                path: "/etc/systemd/system/mouse-unlock.service"@,
                contents: unit,
            }
            &&& forall|i: int|
                0 <= i < n && (#[trigger] job.steps[i]).0 is Write ==> i == n - 3
            &&& job.steps[n - 2].0 == service::Deed::Shell { cmd: "systemctl daemon-reload"@ }
            &&& job.steps[n - 1].0 == service::Deed::Shell {
                cmd: "systemctl enable --now mouse-unlock.service"@,
            }
            &&& forall|i: int| 0 <= i < n ==> (#[trigger] job.steps[i]).1 is Some
        },
{
    if daemon is Some {
        service::law_how_the_service_is_installed(daemon.unwrap(), unit);
    }
}

/// The service is taken away with root, and only then.
pub proof fn law_when_the_service_is_taken_away(root: bool)
    ensures
        !root ==> uninstalling(root) == Err::<service::Progress, Seq<char>>(
            "needs root — re-run with: sudo mouse-unlock-setup"@,
        ),
        root ==> uninstalling(root) is Ok && {
            let job = uninstalling(root)->Ok_0;
            &&& job.done == 0
            &&& job.failed is None
            &&& job.steps == service::uninstall_steps()
            &&& job.success == "service & binary removed (config kept at "@
                + "/etc/mouse-unlock.conf"@ + ")"@
        },
{
}

/// Two things done one after the other come out well where both do, and say what
/// both say; or else with the first error.
pub proof fn law_one_after_the_other(
    a: Seq<char>,
    b: Seq<char>,
    r: Result<Seq<char>, Seq<char>>,
)
    ensures
        both(Ok(a), Ok(b)) == Ok::<Seq<char>, Seq<char>>(a + "; "@ + b),
        both(Ok(a), Err(b)) == Err::<Seq<char>, Seq<char>>(b),
        both(Err(a), r) == Err::<Seq<char>, Seq<char>>(a),
{
}

/// The status line tells how something came out, and what was said; nothing but
/// the status line changes.
pub proof fn law_how_an_outcome_is_shown(s: State, said: Seq<char>)
    ensures
        shown(s, Ok(said)) == (State { status: "OK — "@ + said, ..s }),
        shown(s, Err(said)) == (State { status: "ERROR — "@ + said, ..s }),
{
}

/// What is said of the program is what it holds.
pub proof fn law_the_program_is_what_it_holds(a: App, save: Save, r: Result<Save, String>)
    ensures
        a@.existing_hash == text::maybe(a.existing_hash),
        a.new_pattern matches Some(p) ==> a@.new_pattern == Some(p@),
        a.new_pattern is None ==> a@.new_pattern is None,
        a@.timeout_ms == a.timeout_ms,
        a@.unlock_cmd == a.unlock_cmd@,
        a@.max_failures == a.max_failures,
        a@.lockout_base_ms == a.lockout_base_ms,
        a@.lockout_max_ms == a.lockout_max_ms,
        a@.require_usb == text::maybe(a.require_usb),
        a@.mode == a.mode,
        a@.record_buf == a.record_buf@,
        a@.input == a.input@,
        a@.usb_list == usb::device_views(a.usb_list@),
        a@.status == a.status@,
        a@.should_quit == a.should_quit,
        save@.hash == save.hash@,
        save@.job == save.job@,
        r matches Ok(x) ==> save_or_error(r) == Ok::<Saving, Seq<char>>(x@),
        r matches Err(e) ==> save_or_error(r) == Err::<Saving, Seq<char>>(e@),
{
}

} // verus!
