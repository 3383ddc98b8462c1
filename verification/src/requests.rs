//! What answers the requests of the setup program: which job is done for which
//! of them, what its outcome changes, and what is done after it.

use vstd::prelude::*;
use crate::click;
use crate::click::Click;
use crate::daemon;
use crate::entries;
use crate::hash;
use crate::keys;
use crate::keys::Request;
use crate::saved;
use crate::service;
use crate::service::{Found, Job};
use crate::setup;
use crate::setup::{apply, App, Save, State};
use crate::text;
use crate::tries;
use crate::tries::Press;
use crate::usb;

verus! {

/// What a job is done for.
pub enum Stage {
    /// To save settings with a hash, and to install after it or not.
    Saving { hash: String, install: bool },
    /// To install, with what saving said where it came before.
    Installing { saved: Option<String> },
    Uninstalling,
}

/// What a job is done for.
pub enum Phase {
    Saving { hash: Seq<char>, install: bool },
    Installing { saved: Option<Seq<char>> },
    Uninstalling,
}

impl View for Stage {
    type V = Phase;

    open spec fn view(&self) -> Phase {
        match self {
            Stage::Saving { hash, install } => Phase::Saving { hash: hash@, install: *install },
            Stage::Installing { saved } => Phase::Installing { saved: text::maybe(*saved) },
            Stage::Uninstalling => Phase::Uninstalling,
        }
    }
}

/// A job to be done, with what it is done for.
pub struct Task {
    pub stage: Stage,
    pub job: Job,
}

/// A job to be done, with what it is done for.
pub struct Work {
    pub phase: Phase,
    pub job: service::Progress,
}

impl View for Task {
    type V = Work;

    open spec fn view(&self) -> Work {
        Work { phase: self.stage@, job: self.job@ }
    }
}

/// A task, where there is one.
pub open spec fn maybe_work(t: Option<Task>) -> Option<Work> {
    match t {
        Some(t) => Some(t@),
        None => None,
    }
}

/// A planned job becomes a task; an error is shown instead.
pub open spec fn started(
    s: State,
    phase: Phase,
    plan: Result<service::Progress, Seq<char>>,
) -> (State, Option<Work>) {
    match plan {
        Ok(job) => (s, Some(Work { phase, job })),
        Err(e) => (setup::shown(s, Err(e)), None),
    }
}

/// What saving starts with, and installing after it where that is asked for.
pub open spec fn save_begun(
    s: State,
    save: Result<setup::Saving, Seq<char>>,
    install: bool,
) -> (State, Option<Work>) {
    match save {
        Ok(save) => started(s, Phase::Saving { hash: save.hash, install }, Ok(save.job)),
        Err(e) => (setup::shown(s, Err(e)), None),
    }
}

/// What a request starts with, where `hash` is the hash to save. The request to
/// list the USB devices is not a job.
pub open spec fn begun(
    s: State,
    request: Request,
    hash: Result<Seq<char>, Seq<char>>,
    root: bool,
    daemon: Option<Found>,
    unit: Seq<char>,
) -> (State, Option<Work>) {
    match request {
        Request::ListUsb => (s, None),
        Request::Save => save_begun(s, setup::saving(s, root, hash), false),
        Request::Install => started(
            s,
            Phase::Installing { saved: None },
            setup::installing(root, daemon, unit),
        ),
        Request::SaveAndInstall => save_begun(s, setup::saving(s, root, hash), true),
        Request::Uninstall => started(s, Phase::Uninstalling, setup::uninstalling(root)),
    }
}

/// What comes after a job: what was saved is taken over, then the service is
/// installed where that was asked for and saving came out well, and in the end
/// the outcome is shown.
pub open spec fn finished(
    s: State,
    phase: Phase,
    outcome: Result<Seq<char>, Seq<char>>,
    root: bool,
    daemon: Option<Found>,
    unit: Seq<char>,
) -> (State, Option<Work>) {
    match phase {
        Phase::Saving { hash, install } => {
            let t = setup::after_save(s, hash, outcome is Ok);
            match outcome {
                Ok(said) => if install {
                    started(
                        t,
                        Phase::Installing { saved: Some(said) },
                        setup::installing(root, daemon, unit),
                    )
                } else {
                    (setup::shown(t, outcome), None)
                },
                Err(_) => (setup::shown(t, outcome), None),
            }
        },
        Phase::Installing { saved } => (
            setup::shown(
                s,
                match saved {
                    Some(said) => setup::both(Ok(said), outcome),
                    None => outcome,
                },
            ),
            None,
        ),
        Phase::Uninstalling => (setup::shown(s, outcome), None),
    }
}

/// Makes a planned job a task, or shows why there is none.
fn start(app: &mut App, stage: Stage, plan: Result<Job, String>) -> (r: Option<Task>)
    ensures
        (final(app)@, maybe_work(r)) == started(
            old(app)@,
            stage@,
            service::job_or_error(plan),
        ),
{
    match plan {
        Ok(job) => Some(Task { stage, job }),
        Err(e) => {
            apply(app, Err(e));
            None
        },
    }
}

/// Starts to save settings that are ready for it, or shows why they are not.
pub fn begin_save(app: &mut App, save: Result<Save, String>, install: bool) -> (r: Option<Task>)
    ensures
        (final(app)@, maybe_work(r)) == save_begun(
            old(app)@,
            setup::save_or_error(save),
            install,
        ),
{
    match save {
        Ok(save) => start(app, Stage::Saving { hash: save.hash, install }, Ok(save.job)),
        Err(e) => {
            apply(app, Err(e));
            None
        },
    }
}

/// Starts on a request: gives the job to be done for it, or shows why there is
/// none.
pub fn begin(
    app: &mut App,
    request: Request,
    root: bool,
    daemon: Option<Found>,
    unit: &str,
) -> (r: Option<Task>)
    ensures
        exists|drawn: Result<Seq<char>, Seq<char>>, hash: Result<Seq<char>, Seq<char>>|
            hash::is_drawn(drawn) && #[trigger] setup::is_resolution(old(app)@, drawn, hash)
                && (final(app)@, maybe_work(r)) == begun(
                old(app)@,
                request,
                hash,
                root,
                daemon,
                unit@,
            ),
{
    let ghost before = app@;
    match request {
        Request::Save | Request::SaveAndInstall => {
            let save: Result<Save, String> = app.save_config(root);
            proof {
                let (drawn, hash) = choose|
                    drawn: Result<Seq<char>, Seq<char>>,
                    hash: Result<Seq<char>, Seq<char>>,
                |
                    hash::is_drawn(drawn) && #[trigger] setup::is_resolution(before, drawn, hash)
                        && setup::save_or_error(save) == setup::saving(before, root, hash);
                assert(setup::is_resolution(before, drawn, hash));
            }
            begin_save(app, save, request == Request::SaveAndInstall)
        },
        Request::Install => {
            proof {
                lemma_some_resolution(before);
            }
            let plan: Result<Job, String> = app.install_service(root, daemon, unit);
            start(app, Stage::Installing { saved: None }, plan)
        },
        Request::Uninstall => {
            proof {
                lemma_some_resolution(before);
            }
            let plan: Result<Job, String> = app.uninstall_service(root);
            start(app, Stage::Uninstalling, plan)
        },
        Request::ListUsb => {
            proof {
                lemma_some_resolution(before);
            }
            None
        },
    }
}

/// Where nothing could be drawn, the hash to save still resolves to something.
proof fn lemma_some_resolution(s: State)
    ensures
        exists|drawn: Result<Seq<char>, Seq<char>>, hash: Result<Seq<char>, Seq<char>>|
            hash::is_drawn(drawn) && #[trigger] setup::is_resolution(s, drawn, hash),
{
    let drawn: Result<Seq<char>, Seq<char>> = Err(Seq::empty());
    assert(setup::is_resolution(s, drawn, setup::resolved(s, drawn)));
}

/// Takes in how a job came out: gives the one to be done after it, or shows the
/// outcome of the request.
pub fn finish(
    app: &mut App,
    stage: Stage,
    outcome: Result<String, String>,
    root: bool,
    daemon: Option<Found>,
    unit: &str,
) -> (r: Option<Task>)
    ensures
        (final(app)@, maybe_work(r)) == finished(
            old(app)@,
            stage@,
            text::outcome(outcome),
            root,
            daemon,
            unit@,
        ),
{
    match stage {
        Stage::Saving { hash, install } => {
            app.finish_save(hash, &outcome);
            match outcome {
                Ok(said) => {
                    if install {
                        let plan: Result<Job, String> = app.install_service(root, daemon, unit);
                        start(app, Stage::Installing { saved: Some(said) }, plan)
                    } else {
                        apply(app, Ok(said));
                        None
                    }
                },
                Err(e) => {
                    apply(app, Err(e));
                    None
                },
            }
        },
        Stage::Installing { saved } => {
            match saved {
                Some(said) => apply(app, App::save_and_install(Ok(said), outcome)),
                None => apply(app, outcome),
            }
            None
        },
        Stage::Uninstalling => {
            apply(app, outcome);
            None
        },
    }
}

/// A recording that is saved unlocks. Where a pattern was recorded and its hash
/// resolved, the plan to save writes a settings file first, and a daemon that
/// starts from that file has the unlock command run, without a comment that
/// starts in it, by the last click of the pattern when it is clicked in time with
/// the required device there, unless a beginning of it had it run before. And no
/// beginning does that has another hash.
pub proof fn law_a_saved_recording_unlocks(
    s: State,
    pattern: Seq<Click>,
    drawn: Result<Seq<char>, Seq<char>>,
    hash: Seq<char>,
    root: bool,
    now: int,
    ev: Seq<Press>,
    devices: Seq<(Seq<char>, Seq<char>)>,
)
    requires
        s.new_pattern == Some(pattern),
        pattern.len() > 0,
        saved::is_writable(setup::settings(s)),
        hash::is_drawn(drawn),
        setup::is_resolution(s, drawn, Ok(hash)),
        ev.len() == pattern.len(),
        forall|k: int| 0 <= k < ev.len() ==> (#[trigger] ev[k]).click == pattern[k],
        forall|k: int| 0 <= k < ev.len() ==> now <= (#[trigger] ev[k]).at,
        tries::in_time(s.timeout_ms, ev, 0, ev.len() as int),
        usb::present(s.require_usb, devices),
    ensures
        ({
            let contents = saved::rendered(setup::settings(s), hash);
            let read = daemon::settings_of(entries::entries(contents));
            &&& setup::save_plan(s, root, hash).job.steps[0].0 == service::Deed::Write {
                path: service::path_of(root),
                contents,
            }
            &&& daemon::runs_by_the_last(
                daemon::started(read, false, now),
                ev,
                devices,
                entries::uncommented(s.unlock_cmd),
            )
            &&& forall|k: int|
                0 <= k < ev.len() && #[trigger] daemon::runs_first_at(
                    daemon::started(read, false, now),
                    ev,
                    k,
                    devices,
                ) ==> hash::hashed_under(click::labels(pattern.take(k + 1)), drawn) == Ok::<
                    Seq<char>,
                    Seq<char>,
                >(hash)
        }),
{
    daemon::law_a_recorded_pattern_unlocks(
        setup::settings(s),
        pattern,
        drawn->Ok_0,
        hash,
        now,
        ev,
        devices,
    );
}

/// Where saving fails, nothing is installed, and what was recorded is kept.
pub proof fn law_nothing_is_installed_where_saving_fails(
    s: State,
    hash: Seq<char>,
    error: Seq<char>,
    root: bool,
    daemon: Option<Found>,
    unit: Seq<char>,
)
    ensures
        finished(s, Phase::Saving { hash, install: true }, Err(error), root, daemon, unit) == (
            setup::shown(s, Err(error)),
            None::<Work>,
        ),
{
}

/// Without root nothing is installed or taken away, and nothing but the status
/// line tells of it.
pub proof fn law_root_is_needed_for_the_service(
    s: State,
    hash: Result<Seq<char>, Seq<char>>,
    daemon: Option<Found>,
    unit: Seq<char>,
)
    ensures
        begun(s, Request::Install, hash, false, daemon, unit) == (
            setup::shown(s, Err(service::root_error())),
            None::<Work>,
        ),
        begun(s, Request::Uninstall, hash, false, daemon, unit) == (
            setup::shown(s, Err(service::root_error())),
            None::<Work>,
        ),
{
}

/// Requests change no setting and no recorded pattern, but for a save that came
/// out well: the hash is then the one that was saved, and nothing is left to
/// save.
pub proof fn law_requests_change_no_setting(
    s: State,
    request: Request,
    hash: Result<Seq<char>, Seq<char>>,
    phase: Phase,
    outcome: Result<Seq<char>, Seq<char>>,
    root: bool,
    daemon: Option<Found>,
    unit: Seq<char>,
)
    ensures
        ({
            let b = begun(s, request, hash, root, daemon, unit).0;
            b == State { status: b.status, ..s }
        }),
        ({
            let f = finished(s, phase, outcome, root, daemon, unit).0;
            let t = match phase {
                Phase::Saving { hash, install } => setup::after_save(s, hash, outcome is Ok),
                _ => s,
            };
            f == State { status: f.status, ..t }
        }),
{
}

/// The program stays sound through every request.
pub proof fn law_requests_keep_it_sound(
    s: State,
    request: Request,
    hash: Result<Seq<char>, Seq<char>>,
    phase: Phase,
    outcome: Result<Seq<char>, Seq<char>>,
    root: bool,
    daemon: Option<Found>,
    unit: Seq<char>,
)
    requires
        keys::is_sound(s),
        phase matches Phase::Saving { hash, .. } ==> keys::is_word(hash) && text::one_line(hash),
    ensures
        keys::is_sound(begun(s, request, hash, root, daemon, unit).0),
        keys::is_sound(finished(s, phase, outcome, root, daemon, unit).0),
{
    law_requests_change_no_setting(s, request, hash, phase, outcome, root, daemon, unit);
}

/// A save from its request to its end: the job is the plan to save the hash, the
/// outcome is shown, and where it is good the hash is the one there is.
pub proof fn law_how_a_save_goes(
    s: State,
    hash: Seq<char>,
    outcome: Result<Seq<char>, Seq<char>>,
    root: bool,
    daemon: Option<Found>,
    unit: Seq<char>,
)
    ensures
        begun(s, Request::Save, Ok(hash), root, daemon, unit) == (
            s,
            Some(
                Work {
                    phase: Phase::Saving { hash, install: false },
                    job: setup::save_plan(s, root, hash).job,
                },
            ),
        ),
        ({
            let f = finished(s, Phase::Saving { hash, install: false }, outcome, root, daemon, unit);
            &&& f.1 is None
            &&& outcome matches Ok(said) ==> f.0 == State {
                existing_hash: Some(hash),
                new_pattern: None,
                status: "OK — "@ + said,
                ..s
            }
            &&& outcome matches Err(e) ==> f.0 == State { status: "ERROR — "@ + e, ..s }
        }),
{
}

/// Without a hash to save nothing is done, and the reason is shown, whether or not
/// installing was to follow.
pub proof fn law_nothing_is_saved_without_a_hash(
    s: State,
    error: Seq<char>,
    root: bool,
    daemon: Option<Found>,
    unit: Seq<char>,
)
    ensures
        begun(s, Request::Save, Err(error), root, daemon, unit) == (
            State { status: "ERROR — "@ + error, ..s },
            None::<Work>,
        ),
        begun(s, Request::SaveAndInstall, Err(error), root, daemon, unit) == (
            State { status: "ERROR — "@ + error, ..s },
            None::<Work>,
        ),
{
}

/// A save with an install from its request to its end: the same job saves; where
/// it comes out well the hash is taken over and the plan to install follows; and
/// what both said is shown, or the error of the second.
pub proof fn law_how_a_save_with_an_install_goes(
    s: State,
    hash: Seq<char>,
    saved: Seq<char>,
    installed: Seq<char>,
    daemon: Found,
    unit: Seq<char>,
)
    ensures
        begun(s, Request::SaveAndInstall, Ok(hash), true, Some(daemon), unit) == (
            s,
            Some(
                Work {
                    phase: Phase::Saving { hash, install: true },
                    job: setup::save_plan(s, true, hash).job,
                },
            ),
        ),
        finished(
            s,
            Phase::Saving { hash, install: true },
            Ok(saved),
            true,
            Some(daemon),
            unit,
        ) == (
            State { existing_hash: Some(hash), new_pattern: None, ..s },
            Some(
                Work {
                    phase: Phase::Installing { saved: Some(saved) },
                    job: setup::installing(true, Some(daemon), unit)->Ok_0,
                },
            ),
        ),
        finished(
            s,
            Phase::Installing { saved: Some(saved) },
            Ok(installed),
            true,
            Some(daemon),
            unit,
        ) == (State { status: "OK — "@ + (saved + "; "@ + installed), ..s }, None::<Work>),
        finished(
            s,
            Phase::Installing { saved: Some(saved) },
            Err(installed),
            true,
            Some(daemon),
            unit,
        ) == (State { status: "ERROR — "@ + installed, ..s }, None::<Work>),
{
}

/// An install and a removal from request to end: with root and what is needed for
/// it, the job is the plan for it, and its outcome is shown.
pub proof fn law_how_the_service_is_managed(
    s: State,
    hash: Result<Seq<char>, Seq<char>>,
    daemon: Found,
    unit: Seq<char>,
    said: Seq<char>,
)
    ensures
        begun(s, Request::Install, hash, true, Some(daemon), unit) == (
            s,
            Some(
                Work {
                    phase: Phase::Installing { saved: None },
                    job: setup::installing(true, Some(daemon), unit)->Ok_0,
                },
            ),
        ),
        begun(s, Request::Uninstall, hash, true, Some(daemon), unit) == (
            s,
            Some(Work { phase: Phase::Uninstalling, job: setup::uninstalling(true)->Ok_0 }),
        ),
        begun(s, Request::Install, hash, true, None, unit) == (
            State {
                status: "ERROR — "@
                    + "daemon binary not found — run `cargo build --release` first"@,
                ..s
            },
            None::<Work>,
        ),
        forall|phase: Phase|
            (phase == Phase::Installing { saved: None } || phase == Phase::Uninstalling) ==> {
                &&& #[trigger] finished(s, phase, Ok(said), true, Some(daemon), unit) == (
                    State { status: "OK — "@ + said, ..s },
                    None::<Work>,
                )
            },
        forall|phase: Phase|
            (phase == Phase::Installing { saved: None } || phase == Phase::Uninstalling) ==> {
                &&& #[trigger] finished(s, phase, Err(said), true, Some(daemon), unit) == (
                    State { status: "ERROR — "@ + said, ..s },
                    None::<Work>,
                )
            },
        begun(s, Request::ListUsb, hash, true, Some(daemon), unit) == (s, None::<Work>),
{
}

/// What is said of a task is what it holds.
pub proof fn law_tasks_are_what_they_hold(t: Task)
    ensures
        maybe_work(Some(t)) == Some(t@),
        maybe_work(None) is None,
        t@.job == t.job@,
        t.stage matches Stage::Saving { hash, install } ==> t@.phase == (Phase::Saving {
            hash: hash@,
            install,
        }),
        t.stage matches Stage::Installing { saved } ==> t@.phase == (Phase::Installing {
            saved: text::maybe(saved),
        }),
        t.stage is Uninstalling ==> t@.phase == Phase::Uninstalling,
{
}

} // verus!
