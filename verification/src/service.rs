//! What the setup program does to the system, as jobs: rows of steps that are
//! taken one by one, each of which may fail.

use vstd::prelude::*;
use crate::text;

verus! {

/// The settings file of the system.
pub const CONFIG_PATH: &'static str = "/etc/mouse-unlock.conf";

/// The settings file that is used without root.
pub const LOCAL_CONFIG_PATH: &'static str = "mouse-unlock.conf";

/// Where the daemon is installed.
pub const DAEMON_DEST: &'static str = "/usr/local/bin/mouse-unlock";

/// Where its service unit is installed.
pub const SERVICE_DEST: &'static str = "/etc/systemd/system/mouse-unlock.service";

/// The mode of a file that only its owner may read and write.
pub const PRIVATE_MODE: u32 = 0o600;

/// The mode of a program that anyone may run.
pub const PROGRAM_MODE: u32 = 0o755;

/// One thing to do to the system.
pub enum Op {
    Write { path: String, contents: String },
    Chmod { path: String, mode: u32 },
    CopyDaemon { to: String },
    Remove { path: String },
    Shell { cmd: String },
}

/// What is to be done.
pub enum Deed {
    Write { path: Seq<char>, contents: Seq<char> },
    Chmod { path: Seq<char>, mode: u32 },
    CopyDaemon { to: Seq<char> },
    Remove { path: Seq<char> },
    Shell { cmd: Seq<char> },
}

impl View for Op {
    type V = Deed;

    open spec fn view(&self) -> Deed {
        match self {
            Op::Write { path, contents } => Deed::Write { path: path@, contents: contents@ },
            Op::Chmod { path, mode } => Deed::Chmod { path: path@, mode: *mode },
            Op::CopyDaemon { to } => Deed::CopyDaemon { to: to@ },
            Op::Remove { path } => Deed::Remove { path: path@ },
            Op::Shell { cmd } => Deed::Shell { cmd: cmd@ },
        }
    }
}

/// A step of a job. Where it fails, the job ends with the words in `failure`
/// and the error behind them; where there are none, the job goes on.
pub struct Step {
    pub op: Op,
    pub failure: Option<String>,
}

impl View for Step {
    type V = (Deed, Option<Seq<char>>);

    open spec fn view(&self) -> (Deed, Option<Seq<char>>) {
        (self.op@, text::maybe(self.failure))
    }
}

/// A job under way.
pub struct Job {
    pub steps: Vec<Step>,
    pub done: usize,
    pub failed: Option<String>,
    /// What to say once all is done.
    pub success: String,
}

/// How far a job is.
#[verifier::ext_equal]
pub struct Progress {
    pub steps: Seq<(Deed, Option<Seq<char>>)>,
    pub done: int,
    pub failed: Option<Seq<char>>,
    pub success: Seq<char>,
}

impl View for Job {
    type V = Progress;

    open spec fn view(&self) -> Progress {
        Progress {
            steps: step_views(self.steps@),
            done: self.done as int,
            failed: text::maybe(self.failed),
            success: self.success@,
        }
    }
}

/// Each step by its view.
pub open spec fn step_views(v: Seq<Step>) -> Seq<(Deed, Option<Seq<char>>)> {
    v.map_values(|s: Step| s@)
}

/// A job that no step of is taken yet.
pub open spec fn planned(
    steps: Seq<(Deed, Option<Seq<char>>)>,
    success: Seq<char>,
) -> Progress {
    Progress { steps, done: 0, failed: None, success }
}

/// There is a step to take next.
pub open spec fn goes_on(p: Progress) -> bool {
    p.failed is None && p.done < p.steps.len()
}

/// The error of a step, where it failed.
pub open spec fn error_of(r: Result<(), String>) -> Option<Seq<char>> {
    match r {
        Ok(_) => None,
        Err(e) => Some(e@),
    }
}

/// The job after its next step came out, without an error or with one.
pub open spec fn reported(p: Progress, error: Option<Seq<char>>) -> Progress {
    if !goes_on(p) {
        p
    } else {
        Progress {
            done: p.done + 1,
            failed: match (p.steps[p.done].1, error) {
                (Some(words), Some(e)) => Some(words + e),
                _ => None,
            },
            ..p
        }
    }
}

/// How a job came out.
pub open spec fn result_of(p: Progress) -> Result<Seq<char>, Seq<char>> {
    match p.failed {
        Some(e) => Err(e),
        None => Ok(p.success),
    }
}

impl Job {
    /// The next thing to do, or nothing where the job is over.
    pub fn next_op(&self) -> (r: Option<&Op>)
        ensures
            goes_on(self@) ==> r is Some && r.unwrap()@ == self@.steps[self@.done].0,
            !goes_on(self@) ==> r is None,
    {
        if self.failed.is_none() && self.done < self.steps.len() {
            assert(step_views(self.steps@)[self.done as int] == self.steps@[self.done as int]@);
            Some(&self.steps[self.done].op)
        } else {
            None
        }
    }

    /// Takes in how the next step came out.
    pub fn report(&mut self, r: Result<(), String>)
        ensures
            final(self)@ == reported(old(self)@, error_of(r)),
    {
        if self.failed.is_none() && self.done < self.steps.len() {
            assert(step_views(self.steps@)[self.done as int] == self.steps@[self.done as int]@);
            match (&self.steps[self.done].failure, r) {
                (Some(words), Err(e)) => {
                    self.failed = Some(text::join(words.as_str(), e.as_str()));
                },
                _ => {},
            }
            self.done = self.done + 1;
        }
    }

    /// How the job came out.
    pub fn outcome(&self) -> (r: Result<String, String>)
        ensures
            text::outcome(r) == result_of(self@),
    {
        match &self.failed {
            Some(e) => Err(e.clone()),
            None => Ok(self.success.clone()),
        }
    }
}

/// The error where root is needed.
pub open spec fn root_error() -> Seq<char> {
    "needs root — re-run with: sudo mouse-unlock-setup"@
}

/// Refuses to go on without root.
pub fn require_root(root: bool) -> (r: Result<(), String>)
    ensures
        root ==> r is Ok,
        !root ==> error_of(r) == Some(root_error()),
{
    if root {
        Ok(())
    } else {
        Err("needs root — re-run with: sudo mouse-unlock-setup".to_owned())
    }
}

/// The settings file that is read and written.
pub open spec fn path_of(root: bool) -> Seq<char> {
    if root {
        CONFIG_PATH@
    } else {
        LOCAL_CONFIG_PATH@
    }
}

/// The settings file that is read and written.
pub fn config_path(root: bool) -> (r: String)
    ensures
        r@ == path_of(root),
{
    if root {
        CONFIG_PATH.to_owned()
    } else {
        LOCAL_CONFIG_PATH.to_owned()
    }
}

/// Where the settings are, for people to read.
pub open spec fn place_of(root: bool) -> Seq<char> {
    if root {
        CONFIG_PATH@
    } else {
        "mouse-unlock.conf (cwd, not root)"@
    }
}

/// Where the settings are, for people to read; not a path.
pub fn config_display(root: bool) -> (r: String)
    ensures
        r@ == place_of(root),
{
    if root {
        CONFIG_PATH.to_owned()
    } else {
        "mouse-unlock.conf (cwd, not root)".to_owned()
    }
}

/// The steps that save settings: they are written, then kept to their owner;
/// with root, a running daemon is restarted, come what may.
pub open spec fn save_steps(
    root: bool,
    contents: Seq<char>,
) -> Seq<(Deed, Option<Seq<char>>)> {
    let path = path_of(root);
    let kept = seq![
        (Deed::Write { path, contents }, Some("write "@ + path + ": "@)),
        (Deed::Chmod { path, mode: PRIVATE_MODE }, Some("chmod "@ + path + ": "@)),
    ];
    if root {
        kept.push((Deed::Shell { cmd: "systemctl try-restart mouse-unlock.service"@ }, None))
    } else {
        kept
    }
}

/// What to say once settings are saved.
pub open spec fn save_message(root: bool) -> Seq<char> {
    "config saved to "@ + path_of(root) + " (0600)"@
}

/// Plans to save settings.
pub fn save_job(root: bool, contents: String) -> (r: Job)
    ensures
        r@ == planned(save_steps(root, contents@), save_message(root)),
{
    let path: String = config_path(root);
    let mut steps: Vec<Step> = Vec::new();
    steps.push(
        Step {
            op: Op::Write { path: path.clone(), contents },
            failure: Some(text::join3("write ", path.as_str(), ": ")),
        },
    );
    steps.push(
        Step {
            op: Op::Chmod { path: path.clone(), mode: PRIVATE_MODE },
            failure: Some(text::join3("chmod ", path.as_str(), ": ")),
        },
    );
    if root {
        steps.push(
            Step {
                op: Op::Shell { cmd: "systemctl try-restart mouse-unlock.service".to_owned() },
                failure: None,
            },
        );
    }
    assert(step_views(steps@) =~= save_steps(root, contents@));
    let success: String = text::join3("config saved to ", path.as_str(), " (0600)");
    Job { steps, done: 0, failed: None, success }
}

/// What is known of a daemon that was found.
#[derive(Clone, Copy)]
pub struct Found {
    /// There is something where the daemon is to be.
    pub dest_exists: bool,
    /// What was found and what is there lead to the same file, or neither to
    /// any.
    pub same_file: bool,
}

/// The steps that install the service. The daemon is copied unless it stands
/// where it is to be.
pub open spec fn install_steps(
    found: Found,
    unit: Seq<char>,
) -> Seq<(Deed, Option<Seq<char>>)> {
    let copy = if found.dest_exists && found.same_file {
        Seq::empty()
    } else {
        seq![(Deed::CopyDaemon { to: DAEMON_DEST@ }, Some("copy daemon binary: "@))]
    };
    copy + seq![
        (Deed::Chmod { path: DAEMON_DEST@, mode: PROGRAM_MODE }, Some("chmod binary: "@)),
        (Deed::Write { path: SERVICE_DEST@, contents: unit }, Some("write service: "@)),
        (Deed::Shell { cmd: "systemctl daemon-reload"@ }, Some(""@)),
        (Deed::Shell { cmd: "systemctl enable --now mouse-unlock.service"@ }, Some(""@)),
    ]
}

/// A job, or the error that keeps it from being started.
pub open spec fn job_or_error(r: Result<Job, String>) -> Result<Progress, Seq<char>> {
    match r {
        Ok(j) => Ok(j@),
        Err(e) => Err(e@),
    }
}

/// The steps that take the service away; each is tried, come what may.
pub open spec fn uninstall_steps() -> Seq<(Deed, Option<Seq<char>>)> {
    seq![
        (Deed::Shell { cmd: "systemctl disable --now mouse-unlock.service"@ }, None),
        (Deed::Remove { path: SERVICE_DEST@ }, None),
        (Deed::Shell { cmd: "systemctl daemon-reload"@ }, None),
        (Deed::Remove { path: DAEMON_DEST@ }, None),
    ]
}

/// What a shell command came to: an error names the command and what it
/// printed.
pub fn sh_result(cmd: &str, success: bool, stderr: &str) -> (r: Result<(), String>)
    ensures
        success ==> r is Ok,
        !success ==> error_of(r) == Some("`"@ + cmd@ + "` failed: "@ + text::trimmed(stderr@)),
{
    if success {
        Ok(())
    } else {
        let mut e: String = text::join3("`", cmd, "` failed: ");
        e.append(text::trim(stderr).as_str());
        Err(e)
    }
}

/// A place where the daemon may be found.
pub enum Candidate {
    /// In the directory of the running program, under this name.
    BesideProgram(String),
    /// At this path.
    At(String),
}

/// A place where the daemon may be found.
pub enum Place {
    BesideProgram(Seq<char>),
    At(Seq<char>),
}

impl View for Candidate {
    type V = Place;

    open spec fn view(&self) -> Place {
        match self {
            Candidate::BesideProgram(s) => Place::BesideProgram(s@),
            Candidate::At(s) => Place::At(s@),
        }
    }
}

/// Each candidate by its view.
pub open spec fn candidate_views(v: Seq<Candidate>) -> Seq<Place> {
    v.map_values(|c: Candidate| c@)
}

/// The places where the daemon may be found, best first.
pub open spec fn places(program_known: bool) -> Seq<Place> {
    let beside = if program_known {
        seq![Place::BesideProgram("mouse-unlock"@)]
    } else {
        Seq::empty()
    };
    beside + seq![
        Place::At("target/release/mouse-unlock"@),
        Place::At("target/debug/mouse-unlock"@),
        Place::At(DAEMON_DEST@),
    ]
}

/// The places where the daemon may be found, best first; the directory of the
/// running program is one of them where it is known.
pub fn daemon_candidates(program_known: bool) -> (r: Vec<Candidate>)
    ensures
        candidate_views(r@) == places(program_known),
{
    let mut r: Vec<Candidate> = Vec::new();
    if program_known {
        r.push(Candidate::BesideProgram("mouse-unlock".to_owned()));
    }
    r.push(Candidate::At("target/release/mouse-unlock".to_owned()));
    r.push(Candidate::At("target/debug/mouse-unlock".to_owned()));
    r.push(Candidate::At(DAEMON_DEST.to_owned()));
    assert(candidate_views(r@) =~= places(program_known));
    r
}

/// The first of the places where there is a file, given for each whether there
/// is one.
pub fn find_daemon_binary(is_file: &Vec<bool>) -> (r: Option<usize>)
    ensures
        match r {
            Some(k) => k < is_file@.len() && is_file@[k as int] && forall|i: int|
                0 <= i < k ==> !#[trigger] is_file@[i],
            None => forall|i: int| 0 <= i < is_file@.len() ==> !#[trigger] is_file@[i],
        },
{
    let mut i: usize = 0;
    while i < is_file.len()
        invariant
            i <= is_file@.len(),
            forall|k: int| 0 <= k < i ==> !#[trigger] is_file@[k],
        decreases is_file@.len() - i,
    {
        if is_file[i] {
            return Some(i);
        }
        i += 1;
    }
    None
}

/// The job after a row of its steps came out, each without an error or with
/// one.
pub open spec fn reported_all(p: Progress, errors: Seq<Option<Seq<char>>>) -> Progress
    decreases errors.len(),
{
    if errors.len() == 0 {
        p
    } else {
        reported(reported_all(p, errors.drop_last()), errors.last())
    }
}

/// Step `k` failed, and may not.
pub open spec fn breaks_at(
    p: Progress,
    errors: Seq<Option<Seq<char>>>,
    k: int,
) -> bool {
    p.steps[k].1 is Some && errors[k] is Some
}

/// A job comes out with the first error that it may not pass over; errors of
/// other steps do not keep it from going on.
pub proof fn law_first_failure_ends_a_job(
    steps: Seq<(Deed, Option<Seq<char>>)>,
    success: Seq<char>,
    errors: Seq<Option<Seq<char>>>,
)
    requires
        errors.len() <= steps.len(),
    ensures
        ({
            let p = planned(steps, success);
            let q = reported_all(p, errors);
            &&& (forall|k: int| 0 <= k < errors.len() ==> !#[trigger] breaks_at(p, errors, k))
                ==> q.failed is None && q.done == errors.len()
            &&& forall|k: int|
                0 <= k < errors.len() && #[trigger] breaks_at(p, errors, k) && (forall|j: int|
                    0 <= j < k ==> !#[trigger] breaks_at(p, errors, j)) ==> q.failed == Some(
                    steps[k].1.unwrap() + errors[k].unwrap(),
                ) && q.done == k + 1
        }),
{
    let p = planned(steps, success);
    lemma_reported_all(p, errors);
    assert forall|k: int|
        0 <= k < errors.len() && #[trigger] breaks_at(p, errors, k) && (forall|j: int|
            0 <= j < k ==> !#[trigger] breaks_at(p, errors, j)) implies {
        let q = reported_all(p, errors);
        q.failed == Some(steps[k].1.unwrap() + errors[k].unwrap()) && q.done == k + 1
    } by {}
}

proof fn lemma_reported_all(p: Progress, errors: Seq<Option<Seq<char>>>)
    requires
        p.done == 0,
        p.failed is None,
        errors.len() <= p.steps.len(),
    ensures
        reported_all(p, errors).steps == p.steps,
        (forall|k: int| 0 <= k < errors.len() ==> !#[trigger] breaks_at(p, errors, k)) ==> {
            &&& reported_all(p, errors).failed is None
            &&& reported_all(p, errors).done == errors.len()
        },
        forall|k: int|
            0 <= k < errors.len() && #[trigger] breaks_at(p, errors, k) && (forall|j: int|
                0 <= j < k ==> !#[trigger] breaks_at(p, errors, j)) ==> {
                &&& reported_all(p, errors).failed == Some(
                    p.steps[k].1.unwrap() + errors[k].unwrap(),
                )
                &&& reported_all(p, errors).done == k + 1
            },
    decreases errors.len(),
{
    if errors.len() > 0 {
        let before = errors.drop_last();
        let n = before.len() as int;
        lemma_reported_all(p, before);
        assert forall|k: int| 0 <= k < n implies #[trigger] breaks_at(p, before, k) == breaks_at(
            p,
            errors,
            k,
        ) by {}
        if forall|k: int| 0 <= k < n ==> !#[trigger] breaks_at(p, errors, k) {
            assert forall|k: int| 0 <= k < n implies !#[trigger] breaks_at(p, before, k) by {
                assert(breaks_at(p, before, k) == breaks_at(p, errors, k));
            }
            if forall|k: int| 0 <= k < errors.len() ==> !#[trigger] breaks_at(p, errors, k) {
                assert(!breaks_at(p, errors, n));
            }
        }
        assert forall|k: int|
            0 <= k < errors.len() && #[trigger] breaks_at(p, errors, k) && (forall|j: int|
                0 <= j < k ==> !#[trigger] breaks_at(p, errors, j)) implies {
            &&& reported_all(p, errors).failed == Some(p.steps[k].1.unwrap() + errors[k].unwrap())
            &&& reported_all(p, errors).done == k + 1
        } by {
            if k < n {
                assert(breaks_at(p, before, k));
                assert forall|j: int| 0 <= j < k implies !#[trigger] breaks_at(p, before, j) by {
                    assert(breaks_at(p, before, j) == breaks_at(p, errors, j));
                }
            }
        }
    }
}

/// A job whose steps may all fail comes out well whatever happens.
pub proof fn law_uninstalling_never_fails(errors: Seq<Option<Seq<char>>>, success: Seq<char>)
    requires
        errors.len() == uninstall_steps().len(),
    ensures
        result_of(reported_all(planned(uninstall_steps(), success), errors)) == Ok::<
            Seq<char>,
            Seq<char>,
        >(success),
{
    let p = planned(uninstall_steps(), success);
    lemma_reported_all(p, errors);
    lemma_success_stays(p, errors);
    assert forall|k: int| 0 <= k < errors.len() implies !#[trigger] breaks_at(p, errors, k) by {}
}

proof fn lemma_success_stays(p: Progress, errors: Seq<Option<Seq<char>>>)
    ensures
        reported_all(p, errors).success == p.success,
    decreases errors.len(),
{
    if errors.len() > 0 {
        lemma_success_stays(p, errors.drop_last());
    }
}

/// Settings that were saved are private: saving comes out well only where they
/// were written and the file they were written to was then kept to its owner.
pub proof fn law_saved_settings_are_private(
    root: bool,
    contents: Seq<char>,
    errors: Seq<Option<Seq<char>>>,
)
    requires
        errors.len() == save_steps(root, contents).len(),
    ensures
        ({
            let p = planned(save_steps(root, contents), save_message(root));
            let path = path_of(root);
            &&& p.steps[0].0 == Deed::Write { path, contents }
            &&& p.steps[1].0 == Deed::Chmod { path, mode: PRIVATE_MODE }
            &&& result_of(reported_all(p, errors)) is Ok <==> errors[0] is None && errors[1] is None
        }),
{
    let p = planned(save_steps(root, contents), save_message(root));
    lemma_reported_all(p, errors);
    if errors[0] is Some {
        assert(breaks_at(p, errors, 0));
    } else if errors[1] is Some {
        assert(!breaks_at(p, errors, 0));
        assert(breaks_at(p, errors, 1));
    } else {
        assert forall|k: int| 0 <= k < errors.len() implies !#[trigger] breaks_at(
            p,
            errors,
            k,
        ) by {}
    }
}

/// The files that are used: with root those of the system, without it one in the
/// working directory.
pub proof fn law_the_files_that_are_used()
    ensures
        path_of(true) == "/etc/mouse-unlock.conf"@,
        path_of(false) == "mouse-unlock.conf"@,
        place_of(true) == "/etc/mouse-unlock.conf"@,
        place_of(false) == "mouse-unlock.conf (cwd, not root)"@,
        root_error() == "needs root — re-run with: sudo mouse-unlock-setup"@,
{
}

/// Saving writes what is to be saved, all of it, to one file and to no other, then
/// keeps that file to its owner, and with root has a running daemon restarted;
/// the first two end the job where they fail, the third does not.
pub proof fn law_how_settings_are_saved(root: bool, contents: Seq<char>)
    ensures
        ({
            let steps = save_steps(root, contents);
            let path = if root {
                "/etc/mouse-unlock.conf"@
            } else {
                "mouse-unlock.conf"@
            };
            &&& steps.len() == (if root {
                3int
            } else {
                2int
            })
            &&& steps[0] == (Deed::Write { path, contents }, Some("write "@ + path + ": "@))
            &&& steps[1] == (Deed::Chmod { path, mode: 0o600 }, Some("chmod "@ + path + ": "@))
            &&& root ==> steps[2].0 == Deed::Shell {
                cmd: "systemctl try-restart mouse-unlock.service"@,
            } && steps[2].1 is None
            &&& save_message(root) == "config saved to "@ + path + " (0600)"@
        }),
{
}

/// Step `i` is one of a job's.
pub open spec fn is_step(steps: Seq<(Deed, Option<Seq<char>>)>, i: int, deed: Deed) -> bool {
    0 <= i < steps.len() && steps[i].0 == deed
}

/// Installing writes the unit that was handed in, all of it, to its place, and
/// writes nothing else. Before that the daemon is copied to its place, unless it
/// is there already, and made a program that anyone can run; behind it systemd
/// reads its units again, and then starts the service and has it started at boot.
/// Each step ends the job where it fails, with words of its own.
pub proof fn law_how_the_service_is_installed(found: Found, unit: Seq<char>)
    ensures
        ({
            let steps = install_steps(found, unit);
            let n = steps.len() as int;
            let copied = !(found.dest_exists && found.same_file);
            &&& n == (if copied {
                5int
            } else {
                4int
            })
            &&& copied <==> is_step(
                steps,
                0,
                Deed::CopyDaemon { to: "/usr/local/bin/mouse-unlock"@ },
            )
            &&& is_step(
                steps,
                n - 4,
                Deed::Chmod { path: "/usr/local/bin/mouse-unlock"@, mode: 0o755 },
            )
            &&& is_step(
                steps,
                n - 3,
                Deed::Write {
                    path: "/etc/systemd/system/mouse-unlock.service"@,
                    contents: unit,
                },
            )
            &&& is_step(steps, n - 2, Deed::Shell { cmd: "systemctl daemon-reload"@ })
            &&& is_step(
                steps,
                n - 1,
                Deed::Shell { cmd: "systemctl enable --now mouse-unlock.service"@ },
            )
            &&& forall|i: int| 0 <= i < n && (#[trigger] steps[i]).0 is Write ==> i == n - 3
            &&& copied ==> steps[0].1 == Some("copy daemon binary: "@)
            &&& steps[n - 4].1 == Some("chmod binary: "@)
            &&& steps[n - 3].1 == Some("write service: "@)
            &&& steps[n - 2].1 == Some(""@)
            &&& steps[n - 1].1 == Some(""@)
        }),
{
}

/// Taking the service away stops it, removes its unit, has systemd read its units
/// again, and removes the daemon, in this order; no step ends the job, and none
/// touches the settings.
pub proof fn law_how_the_service_is_taken_away()
    ensures
        ({
            let steps = uninstall_steps();
            &&& steps.len() == 4
            &&& steps[0].0 == Deed::Shell {
                cmd: "systemctl disable --now mouse-unlock.service"@,
            }
            &&& steps[1].0 == Deed::Remove { path: "/etc/systemd/system/mouse-unlock.service"@ }
            &&& steps[2].0 == Deed::Shell { cmd: "systemctl daemon-reload"@ }
            &&& steps[3].0 == Deed::Remove { path: "/usr/local/bin/mouse-unlock"@ }
            &&& forall|i: int| 0 <= i < 4 ==> (#[trigger] steps[i]).1 is None
        }),
{
}

/// The daemon is looked for beside the running program first, then where it is
/// built, and last where it is installed.
pub proof fn law_where_the_daemon_is_looked_for()
    ensures
        places(false) == seq![
            Place::At("target/release/mouse-unlock"@),
            Place::At("target/debug/mouse-unlock"@),
            Place::At("/usr/local/bin/mouse-unlock"@),
        ],
        places(true) == seq![Place::BesideProgram("mouse-unlock"@)] + places(false),
{
    assert(places(false) =~= seq![
        Place::At("target/release/mouse-unlock"@),
        Place::At("target/debug/mouse-unlock"@),
        Place::At("/usr/local/bin/mouse-unlock"@),
    ]);
    assert(places(true) =~= seq![Place::BesideProgram("mouse-unlock"@)] + places(false));
}

/// A job takes its steps one by one, from the first on, as long as none that may
/// not fail has failed; once one has, it takes no further step.
pub proof fn law_steps_are_taken_one_by_one(p: Progress, error: Option<Seq<char>>)
    ensures
        goes_on(p) <==> p.failed is None && p.done < p.steps.len(),
        goes_on(p) ==> reported(p, error).done == p.done + 1,
        goes_on(p) && error is None ==> reported(p, error).failed is None,
        goes_on(p) && p.steps[p.done].1 is None ==> reported(p, error).failed is None,
        goes_on(p) && p.steps[p.done].1 is Some && error is Some ==> reported(p, error).failed
            == Some(p.steps[p.done].1.unwrap() + error.unwrap()),
        !goes_on(p) ==> reported(p, error) == p,
        reported(p, error).steps == p.steps,
        reported(p, error).success == p.success,
        p.failed is None ==> result_of(p) == Ok::<Seq<char>, Seq<char>>(p.success),
        p.failed matches Some(e) ==> result_of(p) == Err::<Seq<char>, Seq<char>>(e),
{
}

/// A plan has taken no step yet.
pub proof fn law_a_plan_has_taken_no_step(
    steps: Seq<(Deed, Option<Seq<char>>)>,
    success: Seq<char>,
)
    ensures
        planned(steps, success).steps == steps,
        planned(steps, success).done == 0,
        planned(steps, success).failed is None,
        planned(steps, success).success == success,
{
}

/// What is said of steps, jobs and places is what they hold.
pub proof fn law_jobs_are_what_they_hold(
    v: Seq<Step>,
    w: Seq<Candidate>,
    j: Job,
    r: Result<Job, String>,
    i: int,
)
    ensures
        0 <= i < v.len() ==> step_views(v).len() == v.len() && step_views(v)[i].1 == text::maybe(
            v[i].failure,
        ) && (match v[i].op {
            Op::Write { path, contents } => step_views(v)[i].0 == Deed::Write {
                path: path@,
                contents: contents@,
            },
            Op::Chmod { path, mode } => step_views(v)[i].0 == Deed::Chmod { path: path@, mode },
            Op::CopyDaemon { to } => step_views(v)[i].0 == Deed::CopyDaemon { to: to@ },
            Op::Remove { path } => step_views(v)[i].0 == Deed::Remove { path: path@ },
            Op::Shell { cmd } => step_views(v)[i].0 == Deed::Shell { cmd: cmd@ },
        }),
        0 <= i < w.len() ==> candidate_views(w).len() == w.len() && (match w[i] {
            Candidate::BesideProgram(s) => candidate_views(w)[i] == Place::BesideProgram(s@),
            Candidate::At(s) => candidate_views(w)[i] == Place::At(s@),
        }),
        j@.steps == step_views(j.steps@),
        j@.done == j.done,
        j@.failed == text::maybe(j.failed),
        j@.success == j.success@,
        r matches Ok(job) ==> job_or_error(r) == Ok::<Progress, Seq<char>>(job@),
        r matches Err(e) ==> job_or_error(r) == Err::<Progress, Seq<char>>(e@),
        error_of(Ok(())) is None,
{
}

/// A step failed where there is an error, and with its words.
pub proof fn law_errors_are_what_they_hold(r: Result<(), String>)
    ensures
        r is Ok ==> error_of(r) is None,
        r matches Err(e) ==> error_of(r) == Some(e@),
{
}

} // verus!
