//! Desktop updates: the crash-loop recovery record kept across restarts, the
//! update feed endpoints, and the check / download / install session.

use vstd::prelude::*;
use crate::text::{chars_of, chars_equal_str, spec_trim, string_from_chars, trim_chars, CharClass};

verus! {

/// Restarts after an update that count as a crash loop.
pub const CRASH_LOOP_THRESHOLD: u32 = 3;

/// Seconds of stable running after which the restart counter is cleared.
pub const CLEAR_RESTARTS_AFTER_SECS: u64 = 60;

/// The recovery record: restarts since the last update and whether recovery
/// mode (updates blocked until a maintainer clears it) is on.
#[derive(Clone, Copy, Debug, PartialEq, Eq, Structural)]
pub struct RecoveryFileState {
    pub restarts_after_update: u32,
    pub recovery_mode: bool,
}

impl Default for RecoveryFileState {
    /// No restart counted, recovery mode off (also what an unreadable record reads as).
    fn default() -> (r: RecoveryFileState)
        ensures
            r.restarts_after_update == 0,
            !r.recovery_mode,
    {
        RecoveryFileState { restarts_after_update: 0, recovery_mode: false }
    }
}

/// The record after one application start: the restart counter goes up by one
/// (saturating); at the threshold recovery mode turns on and the counter restarts.
pub open spec fn after_startup(s: RecoveryFileState) -> RecoveryFileState {
    let n: int = if s.restarts_after_update == u32::MAX {
        u32::MAX as int
    } else {
        s.restarts_after_update + 1
    };
    if n >= CRASH_LOOP_THRESHOLD {
        RecoveryFileState { restarts_after_update: 0, recovery_mode: true }
    } else {
        RecoveryFileState { restarts_after_update: n as u32, recovery_mode: s.recovery_mode }
    }
}

/// What the start-up check decided.
#[derive(Clone, Copy, Debug, PartialEq, Eq, Structural)]
pub struct StartupRecovery {
    /// The record to write back.
    pub state: RecoveryFileState,
    /// Recovery mode was switched on by this start (announce it).
    pub activated: bool,
    /// Clear the restart counter after a minute of stable running.
    pub schedule_clear: bool,
}

/// The start-up check of the recovery record, run once per session.
pub fn startup_recovery(s: RecoveryFileState) -> (r: StartupRecovery)
    ensures
        r.state == after_startup(s),
        r.activated == (s.restarts_after_update >= 2),
        r.schedule_clear == (r.state.restarts_after_update > 0 && !r.state.recovery_mode),
{
    let n = s.restarts_after_update.saturating_add(1);
    if n >= CRASH_LOOP_THRESHOLD {
        StartupRecovery {
            state: RecoveryFileState { restarts_after_update: 0, recovery_mode: true },
            activated: true,
            schedule_clear: false,
        }
    } else {
        let state = RecoveryFileState { restarts_after_update: n, recovery_mode: s.recovery_mode };
        StartupRecovery { state, activated: false, schedule_clear: n > 0 && !s.recovery_mode }
    }
}

/// The record after a maintainer clears recovery mode: mode off, no restart counted.
pub fn cleared_recovery(s: RecoveryFileState) -> (r: RecoveryFileState)
    ensures
        r.restarts_after_update == 0,
        !r.recovery_mode,
{
    RecoveryFileState { restarts_after_update: 0, recovery_mode: false }
}

/// The record after a minute of stable running: the counter cleared, the mode kept.
pub fn cleared_restart_marker(s: RecoveryFileState) -> (r: RecoveryFileState)
    ensures
        r.restarts_after_update == 0,
        r.recovery_mode == s.recovery_mode,
{
    RecoveryFileState { restarts_after_update: 0, recovery_mode: s.recovery_mode }
}

/// The record written just before an update is installed: the next start is the
/// first after an update.
pub fn install_marker(s: RecoveryFileState) -> (r: RecoveryFileState)
    ensures
        r.restarts_after_update == 1,
        r.recovery_mode == s.recovery_mode,
{
    RecoveryFileState { restarts_after_update: 1, recovery_mode: s.recovery_mode }
}

/// What the user interface is told of the recovery record.
#[derive(Clone, Copy, Debug, PartialEq, Eq, Structural)]
pub struct RecoveryStatusResult {
    pub in_recovery_mode: bool,
    pub restarts_after_update: u32,
}

/// The status shown for a record.
pub fn recovery_status(s: RecoveryFileState) -> (r: RecoveryStatusResult)
    ensures
        r.in_recovery_mode == s.recovery_mode,
        r.restarts_after_update == s.restarts_after_update,
{
    RecoveryStatusResult { in_recovery_mode: s.recovery_mode, restarts_after_update: s.restarts_after_update }
}

/// What a request for the recovery status does: the record to write back (only on
/// the first request of a session, which runs the start-up check), whether recovery
/// mode was just switched on, whether to clear the counter after a stable minute,
/// and the status answered.
#[derive(Clone, Copy, Debug, PartialEq, Eq, Structural)]
pub struct RecoveryCall {
    pub write: Option<RecoveryFileState>,
    pub activated: bool,
    pub schedule_clear: bool,
    pub status: RecoveryStatusResult,
}

/// The first start-up check answers the counter one higher, or recovery mode once the
/// count reaches the threshold; with a counter below its type's maximum:
/// `r + 1 >= 3` turns recovery mode on and restarts the counter, otherwise the record
/// becomes `{r + 1, m}`.
pub proof fn law_startup_check_outcome(s: RecoveryFileState)
    requires
        s.restarts_after_update < u32::MAX,
    ensures
        s.restarts_after_update + 1 >= CRASH_LOOP_THRESHOLD ==> after_startup(s) == (RecoveryFileState {
            restarts_after_update: 0,
            recovery_mode: true,
        }),
        s.restarts_after_update + 1 < CRASH_LOOP_THRESHOLD ==> after_startup(s) == (RecoveryFileState {
            restarts_after_update: (s.restarts_after_update + 1) as u32,
            recovery_mode: s.recovery_mode,
        }),
{
}

/// A crash loop is caught: three starts in a row without a stable minute in
/// between leave recovery mode on, whatever the record held before.
pub proof fn law_three_starts_enter_recovery(s: RecoveryFileState)
    ensures
        after_startup(after_startup(after_startup(s))).recovery_mode,
{
}

/// After an install, the second start that follows without a stable minute
/// turns recovery mode on.
pub proof fn law_two_crashes_after_install_enter_recovery(s: RecoveryFileState)
    ensures
        after_startup(after_startup(RecoveryFileState { restarts_after_update: 1, recovery_mode: s.recovery_mode })).recovery_mode,
{
}

/// Starting the application never leaves recovery mode (the stable-minute clear
/// and the install marker keep it too, by their contracts; only a maintainer's
/// clear ends it).
pub proof fn law_recovery_mode_persists(s: RecoveryFileState)
    requires
        s.recovery_mode,
    ensures
        after_startup(s).recovery_mode,
{
}

/// The restart counter stays under the threshold after every start.
pub proof fn law_counter_below_threshold(s: RecoveryFileState)
    ensures
        after_startup(s).restarts_after_update < CRASH_LOOP_THRESHOLD,
{
}

/// The feed URL of a channel: `beta` has its own, every other channel reads the stable one.
pub open spec fn channel_endpoint(channel: Seq<char>) -> Seq<char> {
    if channel == "beta"@ {
        "https://github.com/USER/REPO/releases"@ + "/latest/download/latest-beta.json"@
    } else {
        "https://github.com/USER/REPO/releases"@ + "/latest/download/latest.json"@
    }
}

/// The feed endpoints of a channel.
pub fn build_endpoints(channel: &str) -> (r: Vec<String>)
    ensures
        r@.len() == 1,
        r@[0]@ == channel_endpoint(channel@),
{
    let c = chars_of(channel);
    let tail = if chars_equal_str(&c, "beta") {
        "/latest/download/latest-beta.json"
    } else {
        "/latest/download/latest.json"
    };
    let url = String::from_str("https://github.com/USER/REPO/releases").concat(tail);
    let mut v = Vec::new();
    v.push(url);
    v
}

/// The endpoints to try: the override, trimmed, when something is left of it;
/// else the feed of the channel (`stable` when none is given).
pub open spec fn candidate_endpoints(channel: Option<Seq<char>>, endpoint_override: Option<Seq<char>>) -> Seq<char> {
    match endpoint_override {
        Some(u) => if spec_trim(u).len() > 0 {
            spec_trim(u)
        } else {
            channel_endpoint(match channel { Some(c) => c, None => "stable"@ })
        },
        None => channel_endpoint(match channel { Some(c) => c, None => "stable"@ }),
    }
}

/// Whether `url::Url::parse` accepts the text.
pub uninterp spec fn url_accepts(s: Seq<char>) -> bool;

/// Calls `url::Url::parse` on `s` and tells whether it succeeded; the result
/// depends on the text alone, and nothing more is claimed of the URL grammar.
#[verifier::external_body]
fn url_parses(s: &str) -> (r: bool)
    ensures
        r == url_accepts(s@),
{
    url::Url::parse(s).is_ok()
}

/// The update endpoints for a check: the candidate when it parses as a URL, else
/// the error that no endpoint is configured.
pub fn update_endpoints(channel: Option<&str>, endpoint_override: Option<&str>) -> (r: Result<Vec<String>, String>)
    ensures
        ({
            let cand = candidate_endpoints(
                match channel { Some(c) => Some(c@), None => None },
                match endpoint_override { Some(u) => Some(u@), None => None },
            );
            match r {
                Ok(v) => url_accepts(cand) && v@.len() == 1 && v@[0]@ == cand,
                Err(e) => !url_accepts(cand) && e@ == no_endpoint_message(),
            }
        }),
{
    let ch = match channel {
        Some(c) => c,
        None => "stable",
    };
    let candidate: String = match endpoint_override {
        Some(u) => {
            let t = trim_chars(&chars_of(u), CharClass::Whitespace);
            if t.len() > 0 {
                string_from_chars(&t)
            } else {
                let mut v = build_endpoints(ch);
                v.pop().unwrap()
            }
        },
        None => {
            let mut v = build_endpoints(ch);
            v.pop().unwrap()
        },
    };
    if url_parses(candidate.as_str()) {
        let mut v = Vec::new();
        v.push(candidate);
        Ok(v)
    } else {
        Err(String::from_str("No hay endpoints de actualización configurados"))
    }
}

/// Error of a check with no usable endpoint.
pub open spec fn no_endpoint_message() -> Seq<char> {
    "No hay endpoints de actualización configurados"@
}


/// Where an update session stands.
#[derive(Clone, Copy, Debug, PartialEq, Eq, Structural)]
pub enum UpdatePhase {
    Idle,
    Checking,
    Available,
    Downloading,
    Downloaded,
    Installing,
    Done,
}

/// The name of a phase as the user interface receives it.
pub open spec fn phase_text(p: UpdatePhase) -> Seq<char> {
    match p {
        UpdatePhase::Idle => "idle"@,
        UpdatePhase::Checking => "checking"@,
        UpdatePhase::Available => "available"@,
        UpdatePhase::Downloading => "downloading"@,
        UpdatePhase::Downloaded => "downloaded"@,
        UpdatePhase::Installing => "installing"@,
        UpdatePhase::Done => "done"@,
    }
}

impl UpdatePhase {
    /// The name of the phase (`idle`, `checking`, ...).
    pub fn name(&self) -> (r: String)
        ensures
            r@ == phase_text(*self),
    {
        match self {
            UpdatePhase::Idle => String::from_str("idle"),
            UpdatePhase::Checking => String::from_str("checking"),
            UpdatePhase::Available => String::from_str("available"),
            UpdatePhase::Downloading => String::from_str("downloading"),
            UpdatePhase::Downloaded => String::from_str("downloaded"),
            UpdatePhase::Installing => String::from_str("installing"),
            UpdatePhase::Done => String::from_str("done"),
        }
    }
}

/// What a feed announced about an available update.
pub struct UpdateInfo {
    pub version: String,
    pub notes: Option<String>,
    pub pub_date: Option<String>,
}

/// The answer to an update check.
pub struct CheckResult {
    pub has_update: bool,
    pub current_version: String,
    pub available_version: Option<String>,
    pub notes: Option<String>,
    pub pub_date: Option<String>,
}

/// The update session of a running application (the update object and the
/// downloaded bytes themselves stay with the caller; the session records whether
/// it holds them).
pub struct UpdaterSession {
    pub phase: UpdatePhase,
    pub last_error: Option<String>,
    pub current_version: String,
    pub available_version: Option<String>,
    pub available_notes: Option<String>,
    pub available_date: Option<String>,
    pub has_pending_update: bool,
    pub has_download: bool,
    /// The start-up recovery check runs once per session.
    pub startup_recovery_checked: bool,
}

/// The characters of an optional string.
pub open spec fn opt_text(v: Option<String>) -> Option<Seq<char>> {
    match v {
        Some(s) => Some(s@),
        None => None,
    }
}

fn clone_opt(v: &Option<String>) -> (r: Option<String>)
    ensures
        opt_text(r) == opt_text(*v),
{
    match v {
        Some(s) => Some(s.clone()),
        None => None,
    }
}

impl UpdaterSession {
    /// A fresh session: idle, nothing found, nothing downloaded.
    pub fn new(current_version: String) -> (r: UpdaterSession)
        ensures
            r.phase == UpdatePhase::Idle,
            r.last_error is None,
            r.current_version@ == current_version@,
            r.available_version is None,
            r.available_notes is None,
            r.available_date is None,
            !r.has_pending_update,
            !r.has_download,
            !r.startup_recovery_checked,
    {
        UpdaterSession {
            phase: UpdatePhase::Idle,
            last_error: None,
            current_version,
            available_version: None,
            available_notes: None,
            available_date: None,
            has_pending_update: false,
            has_download: false,
            startup_recovery_checked: false,
        }
    }

    /// Marks the start-up recovery check as done; `true` only the first time.
    pub fn take_startup_check(&mut self) -> (r: bool)
        ensures
            r == !old(self).startup_recovery_checked,
            final(self).startup_recovery_checked,
            final(self).phase == old(self).phase,
            final(self).has_pending_update == old(self).has_pending_update,
            final(self).has_download == old(self).has_download,
    {
        let first = !self.startup_recovery_checked;
        self.startup_recovery_checked = true;
        first
    }

    /// A request for the recovery status, given the record read from disk. The first
    /// request of the session runs the start-up check (`startup_recovery`) and answers
    /// from the record it writes back; later requests write nothing and answer from
    /// the record as read.
    pub fn get_recovery_status(&mut self, file: RecoveryFileState) -> (r: RecoveryCall)
        ensures
            final(self).startup_recovery_checked,
            final(self).phase == old(self).phase,
            final(self).has_pending_update == old(self).has_pending_update,
            final(self).has_download == old(self).has_download,
            !old(self).startup_recovery_checked ==> {
                &&& r.write == Some(after_startup(file))
                &&& r.activated == (file.restarts_after_update >= 2)
                &&& r.schedule_clear == (after_startup(file).restarts_after_update > 0
                    && !after_startup(file).recovery_mode)
                &&& r.status.in_recovery_mode == after_startup(file).recovery_mode
                &&& r.status.restarts_after_update == after_startup(file).restarts_after_update
            },
            old(self).startup_recovery_checked ==> {
                &&& r.write is None
                &&& !r.activated
                &&& !r.schedule_clear
                &&& r.status.in_recovery_mode == file.recovery_mode
                &&& r.status.restarts_after_update == file.restarts_after_update
            },
    {
        if self.take_startup_check() {
            let start = startup_recovery(file);
            RecoveryCall {
                write: Some(start.state),
                activated: start.activated,
                schedule_clear: start.schedule_clear,
                status: recovery_status(start.state),
            }
        } else {
            RecoveryCall { write: None, activated: false, schedule_clear: false, status: recovery_status(file) }
        }
    }

    /// A check begins: phase `checking`, no error.
    pub fn begin_check(&mut self)
        ensures
            final(self).phase == UpdatePhase::Checking,
            final(self).last_error is None,
            final(self).has_pending_update == old(self).has_pending_update,
            final(self).has_download == old(self).has_download,
            final(self).available_version == old(self).available_version,
            final(self).startup_recovery_checked == old(self).startup_recovery_checked,
            final(self).current_version == old(self).current_version,
    {
        self.phase = UpdatePhase::Checking;
        self.last_error = None;
    }

    /// A check ended with what the feed announced: with nothing the session goes
    /// back to idle and forgets any pending update; with an update it becomes
    /// `available` and holds it. A download already made is kept either way.
    pub fn finish_check(&mut self, found: Option<UpdateInfo>) -> (r: CheckResult)
        ensures
            r.current_version@ == old(self).current_version@,
            final(self).current_version == old(self).current_version,
            final(self).has_download == old(self).has_download,
            final(self).startup_recovery_checked == old(self).startup_recovery_checked,
            final(self).last_error == old(self).last_error,
            match found {
                None => {
                    &&& !r.has_update
                    &&& r.available_version is None && r.notes is None && r.pub_date is None
                    &&& final(self).phase == UpdatePhase::Idle
                    &&& final(self).available_version is None
                    &&& !final(self).has_pending_update
                    &&& final(self).available_notes == old(self).available_notes
                    &&& final(self).available_date == old(self).available_date
                },
                Some(u) => {
                    &&& r.has_update
                    &&& opt_text(r.available_version) == Some(u.version@)
                    &&& opt_text(r.notes) == opt_text(u.notes)
                    &&& opt_text(r.pub_date) == opt_text(u.pub_date)
                    &&& final(self).phase == UpdatePhase::Available
                    &&& opt_text(final(self).available_version) == Some(u.version@)
                    &&& opt_text(final(self).available_notes) == opt_text(u.notes)
                    &&& opt_text(final(self).available_date) == opt_text(u.pub_date)
                    &&& final(self).has_pending_update
                },
            },
    {
        let current = self.current_version.clone();
        match found {
            None => {
                self.phase = UpdatePhase::Idle;
                self.available_version = None;
                self.has_pending_update = false;
                CheckResult { has_update: false, current_version: current, available_version: None, notes: None, pub_date: None }
            },
            Some(u) => {
                self.phase = UpdatePhase::Available;
                self.available_version = Some(u.version.clone());
                self.available_notes = clone_opt(&u.notes);
                self.available_date = clone_opt(&u.pub_date);
                self.has_pending_update = true;
                CheckResult {
                    has_update: true,
                    current_version: current,
                    available_version: Some(u.version),
                    notes: u.notes,
                    pub_date: u.pub_date,
                }
            },
        }
    }

    /// A download may begin only with a pending update; it then sets the phase
    /// `downloading`.
    pub fn begin_download(&mut self) -> (r: Result<(), String>)
        ensures
            r is Ok <==> old(self).has_pending_update,
            r matches Err(e) ==> e@ == "No hay actualización pendiente. Ejecuta Buscar actualización primero."@,
            final(self).phase == (if r is Ok { UpdatePhase::Downloading } else { old(self).phase }),
            final(self).has_pending_update == old(self).has_pending_update,
            final(self).has_download == old(self).has_download,
            final(self).startup_recovery_checked == old(self).startup_recovery_checked,
    {
        if !self.has_pending_update {
            return Err(String::from_str("No hay actualización pendiente. Ejecuta Buscar actualización primero."));
        }
        self.phase = UpdatePhase::Downloading;
        Ok(())
    }

    /// The download finished: phase `downloaded`, the bytes held.
    pub fn finish_download(&mut self)
        ensures
            final(self).phase == UpdatePhase::Downloaded,
            final(self).has_download,
            final(self).has_pending_update == old(self).has_pending_update,
            final(self).startup_recovery_checked == old(self).startup_recovery_checked,
    {
        self.phase = UpdatePhase::Downloaded;
        self.has_download = true;
    }

    /// An install may begin only with a pending update that was downloaded; it
    /// then sets the phase `installing`.
    pub fn begin_install(&mut self) -> (r: Result<(), String>)
        ensures
            r is Ok <==> (old(self).has_pending_update && old(self).has_download),
            r matches Err(e) ==> e@ == (if !old(self).has_pending_update {
                "No hay actualización pendiente."@
            } else {
                "No hay archivo descargado. Ejecuta Descargar primero."@
            }),
            final(self).phase == (if r is Ok { UpdatePhase::Installing } else { old(self).phase }),
            final(self).has_pending_update == old(self).has_pending_update,
            final(self).has_download == old(self).has_download,
            final(self).startup_recovery_checked == old(self).startup_recovery_checked,
    {
        if !self.has_pending_update {
            return Err(String::from_str("No hay actualización pendiente."));
        }
        if !self.has_download {
            return Err(String::from_str("No hay archivo descargado. Ejecuta Descargar primero."));
        }
        self.phase = UpdatePhase::Installing;
        Ok(())
    }

    /// The install finished: phase `done`, neither update nor bytes held.
    pub fn finish_install(&mut self)
        ensures
            final(self).phase == UpdatePhase::Done,
            !final(self).has_pending_update,
            !final(self).has_download,
            final(self).startup_recovery_checked == old(self).startup_recovery_checked,
    {
        self.phase = UpdatePhase::Done;
        self.has_pending_update = false;
        self.has_download = false;
    }
}

} // verus!
