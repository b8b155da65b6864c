//! The launcher's session: which model runs, the log panel, and the
//! decisions taken on each frame, on starting and stopping a model and on
//! closing the window. The process, its output pipes and the window are
//! driven by the caller, which reports what happened and carries out the
//! actions these functions return.

use vstd::prelude::*;
use crate::launch::{parse_args, spec_parse_args};
use crate::models::{LogEntry, ModelConfig, ModelView, models_view, clock_text, spec_display_line};
use crate::text::{strings_view, text_eq};

verus! {

/// The most log lines the panel aims to keep.
pub const MAX_LOG_LINES: usize = 2000;

/// The most log entries shown at once.
pub const SHOWN_LOG_LINES: usize = 200;

/// The most lines taken from the output stream per frame.
pub const POLL_LINES: usize = 100;

/// The session's state.
#[derive(Debug)]
pub struct Session {
    /// The identifier of the running model, if one runs.
    pub active_model_id: Option<String>,
    /// The log panel's entries, oldest first.
    pub model_logs: Vec<LogEntry>,
    /// Whether the log panel follows new output.
    pub auto_scroll: bool,
    /// Whether the settings window is open.
    pub open_settings: bool,
    /// Whether the user asked to stop the running model.
    pub stop_requested: bool,
    /// Whether the exit confirmation is shown.
    pub exit_dialog_shown: bool,
}

/// Why a model was not started.
#[derive(Clone, Debug)]
pub enum StartError {
    /// Another model is running; it must be stopped first.
    AlreadyRunning,
    /// No model has the identifier.
    ModelNotFound,
    /// The server program was not found.
    ServerNotFound,
    /// The model (named here) has no launch arguments.
    NoArgs(String),
}

/// What to launch: the model, and the arguments for the server.
#[derive(Debug)]
pub struct StartPlan {
    pub model: ModelConfig,
    pub args: Vec<String>,
}

/// How the running process stands, as the caller found it.
#[derive(Clone, Copy, Debug)]
pub enum ProcessStatus {
    /// Still running.
    Running,
    /// It has exited.
    Exited,
    /// Its state could not be checked.
    CheckFailed,
}

/// What the caller must do after a log update.
#[derive(Clone, Copy, Debug)]
pub struct LogUpdate {
    /// Ask for another frame soon: a model was running.
    pub repaint: bool,
    /// Drop the process and wait for its output readers to finish.
    pub release_process: bool,
}

/// What the caller must do after a frame's decisions.
#[derive(Clone, Copy, Debug)]
pub struct FrameActions {
    /// Refuse the window's close request (the exit confirmation is shown).
    pub cancel_close: bool,
    /// Kill the running process and wait for its output readers.
    pub stop_process: bool,
}

/// A model's card on the home panel.
#[derive(Clone, Debug)]
pub struct ModelCard {
    pub name: String,
    pub description: String,
    pub is_active: bool,
    pub model_id: String,
}

/// Whether position `i` holds the first model with identifier `id`.
pub open spec fn first_with_id(models: Seq<ModelView>, id: Seq<char>, i: int) -> bool {
    &&& 0 <= i < models.len()
    &&& models[i].id == id
    &&& forall|j: int| 0 <= j < i ==> (#[trigger] models[j]).id != id
}

/// Whether some model has identifier `id`.
pub open spec fn has_id(models: Seq<ModelView>, id: Seq<char>) -> bool {
    exists|i: int| 0 <= i < models.len() && (#[trigger] models[i]).id == id
}

/// How many of the oldest entries the panel drops when `added` lines
/// arrive: it first shrinks to the smaller of `MAX_LOG_LINES` and the total
/// length, then takes all new lines.
pub open spec fn log_drop_count(old_len: nat, added: nat) -> nat {
    let target = if old_len + added < MAX_LOG_LINES { old_len + added } else { MAX_LOG_LINES as nat };
    if old_len > target {
        (old_len - target) as nat
    } else {
        0
    }
}

/// Whether `e` is the entry made for output line `line` at clock reading
/// `clock`: that text, stamped with that reading's time of day.
pub open spec fn is_entry_of(e: LogEntry, line: String, clock: u64) -> bool {
    &&& e.message == line
    &&& e.timestamp@ == clock_text(clock as nat)
}

/// Whether `after` is the log panel `before` once `lines` arrived: with no
/// lines nothing changes; else the oldest `log_drop_count` entries go, the
/// rest stay in order, and one entry per line follows, in order.
pub open spec fn log_appended(before: Seq<LogEntry>, after: Seq<LogEntry>, lines: Seq<String>, clock: u64) -> bool {
    if lines.len() == 0 {
        after == before
    } else {
        let drop = log_drop_count(before.len(), lines.len());
        let kept = before.len() - drop;
        &&& after.len() == kept + lines.len()
        &&& after.take(kept) == before.skip(drop as int)
        &&& forall|k: int| 0 <= k < lines.len() ==> is_entry_of(#[trigger] after[kept + k], lines[k], clock)
    }
}

/// The panel keeps the newest `MAX_LOG_LINES` of its old entries: when
/// lines arrive, an old panel of at most `MAX_LOG_LINES` entries loses
/// none of them, and a longer one loses exactly its oldest entries beyond
/// `MAX_LOG_LINES`; the new lines are all added after them.
pub proof fn law_log_keeps_newest_old_entries(old_len: nat, added: nat)
    requires
        added > 0,
    ensures
        log_drop_count(old_len, added) == (if old_len > MAX_LOG_LINES { old_len - MAX_LOG_LINES } else { 0 }),
{
}

/// How many entries the log panel shows out of `total`.
pub open spec fn shown_count(total: nat) -> nat {
    if total < SHOWN_LOG_LINES { total } else { SHOWN_LOG_LINES as nat }
}

/// The lines the log panel shows for these entries: the newest
/// `SHOWN_LOG_LINES` of them (all when there are fewer), oldest first, each
/// as `[HH:MM:SS] message`.
pub open spec fn spec_visible_lines(logs: Seq<LogEntry>) -> Seq<Seq<char>> {
    let n = shown_count(logs.len());
    Seq::new(n, |i: int| spec_display_line(logs[logs.len() - n + i].timestamp@, logs[logs.len() - n + i].message@))
}

/// The panel always shows the newest entry: when it holds any entry, the
/// last line shown is the newest entry's.
pub proof fn law_newest_entry_shown(logs: Seq<LogEntry>)
    requires
        logs.len() > 0,
    ensures
        spec_visible_lines(logs).len() > 0,
        spec_visible_lines(logs).last() == spec_display_line(logs.last().timestamp@, logs.last().message@),
{
}

/// Every line the panel shows is its own entry's line: the panel shows the
/// last `n` entries, `n` being the smaller of 200 and the number of
/// entries, and line `i` is `[`, entry `total - n + i`'s time stamp, `] `
/// and that same entry's message.
pub proof fn law_each_shown_line_is_its_entry(logs: Seq<LogEntry>)
    ensures
        spec_visible_lines(logs).len() == (if logs.len() < 200 { logs.len() } else { 200 }),
        forall|i: int| 0 <= i < spec_visible_lines(logs).len() ==> {
            let e = logs[logs.len() - spec_visible_lines(logs).len() + i];
            #[trigger] spec_visible_lines(logs)[i] == seq!['['] + e.timestamp@ + seq![']', ' '] + e.message@
        },
{
}

/// Whether the session stands stopped: no model, no logs, no stop pending.
pub open spec fn is_stopped(s: Session) -> bool {
    &&& s.active_model_id is None
    &&& s.model_logs@.len() == 0
    &&& !s.stop_requested
}

impl Session {
    /// Whether a model is running.
    pub open spec fn running(&self) -> bool {
        self.active_model_id is Some
    }

    /// A fresh session: nothing running, no logs, following new output.
    pub fn new() -> (s: Self)
        ensures
            s.active_model_id is None,
            s.model_logs@.len() == 0,
            s.auto_scroll,
            !s.open_settings,
            !s.stop_requested,
            !s.exit_dialog_shown,
    {
        Session {
            active_model_id: None,
            model_logs: Vec::new(),
            auto_scroll: true,
            open_settings: false,
            stop_requested: false,
            exit_dialog_shown: false,
        }
    }

    /// Whether a model is running.
    pub fn is_running(&self) -> (r: bool)
        ensures
            r == self.running(),
    {
        self.active_model_id.is_some()
    }

    /// Decides whether the model with identifier `model_id` can start:
    /// nothing may be running, the model must exist (the first with that
    /// identifier is taken), the server must have been found, and its
    /// launch line must yield at least one argument.
    pub fn plan_start(&self, models: &Vec<ModelConfig>, model_id: &str, server_found: bool) -> (r: Result<StartPlan, StartError>)
        ensures
            match r {
                Err(StartError::AlreadyRunning) => self.running(),
                Err(StartError::ModelNotFound) => !self.running() && !has_id(models_view(models@), model_id@),
                Err(StartError::ServerNotFound) => !self.running() && has_id(models_view(models@), model_id@)
                    && !server_found,
                Err(StartError::NoArgs(name)) => !self.running() && server_found && exists|i: int|
                    first_with_id(models_view(models@), model_id@, i) && spec_parse_args(models@[i].args@).len() == 0
                        && name@ == models@[i].name@,
                Ok(plan) => !self.running() && server_found && exists|i: int|
                    first_with_id(models_view(models@), model_id@, i) && plan.model == models@[i]
                        && strings_view(plan.args@) == spec_parse_args(models@[i].args@)
                        && plan.args@.len() > 0,
            },
    {
        if self.active_model_id.is_some() {
            return Err(StartError::AlreadyRunning);
        }
        let ghost view = models_view(models@);
        let n = models.len();
        let mut i: usize = 0;
        while i < n
            invariant
                n == models@.len(),
                i <= n,
                view == models_view(models@),
                forall|j: int| 0 <= j < i ==> (#[trigger] view[j]).id != model_id@,
            ensures
                i <= n,
                forall|j: int| 0 <= j < i ==> (#[trigger] view[j]).id != model_id@,
                i < n ==> view[i as int].id == model_id@,
            decreases n - i,
        {
            if text_eq(models[i].id.as_str(), model_id) {
                break;
            }
            i = i + 1;
        }
        if i == n {
            assert(!has_id(view, model_id@)) by {
                if has_id(view, model_id@) {
                    let k = choose|k: int| 0 <= k < view.len() && (#[trigger] view[k]).id == model_id@;
                    assert(view[k].id != model_id@);
                }
            }
            return Err(StartError::ModelNotFound);
        }
        assert(first_with_id(view, model_id@, i as int));
        if !server_found {
            return Err(StartError::ServerNotFound);
        }
        let model = models[i].clone();
        let args = parse_args(model.args.as_str());
        if args.len() == 0 {
            return Err(StartError::NoArgs(model.name));
        }
        Ok(StartPlan { model, args })
    }

    /// Records that the model `model_id` was started: it is the active one
    /// and the log panel starts empty.
    pub fn model_started(&mut self, model_id: &str)
        ensures
            final(self).active_model_id matches Some(id) && id@ == model_id@,
            final(self).model_logs@.len() == 0,
            final(self).auto_scroll == old(self).auto_scroll,
            final(self).open_settings == old(self).open_settings,
            final(self).stop_requested == old(self).stop_requested,
            final(self).exit_dialog_shown == old(self).exit_dialog_shown,
    {
        self.active_model_id = Some(model_id.to_owned());
        self.model_logs = Vec::new();
    }

    /// Stops the session's model: returns whether a process was running (the
    /// caller must then kill it and wait for its output readers); no model
    /// is active afterwards, the logs are cleared and no stop is pending.
    pub fn stop_current_model(&mut self) -> (was_running: bool)
        ensures
            was_running == old(self).running(),
            is_stopped(*final(self)),
            final(self).auto_scroll == old(self).auto_scroll,
            final(self).open_settings == old(self).open_settings,
            final(self).exit_dialog_shown == old(self).exit_dialog_shown,
    {
        let was_running = self.active_model_id.is_some();
        self.active_model_id = None;
        self.model_logs = Vec::new();
        self.stop_requested = false;
        was_running
    }

    /// Appends newly read output lines to the log panel, each stamped with
    /// the time of day of the caller's clock reading `clock` (the local
    /// time, for the launcher), after dropping the oldest entries as
    /// `log_drop_count` says; with no new lines the panel is left alone.
    pub fn append_log_lines(&mut self, new_lines: &Vec<String>, clock: u64)
        ensures
            log_appended(old(self).model_logs@, final(self).model_logs@, new_lines@, clock),
            final(self).active_model_id == old(self).active_model_id,
            final(self).auto_scroll == old(self).auto_scroll,
            final(self).open_settings == old(self).open_settings,
            final(self).stop_requested == old(self).stop_requested,
            final(self).exit_dialog_shown == old(self).exit_dialog_shown,
    {
        let added = new_lines.len();
        if added == 0 {
            return;
        }
        let ghost before = self.model_logs@;
        let len = self.model_logs.len();
        let target = if added < MAX_LOG_LINES && len < MAX_LOG_LINES - added { len + added } else { MAX_LOG_LINES };
        let ghost drop = log_drop_count(before.len(), added as nat);
        let mut removed: usize = 0;
        while self.model_logs.len() > target
            invariant
                removed <= drop,
                before.len() == len,
                target == (if len + added < MAX_LOG_LINES { len + added } else { MAX_LOG_LINES as int }),
                drop == log_drop_count(len as nat, added as nat),
                self.model_logs@ == before.skip(removed as int),
                self.active_model_id == old(self).active_model_id,
                self.auto_scroll == old(self).auto_scroll,
                self.open_settings == old(self).open_settings,
                self.stop_requested == old(self).stop_requested,
                self.exit_dialog_shown == old(self).exit_dialog_shown,
            decreases self.model_logs@.len(),
        {
            self.model_logs.remove(0);
            removed = removed + 1;
            assert(self.model_logs@ =~= before.skip(removed as int));
        }
        assert(removed == drop);
        let kept = len - removed;
        let mut k: usize = 0;
        while k < added
            invariant
                added == new_lines@.len(),
                kept == before.len() - drop,
                k <= added,
                self.model_logs@.len() == kept + k,
                self.model_logs@.take(kept as int) == before.skip(drop as int),
                forall|m: int| 0 <= m < k ==> is_entry_of(#[trigger] self.model_logs@[kept + m], new_lines@[m], clock),
                self.active_model_id == old(self).active_model_id,
                self.auto_scroll == old(self).auto_scroll,
                self.open_settings == old(self).open_settings,
                self.stop_requested == old(self).stop_requested,
                self.exit_dialog_shown == old(self).exit_dialog_shown,
            decreases added - k,
        {
            let ghost prev = self.model_logs@;
            let entry = LogEntry::stamped(new_lines[k].clone(), clock);
            self.model_logs.push(entry);
            assert(self.model_logs@.take(kept as int) =~= prev.take(kept as int));
            assert forall|m: int| 0 <= m < k + 1 implies is_entry_of(#[trigger] self.model_logs@[kept + m], new_lines@[m], clock) by {
                if m < k {
                    assert(self.model_logs@[kept + m] == prev[kept + m]);
                }
            }
            k = k + 1;
        }
        assert(kept == before.len() - drop);
        assert(self.model_logs@.len() == kept + added);
        assert(self.model_logs@.take(kept as int) == before.skip(drop as int));
        assert(log_appended(before, self.model_logs@, new_lines@, clock));
    }

    /// Takes in what one frame found: the lines read from the running
    /// model's output, if a model runs, how its process stands, and the
    /// clock reading that stamps the lines. The lines go to the log panel; a process that exited, or whose state
    /// could not be checked, is released and no model is active any more
    /// (its logs stay shown).
    pub fn update_logs(&mut self, new_lines: &Vec<String>, status: ProcessStatus, clock: u64) -> (u: LogUpdate)
        ensures
            u.repaint == old(self).running(),
            u.release_process == (old(self).running() && !(status is Running)),
            u.release_process ==> final(self).active_model_id is None,
            !u.release_process ==> final(self).active_model_id == old(self).active_model_id,
            log_appended(old(self).model_logs@, final(self).model_logs@, new_lines@, clock),
            final(self).auto_scroll == old(self).auto_scroll,
            final(self).open_settings == old(self).open_settings,
            final(self).stop_requested == old(self).stop_requested,
            final(self).exit_dialog_shown == old(self).exit_dialog_shown,
    {
        let running = self.active_model_id.is_some();
        self.append_log_lines(new_lines, clock);
        let release = running && match status {
            ProcessStatus::Running => false,
            ProcessStatus::Exited => true,
            ProcessStatus::CheckFailed => true,
        };
        if release {
            self.active_model_id = None;
        }
        LogUpdate { repaint: running, release_process: release }
    }

    /// The decisions at the start of each frame. A close request while a
    /// model runs and no confirmation is shown is refused and the
    /// confirmation is shown; a pending stop request stops the model.
    pub fn on_frame(&mut self, close_requested: bool) -> (a: FrameActions)
        ensures
            a.cancel_close == (close_requested && old(self).running() && !old(self).exit_dialog_shown),
            final(self).exit_dialog_shown == (old(self).exit_dialog_shown || a.cancel_close),
            old(self).stop_requested ==> a.stop_process == old(self).running() && is_stopped(*final(self)),
            !old(self).stop_requested ==> !a.stop_process && final(self).active_model_id == old(self).active_model_id
                && final(self).model_logs@ == old(self).model_logs@ && !final(self).stop_requested,
            final(self).auto_scroll == old(self).auto_scroll,
            final(self).open_settings == old(self).open_settings,
    {
        let mut cancel_close = false;
        if close_requested && self.active_model_id.is_some() && !self.exit_dialog_shown {
            self.exit_dialog_shown = true;
            cancel_close = true;
        }
        let mut stop_process = false;
        if self.stop_requested {
            stop_process = self.stop_current_model();
        }
        FrameActions { cancel_close, stop_process }
    }

    /// The user confirmed the exit: the model is stopped (the returned flag
    /// says whether a process must be killed) and the window may close.
    pub fn confirm_exit(&mut self) -> (was_running: bool)
        ensures
            was_running == old(self).running(),
            is_stopped(*final(self)),
            final(self).exit_dialog_shown == old(self).exit_dialog_shown,
            final(self).auto_scroll == old(self).auto_scroll,
            final(self).open_settings == old(self).open_settings,
    {
        self.stop_current_model()
    }

    /// The user declined the exit: the confirmation closes and the model
    /// keeps running.
    pub fn dismiss_exit(&mut self)
        ensures
            !final(self).exit_dialog_shown,
            final(self).active_model_id == old(self).active_model_id,
            final(self).model_logs@ == old(self).model_logs@,
            final(self).stop_requested == old(self).stop_requested,
            final(self).auto_scroll == old(self).auto_scroll,
            final(self).open_settings == old(self).open_settings,
    {
        self.exit_dialog_shown = false;
    }

    /// The lines the log panel shows: the newest `SHOWN_LOG_LINES` entries
    /// (all of them when there are fewer), oldest first, each as
    /// `[HH:MM:SS] message`.
    pub fn visible_log_lines(&self) -> (lines: Vec<String>)
        ensures
            strings_view(lines@) == spec_visible_lines(self.model_logs@),
    {
        let total = self.model_logs.len();
        let n = if total < SHOWN_LOG_LINES { total } else { SHOWN_LOG_LINES };
        let start = total - n;
        let mut lines: Vec<String> = Vec::new();
        let mut i: usize = 0;
        while i < n
            invariant
                total == self.model_logs@.len(),
                n <= total,
                start == total - n,
                i <= n,
                lines@.len() == i,
                forall|j: int| 0 <= j < i ==> (#[trigger] lines@[j])@ == spec_display_line(
                    self.model_logs@[start + j].timestamp@, self.model_logs@[start + j].message@),
            decreases n - i,
        {
            lines.push(self.model_logs[start + i].display_line());
            i = i + 1;
        }
        assert(strings_view(lines@) =~= spec_visible_lines(self.model_logs@));
        lines
    }

    /// The cards of the home panel, one per model in order; the running
    /// model's card is the active one.
    pub fn model_cards(&self, models: &Vec<ModelConfig>) -> (cards: Vec<ModelCard>)
        ensures
            cards@.len() == models@.len(),
            forall|i: int| 0 <= i < cards@.len() ==> {
                &&& (#[trigger] cards@[i]).name == models@[i].name
                &&& cards@[i].description == models@[i].description
                &&& cards@[i].model_id == models@[i].id
                &&& cards@[i].is_active == (self.active_model_id matches Some(a) && a@ == models@[i].id@)
            },
    {
        let n = models.len();
        let mut cards: Vec<ModelCard> = Vec::new();
        let mut i: usize = 0;
        while i < n
            invariant
                n == models@.len(),
                i <= n,
                cards@.len() == i,
                forall|j: int| 0 <= j < i ==> {
                    &&& (#[trigger] cards@[j]).name == models@[j].name
                    &&& cards@[j].description == models@[j].description
                    &&& cards@[j].model_id == models@[j].id
                    &&& cards@[j].is_active == (self.active_model_id matches Some(a) && a@ == models@[j].id@)
                },
            decreases n - i,
        {
            let m = &models[i];
            let is_active = match &self.active_model_id {
                Some(a) => *a == m.id,
                None => false,
            };
            cards.push(ModelCard {
                name: m.name.clone(),
                description: m.description.clone(),
                is_active,
                model_id: m.id.clone(),
            });
            i = i + 1;
        }
        cards
    }
}

} // verus!
