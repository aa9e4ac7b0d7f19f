//! The decisions of the terminal interface: how `ffmpeg` log lines are
//! classified and kept, what a key press does, and what the panels say.

use vstd::prelude::*;
use std::collections::VecDeque;
use crate::text::{chars_of, contains, decimal, decimal_chars, has_infix, string_from_chars};

verus! {

// ---------------------------------------------------------------------------
// Log lines
// ---------------------------------------------------------------------------

/// How serious an `ffmpeg` log line is.
#[derive(Debug, Clone, Copy, PartialEq, Eq, Structural)]
pub enum LogLevel {
    Info,
    Warning,
    Error,
}

/// Name for what `str::to_lowercase` makes of a text: its Unicode lowercase
/// mapping.
pub uninterp spec fn lowercase(s: Seq<char>) -> Seq<char>;

/// Calls `str::to_lowercase`. Its contract claims that the result is
/// `lowercase` of the text.
#[verifier::external_body]
fn to_lowercase(text: &str) -> (lower: String)
    ensures
        lower@ == lowercase(text@),
{
    text.to_lowercase()
}

/// The level of an already lowercased line: `error` anywhere makes it an
/// error, else `warning` anywhere makes it a warning.
pub open spec fn level_of(lower: Seq<char>) -> LogLevel {
    if has_infix(lower, "error"@) {
        LogLevel::Error
    } else if has_infix(lower, "warning"@) {
        LogLevel::Warning
    } else {
        LogLevel::Info
    }
}

/// Classifies a line that is already in lowercase.
pub fn classify_lowered(lower: &str) -> (level: LogLevel)
    ensures
        level == level_of(lower@),
{
    let s = chars_of(lower);
    if contains(&s, &chars_of("error")) {
        LogLevel::Error
    } else if contains(&s, &chars_of("warning")) {
        LogLevel::Warning
    } else {
        LogLevel::Info
    }
}

/// Classifies an `ffmpeg` log line by the words `error` and `warning`,
/// in any case.
pub fn classify(text: &str) -> (level: LogLevel)
    ensures
        level == level_of(lowercase(text@)),
{
    let lower = to_lowercase(text);
    classify_lowered(lower.as_str())
}

/// The order of the levels: info, then warning, then error.
pub open spec fn rank(level: LogLevel) -> nat {
    match level {
        LogLevel::Info => 0,
        LogLevel::Warning => 1,
        LogLevel::Error => 2,
    }
}

/// The colours the interface uses.
#[derive(Debug, Clone, Copy, PartialEq, Eq, Structural)]
pub enum Tint {
    Red,
    Yellow,
    White,
    Cyan,
}

/// The colour of a log line in the log window.
pub fn level_color(level: LogLevel) -> (t: Tint)
    ensures
        t == match level {
            LogLevel::Error => Tint::Red,
            LogLevel::Warning => Tint::Yellow,
            LogLevel::Info => Tint::White,
        },
{
    match level {
        LogLevel::Error => Tint::Red,
        LogLevel::Warning => Tint::Yellow,
        LogLevel::Info => Tint::White,
    }
}

/// The colour of the log badge in the controls bar, from the most serious
/// level in the log.
pub fn badge_color(level: LogLevel) -> (t: Tint)
    ensures
        t == match level {
            LogLevel::Error => Tint::Red,
            LogLevel::Warning => Tint::Yellow,
            LogLevel::Info => Tint::Cyan,
        },
{
    match level {
        LogLevel::Error => Tint::Red,
        LogLevel::Warning => Tint::Yellow,
        LogLevel::Info => Tint::Cyan,
    }
}

/// The number of log lines kept.
pub const LOG_CAPACITY: usize = 50;

/// The last `k` elements of `s` (all of them when there are fewer).
pub open spec fn keep_last<A>(s: Seq<A>, k: nat) -> Seq<A> {
    if s.len() > k {
        s.skip(s.len() - k)
    } else {
        s
    }
}

/// The most recent `ffmpeg` log lines, oldest first, at most fifty.
pub struct LogBuffer {
    lines: VecDeque<(LogLevel, String)>,
}

/// The view of a kept line.
pub open spec fn entry_view(e: (LogLevel, String)) -> (LogLevel, Seq<char>) {
    (e.0, e.1@)
}

/// The views of kept lines.
pub open spec fn entries_view(v: Seq<(LogLevel, String)>) -> Seq<(LogLevel, Seq<char>)> {
    v.map_values(|e: (LogLevel, String)| entry_view(e))
}

impl View for LogBuffer {
    type V = Seq<(LogLevel, Seq<char>)>;

    closed spec fn view(&self) -> Seq<(LogLevel, Seq<char>)> {
        entries_view(self.lines@)
    }
}

/// The most serious level among the lines, if there are any.
pub open spec fn max_level_spec(s: Seq<(LogLevel, Seq<char>)>) -> Option<LogLevel>
    decreases s.len(),
{
    if s.len() == 0 {
        None
    } else {
        match max_level_spec(s.drop_last()) {
            None => Some(s.last().0),
            Some(m) => if rank(s.last().0) >= rank(m) {
                Some(s.last().0)
            } else {
                Some(m)
            },
        }
    }
}

impl LogBuffer {
    /// The buffer never holds more than `LOG_CAPACITY` lines.
    pub closed spec fn wf(&self) -> bool {
        self.lines@.len() <= LOG_CAPACITY
    }

    /// An empty buffer.
    pub fn new() -> (b: Self)
        ensures
            b.wf(),
            b@ == Seq::<(LogLevel, Seq<char>)>::empty(),
    {
        let b = LogBuffer { lines: VecDeque::new() };
        assert(b@ =~= Seq::<(LogLevel, Seq<char>)>::empty());
        b
    }

    /// The number of lines held.
    pub fn len(&self) -> (n: usize)
        ensures
            n == self@.len(),
    {
        self.lines.len()
    }

    /// Whether no line is held.
    pub fn is_empty(&self) -> (r: bool)
        ensures
            r == (self@.len() == 0),
    {
        self.lines.len() == 0
    }

    /// Appends a line, dropping the oldest one when more than fifty would
    /// be held.
    pub fn push(&mut self, level: LogLevel, text: String)
        requires
            old(self).wf(),
        ensures
            final(self).wf(),
            final(self)@ == keep_last(old(self)@.push((level, text@)), LOG_CAPACITY as nat),
    {
        let ghost t = text@;
        self.lines.push_back((level, text));
        assert(self@ =~= old(self)@.push((level, t)));
        if self.lines.len() > LOG_CAPACITY {
            let _ = self.lines.pop_front();
            assert(self@ =~= old(self)@.push((level, t)).skip(1));
        }
    }

    /// Classifies an `ffmpeg` line and keeps it.
    pub fn record(&mut self, text: String)
        requires
            old(self).wf(),
        ensures
            final(self).wf(),
            final(self)@ == keep_last(
                old(self)@.push((level_of(lowercase(text@)), text@)),
                LOG_CAPACITY as nat,
            ),
    {
        let level = classify(text.as_str());
        self.push(level, text);
    }

    /// The most serious level among the lines held.
    pub fn max_level(&self) -> (m: Option<LogLevel>)
        ensures
            m == max_level_spec(self@),
    {
        let mut best: Option<LogLevel> = None;
        let mut i: usize = 0;
        while i < self.lines.len()
            invariant
                i <= self@.len(),
                self@.len() == self.lines@.len(),
                best == max_level_spec(self@.take(i as int)),
            decreases self@.len() - i,
        {
            let lvl = self.lines[i].0;
            assert(self@[i as int].0 == lvl);
            assert(self@.take(i + 1).drop_last() =~= self@.take(i as int));
            best = match best {
                None => Some(lvl),
                Some(m) => {
                    let rl: u8 = match lvl {
                        LogLevel::Info => 0,
                        LogLevel::Warning => 1,
                        LogLevel::Error => 2,
                    };
                    let rm: u8 = match m {
                        LogLevel::Info => 0,
                        LogLevel::Warning => 1,
                        LogLevel::Error => 2,
                    };
                    if rl >= rm {
                        Some(lvl)
                    } else {
                        Some(m)
                    }
                },
            };
            i = i + 1;
        }
        assert(self@.take(i as int) =~= self@);
        best
    }

    /// Keeps the scroll position inside the log and gives the lines that a
    /// window `area_height` rows high (two of them border) shows from it.
    pub fn window(&self, scroll: usize, area_height: u16) -> (r: (usize, Vec<(LogLevel, String)>))
        requires
            scroll + visible_rows(area_height) <= usize::MAX,
        ensures
            r.0 == clamp_scroll_spec(scroll as int, visible_rows(area_height), self@.len() as int),
            entries_view(r.1@) == window_spec(
                self@,
                r.0 as int,
                visible_rows(area_height),
            ),
    {
        let rows: usize = if area_height >= 2 {
            (area_height - 2) as usize
        } else {
            0
        };
        let total = self.lines.len();
        let top = clamp_scroll(scroll, rows, total);
        let end: usize = if top + rows <= total { top + rows } else { total };
        let mut out: Vec<(LogLevel, String)> = Vec::new();
        let mut i = top;
        while i < end
            invariant
                top <= i <= end <= total,
                total == self@.len(),
                self@.len() == self.lines@.len(),
                entries_view(out@) == self@.subrange(
                    top as int,
                    i as int,
                ),
            decreases end - i,
        {
            let lvl = self.lines[i].0;
            let txt = self.lines[i].1.clone();
            assert(self@[i as int] == (lvl, txt@));
            let ghost prev = out@;
            let ghost tv = txt@;
            out.push((lvl, txt));
            assert(entries_view(out@) =~= entries_view(prev).push((lvl, tv)));
            i = i + 1;
            assert(entries_view(out@) =~= self@.subrange(
                top as int,
                i as int,
            ));
        }
        (top, out)
    }
}

/// The number of log lines a window `area_height` rows high shows.
pub open spec fn visible_rows(area_height: u16) -> int {
    if area_height >= 2 {
        area_height - 2
    } else {
        0
    }
}

/// The scroll position kept inside the log: when the window would run past
/// the last line, it is moved up to show the last lines.
pub open spec fn clamp_scroll_spec(scroll: int, rows: int, total: int) -> int {
    if scroll + rows > total {
        if total > rows {
            total - rows
        } else {
            0
        }
    } else {
        scroll
    }
}

/// The lines shown from position `top`: at most `rows` of them.
pub open spec fn window_spec<A>(s: Seq<A>, top: int, rows: int) -> Seq<A> {
    let end = if top + rows <= s.len() {
        top + rows
    } else {
        s.len() as int
    };
    s.subrange(top, end)
}

/// Keeps the scroll position inside a log of `total` lines shown `rows` at
/// a time.
pub fn clamp_scroll(scroll: usize, rows: usize, total: usize) -> (top: usize)
    requires
        scroll + rows <= usize::MAX,
    ensures
        top == clamp_scroll_spec(scroll as int, rows as int, total as int),
        top <= total,
{
    if scroll + rows > total {
        if total > rows {
            total - rows
        } else {
            0
        }
    } else {
        scroll
    }
}

/// Pushing onto a buffer that holds the last lines of a history gives the
/// last lines of the longer history: the log always holds the fifty most
/// recent lines.
pub proof fn lemma_keep_last_push<A>(history: Seq<A>, e: A, k: nat)
    requires
        k > 0,
    ensures
        keep_last(keep_last(history, k).push(e), k) == keep_last(history.push(e), k),
        keep_last(history, k).len() <= k,
{
    let h2 = history.push(e);
    if history.len() > k {
        assert(keep_last(history, k).push(e) =~= h2.skip(h2.len() - k - 1));
        assert(keep_last(keep_last(history, k).push(e), k) =~= h2.skip(h2.len() - k));
    } else if history.len() == k {
        assert(keep_last(history, k).push(e) =~= h2);
    }
}

/// The kept entries for a list of `ffmpeg` lines, each with its level.
pub open spec fn classified(lines: Seq<Seq<char>>) -> Seq<(LogLevel, Seq<char>)> {
    lines.map_values(|l: Seq<char>| (level_of(lowercase(l)), l))
}

/// The log after recording `lines` one by one, starting from `start`.
pub open spec fn record_all(start: Seq<(LogLevel, Seq<char>)>, lines: Seq<Seq<char>>) -> Seq<
    (LogLevel, Seq<char>),
>
    decreases lines.len(),
{
    if lines.len() == 0 {
        start
    } else {
        record_all(
            keep_last(start.push((level_of(lowercase(lines[0])), lines[0])), LOG_CAPACITY as nat),
            lines.drop_first(),
        )
    }
}

proof fn lemma_record_all_from(history: Seq<(LogLevel, Seq<char>)>, lines: Seq<Seq<char>>)
    ensures
        record_all(keep_last(history, LOG_CAPACITY as nat), lines) == keep_last(
            history + classified(lines),
            LOG_CAPACITY as nat,
        ),
    decreases lines.len(),
{
    if lines.len() == 0 {
        assert(history + classified(lines) =~= history);
    } else {
        let e = (level_of(lowercase(lines[0])), lines[0]);
        lemma_keep_last_push(history, e, LOG_CAPACITY as nat);
        lemma_record_all_from(history.push(e), lines.drop_first());
        assert(history.push(e) + classified(lines.drop_first()) =~= history + classified(lines));
    }
}

proof fn lemma_max_level(s: Seq<(LogLevel, Seq<char>)>)
    ensures
        (max_level_spec(s) is None) == (s.len() == 0),
        (max_level_spec(s) == Some(LogLevel::Error)) == (exists|i: int|
            0 <= i < s.len() && (#[trigger] s[i]).0 == LogLevel::Error),
    decreases s.len(),
{
    if s.len() > 0 {
        let t = s.drop_last();
        lemma_max_level(t);
        assert forall|i: int| 0 <= i < t.len() implies t[i] == s[i] by {}
        if s.last().0 != LogLevel::Error && max_level_spec(t) != Some(LogLevel::Error) {
            assert forall|i: int| 0 <= i < s.len() implies (#[trigger] s[i]).0 != LogLevel::Error by {
                if i < t.len() {
                    assert(t[i] == s[i]);
                }
            }
        }
        if max_level_spec(t) == Some(LogLevel::Error) {
            let i = choose|i: int| 0 <= i < t.len() && (#[trigger] t[i]).0 == LogLevel::Error;
            assert(s[i] == t[i]);
        }
        if s.last().0 == LogLevel::Error {
            assert(s[s.len() - 1].0 == LogLevel::Error);
        }
    }
}

/// Recording lines one by one into an empty log leaves the last fifty of
/// them (all, when there are fewer), in order and each with its level; the
/// log has no most serious level exactly when no line was recorded, and its
/// most serious level is an error exactly when one of the kept lines is.
pub proof fn lemma_log_holds_last_lines(lines: Seq<Seq<char>>)
    ensures
        ({
            let log = record_all(Seq::empty(), lines);
            &&& log == keep_last(classified(lines), LOG_CAPACITY as nat)
            &&& log.len() == if lines.len() > LOG_CAPACITY { LOG_CAPACITY as int } else { lines.len() as int }
            &&& (max_level_spec(log) is None) == (lines.len() == 0)
            &&& (max_level_spec(log) == Some(LogLevel::Error)) == (exists|i: int|
                0 <= i < log.len() && (#[trigger] log[i]).0 == LogLevel::Error)
        }),
{
    let empty = Seq::<(LogLevel, Seq<char>)>::empty();
    assert(keep_last(empty, LOG_CAPACITY as nat) == empty);
    lemma_record_all_from(empty, lines);
    assert(empty + classified(lines) =~= classified(lines));
    lemma_max_level(record_all(empty, lines));
}

// ---------------------------------------------------------------------------
// Keys
// ---------------------------------------------------------------------------

/// A key that was pressed.
#[derive(Debug, Clone, Copy, PartialEq, Eq, Structural)]
pub enum Key {
    Char(char),
    Esc,
    Up,
    Down,
    Left,
    Right,
    Other,
}

/// What the interface must do after a key press.
#[derive(Debug, Clone, Copy, PartialEq, Eq, Structural)]
pub enum KeyCommand {
    Nothing,
    Quit,
    StartRecording,
    StopRecording,
}

/// The state of the interface that key presses change.
#[derive(Debug, Clone, Copy, PartialEq, Eq, Structural)]
pub struct TuiState {
    /// The monitor chosen for the next recording.
    pub selected: usize,
    /// Whether the log window is open.
    pub show_log: bool,
    /// The first log line shown.
    pub log_scroll: usize,
}

/// The state after a key press and the command it gives. `log_empty` tells
/// whether the log holds no line, `recording` whether a recording runs, and
/// `monitors` how many monitors there are.
pub open spec fn on_key_spec(
    s: TuiState,
    key: Key,
    log_empty: bool,
    recording: bool,
    monitors: nat,
) -> (TuiState, KeyCommand) {
    match key {
        Key::Char('q') => (s, KeyCommand::Quit),
        Key::Char('e') => (TuiState { show_log: !log_empty && !s.show_log, ..s }, KeyCommand::Nothing),
        Key::Esc => (TuiState { show_log: false, ..s }, KeyCommand::Nothing),
        Key::Up if s.show_log => (
            TuiState { log_scroll: if s.log_scroll > 0 { (s.log_scroll - 1) as usize } else { 0 }, ..s },
            KeyCommand::Nothing,
        ),
        Key::Down if s.show_log => (
            TuiState {
                log_scroll: if s.log_scroll < usize::MAX { (s.log_scroll + 1) as usize } else { usize::MAX },
                ..s
            },
            KeyCommand::Nothing,
        ),
        Key::Char(' ') if !s.show_log => (
            s,
            if recording { KeyCommand::StopRecording } else { KeyCommand::StartRecording },
        ),
        Key::Left if !recording && !s.show_log => (
            TuiState { selected: if s.selected > 0 { (s.selected - 1) as usize } else { 0 }, ..s },
            KeyCommand::Nothing,
        ),
        Key::Up if !recording && !s.show_log => (
            TuiState { selected: if s.selected > 0 { (s.selected - 1) as usize } else { 0 }, ..s },
            KeyCommand::Nothing,
        ),
        Key::Right if !recording && !s.show_log => (
            TuiState {
                selected: if s.selected + 1 < monitors { (s.selected + 1) as usize } else { (monitors - 1) as usize },
                ..s
            },
            KeyCommand::Nothing,
        ),
        Key::Down if !recording && !s.show_log => (
            TuiState {
                selected: if s.selected + 1 < monitors { (s.selected + 1) as usize } else { (monitors - 1) as usize },
                ..s
            },
            KeyCommand::Nothing,
        ),
        _ => (s, KeyCommand::Nothing),
    }
}

impl TuiState {
    /// The state when the interface starts.
    pub fn new() -> (s: Self)
        ensures
            s == (TuiState { selected: 0, show_log: false, log_scroll: 0 }),
    {
        TuiState { selected: 0, show_log: false, log_scroll: 0 }
    }

    /// Applies a key press: `q` quits; `e` opens the log window when there
    /// is a log and closes it; Esc closes it; the arrows scroll the open log
    /// window, or else choose the monitor while not recording; Space starts
    /// or stops the recording while the log window is closed.
    pub fn on_key(&mut self, key: Key, log_empty: bool, recording: bool, monitors: usize) -> (c: KeyCommand)
        requires
            monitors >= 1,
        ensures
            (*final(self), c) == on_key_spec(*old(self), key, log_empty, recording, monitors as nat),
    {
        let s = *self;
        let (next, cmd) = match key {
            Key::Char('q') => (s, KeyCommand::Quit),
            Key::Char('e') => (
                TuiState { show_log: if log_empty { false } else { !s.show_log }, ..s },
                KeyCommand::Nothing,
            ),
            Key::Esc => (TuiState { show_log: false, ..s }, KeyCommand::Nothing),
            Key::Up if s.show_log => (
                TuiState { log_scroll: s.log_scroll.saturating_sub(1), ..s },
                KeyCommand::Nothing,
            ),
            Key::Down if s.show_log => (
                TuiState { log_scroll: s.log_scroll.saturating_add(1), ..s },
                KeyCommand::Nothing,
            ),
            Key::Char(' ') if !s.show_log => (
                s,
                if recording {
                    KeyCommand::StopRecording
                } else {
                    KeyCommand::StartRecording
                },
            ),
            Key::Left if !recording && !s.show_log => (
                TuiState { selected: s.selected.saturating_sub(1), ..s },
                KeyCommand::Nothing,
            ),
            Key::Up if !recording && !s.show_log => (
                TuiState { selected: s.selected.saturating_sub(1), ..s },
                KeyCommand::Nothing,
            ),
            Key::Right if !recording && !s.show_log => (
                TuiState { selected: next_monitor(s.selected, monitors), ..s },
                KeyCommand::Nothing,
            ),
            Key::Down if !recording && !s.show_log => (
                TuiState { selected: next_monitor(s.selected, monitors), ..s },
                KeyCommand::Nothing,
            ),
            _ => (s, KeyCommand::Nothing),
        };
        *self = next;
        cmd
    }
}

/// The monitor after `selected`, staying on the last one.
fn next_monitor(selected: usize, monitors: usize) -> (n: usize)
    requires
        monitors >= 1,
    ensures
        n == if selected + 1 < monitors { (selected + 1) as usize } else { (monitors - 1) as usize },
{
    let last = monitors - 1;
    if selected < last {
        selected + 1
    } else {
        last
    }
}

/// The state after a series of key presses, each with whether the log was
/// empty and whether a recording ran at that moment.
pub open spec fn after_keys(s: TuiState, keys: Seq<(Key, bool, bool)>, monitors: nat) -> TuiState
    decreases keys.len(),
{
    if keys.len() == 0 {
        s
    } else {
        after_keys(
            on_key_spec(s, keys[0].0, keys[0].1, keys[0].2, monitors).0,
            keys.drop_first(),
            monitors,
        )
    }
}

proof fn lemma_after_keys_in_range(s: TuiState, keys: Seq<(Key, bool, bool)>, monitors: nat)
    requires
        s.selected < monitors,
    ensures
        after_keys(s, keys, monitors).selected < monitors,
    decreases keys.len(),
{
    if keys.len() > 0 {
        lemma_selected_in_range(s, keys[0].0, keys[0].1, keys[0].2, monitors);
        lemma_after_keys_in_range(
            on_key_spec(s, keys[0].0, keys[0].1, keys[0].2, monitors).0,
            keys.drop_first(),
            monitors,
        );
    }
}

/// Over a whole run, from the starting state and whatever keys are pressed,
/// the chosen monitor is always one of the monitors.
pub proof fn lemma_selection_valid_for_whole_run(keys: Seq<(Key, bool, bool)>, monitors: nat)
    requires
        monitors >= 1,
    ensures
        after_keys(TuiState { selected: 0, show_log: false, log_scroll: 0 }, keys, monitors).selected
            < monitors,
{
    lemma_after_keys_in_range(TuiState { selected: 0, show_log: false, log_scroll: 0 }, keys, monitors);
}

/// The log window keys: `e` opens the window when the log holds a line and
/// closes it otherwise; Esc always closes it; while it is open, Up and Down
/// scroll the log and leave the monitor alone, and Space neither starts nor
/// stops a recording.
pub proof fn lemma_log_window_keys(s: TuiState, log_empty: bool, recording: bool, monitors: nat)
    ensures
        on_key_spec(s, Key::Char('e'), log_empty, recording, monitors) == (
            TuiState { show_log: !log_empty && !s.show_log, ..s },
            KeyCommand::Nothing,
        ),
        !on_key_spec(s, Key::Esc, log_empty, recording, monitors).0.show_log,
        s.show_log ==> on_key_spec(s, Key::Up, log_empty, recording, monitors) == (
            TuiState { log_scroll: if s.log_scroll > 0 { (s.log_scroll - 1) as usize } else { 0 }, ..s },
            KeyCommand::Nothing,
        ),
        s.show_log ==> on_key_spec(s, Key::Down, log_empty, recording, monitors) == (
            TuiState {
                log_scroll: if s.log_scroll < usize::MAX { (s.log_scroll + 1) as usize } else { usize::MAX },
                ..s
            },
            KeyCommand::Nothing,
        ),
        s.show_log ==> on_key_spec(s, Key::Char(' '), log_empty, recording, monitors) == (
            s,
            KeyCommand::Nothing,
        ),
{
}

/// `q` always quits and changes nothing, whatever the state: recording or
/// not, log window open or not, log empty or not. Space with the log window
/// closed stops a running recording and otherwise starts one, and changes
/// nothing else.
pub proof fn lemma_quit_and_space(s: TuiState, log_empty: bool, recording: bool, monitors: nat)
    ensures
        on_key_spec(s, Key::Char('q'), log_empty, recording, monitors) == (s, KeyCommand::Quit),
        !s.show_log && recording ==> on_key_spec(s, Key::Char(' '), log_empty, recording, monitors)
            == (s, KeyCommand::StopRecording),
        !s.show_log && !recording ==> on_key_spec(s, Key::Char(' '), log_empty, recording, monitors)
            == (s, KeyCommand::StartRecording),
{
}

/// A key press never moves the chosen monitor out of range.
pub proof fn lemma_selected_in_range(
    s: TuiState,
    key: Key,
    log_empty: bool,
    recording: bool,
    monitors: nat,
)
    requires
        s.selected < monitors,
    ensures
        on_key_spec(s, key, log_empty, recording, monitors).0.selected < monitors,
{
}

/// While recording, or while the log window is open, a key press never
/// changes the chosen monitor.
pub proof fn lemma_selection_frozen(
    s: TuiState,
    key: Key,
    log_empty: bool,
    recording: bool,
    monitors: nat,
)
    requires
        recording || s.show_log,
    ensures
        on_key_spec(s, key, log_empty, recording, monitors).0.selected == s.selected,
{
}

/// The log window never opens on an empty log.
pub proof fn lemma_log_window_needs_lines(
    s: TuiState,
    key: Key,
    recording: bool,
    monitors: nat,
)
    requires
        !s.show_log,
    ensures
        !on_key_spec(s, key, true, recording, monitors).0.show_log,
{
}

// ---------------------------------------------------------------------------
// Recording frames
// ---------------------------------------------------------------------------

/// What became of one frame while recording.
#[derive(Debug, Clone, Copy, PartialEq, Eq, Structural)]
pub enum FrameOutcome {
    /// The frame was captured and handed to `ffmpeg`.
    Written,
    /// The frame was captured but `ffmpeg` would not take it.
    WriteFailed,
    /// The monitor could not be captured.
    CaptureFailed,
}

/// The frame count after a frame, and whether the recording must stop: a
/// written frame is counted, a refused write stops the recording, a failed
/// capture is only reported.
pub open spec fn after_frame_spec(frames: u64, outcome: FrameOutcome) -> (u64, bool) {
    match outcome {
        FrameOutcome::Written => ((frames + 1) as u64, false),
        FrameOutcome::WriteFailed => (frames, true),
        FrameOutcome::CaptureFailed => (frames, false),
    }
}

/// Counts a frame and decides whether the recording goes on; the caller
/// waits for the next frame only when it does.
pub fn after_frame(frames: u64, outcome: FrameOutcome) -> (r: (u64, bool))
    requires
        outcome == FrameOutcome::Written ==> frames < u64::MAX,
    ensures
        r == after_frame_spec(frames, outcome),
{
    match outcome {
        FrameOutcome::Written => (frames + 1, false),
        FrameOutcome::WriteFailed => (frames, true),
        FrameOutcome::CaptureFailed => (frames, false),
    }
}

/// The message shown after a frame: none for a written frame, else the
/// kind of failure followed by the error's own text.
pub open spec fn frame_message_spec(outcome: FrameOutcome, detail: Seq<char>) -> Option<Seq<char>> {
    match outcome {
        FrameOutcome::Written => None,
        FrameOutcome::WriteFailed => Some("ffmpeg write error: "@ + detail),
        FrameOutcome::CaptureFailed => Some("capture error: "@ + detail),
    }
}

/// The message to show after a frame, given the error's text.
pub fn frame_message(outcome: FrameOutcome, detail: &str) -> (m: Option<String>)
    ensures
        match m {
            Some(t) => frame_message_spec(outcome, detail@) == Some(t@),
            None => frame_message_spec(outcome, detail@) is None,
        },
{
    match outcome {
        FrameOutcome::Written => None,
        FrameOutcome::WriteFailed => {
            let mut t = String::from_str("ffmpeg write error: ");
            t.append(detail);
            Some(t)
        },
        FrameOutcome::CaptureFailed => {
            let mut t = String::from_str("capture error: ");
            t.append(detail);
            Some(t)
        },
    }
}

/// A written frame adds exactly one to the count, shows nothing, and the
/// recording goes on; a refused write keeps the count, shows
/// `ffmpeg write error: ` and the error, and stops it; a failed capture keeps
/// the count, shows `capture error: ` and the error, and the recording goes
/// on.
pub proof fn lemma_frame_steps(frames: u64)
    ensures
        frames < u64::MAX ==> after_frame_spec(frames, FrameOutcome::Written) == (
            (frames + 1) as u64,
            false,
        ),
        after_frame_spec(frames, FrameOutcome::WriteFailed) == (frames, true),
        after_frame_spec(frames, FrameOutcome::CaptureFailed) == (frames, false),
        forall|d: Seq<char>| frame_message_spec(FrameOutcome::Written, d) is None,
        forall|d: Seq<char>|
            #[trigger] frame_message_spec(FrameOutcome::WriteFailed, d) == Some(
                "ffmpeg write error: "@ + d,
            ),
        forall|d: Seq<char>|
            #[trigger] frame_message_spec(FrameOutcome::CaptureFailed, d) == Some(
                "capture error: "@ + d,
            ),
{
}

// ---------------------------------------------------------------------------
// Panel texts
// ---------------------------------------------------------------------------

/// The labels of the controls bar.
pub open spec fn control_labels_spec(recording: bool, monitors: nat) -> Seq<Seq<char>> {
    if recording {
        seq!["[Space] Stop"@, "[q] Quit"@]
    } else if monitors > 1 {
        seq!["[Space] Start"@, "[\u{2190}/\u{2192}] Monitor"@, "[q] Quit"@]
    } else {
        seq!["[Space] Start"@, "[q] Quit"@]
    }
}

/// The labels of the controls bar, in order.
pub fn control_labels(recording: bool, monitors: usize) -> (labels: Vec<&'static str>)
    ensures
        labels@.map_values(|l: &str| l@) == control_labels_spec(recording, monitors as nat),
{
    let v: Vec<&'static str> = if recording {
        vec!["[Space] Stop", "[q] Quit"]
    } else if monitors > 1 {
        vec!["[Space] Start", "[\u{2190}/\u{2192}] Monitor", "[q] Quit"]
    } else {
        vec!["[Space] Start", "[q] Quit"]
    };
    assert(v@.map_values(|l: &str| l@) =~= control_labels_spec(recording, monitors as nat));
    v
}

/// The log badge of the controls bar: a warning sign when the log holds an
/// error, then `[e] log (` and the number of lines.
pub open spec fn log_badge_spec(max: LogLevel, count: nat) -> Seq<char> {
    (if max == LogLevel::Error {
        " \u{26a0}"@
    } else {
        " "@
    }) + "[e] log ("@ + decimal(count) + ")"@
}

/// The text of the log badge.
pub fn log_badge(max: LogLevel, count: usize) -> (badge: String)
    ensures
        badge@ == log_badge_spec(max, count as nat),
{
    let mut s = if max == LogLevel::Error {
        String::from_str(" \u{26a0}")
    } else {
        String::from_str(" ")
    };
    s.append("[e] log (");
    s.append(string_from_chars(&decimal_chars(count as u64)).as_str());
    s.append(")");
    s
}

/// A number shown with at least two digits.
pub open spec fn two_digits(n: nat) -> Seq<char> {
    if n < 10 {
        seq!['0'] + decimal(n)
    } else {
        decimal(n)
    }
}

fn push_two_digits(out: &mut Vec<char>, n: u64)
    ensures
        final(out)@ == old(out)@ + two_digits(n as nat),
{
    if n < 10 {
        out.push('0');
    }
    let mut d = decimal_chars(n);
    out.append(&mut d);
    assert(out@ =~= old(out)@ + two_digits(n as nat));
}

/// A duration in seconds as hours, minutes and seconds, `HH:MM:SS`.
pub open spec fn clock_spec(secs: nat) -> Seq<char> {
    two_digits(secs / 3600) + seq![':'] + two_digits(secs / 60 % 60) + seq![':'] + two_digits(
        secs % 60,
    )
}

/// Shows a recording's duration.
pub fn format_clock(secs: u64) -> (s: String)
    ensures
        s@ == clock_spec(secs as nat),
{
    let mut v: Vec<char> = Vec::new();
    push_two_digits(&mut v, secs / 3600);
    v.push(':');
    push_two_digits(&mut v, secs / 60 % 60);
    v.push(':');
    push_two_digits(&mut v, secs % 60);
    assert(v@ =~= clock_spec(secs as nat));
    string_from_chars(&v)
}

} // verus!
