//! The run log of a game: each line the game writes, read as a log entry where it has
//! the shape of one, and the launcher's own messages; the newest lines are kept.
use vstd::prelude::*;

use crate::file_item::PathObj;
use crate::text::{ascii_lower, copy_str, eq_ignore_ascii_case, spec_eq_ignore_ascii_case, spec_trim, trim_chars, string_of, chars_of};

verus! {

#[verifier::external_type_specification]
#[verifier::external_body]
pub struct ExRegex(regex::Regex);

/// The capture groups of the first match of the regular expression `pattern` in
/// `text` (group 0 first, a group that took no part as `None`), or `None` where the
/// expression does not match.
pub uninterp spec fn regex_captures(pattern: Seq<char>, text: Seq<char>) -> Option<Seq<Option<Seq<char>>>>;

/// Whether `regex::Regex::new` accepts `pattern`: it fails where the pattern is not a
/// valid expression or its compiled form is over the crate's default size limit.
pub uninterp spec fn regex_compiles(pattern: Seq<char>) -> bool;

/// The texts of a list of capture groups.
pub open spec fn caps_view(c: Option<Vec<Option<String>>>) -> Option<Seq<Option<Seq<char>>>> {
    match c {
        Some(v) => Some(
            v@.map_values(
                |g: Option<String>|
                    match g {
                        Some(s) => Some(s@),
                        None => None,
                    },
            ),
        ),
        None => None,
    }
}

/// A regular expression together with its text.
#[derive(Debug)]
pub struct CompiledPattern {
    pattern: String,
    re: regex::Regex,
}

impl CompiledPattern {
    /// The text the expression was compiled from.
    pub closed spec fn pattern(&self) -> Seq<char> {
        self.pattern@
    }

    /// Compiles a regular expression with `regex::Regex::new`; `None` exactly where that
    /// call fails (see `regex_compiles`). Nothing is stated of which texts compile.
    #[verifier::external_body]
    pub fn compile(pattern: &str) -> (r: Option<CompiledPattern>)
        ensures
            r is Some <==> regex_compiles(pattern@),
            r matches Some(p) ==> p.pattern() == pattern@,
    {
        match regex::Regex::new(pattern) {
            Ok(re) => Some(CompiledPattern { pattern: pattern.to_string(), re }),
            Err(_) => None,
        }
    }

    /// The capture groups of the first match in `text`, by `regex::Regex::captures`:
    /// what `regex_captures` names for this expression and text.
    #[verifier::external_body]
    pub fn captures(&self, text: &str) -> (r: Option<Vec<Option<String>>>)
        ensures
            caps_view(r) == regex_captures(self.pattern(), text@),
    {
        self.re.captures(text).map(
            |c| c.iter().map(|m| m.map(|m| m.as_str().to_string())).collect(),
        )
    }
}

/// A game log line: `[time] [thread/level]: [category] message`.
pub const LOG_PATTERN: &'static str = r"\[(.*?)\] \[(.*?)(?:\/(.*?))?\]:? \[(.*?)\](?: (.*))?";

/// An older game log line: `[time] [thread/level]:`.
pub const LOG_PATTERN_OLD: &'static str = r"\[(.*?)\] \[(.*?)(?:\/(.*?))?\]:?";

/// The level of a game log entry.
#[derive(Debug, Clone, Copy, PartialEq, Eq, Structural)]
pub enum LogLevel {
    NoLevel,
    Info,
    Warn,
    Error,
    Debug,
}

/// An entry of the game's log.
#[derive(Debug, Clone)]
pub struct GameLogObj {
    pub log: String,
    pub time: String,
    pub thread: String,
    pub level: LogLevel,
    pub category: String,
}

/// A message of the game log: a line of the game, or a message of the launcher.
#[derive(Debug)]
pub enum GameLog {
    /// A line of no known shape.
    Text(String),
    /// An entry of the game's log.
    GameLog(GameLogObj),
    /// A library on the class path.
    RuntimeLib(PathObj),
    /// The log is redirected.
    JavaRedirect,
    /// Java is looked up again at launch.
    JavaLocalRedirect,
    /// Time taken by the login.
    LoginTime(core::time::Duration),
    /// Time taken by the server pack check.
    ServerPackCheckTime(core::time::Duration),
    /// Time taken by the game file check.
    CheckGameFileTime(core::time::Duration),
    /// Time taken by the downloads.
    DownloadFileTime(core::time::Duration),
    /// The launch arguments.
    LaunchArgs(String),
    /// The Java that runs the game.
    JavaPath(PathObj),
    /// Time taken by the launch.
    LaunchTime(core::time::Duration),
    /// Time taken by the command run before the launch.
    CmdPreTime(core::time::Duration),
    /// Time taken by the command run after the launch.
    CmdPostTime(core::time::Duration),
}

/// The level a log entry names, ASCII case aside: `fatal` counts as an error, and
/// anything else as no level.
pub open spec fn spec_level(name: Seq<char>) -> LogLevel {
    if spec_eq_ignore_ascii_case(name, "info"@) {
        LogLevel::Info
    } else if spec_eq_ignore_ascii_case(name, "warn"@) {
        LogLevel::Warn
    } else if spec_eq_ignore_ascii_case(name, "error"@) {
        LogLevel::Error
    } else if spec_eq_ignore_ascii_case(name, "fatal"@) {
        LogLevel::Error
    } else if spec_eq_ignore_ascii_case(name, "debug"@) {
        LogLevel::Debug
    } else {
        LogLevel::NoLevel
    }
}

/// Each level word names the level of the same name, ASCII case aside: `info` Info,
/// `warn` Warn, `error` and `fatal` Error, `debug` Debug; any other word no level.
pub proof fn law_level_words(name: Seq<char>)
    ensures
        spec_eq_ignore_ascii_case(name, "info"@) ==> spec_level(name) == LogLevel::Info,
        spec_eq_ignore_ascii_case(name, "warn"@) ==> spec_level(name) == LogLevel::Warn,
        spec_eq_ignore_ascii_case(name, "error"@) ==> spec_level(name) == LogLevel::Error,
        spec_eq_ignore_ascii_case(name, "fatal"@) ==> spec_level(name) == LogLevel::Error,
        spec_eq_ignore_ascii_case(name, "debug"@) ==> spec_level(name) == LogLevel::Debug,
        !spec_eq_ignore_ascii_case(name, "info"@) && !spec_eq_ignore_ascii_case(name, "warn"@)
            && !spec_eq_ignore_ascii_case(name, "error"@) && !spec_eq_ignore_ascii_case(name, "fatal"@)
            && !spec_eq_ignore_ascii_case(name, "debug"@) ==> spec_level(name) == LogLevel::NoLevel,
{
    reveal_strlit("info");
    reveal_strlit("warn");
    reveal_strlit("error");
    reveal_strlit("fatal");
    reveal_strlit("debug");
    if name.len() > 0 {
        assert(ascii_lower(name[0]) == ascii_lower(name[0]));
        if spec_eq_ignore_ascii_case(name, "info"@) {
            assert(ascii_lower(name[0]) == ascii_lower('i'));
        }
        if spec_eq_ignore_ascii_case(name, "warn"@) {
            assert(ascii_lower(name[0]) == ascii_lower('w'));
        }
        if spec_eq_ignore_ascii_case(name, "error"@) {
            assert(ascii_lower(name[0]) == ascii_lower('e'));
        }
        if spec_eq_ignore_ascii_case(name, "fatal"@) {
            assert(ascii_lower(name[0]) == ascii_lower('f'));
        }
        if spec_eq_ignore_ascii_case(name, "debug"@) {
            assert(ascii_lower(name[0]) == ascii_lower('d'));
        }
    }
}

/// The level a log entry names (see `spec_level`).
pub fn get_level(level: &str) -> (r: LogLevel)
    ensures
        r == spec_level(level@),
{
    if eq_ignore_ascii_case(level, "info") {
        LogLevel::Info
    } else if eq_ignore_ascii_case(level, "warn") {
        LogLevel::Warn
    } else if eq_ignore_ascii_case(level, "error") {
        LogLevel::Error
    } else if eq_ignore_ascii_case(level, "fatal") {
        LogLevel::Error
    } else if eq_ignore_ascii_case(level, "debug") {
        LogLevel::Debug
    } else {
        LogLevel::NoLevel
    }
}

/// The captures are a match of the current pattern (six groups).
pub open spec fn is_match_of(caps: Option<Seq<Option<Seq<char>>>>, n: int) -> bool {
    caps matches Some(c) && c.len() == n
}

/// Group `i` of a match, which took part in it.
pub open spec fn group(caps: Option<Seq<Option<Seq<char>>>>, i: int) -> Seq<char> {
    caps.unwrap()[i].unwrap()
}

/// Groups `1..=last` of a match took part in it.
pub open spec fn groups_present(caps: Option<Seq<Option<Seq<char>>>>, last: int) -> bool {
    forall|i: int| 1 <= i <= last ==> (#[trigger] caps.unwrap()[i]) is Some
}

/// The groups a log line is read from are present: those of the current shape where it
/// matches it, else those of the older shape where it matches that.
pub open spec fn log_groups_present(
    caps: Option<Seq<Option<Seq<char>>>>,
    caps_old: Option<Seq<Option<Seq<char>>>>,
) -> bool {
    if is_match_of(caps, 6) {
        groups_present(caps, 4)
    } else if is_match_of(caps_old, 4) {
        groups_present(caps_old, 3)
    } else {
        true
    }
}

/// A game line read as a log message: an entry of the current shape (time, thread,
/// level, category), else one of the older shape (no category), else plain text. The
/// entry keeps the whole line.
pub open spec fn is_log_of(
    r: GameLog,
    log: Seq<char>,
    caps: Option<Seq<Option<Seq<char>>>>,
    caps_old: Option<Seq<Option<Seq<char>>>>,
) -> bool {
    if is_match_of(caps, 6) {
        r matches GameLog::GameLog(o) && o.log@ == log && o.time@ == group(caps, 1) && o.thread@
            == group(caps, 2) && o.level == spec_level(group(caps, 3)) && o.category@ == group(
            caps,
            4,
        )
    } else if is_match_of(caps_old, 4) {
        r matches GameLog::GameLog(o) && o.log@ == log && o.time@ == group(caps_old, 1)
            && o.thread@ == group(caps_old, 2) && o.level == spec_level(group(caps_old, 3))
            && o.category@ == Seq::<char>::empty()
    } else {
        r matches GameLog::Text(t) && t@ == log
    }
}

/// Both shapes of a game log line read an entry the same way: its time is the first
/// group of the match, its thread the second, its level the level the third names. So
/// two lines, one of each shape, whose first three groups agree give entries with the
/// same time, thread and level; only the category (the fourth group of the current
/// shape) differs.
pub proof fn law_log_shapes_agree(
    r_new: GameLog,
    r_old: GameLog,
    log: Seq<char>,
    caps: Option<Seq<Option<Seq<char>>>>,
    caps_old: Option<Seq<Option<Seq<char>>>>,
)
    requires
        is_match_of(caps, 6),
        is_log_of(r_new, log, caps, None),
        is_match_of(caps_old, 4),
        is_log_of(r_old, log, None, caps_old),
    ensures
        r_new matches GameLog::GameLog(o) && o.time@ == group(caps, 1) && o.thread@ == group(caps, 2)
            && o.level == spec_level(group(caps, 3)),
        r_old matches GameLog::GameLog(o) && o.time@ == group(caps_old, 1) && o.thread@ == group(
            caps_old,
            2,
        ) && o.level == spec_level(group(caps_old, 3)) && o.category@.len() == 0,
        group(caps, 1) == group(caps_old, 1) && group(caps, 2) == group(caps_old, 2) && group(caps, 3)
            == group(caps_old, 3) ==> (r_new matches GameLog::GameLog(a) && r_old matches GameLog::GameLog(b)
            && a.time@ == b.time@ && a.thread@ == b.thread@ && a.level == b.level),
{
    if let GameLog::GameLog(a) = r_new {
        if let GameLog::GameLog(b) = r_old {
            if group(caps, 1) == group(caps_old, 1) && group(caps, 2) == group(caps_old, 2) {
                assert(a.time@ == b.time@);
                assert(a.thread@ == b.thread@);
            }
        }
    }
}

/// Group `i` of a match.
fn group_text(caps: &Vec<Option<String>>, i: usize) -> (r: String)
    requires
        i < caps@.len(),
        caps@[i as int] is Some,
    ensures
        r@ == caps@[i as int].unwrap()@,
{
    match &caps[i] {
        Some(s) => copy_str(s.as_str()),
        None => String::new(),
    }
}

/// A game line read as a log message from the matches of the two shapes (see
/// `is_log_of`); `caps_old` is looked at only where `caps` is not a match of the
/// current shape.
pub fn game_log_of(
    log: &str,
    caps: &Option<Vec<Option<String>>>,
    caps_old: &Option<Vec<Option<String>>>,
) -> (r: GameLog)
    requires
        log_groups_present(caps_view(*caps), caps_view(*caps_old)),
    ensures
        is_log_of(r, log@, caps_view(*caps), caps_view(*caps_old)),
{
    if let Some(c) = caps {
        if c.len() == 6 {
            assert(c@[1].is_some() && c@[2].is_some() && c@[3].is_some() && c@[4].is_some()) by {
                assert(caps_view(*caps).unwrap()[1] is Some);
                assert(caps_view(*caps).unwrap()[2] is Some);
                assert(caps_view(*caps).unwrap()[3] is Some);
                assert(caps_view(*caps).unwrap()[4] is Some);
            }
            let level = group_text(c, 3);
            return GameLog::GameLog(
                GameLogObj {
                    level: get_level(level.as_str()),
                    log: copy_str(log),
                    thread: group_text(c, 2),
                    category: group_text(c, 4),
                    time: group_text(c, 1),
                },
            );
        }
    }
    if let Some(c) = caps_old {
        if c.len() == 4 {
            assert(c@[1].is_some() && c@[2].is_some() && c@[3].is_some()) by {
                assert(caps_view(*caps_old).unwrap()[1] is Some);
                assert(caps_view(*caps_old).unwrap()[2] is Some);
                assert(caps_view(*caps_old).unwrap()[3] is Some);
            }
            let level = group_text(c, 3);
            return GameLog::GameLog(
                GameLogObj {
                    level: get_level(level.as_str()),
                    log: copy_str(log),
                    thread: group_text(c, 2),
                    category: String::new(),
                    time: group_text(c, 1),
                },
            );
        }
    }
    GameLog::Text(copy_str(log))
}

/// The two shapes of game log lines, compiled.
#[derive(Debug)]
pub struct LogPatterns {
    pub current: CompiledPattern,
    pub old: CompiledPattern,
}

impl LogPatterns {
    /// The patterns are those of the two shapes of game log lines.
    pub open spec fn wf(&self) -> bool {
        &&& self.current.pattern() == LOG_PATTERN@
        &&& self.old.pattern() == LOG_PATTERN_OLD@
    }

    /// Compiles the two shapes; `None` exactly where one of them does not compile.
    pub fn new() -> (r: Option<LogPatterns>)
        ensures
            r is Some <==> (regex_compiles(LOG_PATTERN@) && regex_compiles(LOG_PATTERN_OLD@)),
            r matches Some(p) ==> p.wf(),
    {
        let current = match CompiledPattern::compile(LOG_PATTERN) {
            Some(p) => p,
            None => {
                return None;
            },
        };
        let old = match CompiledPattern::compile(LOG_PATTERN_OLD) {
            Some(p) => p,
            None => {
                return None;
            },
        };
        Some(LogPatterns { current, old })
    }
}

/// An entry of the run log: when it was added (milliseconds since the epoch, and the
/// offset of the local time in seconds) and the message.
#[derive(Debug)]
pub struct GameLogItemObj {
    pub time_millis: i64,
    pub offset_secs: i32,
    pub log: GameLog,
}

/// The most entries the run log holds before it drops its oldest.
pub const MAX_LOGS: usize = 10000;

/// The run log of a game, and the file it was read from, if any.
#[derive(Debug)]
pub struct GameRuntimeLog {
    pub logs: std::collections::VecDeque<GameLogItemObj>,
    pub file: Option<PathObj>,
}

/// The entries after one is added: the oldest is dropped first where the log holds
/// more than `MAX_LOGS`.
pub open spec fn spec_add_entry(logs: Seq<GameLogItemObj>, item: GameLogItemObj) -> Seq<GameLogItemObj> {
    if logs.len() > MAX_LOGS {
        logs.drop_first().push(item)
    } else {
        logs.push(item)
    }
}

impl GameRuntimeLog {
    /// An empty log.
    pub fn new() -> (r: Self)
        ensures
            r.logs@ == Seq::<GameLogItemObj>::empty(),
            r.file is None,
    {
        GameRuntimeLog { logs: std::collections::VecDeque::new(), file: None }
    }

    /// Drops every entry.
    pub fn clear(&mut self)
        ensures
            final(self).logs@ == Seq::<GameLogItemObj>::empty(),
            final(self).file == old(self).file,
    {
        self.logs.clear();
    }

    /// Adds a message at the given time (see `spec_add_entry`).
    pub fn add_log_item(&mut self, log: GameLog, time_millis: i64, offset_secs: i32)
        ensures
            final(self).logs@ == spec_add_entry(
                old(self).logs@,
                GameLogItemObj { time_millis, offset_secs, log },
            ),
            final(self).file == old(self).file,
    {
        if self.logs.len() > MAX_LOGS {
            self.logs.pop_front();
            assert(self.logs@ =~= old(self).logs@.drop_first());
        }
        self.logs.push_back(GameLogItemObj { time_millis, offset_secs, log });
    }

    /// Adds a line of the game at the given time, read as a log message (see
    /// `is_log_of`) from the first match of each shape in the trimmed line, where the
    /// groups it is read from took part in the match.
    pub fn add_game_log(
        &mut self,
        patterns: &LogPatterns,
        log: &str,
        time_millis: i64,
        offset_secs: i32,
    )
        requires
            patterns.wf(),
            log_groups_present(
                regex_captures(LOG_PATTERN@, spec_trim(log@)),
                regex_captures(LOG_PATTERN_OLD@, spec_trim(log@)),
            ),
        ensures
            final(self).file == old(self).file,
            final(self).logs@ == spec_add_entry(old(self).logs@, final(self).logs@.last()),
            final(self).logs@.last().time_millis == time_millis,
            final(self).logs@.last().offset_secs == offset_secs,
            is_log_of(
                final(self).logs@.last().log,
                log@,
                regex_captures(LOG_PATTERN@, spec_trim(log@)),
                regex_captures(LOG_PATTERN_OLD@, spec_trim(log@)),
            ),
    {
        let all = chars_of(log);
        let trimmed_chars = trim_chars(all.as_slice());
        let trimmed = string_of(trimmed_chars.as_slice());
        let caps = patterns.current.captures(trimmed.as_str());
        let matched = match &caps {
            Some(c) => c.len() == 6,
            None => false,
        };
        let caps_old = if matched {
            None
        } else {
            patterns.old.captures(trimmed.as_str())
        };
        let entry = game_log_of(log, &caps, &caps_old);
        self.add_log_item(entry, time_millis, offset_secs);
    }

    /// Adds a line of the game as `add_game_log` does, where the groups it is read from
    /// took part in the match; false, with nothing added, where one did not.
    pub fn try_add_game_log(
        &mut self,
        patterns: &LogPatterns,
        log: &str,
        time_millis: i64,
        offset_secs: i32,
    ) -> (r: bool)
        requires
            patterns.wf(),
        ensures
            r == log_groups_present(
                regex_captures(LOG_PATTERN@, spec_trim(log@)),
                regex_captures(LOG_PATTERN_OLD@, spec_trim(log@)),
            ),
            !r ==> final(self).logs@ == old(self).logs@,
            r ==> final(self).logs@ == spec_add_entry(old(self).logs@, final(self).logs@.last()),
            r ==> final(self).logs@.last().time_millis == time_millis,
            r ==> final(self).logs@.last().offset_secs == offset_secs,
            r ==> is_log_of(
                final(self).logs@.last().log,
                log@,
                regex_captures(LOG_PATTERN@, spec_trim(log@)),
                regex_captures(LOG_PATTERN_OLD@, spec_trim(log@)),
            ),
            final(self).file == old(self).file,
    {
        let all = chars_of(log);
        let trimmed_chars = trim_chars(all.as_slice());
        let trimmed = string_of(trimmed_chars.as_slice());
        let caps = patterns.current.captures(trimmed.as_str());
        let ok = match &caps {
            Some(c) => {
                if c.len() == 6 {
                    present_upto(c, 4)
                } else {
                    let caps_old = patterns.old.captures(trimmed.as_str());
                    match &caps_old {
                        Some(o) => if o.len() == 4 {
                            present_upto(o, 3)
                        } else {
                            true
                        },
                        None => true,
                    }
                }
            },
            None => {
                let caps_old = patterns.old.captures(trimmed.as_str());
                match &caps_old {
                    Some(o) => if o.len() == 4 {
                        present_upto(o, 3)
                    } else {
                        true
                    },
                    None => true,
                }
            },
        };
        if ok {
            self.add_game_log(patterns, log, time_millis, offset_secs);
        }
        ok
    }
}

/// Whether groups `1..=last` took part in a match.
fn present_upto(caps: &Vec<Option<String>>, last: usize) -> (r: bool)
    requires
        last < caps@.len(),
    ensures
        r == groups_present(caps_view(Some(*caps)), last as int),
{
    let ghost v = caps_view(Some(*caps)).unwrap();
    let mut j: usize = 0;
    while j < last
        invariant
            j <= last,
            last < caps@.len(),
            v == caps_view(Some(*caps)).unwrap(),
            forall|i: int| 1 <= i <= j ==> (#[trigger] v[i]) is Some,
        decreases last - j,
    {
        if caps[j + 1].is_none() {
            assert(v[j + 1] is None);
            return false;
        }
        assert(v[j + 1] is Some);
        j = j + 1;
    }
    true
}

/// The run log never holds more than one entry over `MAX_LOGS`: adding to a log within
/// that bound keeps it within it.
pub proof fn law_log_bounded(logs: Seq<GameLogItemObj>, item: GameLogItemObj)
    requires
        logs.len() <= MAX_LOGS + 1,
    ensures
        spec_add_entry(logs, item).len() <= MAX_LOGS + 1,
        spec_add_entry(logs, item).last() == item,
{
}

} // verus!
