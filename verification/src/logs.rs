//! Turning recorded log entries into the text the log command shows:
//! filtering by severity and target, colouring, and fitting the tail end
//! into one message.  Reading and decoding the log file is the caller's
//! work; it hands the entries in as plain values.

use vstd::prelude::*;

use crate::metadata::contains_seq;
use crate::strings::{str_eq, utf8_len};

verus! {

/// What the standard library's uppercasing returns for the text: it depends
/// on the characters alone.
pub uninterp spec fn upper_of(s: Seq<char>) -> Seq<char>;

/// Relies on str::to_uppercase: the result depends on the characters alone,
/// with no locale involved.
#[verifier::external_body]
fn to_uppercase(s: &str) -> (r: String)
    ensures
        r@ == upper_of(s@),
{
    s.to_uppercase()
}

/// Relies on ansi_term::Style::paint and its display: a bold red foreground
/// writes the prefix `ESC[1;31m` and the reset suffix `ESC[0m` around the
/// text.
#[verifier::external_body]
fn paint_red_bold(s: String) -> (r: String)
    ensures
        r@ == "\u{1b}[1;31m"@ + s@ + "\u{1b}[0m"@,
{
    ansi_term::Colour::Red.bold().paint(s).to_string()
}

/// Relies on ansi_term::Style::paint and its display: a bold yellow
/// foreground writes the prefix `ESC[1;33m` and the reset suffix `ESC[0m`
/// around the text.
#[verifier::external_body]
fn paint_yellow_bold(s: String) -> (r: String)
    ensures
        r@ == "\u{1b}[1;33m"@ + s@ + "\u{1b}[0m"@,
{
    ansi_term::Colour::Yellow.bold().paint(s).to_string()
}

/// Relies on ansi_term::Style::paint and its display: a bold cyan
/// foreground writes the prefix `ESC[1;36m` and the reset suffix `ESC[0m`
/// around the text.
#[verifier::external_body]
fn paint_cyan_bold(s: String) -> (r: String)
    ensures
        r@ == "\u{1b}[1;36m"@ + s@ + "\u{1b}[0m"@,
{
    ansi_term::Colour::Cyan.bold().paint(s).to_string()
}

/// Relies on ansi_term::Colour::paint and its display: a plain white
/// foreground writes the prefix `ESC[37m` and the reset suffix `ESC[0m`
/// around the text.
#[verifier::external_body]
fn paint_white(s: String) -> (r: String)
    ensures
        r@ == "\u{1b}[37m"@ + s@ + "\u{1b}[0m"@,
{
    ansi_term::Colour::White.paint(s).to_string()
}

/// One recorded log entry, as read back from the log sink.
pub struct Log {
    pub timestamp: String,
    pub level: String,
    pub target: String,
    pub message: String,
}

/// Mathematical value of a [`Log`].
#[verifier::ext_equal]
pub struct LogView {
    pub timestamp: Seq<char>,
    pub level: Seq<char>,
    pub target: Seq<char>,
    pub message: Seq<char>,
}

impl View for Log {
    type V = LogView;

    open spec fn view(&self) -> LogView {
        LogView {
            timestamp: self.timestamp@,
            level: self.level@,
            target: self.target@,
            message: self.message@,
        }
    }
}

/// Whether an entry of this severity passes the severity selector: the
/// error level shows errors alone, the warning level also warnings, and
/// everything else — the info level, an empty selector, or an unknown word
/// — shows all entries.
pub open spec fn level_keeps(selector: Seq<char>, level: Seq<char>) -> bool {
    if upper_of(selector) == "ERROR"@ {
        level == "ERROR"@
    } else if upper_of(selector) == "WARN"@ {
        level == "ERROR"@ || level == "WARN"@
    } else {
        true
    }
}

/// Whether the severity selector is a word the filter does not know.
pub open spec fn level_unknown(selector: Seq<char>) -> bool {
    upper_of(selector) != "ERROR"@ && upper_of(selector) != "WARN"@ && upper_of(selector)
        != "INFO"@ && upper_of(selector) != ""@
}

/// The entries whose severity passes the selector, in order.
pub open spec fn level_filtered(logs: Seq<LogView>, selector: Seq<char>) -> Seq<LogView>
    decreases logs.len(),
{
    if logs.len() == 0 {
        Seq::<LogView>::empty()
    } else {
        level_filtered(logs.drop_last(), selector) + (if level_keeps(selector, logs.last().level) {
            seq![logs.last()]
        } else {
            Seq::<LogView>::empty()
        })
    }
}

/// The entries whose target holds the given text, in order.
pub open spec fn target_filtered(logs: Seq<LogView>, target: Seq<char>) -> Seq<LogView>
    decreases logs.len(),
{
    if logs.len() == 0 {
        Seq::<LogView>::empty()
    } else {
        target_filtered(logs.drop_last(), target) + (if contains_seq(logs.last().target, target) {
            seq![logs.last()]
        } else {
            Seq::<LogView>::empty()
        })
    }
}

/// Keeps the entries whose severity passes the selector; the flag reports
/// an unknown selector word.
pub fn filter_logs_level(logs: Vec<Log>, level: &String) -> (r: (Vec<Log>, bool))
    ensures
        r.0@.map_values(|l: Log| l@) == level_filtered(
            logs@.map_values(|l: Log| l@),
            level@,
        ),
        r.1 == level_unknown(level@),
{
    let up = to_uppercase(level.as_str());
    let is_error: bool = str_eq(up.as_str(), "ERROR");
    let is_warn: bool = str_eq(up.as_str(), "WARN");
    let is_info: bool = str_eq(up.as_str(), "INFO");
    let is_empty: bool = str_eq(up.as_str(), "");
    let unknown = !is_error && !is_warn && !is_info && !is_empty;
    let ghost lviews = logs@.map_values(|l: Log| l@);
    let mut out: Vec<Log> = Vec::new();
    let mut i: usize = 0;
    while i < logs.len()
        invariant
            lviews == logs@.map_values(|l: Log| l@),
            i <= logs.len(),
            logs@.len() == lviews.len(),
            is_error == (upper_of(level@) == "ERROR"@),
            is_warn == (upper_of(level@) == "WARN"@),
            out@.map_values(|l: Log| l@) =~= level_filtered(lviews.take(i as int), level@),
        decreases logs.len() - i,
    {
        let keep: bool = if is_error {
            str_eq(logs[i].level.as_str(), "ERROR")
        } else if is_warn {
            str_eq(logs[i].level.as_str(), "ERROR") || str_eq(logs[i].level.as_str(), "WARN")
        } else {
            true
        };
        proof {
            assert(lviews[i as int] == logs@[i as int]@);
            assert(keep == level_keeps(level@, lviews[i as int].level));
        }
        if keep {
            let entry = Log {
                timestamp: logs[i].timestamp.clone(),
                level: logs[i].level.clone(),
                target: logs[i].target.clone(),
                message: logs[i].message.clone(),
            };
            proof {
                assert(entry@ =~= lviews[i as int]);
            }
            out.push(entry);
        }
        i = i + 1;
        proof {
            assert(lviews.take(i as int).drop_last() =~= lviews.take(i - 1));
            assert(lviews.take(i as int).last() == lviews[i - 1]);
            assert(out@.map_values(|l: Log| l@) =~= level_filtered(
                lviews.take(i as int),
                level@,
            ));
        }
    }
    proof {
        assert(lviews.take(lviews.len() as int) =~= lviews);
    }
    (out, unknown)
}

/// Keeps the entries whose target holds the given text.
pub fn filter_logs_target(logs: Vec<Log>, target: &String) -> (r: Vec<Log>)
    ensures
        r@.map_values(|l: Log| l@) == target_filtered(logs@.map_values(|l: Log| l@), target@),
{
    let ghost lviews = logs@.map_values(|l: Log| l@);
    let mut out: Vec<Log> = Vec::new();
    let mut i: usize = 0;
    while i < logs.len()
        invariant
            lviews == logs@.map_values(|l: Log| l@),
            i <= logs.len(),
            logs@.len() == lviews.len(),
            out@.map_values(|l: Log| l@) =~= target_filtered(lviews.take(i as int), target@),
        decreases logs.len() - i,
    {
        let keep = crate::metadata::contains_str(logs[i].target.as_str(), target.as_str());
        proof {
            assert(lviews[i as int] == logs@[i as int]@);
        }
        if keep {
            let entry = Log {
                timestamp: logs[i].timestamp.clone(),
                level: logs[i].level.clone(),
                target: logs[i].target.clone(),
                message: logs[i].message.clone(),
            };
            proof {
                assert(entry@ =~= lviews[i as int]);
            }
            out.push(entry);
        }
        i = i + 1;
        proof {
            assert(lviews.take(i as int).drop_last() =~= lviews.take(i - 1));
            assert(lviews.take(i as int).last() == lviews[i - 1]);
            assert(out@.map_values(|l: Log| l@) =~= target_filtered(
                lviews.take(i as int),
                target@,
            ));
        }
    }
    proof {
        assert(lviews.take(lviews.len() as int) =~= lviews);
    }
    out
}

/// One entry as shown: timestamp, the severity coloured by its kind, and
/// the message in white.
pub open spec fn formatted_log_view(l: LogView) -> Seq<char> {
    let level_str = if l.level == "ERROR"@ {
        "\u{1b}[1;31m"@ + l.level + "\u{1b}[0m"@
    } else if l.level == "WARN"@ {
        "\u{1b}[1;33m"@ + l.level + "\u{1b}[0m"@
    } else if l.level == "INFO"@ {
        "\u{1b}[1;36m"@ + l.level + "\u{1b}[0m"@
    } else {
        l.level
    };
    l.timestamp + seq![' '] + level_str + seq![' '] + ("\u{1b}[37m"@ + l.message + "\u{1b}[0m"@)
}

/// Renders one entry with its colours.
pub fn format_log(log: Log) -> (r: String)
    ensures
        r@ == formatted_log_view(log@),
{
    let ghost lv = log@;
    let level_str: String = if str_eq(log.level.as_str(), "ERROR") {
        paint_red_bold(log.level)
    } else if str_eq(log.level.as_str(), "WARN") {
        paint_yellow_bold(log.level)
    } else if str_eq(log.level.as_str(), "INFO") {
        paint_cyan_bold(log.level)
    } else {
        log.level
    };
    let message = paint_white(log.message);
    let mut r = log.timestamp;
    r.append(" ");
    r.append(level_str.as_str());
    r.append(" ");
    r.append(message.as_str());
    proof {
        reveal_strlit(" ");
        assert(r@ =~= formatted_log_view(lv));
    }
    r
}

/// How many lines a scan from the front covers before the running byte
/// count reaches the message budget; the line that crosses it is included.
pub open spec fn counted_lines(msgs: Seq<Seq<char>>, i: int, chars: int) -> int
    decreases msgs.len() - i,
{
    if i < 0 || i >= msgs.len() || chars >= 1950 {
        i
    } else {
        counted_lines(msgs, i + 1, chars + utf8_len(msgs[i]))
    }
}

/// The lines joined with a newline between each two.
pub open spec fn joined_lines(msgs: Seq<Seq<char>>) -> Seq<char>
    decreases msgs.len(),
{
    if msgs.len() == 0 {
        Seq::<char>::empty()
    } else if msgs.len() == 1 {
        msgs[0]
    } else {
        joined_lines(msgs.drop_last()) + seq!['\n'] + msgs.last()
    }
}

/// The tail window the log command shows: the whole text is measured
/// against the byte budget, and the display starts `start` lines past the
/// lines that did not fit, plus one.
pub open spec fn windowed_view(msgs: Seq<Seq<char>>, start: int) -> Seq<char> {
    let count = counted_lines(msgs, 0, 0);
    let from = msgs.len() - count + 1;
    let lo = if start + from > msgs.len() {
        msgs.len() as int
    } else {
        start + from
    };
    joined_lines(msgs.subrange(lo, msgs.len() as int))
}

/// Cuts the rendered lines to the window the log command shows and joins
/// them.
pub fn window_logs(msgs: &Vec<String>, start: usize) -> (r: String)
    requires
        msgs@.len() < usize::MAX,
        start + msgs@.len() + 1 <= usize::MAX,
        forall|i: int| 0 <= i < msgs@.len() ==> utf8_len((#[trigger] msgs@[i])@) <= usize::MAX
            - 1950,
    ensures
        r@ == windowed_view(msgs@.map_values(|m: String| m@), start as int),
{
    let ghost mviews = msgs@.map_values(|m: String| m@);
    let n = msgs.len();
    let mut char_count: usize = 0;
    let mut line_count: usize = 0;
    while line_count < n && char_count < 1950
        invariant
            mviews == msgs@.map_values(|m: String| m@),
            n == msgs@.len(),
            n < usize::MAX,
            line_count <= n,
            forall|i: int| 0 <= i < msgs@.len() ==> utf8_len((#[trigger] msgs@[i])@) <= usize::MAX
                - 1950,
            counted_lines(mviews, 0, 0) == counted_lines(mviews, line_count as int, char_count as int),
        decreases n - line_count,
    {
        let len_i = msgs[line_count].as_str().as_bytes().len();
        proof {
            assert(mviews[line_count as int] == msgs@[line_count as int]@);
            assert(len_i == utf8_len(mviews[line_count as int]));
        }
        char_count = char_count + len_i;
        line_count = line_count + 1;
    }
    proof {
        assert(counted_lines(mviews, line_count as int, char_count as int) == line_count);
    }
    let from: usize = n - line_count + 1;
    let lo: usize = if start + from > n {
        n
    } else {
        start + from
    };
    let mut out = String::new();
    let mut k: usize = lo;
    while k < n
        invariant
            mviews == msgs@.map_values(|m: String| m@),
            n == msgs@.len(),
            lo <= k <= n,
            out@ == joined_lines(mviews.subrange(lo as int, k as int)),
        decreases n - k,
    {
        if k > lo {
            out.append("\n");
        }
        out.append(msgs[k].as_str());
        k = k + 1;
        proof {
            reveal_strlit("\n");
            assert(mviews[k - 1] == msgs@[k - 1]@);
            assert(mviews.subrange(lo as int, k as int).drop_last() =~= mviews.subrange(
                lo as int,
                k - 1,
            ));
            assert(mviews.subrange(lo as int, k as int).last() == mviews[k - 1]);
            assert(out@ =~= joined_lines(mviews.subrange(lo as int, k as int)));
        }
    }
    out
}

/// The two texts the log command sends for given entries: the coloured,
/// filtered, windowed body — or a placeholder when the window is empty —
/// and a warning line for an unknown severity selector.
pub open spec fn rendered_logs_view(
    logs: Seq<LogView>,
    level: Seq<char>,
    target: Seq<char>,
    start: int,
) -> (Seq<char>, Seq<char>) {
    let kept = target_filtered(level_filtered(logs, level), target);
    let msgs = kept.map_values(|l: LogView| formatted_log_view(l));
    let joined = windowed_view(msgs, start);
    let body = if joined.len() > 0 {
        "```ansi\n"@ + joined + "\n```"@
    } else {
        "`No logs found`"@
    };
    let warn = if level_unknown(level) {
        "[WARNING] Unknown level '"@ + level + "'. Available targets: ERROR, WARN, INFO.\n"@
    } else {
        Seq::<char>::empty()
    };
    (body, warn)
}

proof fn lemma_level_filtered_members(logs: Seq<LogView>, selector: Seq<char>)
    ensures
        level_filtered(logs, selector).len() <= logs.len(),
        forall|j: int|
            0 <= j < level_filtered(logs, selector).len() ==> exists|i: int|
                0 <= i < logs.len() && #[trigger] level_filtered(logs, selector)[j] == logs[i],
    decreases logs.len(),
{
    if logs.len() > 0 {
        lemma_level_filtered_members(logs.drop_last(), selector);
        assert forall|j: int|
            0 <= j < level_filtered(logs, selector).len() implies exists|i: int|
            0 <= i < logs.len() && #[trigger] level_filtered(logs, selector)[j] == logs[i] by {
            let prev = level_filtered(logs.drop_last(), selector);
            if j < prev.len() {
                let i = choose|i: int|
                    0 <= i < logs.drop_last().len() && #[trigger] prev[j] == logs.drop_last()[i];
                assert(level_filtered(logs, selector)[j] == logs[i]);
            } else {
                assert(level_filtered(logs, selector)[j] == logs[logs.len() - 1]);
            }
        };
    }
}

proof fn lemma_target_filtered_members(logs: Seq<LogView>, target: Seq<char>)
    ensures
        target_filtered(logs, target).len() <= logs.len(),
        forall|j: int|
            0 <= j < target_filtered(logs, target).len() ==> exists|i: int|
                0 <= i < logs.len() && #[trigger] target_filtered(logs, target)[j] == logs[i],
    decreases logs.len(),
{
    if logs.len() > 0 {
        lemma_target_filtered_members(logs.drop_last(), target);
        assert forall|j: int|
            0 <= j < target_filtered(logs, target).len() implies exists|i: int|
            0 <= i < logs.len() && #[trigger] target_filtered(logs, target)[j] == logs[i] by {
            let prev = target_filtered(logs.drop_last(), target);
            if j < prev.len() {
                let i = choose|i: int|
                    0 <= i < logs.drop_last().len() && #[trigger] prev[j] == logs.drop_last()[i];
                assert(target_filtered(logs, target)[j] == logs[i]);
            } else {
                assert(target_filtered(logs, target)[j] == logs[logs.len() - 1]);
            }
        };
    }
}

/// Filters, colours and windows the recorded entries into the body the log
/// command sends, with the warning for an unknown severity selector beside
/// it.
pub fn render_logs(logs: Vec<Log>, level: &String, target: &String, start: usize) -> (r: (
    String,
    String,
))
    requires
        logs@.len() < usize::MAX,
        start + logs@.len() + 1 <= usize::MAX,
        forall|i: int| 0 <= i < logs@.len() ==> utf8_len(
            formatted_log_view((#[trigger] logs@[i])@),
        ) <= usize::MAX - 1950,
    ensures
        r.0@ == rendered_logs_view(logs@.map_values(|l: Log| l@), level@, target@, start as int).0,
        r.1@ == rendered_logs_view(logs@.map_values(|l: Log| l@), level@, target@, start as int).1,
{
    let ghost lviews = logs@.map_values(|l: Log| l@);
    let ghost kept = target_filtered(level_filtered(lviews, level@), target@);
    proof {
        lemma_level_filtered_members(lviews, level@);
        lemma_target_filtered_members(level_filtered(lviews, level@), target@);
    }
    let (by_level, unknown) = filter_logs_level(logs, level);
    let by_target = filter_logs_target(by_level, target);
    proof {
        assert(by_target@.map_values(|l: Log| l@) == kept);
        assert(kept.len() <= lviews.len());
        assert forall|j: int| 0 <= j < kept.len() implies utf8_len(
            formatted_log_view(#[trigger] kept[j]),
        ) <= usize::MAX - 1950 by {
            let mid = level_filtered(lviews, level@);
            let i = choose|i: int| 0 <= i < mid.len() && #[trigger] kept[j] == mid[i];
            let i2 = choose|i2: int| 0 <= i2 < lviews.len() && #[trigger] mid[i] == lviews[i2];
            assert(lviews[i2] == logs@[i2]@);
        };
    }
    let mut msgs: Vec<String> = Vec::new();
    let mut i: usize = 0;
    while i < by_target.len()
        invariant
            by_target@.map_values(|l: Log| l@) == kept,
            i <= by_target.len(),
            by_target@.len() == kept.len(),
            msgs@.map_values(|m: String| m@) =~= kept.take(i as int).map_values(
                |l: LogView| formatted_log_view(l),
            ),
            forall|j: int| 0 <= j < kept.len() ==> utf8_len(
                formatted_log_view(#[trigger] kept[j]),
            ) <= usize::MAX - 1950,
        decreases by_target.len() - i,
    {
        let entry = Log {
            timestamp: by_target[i].timestamp.clone(),
            level: by_target[i].level.clone(),
            target: by_target[i].target.clone(),
            message: by_target[i].message.clone(),
        };
        proof {
            assert(entry@ =~= kept[i as int]);
        }
        let line = format_log(entry);
        msgs.push(line);
        i = i + 1;
        proof {
            assert(kept.take(i as int).map_values(|l: LogView| formatted_log_view(l)) =~= kept.take(
                i - 1,
            ).map_values(|l: LogView| formatted_log_view(l)).push(formatted_log_view(kept[i - 1])));
            assert(msgs@.map_values(|m: String| m@) =~= kept.take(i as int).map_values(
                |l: LogView| formatted_log_view(l),
            ));
        }
    }
    proof {
        assert(kept.take(kept.len() as int) =~= kept);
        assert(msgs@.map_values(|m: String| m@) =~= kept.map_values(
            |l: LogView| formatted_log_view(l),
        ));
        assert forall|j: int| 0 <= j < msgs@.len() implies utf8_len((#[trigger] msgs@[j])@)
            <= usize::MAX - 1950 by {
            assert((msgs@.map_values(|m: String| m@))[j] == msgs@[j]@);
            assert((kept.map_values(|l: LogView| formatted_log_view(l)))[j] == formatted_log_view(
                kept[j],
            ));
            assert(msgs@[j]@ == formatted_log_view(kept[j]));
        };
    }
    let joined = window_logs(&msgs, start);
    let body: String = if joined.as_str().unicode_len() > 0 {
        let mut b = String::from_str("```ansi\n");
        b.append(joined.as_str());
        b.append("\n```");
        b
    } else {
        String::from_str("`No logs found`")
    };
    let warn: String = if unknown {
        let mut w = String::from_str("[WARNING] Unknown level '");
        w.append(level.as_str());
        w.append("'. Available targets: ERROR, WARN, INFO.\n");
        w
    } else {
        String::new()
    };
    proof {
        assert(body@ =~= rendered_logs_view(lviews, level@, target@, start as int).0);
        assert(warn@ =~= rendered_logs_view(lviews, level@, target@, start as int).1);
    }
    (body, warn)
}

// The log command's arguments

/// The parser state after some arguments: what was collected and which
/// option still waits for its value.
#[verifier::ext_equal]
pub struct LogArgsView {
    pub help: bool,
    pub level: Seq<char>,
    pub target: Seq<char>,
    pub from: int,
    pub level_flag: bool,
    pub target_flag: bool,
    pub from_flag: bool,
}

/// Before any argument: nothing collected, no option waiting.
pub open spec fn log_args_init() -> LogArgsView {
    LogArgsView {
        help: false,
        level: Seq::<char>::empty(),
        target: Seq::<char>::empty(),
        from: 0,
        level_flag: false,
        target_flag: false,
        from_flag: false,
    }
}

/// One argument's effect: a help word ends the parse; an option word arms
/// its option; otherwise an armed option takes the word as its value; any
/// other word is ignored.
pub open spec fn log_args_step(st: LogArgsView, arg: Seq<char>) -> LogArgsView {
    if st.help {
        st
    } else if arg == "-h"@ || arg == "--help"@ {
        LogArgsView { help: true, ..st }
    } else if arg == "-l"@ || arg == "--level"@ {
        LogArgsView { level_flag: true, ..st }
    } else if arg == "-t"@ || arg == "--target"@ {
        LogArgsView { target_flag: true, ..st }
    } else if arg == "-f"@ || arg == "--from"@ {
        LogArgsView { from_flag: true, ..st }
    } else if st.level_flag {
        LogArgsView { level: arg, level_flag: false, ..st }
    } else if st.target_flag {
        LogArgsView { target: arg, target_flag: false, ..st }
    } else if st.from_flag {
        LogArgsView { from: crate::strings::parsed_usize(arg), from_flag: false, ..st }
    } else {
        st
    }
}

/// The parser state after all the arguments.
pub open spec fn log_args_fold(args: Seq<Seq<char>>) -> LogArgsView
    decreases args.len(),
{
    if args.len() == 0 {
        log_args_init()
    } else {
        log_args_step(log_args_fold(args.drop_last()), args.last())
    }
}

/// What the log command was asked for.
pub enum LogArgs {
    /// Show the usage text.
    Help,
    /// Show the entries for this severity selector, target text, and line
    /// offset.
    Parsed { level: String, target: String, from: usize },
}

/// Reads the log command's space-separated arguments.
pub fn parse_log_args(args: &String) -> (r: LogArgs)
    ensures
        ({
            let st = log_args_fold(crate::strings::split_view(args@, ' '));
            if st.help {
                r is Help
            } else {
                r matches LogArgs::Parsed { level, target, from } && level@ == st.level && target@
                    == st.target && from as int == st.from
            }
        }),
{
    let parts = crate::strings::split_at_char(args.as_str(), ' ');
    let ghost pviews = crate::strings::split_view(args@, ' ');
    let mut level = String::new();
    let mut target = String::new();
    let mut from: usize = 0;
    let mut level_flag: bool = false;
    let mut target_flag: bool = false;
    let mut from_flag: bool = false;
    let mut k: usize = 0;
    while k < parts.len()
        invariant
            parts@.map_values(|p: String| p@) == pviews,
            pviews == crate::strings::split_view(args@, ' '),
            k <= parts.len(),
            parts@.len() == pviews.len(),
            ({
                let st = log_args_fold(pviews.take(k as int));
                &&& !st.help
                &&& level@ == st.level
                &&& target@ == st.target
                &&& from as int == st.from
                &&& level_flag == st.level_flag
                &&& target_flag == st.target_flag
                &&& from_flag == st.from_flag
            }),
        decreases parts.len() - k,
    {
        let arg = &parts[k];
        proof {
            assert(arg@ == pviews[k as int]);
            assert(pviews.take(k + 1).drop_last() =~= pviews.take(k as int));
            assert(pviews.take(k + 1).last() == pviews[k as int]);
        }
        if str_eq(arg.as_str(), "-h") || str_eq(arg.as_str(), "--help") {
            proof {
                assert(log_args_fold(pviews.take(k + 1)).help);
                lemma_log_args_help_sticky(pviews, k + 1);
                assert(log_args_fold(pviews).help);
            }
            return LogArgs::Help;
        } else if str_eq(arg.as_str(), "-l") || str_eq(arg.as_str(), "--level") {
            level_flag = true;
        } else if str_eq(arg.as_str(), "-t") || str_eq(arg.as_str(), "--target") {
            target_flag = true;
        } else if str_eq(arg.as_str(), "-f") || str_eq(arg.as_str(), "--from") {
            from_flag = true;
        } else if level_flag {
            level = arg.clone();
            level_flag = false;
        } else if target_flag {
            target = arg.clone();
            target_flag = false;
        } else if from_flag {
            from = crate::strings::parse_usize_or_zero(arg);
            from_flag = false;
        }
        k = k + 1;
        proof {
            assert(log_args_fold(pviews.take(k as int)) =~= log_args_step(
                log_args_fold(pviews.take(k - 1)),
                pviews[k - 1],
            ));
        }
    }
    proof {
        assert(pviews.take(pviews.len() as int) =~= pviews);
    }
    LogArgs::Parsed { level, target, from }
}

/// Once a help word was seen, the remaining arguments change nothing.
proof fn lemma_log_args_help_sticky(args: Seq<Seq<char>>, k: int)
    requires
        0 <= k <= args.len(),
        log_args_fold(args.take(k)).help,
    ensures
        log_args_fold(args).help,
    decreases args.len() - k,
{
    if k < args.len() {
        assert(args.take(k + 1).drop_last() =~= args.take(k));
        lemma_log_args_help_sticky(args, k + 1);
    } else {
        assert(args.take(k) =~= args);
    }
}

} // verus!
