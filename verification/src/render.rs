//! The render engine: what one frame shows of a snapshot.

use vstd::prelude::*;
use vstd::slice::slice_subrange;
use vstd::string::*;
use vstd::utf8::encode_utf8;
use crate::event::{ProxyRow, RowView};
use crate::store::{App, AppView};
use crate::numeral::{
    decimal, lemma_nearest_double_exact, lemma_parse_decimal, nearest_double, one_decimal,
    parse_u64, parse_unsigned, push_decimal, push_one_decimal, round_half_even, scaled_quotient,
    KIB, MIB,
};
use crate::roster::{latest_delay, row_of, EntryView};

verus! {

/// A rate in bytes per second as it is shown: in bytes below 1024, in KB
/// below 1024 * 1024, in MB from there on, the last two with one decimal
/// place.
pub open spec fn speed_label(speed: u64) -> Seq<char> {
    if speed < KIB {
        decimal(speed as nat) + " B"@
    } else if speed < MIB {
        one_decimal(round_half_even(speed as nat * 10, KIB as nat)) + " KB"@
    } else {
        one_decimal(round_half_even(nearest_double(speed as nat) * 10, MIB as nat)) + " MB"@
    }
}

/// A rate in bytes per second as it is shown.
pub fn format_speed(speed: u64) -> (label: String)
    ensures
        label@ == speed_label(speed),
{
    let mut label = String::new();
    if speed < KIB {
        push_decimal(&mut label, speed);
        label.append(" B");
        assert(label@ =~= speed_label(speed));
    } else if speed < MIB {
        let tenths = scaled_quotient(speed, 10, KIB);
        proof {
            lemma_nearest_double_exact(speed as nat);
        }
        push_one_decimal(&mut label, tenths);
        label.append(" KB");
        assert(label@ =~= speed_label(speed));
    } else {
        let tenths = scaled_quotient(speed, 10, MIB);
        push_one_decimal(&mut label, tenths);
        label.append(" MB");
        assert(label@ =~= speed_label(speed));
    }
    label
}

/// Share of the height that the upper panels take, in percent.
pub const UPPER_PERCENT: u16 = 66;

/// Share of the height that the sparklines take, in percent.
pub const LOWER_PERCENT: u16 = 34;

/// Share of the upper width that the log panel takes, in percent.
pub const LOG_PERCENT: u16 = 66;

/// Share of the upper width that the roster panel takes, in percent.
pub const ROSTER_PERCENT: u16 = 34;

/// Share of the lower width that each sparkline takes, in percent.
pub const SPARKLINE_PERCENT: u16 = 50;

/// The rows of a panel that its border and the line under it take.
pub const LOG_MARGIN: usize = 2;

/// Delays below this many milliseconds count as good.
pub const SLOW_DELAY: u64 = 500;

/// The colour that a delay is shown in.
#[derive(Clone, Copy, Debug, PartialEq, Eq, Structural)]
pub enum DelayColor {
    Green,
    Red,
    Yellow,
}

/// One line of the roster panel, in its three spans.
#[derive(Debug, Clone, PartialEq, Eq)]
pub struct ProxyLine {
    /// The group's name and a colon, shown bold.
    pub name: String,
    /// The selected node.
    pub now: String,
    /// The delay in brackets, shown in `color`.
    pub delay: String,
    pub color: DelayColor,
}

/// What a [`ProxyLine`] is in contracts.
pub struct ProxyLineView {
    pub name: Seq<char>,
    pub now: Seq<char>,
    pub delay: Seq<char>,
    pub color: DelayColor,
}

impl DeepView for ProxyLine {
    type V = ProxyLineView;

    open spec fn deep_view(&self) -> ProxyLineView {
        ProxyLineView { name: self.name@, now: self.now@, delay: self.delay@, color: self.color }
    }
}

impl View for ProxyLine {
    type V = ProxyLineView;

    open spec fn view(&self) -> ProxyLineView {
        self.deep_view()
    }
}

/// What one frame shows.
#[derive(Debug, Clone, PartialEq, Eq)]
pub struct Screen<'a> {
    pub log_title: &'static str,
    /// The log lines that fit, newest last.
    pub log_lines: &'a [String],
    pub roster_title: &'static str,
    pub roster_lines: Vec<ProxyLine>,
    pub upload_title: String,
    pub upload_data: &'a [u64],
    pub download_title: String,
    pub download_data: &'a [u64],
}

/// What a [`Screen`] is in contracts.
pub struct ScreenView {
    pub log_title: Seq<char>,
    pub log_lines: Seq<Seq<char>>,
    pub roster_title: Seq<char>,
    pub roster_lines: Seq<ProxyLineView>,
    pub upload_title: Seq<char>,
    pub upload_data: Seq<u64>,
    pub download_title: Seq<char>,
    pub download_data: Seq<u64>,
}

impl<'a> View for Screen<'a> {
    type V = ScreenView;

    open spec fn view(&self) -> ScreenView {
        ScreenView {
            log_title: self.log_title@,
            log_lines: self.log_lines.deep_view(),
            roster_title: self.roster_title@,
            roster_lines: self.roster_lines.deep_view(),
            upload_title: self.upload_title@,
            upload_data: self.upload_data@,
            download_title: self.download_title@,
            download_data: self.download_data@,
        }
    }
}

/// How many of `count` log lines a panel of `height` rows leaves out, oldest
/// first: none while they are no more than the rows, else all but the rows
/// less the margin.
pub open spec fn log_skip(count: nat, height: nat) -> nat {
    if count > height {
        (count - height + LOG_MARGIN) as nat
    } else {
        0
    }
}

/// The log lines that a panel of `height` rows shows.
pub open spec fn visible_logs<T>(logs: Seq<T>, height: nat) -> Seq<T> {
    if log_skip(logs.len(), height) >= logs.len() {
        Seq::empty()
    } else {
        logs.skip(log_skip(logs.len(), height) as int)
    }
}

/// The number that a delay label stands for; 0 where it is no numeral.
pub open spec fn delay_value(label: Seq<char>) -> u64 {
    match parse_unsigned(encode_utf8(label)) {
        Some(delay) => delay,
        None => 0,
    }
}

/// Green for a delay that was measured and is below half a second, red for
/// none measured, yellow for a slow one.
pub open spec fn delay_color_of(delay: u64) -> DelayColor {
    if 0 < delay < SLOW_DELAY {
        DelayColor::Green
    } else if delay == 0 {
        DelayColor::Red
    } else {
        DelayColor::Yellow
    }
}

/// The line of the roster panel for one row.
pub open spec fn proxy_line_of(row: RowView) -> ProxyLineView {
    ProxyLineView {
        name: row.0 + ": "@,
        now: row.1 + " "@,
        delay: "("@ + row.2 + "ms)"@,
        color: delay_color_of(delay_value(row.2)),
    }
}

/// The rate that a sparkline's title gives: the newest sample, or 0 where
/// there is none.
pub open spec fn latest_rate(history: Seq<u64>) -> u64 {
    if history.len() > 0 {
        history.last()
    } else {
        0
    }
}

/// The title of the log panel.
pub open spec fn log_title() -> Seq<char> {
    "日志 (Real-time Logs)"@
}

/// The title of the roster panel.
pub open spec fn roster_title() -> Seq<char> {
    "节点状态 (Proxies)"@
}

/// The title of the upload sparkline.
pub open spec fn upload_title_of(history: Seq<u64>) -> Seq<char> {
    "上传速度 (Upload): "@ + speed_label(latest_rate(history)) + "/s"@
}

/// The title of the download sparkline.
pub open spec fn download_title_of(history: Seq<u64>) -> Seq<char> {
    "下载速度 (Download): "@ + speed_label(latest_rate(history)) + "/s"@
}

/// The frame of a snapshot, for a log panel of `log_height` rows.
pub open spec fn screen_of(app: AppView, log_height: nat) -> ScreenView {
    ScreenView {
        log_title: log_title(),
        log_lines: visible_logs(app.log_lines, log_height),
        roster_title: roster_title(),
        roster_lines: app.proxy_rows.map_values(|row: RowView| proxy_line_of(row)),
        upload_title: upload_title_of(app.upload_history),
        upload_data: app.upload_history,
        download_title: download_title_of(app.download_history),
        download_data: app.download_history,
    }
}

/// The roster line of a group has the colour of the group's latest delay:
/// the label that the roster gives the delay is read back as the same number.
pub proof fn lemma_roster_line_color(entry: EntryView)
    ensures
        delay_value(row_of(entry).2) == latest_delay(entry.1.history),
        proxy_line_of(row_of(entry)).color == delay_color_of(latest_delay(entry.1.history)),
{
    lemma_parse_decimal(latest_delay(entry.1.history));
}

/// The colour that a delay is shown in.
pub fn delay_color(delay: u64) -> (color: DelayColor)
    ensures
        color == delay_color_of(delay),
{
    if delay > 0 && delay < SLOW_DELAY {
        DelayColor::Green
    } else if delay == 0 {
        DelayColor::Red
    } else {
        DelayColor::Yellow
    }
}

/// The line of the roster panel for one row.
pub fn proxy_line(row: &ProxyRow) -> (line: ProxyLine)
    ensures
        line.deep_view() == proxy_line_of(row.deep_view()),
{
    let mut name = row.0.clone();
    name.append(": ");
    let mut now = row.1.clone();
    now.append(" ");
    let mut delay = String::new();
    delay.append("(");
    delay.append(row.2.as_str());
    delay.append("ms)");
    let value = match parse_u64(row.2.as_str()) {
        Some(value) => value,
        None => 0,
    };
    proof {
        assert(delay@ =~= "("@ + row.2@ + "ms)"@);
    }
    ProxyLine { name, now, delay, color: delay_color(value) }
}

/// The log lines that a panel of `height` rows shows.
pub fn shown_logs(logs: &[String], height: u16) -> (shown: &[String])
    ensures
        shown@ == visible_logs(logs@, height as nat),
{
    let count = logs.len();
    let height = height as usize;
    if count > height {
        if height <= LOG_MARGIN {
            slice_subrange(logs, count, count)
        } else {
            slice_subrange(logs, count - height + LOG_MARGIN, count)
        }
    } else {
        proof {
            assert(logs@.skip(0) =~= logs@);
        }
        logs
    }
}

/// The title of a sparkline: what it shows, and the newest rate.
fn rate_title(prefix: &str, history: &Vec<u64>) -> (title: String)
    ensures
        title@ == prefix@ + speed_label(latest_rate(history@)) + "/s"@,
{
    let rate = if history.len() > 0 {
        history[history.len() - 1]
    } else {
        0
    };
    let mut title = String::new();
    title.append(prefix);
    title.append(format_speed(rate).as_str());
    title.append("/s");
    proof {
        assert(title@ =~= prefix@ + speed_label(latest_rate(history@)) + "/s"@);
    }
    title
}

/// Computes the frame of a snapshot for a log panel of `log_height` rows:
/// the log lines that fit, the roster lines with their colours, and both
/// throughput histories under titles that give the newest rate.
pub fn ui<'a>(app: &'a App, log_height: u16) -> (screen: Screen<'a>)
    ensures
        screen@ == screen_of(app@, log_height as nat),
{
    let log_lines = shown_logs(app.log_lines.as_slice(), log_height);
    let mut roster_lines: Vec<ProxyLine> = Vec::new();
    let mut i: usize = 0;
    while i < app.proxy_rows.len()
        invariant
            i <= app.proxy_rows.len(),
            roster_lines.len() == i,
            forall|j: int|
                0 <= j < i ==> (#[trigger] roster_lines@[j]).deep_view() == proxy_line_of(
                    app.proxy_rows@[j].deep_view(),
                ),
        decreases app.proxy_rows.len() - i,
    {
        roster_lines.push(proxy_line(&app.proxy_rows[i]));
        i += 1;
    }
    let screen = Screen {
        log_title: "日志 (Real-time Logs)",
        log_lines,
        roster_title: "节点状态 (Proxies)",
        roster_lines,
        upload_title: rate_title("上传速度 (Upload): ", &app.upload_history),
        upload_data: app.upload_history.as_slice(),
        download_title: rate_title("下载速度 (Download): ", &app.download_history),
        download_data: app.download_history.as_slice(),
    };
    proof {
        let want = screen_of(app@, log_height as nat);
        assert(screen@.log_lines =~= want.log_lines);
        assert(screen@.roster_lines =~= want.roster_lines);
    }
    screen
}

} // verus!
