//! Log records, and the line that a record becomes.

use vstd::prelude::*;
use vstd::string::*;

use crate::text;

verus! {

/// How much a record matters.
#[derive(Debug, Clone, Copy, PartialEq, Eq, Structural)]
pub enum LogLevel {
    Info,
    Warning,
    Error,
}

impl LogLevel {
    /// The level's name in a log line.
    pub open spec fn spec_name(self) -> Seq<char> {
        match self {
            LogLevel::Info => "INFO"@,
            LogLevel::Warning => "WARNING"@,
            LogLevel::Error => "ERROR"@,
        }
    }

    /// The level's name in a log line.
    pub fn name(self) -> (r: &'static str)
        ensures
            r@ == self.spec_name(),
    {
        match self {
            LogLevel::Info => "INFO",
            LogLevel::Warning => "WARNING",
            LogLevel::Error => "ERROR",
        }
    }
}

/// A message to log. Its view is the level and the message's text.
#[derive(Debug, Clone, PartialEq, Eq)]
pub struct LogRecord {
    pub level: LogLevel,
    pub message: String,
}

impl View for LogRecord {
    type V = (LogLevel, Seq<char>);

    open spec fn view(&self) -> (LogLevel, Seq<char>) {
        (self.level, self.message@)
    }
}

/// The views of a list of records.
pub open spec fn records(logs: Seq<LogRecord>) -> Seq<(LogLevel, Seq<char>)> {
    Seq::new(logs.len(), |i: int| logs[i]@)
}

/// The view of an informational record.
pub open spec fn info(message: Seq<char>) -> (LogLevel, Seq<char>) {
    (LogLevel::Info, message)
}

/// The view of a warning.
pub open spec fn warning(message: Seq<char>) -> (LogLevel, Seq<char>) {
    (LogLevel::Warning, message)
}

/// The view of an error.
pub open spec fn error(message: Seq<char>) -> (LogLevel, Seq<char>) {
    (LogLevel::Error, message)
}

/// A record of level `Info`.
pub fn log_info(message: &str) -> (r: LogRecord)
    ensures
        r@ == info(message@),
{
    LogRecord { level: LogLevel::Info, message: message.to_owned() }
}

/// A record of level `Warning`.
pub fn log_warning(message: &str) -> (r: LogRecord)
    ensures
        r@ == warning(message@),
{
    LogRecord { level: LogLevel::Warning, message: message.to_owned() }
}

/// A record of level `Error`.
pub fn log_error(message: &str) -> (r: LogRecord)
    ensures
        r@ == error(message@),
{
    LogRecord { level: LogLevel::Error, message: message.to_owned() }
}

/// The standard stream on which a line is printed.
#[derive(Debug, Clone, Copy, PartialEq, Eq, Structural)]
pub enum LogStream {
    Stdout,
    Stderr,
}

/// A finished line, which also goes to the end of the log file, and the stream
/// on which it is printed.
#[derive(Debug, Clone, PartialEq, Eq)]
pub struct LogLine {
    pub line: String,
    pub stream: LogStream,
}

/// The line of a message: the time, the level in brackets, the message, a line
/// feed.
pub open spec fn line_text(timestamp: Seq<char>, level: Seq<char>, message: Seq<char>) -> Seq<
    char,
> {
    timestamp + " ["@ + level + "] "@ + message + "\n"@
}

/// The stream of a level: errors and warnings go to standard error, every other
/// level to standard output.
pub open spec fn stream_of(level: Seq<char>) -> LogStream {
    if level == "ERROR"@ || level == "WARNING"@ {
        LogStream::Stderr
    } else {
        LogStream::Stdout
    }
}

/// The line that a message becomes, and the stream it is printed on.
pub fn log_to_file(timestamp: &str, level: &str, message: &str) -> (r: LogLine)
    ensures
        r.line@ == line_text(timestamp@, level@, message@),
        r.stream == stream_of(level@),
{
    let mut line = timestamp.to_owned();
    line.append(" [");
    line.append(level);
    line.append("] ");
    line.append(message);
    line.append("\n");
    let level = level.to_owned();
    let stream = if level == "ERROR".to_owned() || level == "WARNING".to_owned() {
        LogStream::Stderr
    } else {
        LogStream::Stdout
    };
    LogLine { line, stream }
}

/// What the clock printed, as a timestamp: decoded, without surrounding white
/// space.
pub open spec fn timestamp_text(stdout: Option<Seq<u8>>) -> Seq<char> {
    match stdout {
        Some(bytes) => text::trimmed(text::utf8_lossy(bytes)),
        None => "???"@,
    }
}

/// The timestamp for a log line, from what the clock printed; `None` where it
/// could not be asked.
pub fn get_timestamp(stdout: Option<Vec<u8>>) -> (r: String)
    ensures
        r@ == timestamp_text(
            match stdout {
                Some(bytes) => Some(bytes@),
                None => None,
            },
        ),
{
    match stdout {
        Some(bytes) => text::trim(text::from_utf8_lossy(bytes.as_slice()).as_str()),
        None => "???".to_owned(),
    }
}

/// An error or a warning, and nothing else that this library logs, is printed on
/// standard error.
pub proof fn law_only_info_is_printed_on_standard_output(level: LogLevel)
    ensures
        stream_of(level.spec_name()) == LogStream::Stdout <==> level == LogLevel::Info,
{
    reveal_strlit("INFO");
    reveal_strlit("WARNING");
    reveal_strlit("ERROR");
    assert("INFO"@.len() != "ERROR"@.len());
    assert("INFO"@.len() != "WARNING"@.len());
}

/// A line is the time, the level in brackets and the message, each as it is, ended
/// by its only additional line feed.
pub proof fn law_line_holds_time_level_and_message(
    timestamp: Seq<char>,
    level: Seq<char>,
    message: Seq<char>,
)
    ensures
        ({
            let line = line_text(timestamp, level, message);
            let a = timestamp.len() as int;
            let b = a + 2 + level.len();
            &&& line.len() == timestamp.len() + level.len() + message.len() + 5
            &&& line.subrange(0, a) == timestamp
            &&& line[a] == ' ' && line[a + 1] == '['
            &&& line.subrange(a + 2, b) == level
            &&& line[b] == ']' && line[b + 1] == ' '
            &&& line.subrange(b + 2, line.len() - 1) == message
            &&& line.last() == '\n'
        }),
{
    reveal_strlit(" [");
    reveal_strlit("] ");
    reveal_strlit("\n");
    let line = line_text(timestamp, level, message);
    let a = timestamp.len() as int;
    let b = a + 2 + level.len();
    assert(line.subrange(0, a) =~= timestamp);
    assert(line.subrange(a + 2, b) =~= level);
    assert(line.subrange(b + 2, line.len() - 1) =~= message);
}

/// A line goes to standard error exactly where its level is one of two words.
pub proof fn law_errors_and_warnings_go_to_standard_error(level: Seq<char>)
    ensures
        stream_of(level) == LogStream::Stderr <==> (level == seq!['E', 'R', 'R', 'O', 'R']
            || level == seq!['W', 'A', 'R', 'N', 'I', 'N', 'G']),
{
    reveal_strlit("ERROR");
    reveal_strlit("WARNING");
    assert("ERROR"@ =~= seq!['E', 'R', 'R', 'O', 'R']);
    assert("WARNING"@ =~= seq!['W', 'A', 'R', 'N', 'I', 'N', 'G']);
}

/// The name of each level, and the level of each record.
pub proof fn law_levels(level: LogLevel, message: Seq<char>, logs: Seq<LogRecord>)
    ensures
        level.spec_name() == match level {
            LogLevel::Info => seq!['I', 'N', 'F', 'O'],
            LogLevel::Warning => seq!['W', 'A', 'R', 'N', 'I', 'N', 'G'],
            LogLevel::Error => seq!['E', 'R', 'R', 'O', 'R'],
        },
        info(message) == (LogLevel::Info, message),
        warning(message) == (LogLevel::Warning, message),
        error(message) == (LogLevel::Error, message),
        records(logs).len() == logs.len(),
        forall|k: int|
            0 <= k < logs.len() ==> #[trigger] records(logs)[k] == (
                logs[k].level,
                logs[k].message@,
            ),
{
    reveal_strlit("INFO");
    reveal_strlit("ERROR");
    reveal_strlit("WARNING");
    assert("INFO"@ =~= seq!['I', 'N', 'F', 'O']);
    assert("ERROR"@ =~= seq!['E', 'R', 'R', 'O', 'R']);
    assert("WARNING"@ =~= seq!['W', 'A', 'R', 'N', 'I', 'N', 'G']);
}

/// A timestamp is what the clock printed but for the white space around it, and three
/// question marks where it printed nothing that could be had.
pub proof fn law_timestamp_is_what_the_clock_printed(bytes: Seq<u8>)
    ensures
        timestamp_text(None) == seq!['?', '?', '?'],
        exists|i: int, j: int|
            {
                &&& 0 <= i <= j <= text::utf8_lossy(bytes).len()
                &&& timestamp_text(Some(bytes)) == #[trigger] text::utf8_lossy(bytes).subrange(i, j)
                &&& forall|k: int|
                    0 <= k < i ==> text::is_white_space(#[trigger] text::utf8_lossy(bytes)[k])
                &&& forall|k: int|
                    j <= k < text::utf8_lossy(bytes).len() ==> text::is_white_space(
                        #[trigger] text::utf8_lossy(bytes)[k],
                    )
            },
        timestamp_text(Some(bytes)).len() > 0 ==> !text::is_white_space(
            timestamp_text(Some(bytes)).first(),
        ) && !text::is_white_space(timestamp_text(Some(bytes)).last()),
{
    reveal_strlit("???");
    assert("???"@ =~= seq!['?', '?', '?']);
    text::law_trimming_takes_the_white_space_at_the_ends(text::utf8_lossy(bytes));
}

} // verus!
