//! Running one command on a shell channel: what is sent, and when the
//! shell's answer counts as complete.
//!
//! The channel itself is not touched here. The caller performs each read and
//! each pause and reports what it saw; the functions of this module decide
//! what happens next.

use vstd::prelude::*;
use vstd::string::StringExecFns;
use crate::models::connection::{CommandOptions, ConnectionConfig, PromptConfig, clone_strings, texts};
use crate::space::{trim_end, trim_end_of};
use crate::split::{fields, seqs, split_fields};
use crate::text::{contains, ends_with, from_chars, has_substring, has_suffix, slice, to_chars};

verus! {

/// The text after the last line feed of `chunk`; all of it where it has none.
pub open spec fn last_line(chunk: Seq<char>) -> Seq<char> {
    fields(chunk, '\n').last()
}

/// Whether `pattern` marks `chunk` as ending in a prompt. The pattern must
/// occur in the chunk. With smart detection the chunk's last line, less its
/// trailing white space, must also end with the pattern, less its own.
pub open spec fn pattern_fires(chunk: Seq<char>, pattern: Seq<char>, smart: bool) -> bool {
    contains(chunk, pattern) && (smart ==> ends_with(
        trim_end(last_line(chunk)),
        trim_end(pattern),
    ))
}

/// Whether one of `patterns` marks `chunk` as ending in a prompt.
pub open spec fn prompt_detected(chunk: Seq<char>, patterns: Seq<Seq<char>>, smart: bool) -> bool {
    exists|i: int| 0 <= i < patterns.len() && pattern_fires(chunk, #[trigger] patterns[i], smart)
}

/// Runs commands on an open shell channel.
pub struct SshCommandExecutor;

impl SshCommandExecutor {
    /// Whether a freshly read chunk ends the command: one of the patterns
    /// fires on it, under the detection mode of `config`.
    pub fn detect_prompt(chunk: &str, patterns: &[String], config: &PromptConfig) -> (found: bool)
        ensures
            found == prompt_detected(chunk@, texts(patterns@), config.smart_detection),
    {
        let text: Vec<char> = to_chars(chunk);
        let pieces: Vec<Vec<char>> = split_fields(&text, '\n');
        let tail: Vec<char> = trim_end_of(&pieces[pieces.len() - 1]);
        proof {
            assert(seqs(pieces@).last() == pieces@[pieces.len() - 1]@);
        }
        let mut i: usize = 0;
        while i < patterns.len()
            invariant
                i <= patterns.len(),
                text@ == chunk@,
                tail@ == trim_end(last_line(chunk@)),
                forall|j: int|
                    0 <= j < i ==> !pattern_fires(
                        chunk@,
                        #[trigger] texts(patterns@)[j],
                        config.smart_detection,
                    ),
            decreases patterns.len() - i,
        {
            let pattern: Vec<char> = to_chars(patterns[i].as_str());
            proof {
                assert(texts(patterns@)[i as int] == pattern@);
            }
            if has_substring(&text, &pattern) {
                if !config.smart_detection {
                    return true;
                }
                let suffix: Vec<char> = trim_end_of(&pattern);
                if has_suffix(&tail, &suffix) {
                    return true;
                }
            }
            i += 1;
        }
        false
    }
}

/// Why reading the answer of a command ended.
#[derive(Debug, Clone, Copy, PartialEq, Eq, Structural)]
pub enum StopReason {
    /// A prompt showed in the newest chunk.
    PromptDetected,
    /// The configured number of consecutive empty reads was reached.
    EmptyReads,
    /// More than a second passed since data last arrived.
    Idle,
    /// The wall-clock bound of the command was exceeded.
    WallClock,
    /// The one read of single-shot mode was made.
    SingleRead,
    /// The channel reported an error that is not retried.
    ReadFailed,
    /// The caller gave the command up.
    Cancelled,
}

/// What the caller is to do next.
#[derive(Debug, Clone, Copy, PartialEq, Eq, Structural)]
pub enum ReadAction {
    /// Read from the channel and report the outcome.
    Read,
    /// Wait for the given number of milliseconds, then ask again.
    Pause(u64),
    /// Stop reading; the output gathered so far is the answer.
    Finish(StopReason),
}

/// Pause after an empty read, in milliseconds.
pub const EMPTY_READ_PAUSE: u64 = 50;

/// Pause after a chunk without prompt, in milliseconds.
pub const DATA_PAUSE: u64 = 10;

/// Pause after a transient channel error, in milliseconds.
pub const RETRY_PAUSE: u64 = 100;

/// Silence after which the shell counts as quiet, in milliseconds.
pub const IDLE_LIMIT: u64 = 1000;

/// The text by which the transport reports that its incoming stream is
/// draining: a read that fails with it is worth a retry.
pub open spec fn draining_notice() -> Seq<char> {
    "Failure while draining incoming flow"@
}

/// Whether a read error with this message is worth a retry.
pub open spec fn is_transient(message: Seq<char>) -> bool {
    contains(message, draining_notice())
}

/// The state of one read loop, as contracts see it.
pub struct ReaderModel {
    pub patterns: Seq<Seq<char>>,
    pub smart_detection: bool,
    pub max_wait_time: u64,
    pub max_empty_reads: u32,
    pub wait_for_prompt: bool,
    pub output: Seq<char>,
    pub empty_reads: u32,
    pub last_data_at: u64,
    pub stopped: Option<StopReason>,
}

impl ReaderModel {
    /// The state in which the reason for stopping is recorded.
    pub open spec fn stop(self, reason: StopReason) -> ReaderModel {
        ReaderModel { stopped: Some(reason), ..self }
    }

    /// State and action at the top of an iteration, `elapsed` milliseconds
    /// after the command was sent.
    pub open spec fn poll(self, elapsed: u64) -> (ReaderModel, ReadAction) {
        if let Some(reason) = self.stopped {
            (self, ReadAction::Finish(reason))
        } else if elapsed > self.max_wait_time {
            (self.stop(StopReason::WallClock), ReadAction::Finish(StopReason::WallClock))
        } else {
            (self, ReadAction::Read)
        }
    }

    /// State and action after a read that gave the non-empty `chunk`.
    pub open spec fn on_data(self, chunk: Seq<char>, elapsed: u64) -> (ReaderModel, ReadAction) {
        if let Some(reason) = self.stopped {
            (self, ReadAction::Finish(reason))
        } else {
            let fed = ReaderModel {
                output: self.output + chunk,
                empty_reads: 0,
                last_data_at: elapsed,
                ..self
            };
            if !self.wait_for_prompt {
                (fed.stop(StopReason::SingleRead), ReadAction::Finish(StopReason::SingleRead))
            } else if prompt_detected(chunk, self.patterns, self.smart_detection) {
                (
                    fed.stop(StopReason::PromptDetected),
                    ReadAction::Finish(StopReason::PromptDetected),
                )
            } else {
                (fed, ReadAction::Pause(DATA_PAUSE))
            }
        }
    }

    /// The number of consecutive empty reads once one more is counted.
    pub open spec fn counted(self) -> u32 {
        if self.empty_reads < self.max_empty_reads {
            (self.empty_reads + 1) as u32
        } else {
            self.empty_reads
        }
    }

    /// State and action after a read that gave no bytes.
    pub open spec fn on_empty(self, elapsed: u64) -> (ReaderModel, ReadAction) {
        if let Some(reason) = self.stopped {
            (self, ReadAction::Finish(reason))
        } else if !self.wait_for_prompt {
            (self.stop(StopReason::SingleRead), ReadAction::Finish(StopReason::SingleRead))
        } else {
            let counted = ReaderModel { empty_reads: self.counted(), ..self };
            if counted.empty_reads >= self.max_empty_reads {
                (counted.stop(StopReason::EmptyReads), ReadAction::Finish(StopReason::EmptyReads))
            } else if elapsed - self.last_data_at > IDLE_LIMIT {
                (counted.stop(StopReason::Idle), ReadAction::Finish(StopReason::Idle))
            } else {
                (counted, ReadAction::Pause(EMPTY_READ_PAUSE))
            }
        }
    }

    /// State and action after a read that failed with `message`. Only a
    /// loop that waits for the prompt retries, and only a transient error.
    pub open spec fn on_error(self, message: Seq<char>) -> (ReaderModel, ReadAction) {
        if let Some(reason) = self.stopped {
            (self, ReadAction::Finish(reason))
        } else if self.wait_for_prompt && is_transient(message) {
            (self, ReadAction::Pause(RETRY_PAUSE))
        } else {
            (self.stop(StopReason::ReadFailed), ReadAction::Finish(StopReason::ReadFailed))
        }
    }
}

/// The read loop of one command: the settings in force, the output gathered
/// so far and the counters that bound the wait.
pub struct OutputReader {
    patterns: Vec<String>,
    smart_detection: bool,
    max_wait_time: u64,
    max_empty_reads: u32,
    wait_for_prompt: bool,
    output: String,
    empty_reads: u32,
    last_data_at: u64,
    stopped: Option<StopReason>,
}

impl View for OutputReader {
    type V = ReaderModel;

    closed spec fn view(&self) -> ReaderModel {
        ReaderModel {
            patterns: texts(self.patterns@),
            smart_detection: self.smart_detection,
            max_wait_time: self.max_wait_time,
            max_empty_reads: self.max_empty_reads,
            wait_for_prompt: self.wait_for_prompt,
            output: self.output@,
            empty_reads: self.empty_reads,
            last_data_at: self.last_data_at,
            stopped: self.stopped,
        }
    }
}

/// The patterns in force for one command: those of the options where they
/// name any, else those of the configuration.
pub open spec fn active_patterns(
    config: Seq<Seq<char>>,
    custom: Option<Seq<Seq<char>>>,
) -> Seq<Seq<char>> {
    match custom {
        Some(list) => list,
        None => config,
    }
}

/// The wall-clock bound in force for one command.
pub open spec fn active_timeout(config: u64, custom: Option<u64>) -> u64 {
    match custom {
        Some(limit) => limit,
        None => config,
    }
}

impl OutputReader {
    /// A read loop that has not read yet, under the settings of `config` as
    /// overridden by `options`.
    pub fn new(config: &PromptConfig, options: &CommandOptions) -> (reader: Self)
        ensures
            reader@ == (ReaderModel {
                patterns: active_patterns(config@.patterns, options@.custom_prompts),
                smart_detection: config.smart_detection,
                max_wait_time: active_timeout(config.max_wait_time, options.timeout),
                max_empty_reads: config.max_empty_reads,
                wait_for_prompt: options.wait_for_prompt,
                output: Seq::<char>::empty(),
                empty_reads: 0,
                last_data_at: 0,
                stopped: None,
            }),
    {
        let patterns: Vec<String> = match &options.custom_prompts {
            Some(list) => clone_strings(list),
            None => clone_strings(&config.patterns),
        };
        let max_wait_time: u64 = match options.timeout {
            Some(limit) => limit,
            None => config.max_wait_time,
        };
        OutputReader {
            patterns,
            smart_detection: config.smart_detection,
            max_wait_time,
            max_empty_reads: config.max_empty_reads,
            wait_for_prompt: options.wait_for_prompt,
            output: String::new(),
            empty_reads: 0,
            last_data_at: 0,
            stopped: None,
        }
    }

    /// The output gathered so far.
    pub fn output(&self) -> (text: &str)
        ensures
            text@ == self@.output,
    {
        self.output.as_str()
    }

    /// The output gathered, handed over.
    pub fn into_output(self) -> (text: String)
        ensures
            text@ == self@.output,
    {
        self.output
    }

    /// Why the loop stopped, once it has.
    pub fn stopped(&self) -> (reason: Option<StopReason>)
        ensures
            reason == self@.stopped,
    {
        self.stopped
    }

    /// The number of consecutive empty reads counted so far.
    pub fn empty_reads(&self) -> (count: u32)
        ensures
            count == self@.empty_reads,
    {
        self.empty_reads
    }

    /// Gives the command up: a loop that is running stops, and every later
    /// step says so; one that has stopped keeps its reason.
    pub fn cancel(&mut self)
        ensures
            final(self)@ == (if old(self)@.stopped is Some {
                old(self)@
            } else {
                old(self)@.stop(StopReason::Cancelled)
            }),
    {
        if self.stopped.is_none() {
            self.stopped = Some(StopReason::Cancelled);
        }
    }

    /// The top of an iteration, `elapsed` milliseconds after the command
    /// was sent: stop where the wall-clock bound is exceeded, else read.
    pub fn poll(&mut self, elapsed: u64) -> (action: ReadAction)
        ensures
            (final(self)@, action) == old(self)@.poll(elapsed),
    {
        if let Some(reason) = self.stopped {
            return ReadAction::Finish(reason);
        }
        if elapsed > self.max_wait_time {
            self.stopped = Some(StopReason::WallClock);
            return ReadAction::Finish(StopReason::WallClock);
        }
        ReadAction::Read
    }

    /// A read gave the non-empty `chunk`, `elapsed` milliseconds after the
    /// command was sent.
    pub fn on_data(&mut self, chunk: &str, elapsed: u64) -> (action: ReadAction)
        ensures
            (final(self)@, action) == old(self)@.on_data(chunk@, elapsed),
    {
        if let Some(reason) = self.stopped {
            return ReadAction::Finish(reason);
        }
        self.output.append(chunk);
        self.empty_reads = 0;
        self.last_data_at = elapsed;
        if !self.wait_for_prompt {
            self.stopped = Some(StopReason::SingleRead);
            return ReadAction::Finish(StopReason::SingleRead);
        }
        let config = PromptConfig {
            patterns: Vec::new(),
            smart_detection: self.smart_detection,
            max_wait_time: self.max_wait_time,
            max_empty_reads: self.max_empty_reads,
        };
        if SshCommandExecutor::detect_prompt(chunk, self.patterns.as_slice(), &config) {
            self.stopped = Some(StopReason::PromptDetected);
            return ReadAction::Finish(StopReason::PromptDetected);
        }
        ReadAction::Pause(DATA_PAUSE)
    }

    /// A read gave no bytes, `elapsed` milliseconds after the command was
    /// sent.
    pub fn on_empty(&mut self, elapsed: u64) -> (action: ReadAction)
        ensures
            (final(self)@, action) == old(self)@.on_empty(elapsed),
    {
        if let Some(reason) = self.stopped {
            return ReadAction::Finish(reason);
        }
        if !self.wait_for_prompt {
            self.stopped = Some(StopReason::SingleRead);
            return ReadAction::Finish(StopReason::SingleRead);
        }
        if self.empty_reads < self.max_empty_reads {
            self.empty_reads = self.empty_reads + 1;
        }
        if self.empty_reads >= self.max_empty_reads {
            self.stopped = Some(StopReason::EmptyReads);
            return ReadAction::Finish(StopReason::EmptyReads);
        }
        if elapsed > self.last_data_at && elapsed - self.last_data_at > IDLE_LIMIT {
            self.stopped = Some(StopReason::Idle);
            return ReadAction::Finish(StopReason::Idle);
        }
        ReadAction::Pause(EMPTY_READ_PAUSE)
    }

    /// A read failed, and the channel described the failure as `message`.
    pub fn on_error(&mut self, message: &str) -> (action: ReadAction)
        ensures
            (final(self)@, action) == old(self)@.on_error(message@),
    {
        if let Some(reason) = self.stopped {
            return ReadAction::Finish(reason);
        }
        if self.wait_for_prompt {
            let text: Vec<char> = to_chars(message);
            let notice: Vec<char> = to_chars("Failure while draining incoming flow");
            if has_substring(&text, &notice) {
                return ReadAction::Pause(RETRY_PAUSE);
            }
        }
        self.stopped = Some(StopReason::ReadFailed);
        ReadAction::Finish(StopReason::ReadFailed)
    }
}

/// What one read of the channel gave.
#[derive(Debug)]
pub enum ReadOutcome {
    /// The bytes read; none where the channel had nothing to give.
    Bytes(Vec<u8>),
    /// The read failed, with the channel's description of the failure.
    Failed(String),
}

/// The text that `String::from_utf8_lossy` makes of `bytes`.
pub uninterp spec fn lossy_text(bytes: Seq<u8>) -> Seq<char>;

/// `String::from_utf8_lossy`: the bytes decoded as UTF-8, each invalid
/// sequence replaced by U+FFFD. The text depends on the bytes alone;
/// `lossy_text` is the name under which contracts refer to it.
#[verifier::external_body]
pub(crate) fn decode_lossy(bytes: &Vec<u8>) -> (text: String)
    ensures
        text@ == lossy_text(bytes@),
{
    String::from_utf8_lossy(bytes).into_owned()
}

/// `command` without the line feeds and carriage returns at its end.
pub open spec fn without_line_end(command: Seq<char>) -> Seq<char>
    decreases command.len(),
{
    if command.len() > 0 && (command.last() == '\n' || command.last() == '\r') {
        without_line_end(command.drop_last())
    } else {
        command
    }
}

/// What is written to the channel for `command`: the command, ended by
/// exactly one line feed.
pub open spec fn command_line(command: Seq<char>) -> Seq<char> {
    without_line_end(command).push('\n')
}

/// A command line ends with one line feed, and what stands before it does
/// not end a line.
pub proof fn lemma_command_line_ends_once(command: Seq<char>)
    ensures
        command_line(command).len() >= 1,
        command_line(command).last() == '\n',
        command_line(command).len() >= 2 ==> {
            let before = command_line(command)[command_line(command).len() - 2];
            before != '\n' && before != '\r'
        },
        without_line_end(command).len() <= command.len(),
    decreases command.len(),
{
    if command.len() > 0 && (command.last() == '\n' || command.last() == '\r') {
        lemma_command_line_ends_once(command.drop_last());
    }
}

impl ReaderModel {
    /// State and action after a read with the given outcome.
    pub open spec fn on_outcome(self, outcome: ReadOutcome, elapsed: u64) -> (
        ReaderModel,
        ReadAction,
    ) {
        match outcome {
            ReadOutcome::Bytes(bytes) => if bytes@.len() == 0 {
                self.on_empty(elapsed)
            } else {
                self.on_data(lossy_text(bytes@), elapsed)
            },
            ReadOutcome::Failed(message) => self.on_error(message@),
        }
    }
}

/// What running one command asks of the caller: the line to write to the
/// channel, and the loop that reads the answer.
pub struct CommandRun {
    pub line: String,
    pub reader: OutputReader,
}

impl SshCommandExecutor {
    /// The line to write for `command`.
    pub fn command_line(command: &str) -> (line: String)
        ensures
            line@ == command_line(command@),
    {
        let text: Vec<char> = to_chars(command);
        let mut n: usize = text.len();
        proof {
            assert(text@.take(n as int) =~= text@);
        }
        while n > 0 && (text[n - 1] == '\n' || text[n - 1] == '\r')
            invariant
                n <= text.len(),
                without_line_end(text@) == without_line_end(text@.take(n as int)),
            decreases n,
        {
            proof {
                assert(text@.take(n as int).drop_last() =~= text@.take(n - 1));
            }
            n -= 1;
        }
        let mut line: Vec<char> = slice(&text, 0, n);
        proof {
            assert(text@.subrange(0, n as int) =~= text@.take(n as int));
        }
        line.push('\n');
        from_chars(&line)
    }

    /// Begins the execution of `command` under `options`: the line to
    /// write, and a read loop that has not read yet.
    pub fn execute_command_with_options(
        config: &ConnectionConfig,
        command: &str,
        options: CommandOptions,
    ) -> (run: CommandRun)
        ensures
            run.line@ == command_line(command@),
            run.reader@ == (ReaderModel {
                patterns: active_patterns(config@.prompt_config.patterns, options@.custom_prompts),
                smart_detection: config@.prompt_config.smart_detection,
                max_wait_time: active_timeout(
                    config@.prompt_config.max_wait_time,
                    options@.timeout,
                ),
                max_empty_reads: config@.prompt_config.max_empty_reads,
                wait_for_prompt: options@.wait_for_prompt,
                output: Seq::<char>::empty(),
                empty_reads: 0,
                last_data_at: 0,
                stopped: None,
            }),
    {
        let line: String = SshCommandExecutor::command_line(command);
        let reader: OutputReader = OutputReader::new(&config.prompt_config, &options);
        CommandRun { line, reader }
    }

    /// Begins the execution of `command` under the default options: wait
    /// for the prompt, within the configured bounds.
    pub fn execute_command(config: &ConnectionConfig, command: &str) -> (run: CommandRun)
        ensures
            run.line@ == command_line(command@),
            run.reader@ == (ReaderModel {
                patterns: config@.prompt_config.patterns,
                smart_detection: config@.prompt_config.smart_detection,
                max_wait_time: config@.prompt_config.max_wait_time,
                max_empty_reads: config@.prompt_config.max_empty_reads,
                wait_for_prompt: true,
                output: Seq::<char>::empty(),
                empty_reads: 0,
                last_data_at: 0,
                stopped: None,
            }),
    {
        SshCommandExecutor::execute_command_with_options(config, command, CommandOptions::default())
    }

    /// Takes in the outcome of one read, `elapsed` milliseconds after the
    /// command was sent, and says what to do next: bytes are decoded and
    /// appended to the output, an empty read is counted, a failure is
    /// retried or ends the loop.
    pub fn read_command_output(reader: &mut OutputReader, outcome: &ReadOutcome, elapsed: u64) -> (action:
        ReadAction)
        ensures
            (final(reader)@, action) == old(reader)@.on_outcome(*outcome, elapsed),
    {
        match outcome {
            ReadOutcome::Bytes(bytes) => {
                if bytes.len() == 0 {
                    reader.on_empty(elapsed)
                } else {
                    let chunk: String = decode_lossy(bytes);
                    reader.on_data(chunk.as_str(), elapsed)
                }
            },
            ReadOutcome::Failed(message) => reader.on_error(message.as_str()),
        }
    }
}

/// One iteration of a read loop as the clock and the channel presented it.
pub struct Round {
    /// Milliseconds since the command was sent, at the top of the iteration.
    pub at_poll: u64,
    /// What the read gave.
    pub outcome: ReadOutcome,
    /// Milliseconds since the command was sent, when the read returned.
    pub at_read: u64,
}

impl ReaderModel {
    /// The settings of the loop, which no step changes.
    pub open spec fn same_settings(self, other: ReaderModel) -> bool {
        &&& self.patterns == other.patterns
        &&& self.smart_detection == other.smart_detection
        &&& self.max_wait_time == other.max_wait_time
        &&& self.max_empty_reads == other.max_empty_reads
        &&& self.wait_for_prompt == other.wait_for_prompt
    }

    /// The state in which a loop driven through `rounds` ends, and the
    /// number of reads it asked for: each round is polled, read where the
    /// poll says so, and followed by the next unless the loop finished.
    pub open spec fn run(self, rounds: Seq<Round>) -> (ReaderModel, nat)
        decreases rounds.len(),
    {
        if rounds.len() == 0 {
            (self, 0)
        } else {
            let (polled, first) = self.poll(rounds[0].at_poll);
            if first is Finish {
                (polled, 0)
            } else {
                let (fed, second) = polled.on_outcome(rounds[0].outcome, rounds[0].at_read);
                if second is Finish {
                    (fed, 1)
                } else {
                    let (last, reads) = fed.run(rounds.drop_first());
                    (last, reads + 1)
                }
            }
        }
    }
}

/// No step changes the settings of a loop, and a step that does not finish
/// leaves it running.
pub proof fn lemma_steps_keep_settings(m: ReaderModel, outcome: ReadOutcome, elapsed: u64)
    ensures
        m.poll(elapsed).0.same_settings(m),
        m.on_outcome(outcome, elapsed).0.same_settings(m),
        m.poll(elapsed).1 is Finish <==> m.poll(elapsed).0.stopped is Some,
        m.on_outcome(outcome, elapsed).1 is Finish <==> m.on_outcome(
            outcome,
            elapsed,
        ).0.stopped is Some,
        m.poll(elapsed).1 !is Pause,
        m.on_outcome(outcome, elapsed).1 !is Read,
{
}

/// In single-shot mode a loop asks for at most one read, whatever the
/// channel gives, and for exactly one where the wall-clock bound is not
/// exceeded before the first.
pub proof fn lemma_single_shot_reads_once(m: ReaderModel, rounds: Seq<Round>)
    requires
        !m.wait_for_prompt,
        m.stopped is None,
    ensures
        m.run(rounds).1 <= 1,
        rounds.len() > 0 && rounds[0].at_poll <= m.max_wait_time ==> m.run(rounds).1 == 1 && m.run(
            rounds,
        ).0.stopped is Some,
{
}

/// A loop is over, at the latest, at the first iteration that begins after
/// the wall-clock bound: it has stopped, and has asked for no read in that
/// iteration or later. The number of empty reads allowed plays no part.
pub proof fn lemma_wall_clock_ends_run(m: ReaderModel, rounds: Seq<Round>, late: int)
    requires
        0 <= late < rounds.len(),
        rounds[late].at_poll > m.max_wait_time,
    ensures
        m.run(rounds).0.stopped is Some,
        m.run(rounds).1 <= late,
    decreases rounds.len(),
{
    let (polled, first) = m.poll(rounds[0].at_poll);
    lemma_steps_keep_settings(m, rounds[0].outcome, rounds[0].at_poll);
    if !(first is Finish) {
        let (fed, second) = polled.on_outcome(rounds[0].outcome, rounds[0].at_read);
        lemma_steps_keep_settings(polled, rounds[0].outcome, rounds[0].at_read);
        if !(second is Finish) {
            assert(late > 0);
            assert(rounds.drop_first()[late - 1] == rounds[late]);
            lemma_wall_clock_ends_run(fed, rounds.drop_first(), late - 1);
        }
    }
}

/// Every pause that a loop asks for is at most a tenth of a second, so an
/// iteration begins at most that long after the read before it returned.
pub proof fn lemma_pauses_are_short(m: ReaderModel, outcome: ReadOutcome, elapsed: u64)
    ensures
        m.on_outcome(outcome, elapsed).1 is Pause ==> m.on_outcome(outcome, elapsed).1->Pause_0
            <= RETRY_PAUSE,
{
}

/// Against a channel that only ever gives empty reads, a loop that waits
/// for the prompt stops once the allowed number of consecutive empty reads
/// is reached, if nothing stopped it before.
pub proof fn lemma_quiet_channel_ends_run(m: ReaderModel, rounds: Seq<Round>)
    requires
        m.wait_for_prompt,
        m.stopped is None,
        forall|i: int|
            0 <= i < rounds.len() ==> (#[trigger] rounds[i]).outcome is Bytes
                && rounds[i].outcome->Bytes_0@.len() == 0,
        m.empty_reads <= m.max_empty_reads,
        rounds.len() >= 1,
        rounds.len() >= m.max_empty_reads - m.empty_reads,
    ensures
        m.run(rounds).0.stopped is Some,
        m.run(rounds).1 <= 1 || m.run(rounds).1 <= m.max_empty_reads - m.empty_reads,
    decreases rounds.len(),
{
    let (polled, first) = m.poll(rounds[0].at_poll);
    if !(first is Finish) {
        let (fed, second) = polled.on_outcome(rounds[0].outcome, rounds[0].at_read);
        if !(second is Finish) {
            let rest = rounds.drop_first();
            assert(fed.empty_reads == m.empty_reads + 1);
            assert(fed.empty_reads < m.max_empty_reads);
            assert forall|i: int| 0 <= i < rest.len() implies (#[trigger] rest[i]).outcome is Bytes
                && rest[i].outcome->Bytes_0@.len() == 0 by {
                assert(rest[i] == rounds[i + 1]);
            }
            lemma_quiet_channel_ends_run(fed, rest);
        }
    }
}

} // verus!
