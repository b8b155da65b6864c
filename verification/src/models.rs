//! The model library's records: a model's configuration and the entries of
//! the log panel, with the identifiers and clock stamps they carry.

use vstd::prelude::*;
use crate::text::{digit_char, push_char, push_radix, push_two_digits, radix_digits, two_digits};
use rand::Rng;

verus! {

/// The configuration of one model (without its process).
#[derive(Debug)]
pub struct ModelConfig {
    /// Unique identifier.
    pub id: String,
    /// Name shown on the model's card.
    pub name: String,
    /// Description shown on the model's card.
    pub description: String,
    /// The launch arguments, as one line.
    pub args: String,
}

/// What a model's configuration says: the text of its four fields.
pub struct ModelView {
    pub id: Seq<char>,
    pub name: Seq<char>,
    pub description: Seq<char>,
    pub args: Seq<char>,
}

impl View for ModelConfig {
    type V = ModelView;

    open spec fn view(&self) -> ModelView {
        ModelView { id: self.id@, name: self.name@, description: self.description@, args: self.args@ }
    }
}

/// What a list of model configurations says, in order.
pub open spec fn models_view(models: Seq<ModelConfig>) -> Seq<ModelView> {
    models.map_values(|m: ModelConfig| m@)
}

impl Clone for ModelConfig {
    fn clone(&self) -> (copy: Self)
        ensures
            copy == *self,
    {
        ModelConfig {
            id: self.id.clone(),
            name: self.name.clone(),
            description: self.description.clone(),
            args: self.args.clone(),
        }
    }
}

/// The identifier built from a clock reading and a random number: both in
/// lower-case hexadecimal, without leading zeros, one after the other.
pub open spec fn spec_unique_id(timestamp: u64, random: u64) -> Seq<char> {
    radix_digits(timestamp as nat, 16) + radix_digits(random as nat, 16)
}

/// Nanoseconds since the Unix epoch, cut to their low 64 bits.
/// Calls `SystemTime::now` and measures from `UNIX_EPOCH`; a clock set
/// before the epoch reads as zero. The reading depends on the time, so
/// nothing is said of it.
#[verifier::external_body]
fn clock_nanos() -> u64 {
    std::time::SystemTime::now().duration_since(std::time::UNIX_EPOCH).unwrap_or_default().as_nanos() as u64
}

/// A random 64-bit number.
/// Calls `Rng::gen` on `rand::thread_rng()`; the value depends on chance, so
/// nothing is said of it.
#[verifier::external_body]
fn random_u64() -> u64 {
    rand::thread_rng().gen::<u64>()
}

/// Seconds since the Unix epoch (zero for a clock set before it).
/// Calls `SystemTime::now` and measures from `UNIX_EPOCH`; the reading
/// depends on the time, so nothing is said of it.
#[verifier::external_body]
fn clock_secs() -> u64 {
    std::time::SystemTime::now().duration_since(std::time::UNIX_EPOCH).unwrap_or_default().as_secs()
}

/// Renders a clock reading and a random number as an identifier.
pub fn unique_id_from(timestamp: u64, random: u64) -> (id: String)
    ensures
        id@ == spec_unique_id(timestamp, random),
{
    let mut id = String::new();
    push_radix(&mut id, timestamp, 16);
    push_radix(&mut id, random, 16);
    id
}

impl ModelConfig {
    /// Generates a new identifier from the current time and a random number.
    pub fn new_unique_id() -> (id: String)
        ensures
            exists|timestamp: u64, random: u64| id@ == spec_unique_id(timestamp, random),
    {
        let timestamp = clock_nanos();
        let random = random_u64();
        unique_id_from(timestamp, random)
    }
}

/// The time of day `secs` seconds after the Unix epoch, in UTC, as
/// `HH:MM:SS`.
pub open spec fn clock_text(secs: nat) -> Seq<char> {
    two_digits((secs / 3600) % 24) + seq![':'] + two_digits((secs % 3600) / 60) + seq![':'] + two_digits(secs % 60)
}

/// Renders the time of day of a clock reading as `HH:MM:SS`.
pub fn hhmmss_from_secs(secs: u64) -> (text: String)
    ensures
        text@ == clock_text(secs as nat),
{
    let mut text = String::new();
    push_two_digits(&mut text, (secs / 3600) % 24);
    push_char(&mut text, ':');
    push_two_digits(&mut text, (secs % 3600) / 60);
    push_char(&mut text, ':');
    push_two_digits(&mut text, secs % 60);
    text
}

/// The current time of day by the system clock, in UTC, `HH:MM:SS` (the
/// launcher stamps its log lines with the local time instead; see
/// `LogEntry::stamped`).
pub fn local_hhmmss() -> (text: String)
    ensures
        exists|secs: u64| text@ == clock_text(secs as nat),
{
    let secs = clock_secs();
    hhmmss_from_secs(secs)
}

/// Whether `c` is a decimal digit.
pub open spec fn is_digit_char(c: char) -> bool {
    '0' <= c && c <= '9'
}

/// Every time stamp reads `HH:MM:SS`: eight characters, colons at the
/// third and sixth place, decimal digits elsewhere, the hour below 24 and
/// minutes and seconds below 60.
pub proof fn law_clock_text_shape(secs: nat)
    ensures
        clock_text(secs).len() == 8,
        clock_text(secs)[2] == ':',
        clock_text(secs)[5] == ':',
        forall|i: int| 0 <= i < 8 && i != 2 && i != 5 ==> is_digit_char(#[trigger] clock_text(secs)[i]),
        clock_text(secs)[0] <= '2',
        clock_text(secs)[3] <= '5',
        clock_text(secs)[6] <= '5',
{
    let h = (secs / 3600) % 24;
    let m = (secs % 3600) / 60;
    let s = secs % 60;
    assert(h < 24 && m < 60 && s < 60);
    let t = clock_text(secs);
    assert(t =~= seq![digit_char(h / 10), digit_char(h % 10), ':', digit_char(m / 10), digit_char(m % 10), ':',
        digit_char(s / 10), digit_char(s % 10)]);
}

/// A log entry with its time stamp.
#[derive(Debug, Clone)]
pub struct LogEntry {
    /// Time stamp, `HH:MM:SS`.
    pub timestamp: String,
    /// The text the process wrote.
    pub message: String,
}

/// The line shown for an entry: `[HH:MM:SS] message`.
pub open spec fn spec_display_line(timestamp: Seq<char>, message: Seq<char>) -> Seq<char> {
    seq!['['] + timestamp + seq![']', ' '] + message
}

impl LogEntry {
    /// Creates an entry stamped with the current UTC time of day.
    pub fn new(message: String) -> (entry: Self)
        ensures
            entry.message == message,
            exists|secs: u64| entry.timestamp@ == clock_text(secs as nat),
    {
        LogEntry { timestamp: local_hhmmss(), message }
    }

    /// Creates an entry stamped with the time of day of the clock reading
    /// `clock` (seconds; only their remainder modulo a day matters).
    pub fn stamped(message: String, clock: u64) -> (entry: Self)
        ensures
            entry.message == message,
            entry.timestamp@ == clock_text(clock as nat),
    {
        LogEntry { timestamp: hhmmss_from_secs(clock), message }
    }

    /// The fully formatted line shown in the log panel.
    pub fn display_line(&self) -> (line: String)
        ensures
            line@ == spec_display_line(self.timestamp@, self.message@),
    {
        let mut line = String::new();
        push_char(&mut line, '[');
        line.append(self.timestamp.as_str());
        push_char(&mut line, ']');
        push_char(&mut line, ' ');
        line.append(self.message.as_str());
        assert(line@ =~= spec_display_line(self.timestamp@, self.message@));
        line
    }
}

} // verus!
