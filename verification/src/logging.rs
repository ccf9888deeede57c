//! Log capture: which records are kept, how they are turned into entries,
//! and the bounded history that the UI reads back.
//!
//! Every accepted record goes to the platform console, to a bounded ring
//! buffer readable with [`recent_logs`], and to the live stream of
//! [`LogHub`].

use vstd::prelude::*;

use crate::text::{chars_of, last_segment, last_segment_of, starts_with};

verus! {

/// Entries kept for [`recent_logs`]: a session's worth at `Info` level.
pub const BUFFER_CAPACITY: usize = 1000;

/// How far a slow live subscriber may lag behind; not history.
pub const BROADCAST_CAPACITY: usize = 512;

/// The severity of a record.
#[derive(Debug, Clone, Copy, PartialEq, Eq, Structural)]
pub enum Level {
    Error,
    Warn,
    Info,
    Debug,
    Trace,
}

/// A ceiling on the severities let through; `Off` lets nothing through.
#[derive(Debug, Clone, Copy, PartialEq, Eq, Structural)]
pub enum LevelFilter {
    Off,
    Error,
    Warn,
    Info,
    Debug,
    Trace,
}

/// The severity of an entry as the UI shows it.
#[derive(Debug, Clone, Copy, PartialEq, Eq, Structural)]
pub enum LogLevel {
    Error,
    Warning,
    Info,
    Debug,
}

/// The rank of a severity: `Error` is 1, `Trace` is 5.
pub open spec fn level_rank(level: Level) -> int {
    match level {
        Level::Error => 1,
        Level::Warn => 2,
        Level::Info => 3,
        Level::Debug => 4,
        Level::Trace => 5,
    }
}

/// The rank of a ceiling: `Off` is 0, `Trace` is 5.
pub open spec fn filter_rank(filter: LevelFilter) -> int {
    match filter {
        LevelFilter::Off => 0,
        LevelFilter::Error => 1,
        LevelFilter::Warn => 2,
        LevelFilter::Info => 3,
        LevelFilter::Debug => 4,
        LevelFilter::Trace => 5,
    }
}

/// `filter` lets records of severity `level` through.
pub open spec fn admits(filter: LevelFilter, level: Level) -> bool {
    level_rank(level) <= filter_rank(filter)
}

/// The verbosity before the user opts in: `Debug` in a debug build, `Info`
/// in a release build so that debug call sites cost nothing.
pub fn default_max_level(debug_build: bool) -> (r: LevelFilter)
    ensures
        r == (if debug_build {
            LevelFilter::Debug
        } else {
            LevelFilter::Info
        }),
{
    if debug_build {
        LevelFilter::Debug
    } else {
        LevelFilter::Info
    }
}

/// The global ceiling for the "logging enabled" setting.
pub fn verbose_max_level(enabled: bool, debug_build: bool) -> (r: LevelFilter)
    ensures
        r == verbose_max_level_spec(enabled, debug_build),
{
    if enabled {
        LevelFilter::Debug
    } else {
        default_max_level(debug_build)
    }
}

/// The global ceiling for the "logging enabled" setting: `Debug` when
/// enabled, the default verbosity otherwise.
pub open spec fn verbose_max_level_spec(enabled: bool, debug_build: bool) -> LevelFilter {
    if enabled {
        LevelFilter::Debug
    } else {
        default_max_level_spec(debug_build)
    }
}

/// The value of [`default_max_level`].
pub open spec fn default_max_level_spec(debug_build: bool) -> LevelFilter {
    if debug_build {
        LevelFilter::Debug
    } else {
        LevelFilter::Info
    }
}

/// Sets the process-wide ceiling of the `log` crate (`log::set_max_level`)
/// to `filter`, variant for variant, and returns the filter it installed:
/// `filter` itself. What the global holds afterwards is not stated, since
/// any thread may set it again.
#[verifier::external_body]
fn install_max_level(filter: LevelFilter) -> (installed: LevelFilter)
    ensures
        installed == filter,
{
    log::set_max_level(
        match filter {
            LevelFilter::Off => log::LevelFilter::Off,
            LevelFilter::Error => log::LevelFilter::Error,
            LevelFilter::Warn => log::LevelFilter::Warn,
            LevelFilter::Info => log::LevelFilter::Info,
            LevelFilter::Debug => log::LevelFilter::Debug,
            LevelFilter::Trace => log::LevelFilter::Trace,
        },
    );
    filter
}

/// Reads the process-wide ceiling of the `log` crate (`log::max_level`),
/// variant for variant. It is global state that any thread may change, so
/// nothing is stated of the value.
#[verifier::external_body]
fn installed_max_level() -> (r: LevelFilter) {
    match log::max_level() {
        log::LevelFilter::Off => LevelFilter::Off,
        log::LevelFilter::Error => LevelFilter::Error,
        log::LevelFilter::Warn => LevelFilter::Warn,
        log::LevelFilter::Info => LevelFilter::Info,
        log::LevelFilter::Debug => LevelFilter::Debug,
        log::LevelFilter::Trace => LevelFilter::Trace,
    }
}

/// Applies the "logging enabled" setting to the global ceiling: installs
/// `Debug` when enabled, [`default_max_level`] otherwise, and returns the
/// ceiling it installed.
pub fn set_verbose_logging(enabled: bool, debug_build: bool) -> (installed: LevelFilter)
    ensures
        installed == verbose_max_level_spec(enabled, debug_build),
{
    install_max_level(verbose_max_level(enabled, debug_build))
}

/// Dependency targets dropped at every level: the relay pool logs raw relay
/// messages verbatim at `Debug` and at `Error` alike, so no level ceiling
/// separates its diagnostics from its payloads.
pub open spec fn is_excluded_target(target: Seq<char>) -> bool {
    "nostr_relay_pool"@.is_prefix_of(target)
}

/// Whether records of `target` are dropped whatever their level.
pub fn is_excluded(target: &str) -> (r: bool)
    ensures
        r == is_excluded_target(target@),
{
    let excluded = chars_of("nostr_relay_pool");
    starts_with(&chars_of(target), &excluded)
}

/// The ceiling for records of `target` when the global ceiling is `global`:
/// `Off` for an excluded target, the global ceiling otherwise.
pub open spec fn ceiling(target: Seq<char>, global: LevelFilter) -> LevelFilter {
    if is_excluded_target(target) {
        LevelFilter::Off
    } else {
        global
    }
}

/// The per-target ceiling under the global ceiling `global`, never above it.
pub fn ceiling_for(target: &str, global: LevelFilter) -> (r: LevelFilter)
    ensures
        r == ceiling(target@, global),
{
    if is_excluded(target) {
        LevelFilter::Off
    } else {
        global
    }
}

/// The per-target ceiling under the global ceiling as it stands now.
pub fn max_level_for(target: &str) -> (r: LevelFilter)
    ensures
        exists|global: LevelFilter| r == ceiling(target@, global),
        is_excluded_target(target@) ==> r == LevelFilter::Off,
{
    ceiling_for(target, installed_max_level())
}

/// Whether a record of severity `level` from `target` is kept when the
/// global ceiling is `global`.
pub fn accepts(level: Level, target: &str, global: LevelFilter) -> (r: bool)
    ensures
        r == admits(ceiling(target@, global), level),
{
    let ceiling = ceiling_for(target, global);
    level_number(level) <= filter_number(ceiling)
}

/// Whether a record of severity `level` from `target` is kept under the
/// global ceiling as it stands now. Records of an excluded target never are.
pub fn enabled(level: Level, target: &str) -> (r: bool)
    ensures
        exists|global: LevelFilter| r == admits(ceiling(target@, global), level),
        is_excluded_target(target@) ==> !r,
{
    accepts(level, target, installed_max_level())
}

fn level_number(level: Level) -> (r: u8)
    ensures
        r == level_rank(level),
{
    match level {
        Level::Error => 1,
        Level::Warn => 2,
        Level::Info => 3,
        Level::Debug => 4,
        Level::Trace => 5,
    }
}

fn filter_number(filter: LevelFilter) -> (r: u8)
    ensures
        r == filter_rank(filter),
{
    match filter {
        LevelFilter::Off => 0,
        LevelFilter::Error => 1,
        LevelFilter::Warn => 2,
        LevelFilter::Info => 3,
        LevelFilter::Debug => 4,
        LevelFilter::Trace => 5,
    }
}

/// The UI severity of a record: `Trace` shows as `Debug`.
pub open spec fn entry_level_spec(level: Level) -> LogLevel {
    match level {
        Level::Error => LogLevel::Error,
        Level::Warn => LogLevel::Warning,
        Level::Info => LogLevel::Info,
        _ => LogLevel::Debug,
    }
}

/// The UI severity of a record, as [`entry_level_spec`] states it.
pub fn entry_level(level: Level) -> (r: LogLevel)
    ensures
        r == entry_level_spec(level),
{
    match level {
        Level::Error => LogLevel::Error,
        Level::Warn => LogLevel::Warning,
        Level::Info => LogLevel::Info,
        _ => LogLevel::Debug,
    }
}

/// Last segment of a log target, so `rust::nwc::client` displays as `client`.
pub fn short_tag(target: &str) -> (r: String)
    ensures
        r@ == last_segment(target@),
{
    last_segment_of(target)
}

/// A captured record.
#[derive(Debug, Clone)]
pub struct LogEntry {
    /// Position in the sequence of all entries of the process; how a
    /// consumer merging [`recent_logs`] with the live stream drops the overlap.
    pub id: u32,
    pub level: LogLevel,
    pub tag: String,
    pub message: String,
    /// Unix time of capture.
    pub timestamp: i64,
}

impl LogEntry {
    /// A field-by-field copy, equal to the original.
    pub fn duplicate(&self) -> (r: Self)
        ensures
            r == *self,
    {
        LogEntry {
            id: self.id,
            level: self.level,
            tag: self.tag.clone(),
            message: self.message.clone(),
            timestamp: self.timestamp,
        }
    }
}

/// The number of distinct entry ids.
pub open spec fn id_space() -> int {
    0x1_0000_0000
}

/// The history of captured entries, oldest first, holding at most
/// [`BUFFER_CAPACITY`] of them; the oldest is evicted to make room.
pub struct LogBuffer {
    entries: std::collections::VecDeque<LogEntry>,
    next_id: u32,
    issued: Ghost<nat>,
}

impl View for LogBuffer {
    type V = Seq<LogEntry>;

    /// The entries held, oldest first.
    closed spec fn view(&self) -> Seq<LogEntry> {
        self.entries@
    }
}

impl LogBuffer {
    /// The number of entries recorded since the buffer was created,
    /// evicted and cleared ones included.
    pub closed spec fn issued(&self) -> nat {
        self.issued@
    }

    /// The id the next entry will carry: [`Self::issued`] modulo 2^32.
    pub closed spec fn next_id(&self) -> u32 {
        self.next_id
    }

    /// The buffer is well formed: it holds at most [`BUFFER_CAPACITY`]
    /// entries, and they are the latest ones recorded, in order, so their ids
    /// run consecutively (modulo 2^32) up to the next id.
    pub closed spec fn wf(&self) -> bool {
        &&& self.entries@.len() <= BUFFER_CAPACITY
        &&& self.entries@.len() <= self.issued@
        &&& self.next_id == (self.issued@ as int) % id_space()
        &&& forall|i: int|
            0 <= i < self.entries@.len() ==> (#[trigger] self.entries@[i]).id == (self.issued@ as int
                - self.entries@.len() + i) % id_space()
    }

    /// What well-formedness says of the entries held: at most
    /// [`BUFFER_CAPACITY`] of them, the latest recorded, with consecutive ids.
    pub proof fn lemma_held_entries(&self)
        requires
            self.wf(),
        ensures
            self@.len() <= BUFFER_CAPACITY,
            self@.len() <= self.issued(),
            self.next_id() == (self.issued() as int) % id_space(),
            forall|i: int|
                0 <= i < self@.len() ==> (#[trigger] self@[i]).id == (self.issued() as int
                    - self@.len() + i) % id_space(),
    {
    }

    /// An empty buffer whose first entry will carry id 0.
    pub fn new() -> (r: Self)
        ensures
            r.wf(),
            r@ == Seq::<LogEntry>::empty(),
            r.issued() == 0,
            r.next_id() == 0,
    {
        LogBuffer {
            entries: std::collections::VecDeque::with_capacity(BUFFER_CAPACITY),
            next_id: 0,
            issued: Ghost(0),
        }
    }

    /// The number of entries held.
    pub fn len(&self) -> (r: usize)
        ensures
            r == self@.len(),
    {
        self.entries.len()
    }

    /// Appends the entry for a record captured at `timestamp`, evicting the
    /// oldest when the buffer is full, and returns it. The entry takes the
    /// next id; ids wrap around after 2^32 entries.
    pub fn record(&mut self, level: Level, target: &str, message: &str, timestamp: i64) -> (e:
        LogEntry)
        requires
            old(self).wf(),
        ensures
            final(self).wf(),
            e.id == old(self).next_id(),
            e.level == entry_level_spec(level),
            e.tag@ == last_segment(target@),
            e.message@ == message@,
            e.timestamp == timestamp,
            final(self)@ == kept_before_push(old(self)@).push(e),
            final(self).issued() == old(self).issued() + 1,
            final(self).next_id() == (old(self).next_id() + 1) % id_space(),
    {
        let entry = LogEntry {
            id: self.next_id,
            level: entry_level(level),
            tag: short_tag(target),
            message: String::from_str(message),
            timestamp,
        };
        let ghost before = self.entries@;
        if self.entries.len() >= BUFFER_CAPACITY {
            self.entries.pop_front();
            assert(self.entries@ =~= kept_before_push(before));
        }
        self.entries.push_back(entry.duplicate());
        self.next_id = if self.next_id == u32::MAX {
            0
        } else {
            self.next_id + 1
        };
        self.issued = Ghost(self.issued@ + 1);
        proof {
            let n = self.entries@.len();
            assert forall|i: int| 0 <= i < n implies (#[trigger] self.entries@[i]).id == (
            self.issued@ - n + i) % id_space() by {
                if i < n - 1 {
                    let j = if before.len() >= BUFFER_CAPACITY { i + 1 } else { i };
                    assert(self.entries@[i] == before[j]);
                }
            }
        }
        entry
    }

    /// The entries held, newest first.
    pub fn newest_first(&self) -> (r: Vec<LogEntry>)
        ensures
            r@ == self@.reverse(),
    {
        let mut r: Vec<LogEntry> = Vec::new();
        let n = self.entries.len();
        let mut i = n;
        while i > 0
            invariant
                i <= n,
                n == self.entries@.len(),
                r@ == self.entries@.subrange(i as int, n as int).reverse(),
            decreases i,
        {
            i -= 1;
            r.push(self.entries[i].duplicate());
            assert(r@ =~= self.entries@.subrange(i as int, n as int).reverse());
        }
        assert(self.entries@.subrange(0, n as int) =~= self.entries@);
        r
    }

    /// Drops every entry held; ids keep counting from where they were.
    pub fn clear(&mut self)
        requires
            old(self).wf(),
        ensures
            final(self).wf(),
            final(self)@ == Seq::<LogEntry>::empty(),
            final(self).issued() == old(self).issued(),
            final(self).next_id() == old(self).next_id(),
    {
        self.entries.clear();
    }
}

/// The entries that stay when one more is appended to `held`: all of them,
/// or all but the oldest when the buffer is full.
pub open spec fn kept_before_push(held: Seq<LogEntry>) -> Seq<LogEntry> {
    if held.len() >= BUFFER_CAPACITY {
        held.subrange(held.len() - (BUFFER_CAPACITY - 1), held.len() as int)
    } else {
        held
    }
}

/// The history after appending the entries `appended`, oldest first, to a
/// history holding `held`, one record at a time.
pub open spec fn history_after(held: Seq<LogEntry>, appended: Seq<LogEntry>) -> Seq<LogEntry>
    decreases appended.len(),
{
    if appended.len() == 0 {
        held
    } else {
        kept_before_push(history_after(held, appended.drop_last())).push(appended.last())
    }
}

/// The last `n` elements of `s`, or all of them when there are fewer.
pub open spec fn latest(s: Seq<LogEntry>, n: int) -> Seq<LogEntry> {
    if s.len() <= n {
        s
    } else {
        s.subrange(s.len() - n, s.len() as int)
    }
}

/// Snapshot of the buffered history, newest first.
///
/// Ids increase along the history: subscribe to the live stream first,
/// snapshot second, and drop streamed entries the snapshot already holds.
pub fn recent_logs(buffer: &LogBuffer) -> (r: Vec<LogEntry>)
    ensures
        r@ == buffer@.reverse(),
{
    buffer.newest_first()
}

/// Drops the buffered history: log lines can name orders and counterparties,
/// so anything that wipes the user's identity should call this too.
pub fn clear_logs(buffer: &mut LogBuffer)
    requires
        old(buffer).wf(),
    ensures
        final(buffer).wf(),
        final(buffer)@ == Seq::<LogEntry>::empty(),
        final(buffer).next_id() == old(buffer).next_id(),
        final(buffer).issued() == old(buffer).issued(),
{
    buffer.clear();
}

/// Appends the entry for a record captured at `timestamp` to `buffer`,
/// evicting the oldest when full, and returns it; see [`LogBuffer::record`].
pub fn buffer_entry(
    buffer: &mut LogBuffer,
    level: Level,
    target: &str,
    message: &str,
    timestamp: i64,
) -> (e: LogEntry)
    requires
        old(buffer).wf(),
    ensures
        final(buffer).wf(),
        e.id == old(buffer).next_id(),
        e.level == entry_level_spec(level),
        e.tag@ == last_segment(target@),
        e.message@ == message@,
        e.timestamp == timestamp,
        final(buffer)@ == kept_before_push(old(buffer)@).push(e),
        final(buffer).issued() == old(buffer).issued() + 1,
        final(buffer).next_id() == (old(buffer).next_id() + 1) % id_space(),
{
    buffer.record(level, target, message, timestamp)
}

/// The live stream's sending half, from tokio.
#[verifier::external_type_specification]
#[verifier::external_body]
#[verifier::reject_recursive_types(T)]
pub struct ExBroadcastSender<T>(tokio::sync::broadcast::Sender<T>);

/// The number of slots in the buffer of a live stream: how many entries a
/// subscriber may lag behind before it starts missing some.
pub uninterp spec fn live_capacity(live: tokio::sync::broadcast::Sender<LogEntry>) -> nat;

/// The entries handed to `Sender::send` through a live stream since it was
/// opened, oldest first.
pub uninterp spec fn sent_entries(live: tokio::sync::broadcast::Sender<LogEntry>) -> Seq<LogEntry>;

/// Opens the live stream (`tokio::sync::broadcast::Sender::new`), with
/// nothing sent yet. tokio rounds the capacity asked for up to a power of
/// two, so the buffer has at least `capacity` slots and fewer than twice as
/// many; it panics on a capacity of 0 or above `usize::MAX / 2`, which the
/// `requires` leaves out.
#[verifier::external_body]
fn open_live_stream(capacity: usize) -> (r: tokio::sync::broadcast::Sender<LogEntry>)
    requires
        0 < capacity <= usize::MAX / 2,
    ensures
        capacity <= live_capacity(r) < 2 * capacity,
        sent_entries(r) == Seq::<LogEntry>::empty(),
{
    tokio::sync::broadcast::Sender::new(capacity)
}

/// Sends `entry` to the live subscribers (`Sender::send`): `entry` joins the
/// entries sent through `live`, and the buffer keeps its size. Whether any
/// subscriber receives it depends on the subscribers of the moment (the send
/// fails when there are none, which the history covers), so that is not
/// stated.
#[verifier::external_body]
fn publish(live: &mut tokio::sync::broadcast::Sender<LogEntry>, entry: LogEntry)
    ensures
        sent_entries(*final(live)) == sent_entries(*old(live)).push(entry),
        live_capacity(*final(live)) == live_capacity(*old(live)),
{
    let _ = live.send(entry);
}

/// The history of captured entries together with the live stream that
/// every new entry is also sent to.
pub struct LogHub {
    history: LogBuffer,
    live: tokio::sync::broadcast::Sender<LogEntry>,
}

impl LogHub {
    /// An empty history and a live stream with room for
    /// [`BROADCAST_CAPACITY`] unread entries per subscriber, nothing sent yet.
    pub fn new() -> (r: Self)
        ensures
            r.history().wf(),
            r.history()@ == Seq::<LogEntry>::empty(),
            r.history().next_id() == 0,
            sent_entries(r.live_stream()) == Seq::<LogEntry>::empty(),
            BROADCAST_CAPACITY <= live_capacity(r.live_stream()) < 2 * BROADCAST_CAPACITY,
    {
        LogHub { history: LogBuffer::new(), live: open_live_stream(BROADCAST_CAPACITY) }
    }

    /// The buffered history.
    pub closed spec fn history(&self) -> LogBuffer {
        self.history
    }

    /// The sending half of the live stream that new entries are published to.
    pub closed spec fn live_stream(&self) -> tokio::sync::broadcast::Sender<LogEntry> {
        self.live
    }

    /// The buffered history.
    pub fn buffer(&self) -> (r: &LogBuffer)
        ensures
            *r == self.history(),
    {
        &self.history
    }

    /// The buffered history, for clearing.
    pub fn buffer_mut(&mut self) -> (r: &mut LogBuffer)
        ensures
            *r == old(self).history(),
            final(self).history() == *final(r),
            final(self).live_stream() == old(self).live_stream(),
    {
        &mut self.history
    }

    /// The sending half of the live stream, for subscribing.
    pub fn live(&self) -> (r: &tokio::sync::broadcast::Sender<LogEntry>)
        ensures
            *r == self.live_stream(),
    {
        &self.live
    }
}

/// Records an entry captured at `timestamp` into the history and sends that
/// same entry on the live stream.
pub fn forward_log(hub: &mut LogHub, level: Level, target: &str, message: &str, timestamp: i64)
    requires
        old(hub).history().wf(),
    ensures
        final(hub).history().wf(),
        ({
            let e = final(hub).history()@.last();
            &&& e.id == old(hub).history().next_id()
            &&& e.level == entry_level_spec(level)
            &&& e.tag@ == last_segment(target@)
            &&& e.message@ == message@
            &&& e.timestamp == timestamp
            &&& final(hub).history()@ == kept_before_push(old(hub).history()@).push(e)
            &&& sent_entries(final(hub).live_stream()) == sent_entries(old(hub).live_stream()).push(
                e,
            )
        }),
        final(hub).history().issued() == old(hub).history().issued() + 1,
        final(hub).history().next_id() == (old(hub).history().next_id() + 1) % id_space(),
        live_capacity(final(hub).live_stream()) == live_capacity(old(hub).live_stream()),
{
    let entry = hub.history.record(level, target, message, timestamp);
    publish(&mut hub.live, entry);
}

/// The decimal digit `d`, for `0 <= d < 10`.
pub open spec fn digit(d: int) -> char {
    "0123456789"@[d]
}

/// `n` in two decimal digits, for `0 <= n < 100`: `7` gives `07`.
pub open spec fn two_digits(n: int) -> Seq<char> {
    seq![digit(n / 10), digit(n % 10)]
}

/// The name of a severity, padded to five characters.
pub open spec fn level_label(level: Level) -> Seq<char> {
    match level {
        Level::Error => "ERROR"@,
        Level::Warn => "WARN "@,
        Level::Info => "INFO "@,
        Level::Debug => "DEBUG"@,
        Level::Trace => "TRACE"@,
    }
}

/// Integer division rounding toward zero, as `/` on Rust integers.
pub open spec fn quot(a: int, b: int) -> int {
    if a >= 0 {
        a / b
    } else {
        -((-a) / b)
    }
}

/// The remainder that takes the sign of the dividend, as `%` on Rust integers.
pub open spec fn rem(a: int, b: int) -> int {
    a - b * quot(a, b)
}

/// `n` as the format `{:02}` prints it, for `-100 < n < 100`: two digits
/// when `n` is not negative (`7` gives `07`), otherwise a minus sign and the
/// digits of `-n` (`-7` gives `-7`, `-17` gives `-17`).
pub open spec fn padded_two(n: int) -> Seq<char> {
    if n >= 0 {
        two_digits(n)
    } else if n > -10 {
        seq!['-', digit(-n)]
    } else {
        seq!['-'] + two_digits(-n)
    }
}

/// The console line for a record captured at Unix time `secs`: the UTC time
/// of day, the padded severity, the target and the message, as in
/// `09:05:03Z [WARN ] nwc::client: relay lost`. The time of day is
/// `(secs / 3600) % 24`, `(secs / 60) % 60` and `secs % 60` in Rust's integer
/// arithmetic, so a time before the epoch shows negative fields.
pub open spec fn console_line_spec(secs: int, level: Level, target: Seq<char>, message: Seq<char>) -> Seq<char> {
    padded_two(rem(quot(secs, 3600), 24)) + ":"@ + padded_two(rem(quot(secs, 60), 60)) + ":"@
        + padded_two(rem(secs, 60)) + "Z ["@ + level_label(level) + "] "@ + target + ": "@
        + message
}

/// The time-of-day fields of `secs` and of `-secs` share their magnitudes.
proof fn lemma_clock_fields(m: int)
    requires
        0 <= m,
    ensures
        rem(quot(m, 3600), 24) == (m / 3600) % 24,
        rem(quot(m, 60), 60) == (m / 60) % 60,
        rem(m, 60) == m % 60,
        rem(quot(-m, 3600), 24) == -((m / 3600) % 24),
        rem(quot(-m, 60), 60) == -((m / 60) % 60),
        rem(-m, 60) == -(m % 60),
{
    let h = m / 3600;
    let mi = m / 60;
    assert(h >= 0 && mi >= 0);
    assert(rem(h, 24) == h % 24);
    assert(rem(mi, 60) == mi % 60);
    assert(rem(m, 60) == m % 60);
    if m > 0 {
        assert(quot(-m, 3600) == -h);
        assert(quot(-m, 60) == -mi);
        assert(rem(-m, 60) == -(m % 60));
        if h > 0 {
            assert(quot(-h, 24) == -(h / 24));
            assert(rem(-h, 24) == -(h % 24));
        }
        if mi > 0 {
            assert(quot(-mi, 60) == -(mi / 60));
            assert(rem(-mi, 60) == -(mi % 60));
        }
    }
}

fn two_digit_text(n: u64) -> (r: String)
    requires
        n < 100,
    ensures
        r@ == two_digits(n as int),
{
    let digits = "0123456789";
    proof {
        reveal_strlit("0123456789");
    }
    let tens = (n / 10) as usize;
    let units = (n % 10) as usize;
    let mut r = String::from_str(digits.substring_char(tens, tens + 1));
    r.append(digits.substring_char(units, units + 1));
    assert(r@ =~= two_digits(n as int));
    r
}

fn level_label_text(level: Level) -> (r: &'static str)
    ensures
        r@ == level_label(level),
{
    match level {
        Level::Error => "ERROR",
        Level::Warn => "WARN ",
        Level::Info => "INFO ",
        Level::Debug => "DEBUG",
        Level::Trace => "TRACE",
    }
}

/// A time-of-day field printed as `{:02}` does: `magnitude` with a minus
/// sign in front when `negative` and not zero.
fn field_text(magnitude: u64, negative: bool) -> (r: String)
    requires
        magnitude < 100,
    ensures
        r@ == padded_two(if negative {
            -(magnitude as int)
        } else {
            magnitude as int
        }),
{
    if !negative || magnitude == 0 {
        two_digit_text(magnitude)
    } else {
        let mut r = String::from_str("-");
        proof {
            reveal_strlit("-");
        }
        if magnitude < 10 {
            let digits = "0123456789";
            proof {
                reveal_strlit("0123456789");
            }
            let d = magnitude as usize;
            r.append(digits.substring_char(d, d + 1));
            assert(r@ =~= padded_two(-(magnitude as int)));
        } else {
            let t = two_digit_text(magnitude);
            r.append(t.as_str());
            assert(r@ =~= padded_two(-(magnitude as int)));
        }
        r
    }
}

/// The console line for a record captured at Unix time `secs`, as
/// [`console_line_spec`] states it.
pub fn console_line(secs: i64, level: Level, target: &str, message: &str) -> (r: String)
    ensures
        r@ == console_line_spec(secs as int, level, target@, message@),
{
    let negative = secs < 0;
    let m: u64 = if negative {
        ((-(secs + 1)) as u64) + 1
    } else {
        secs as u64
    };
    proof {
        lemma_clock_fields(m as int);
        assert(secs as int == if negative { -(m as int) } else { m as int });
    }
    let mut r = field_text((m / 3600) % 24, negative);
    r.append(":");
    r.append(field_text((m / 60) % 60, negative).as_str());
    r.append(":");
    r.append(field_text(m % 60, negative).as_str());
    r.append("Z [");
    r.append(level_label_text(level));
    r.append("] ");
    r.append(target);
    r.append(": ");
    r.append(message);
    r
}

/// The browser console line for a record: the target and the message, as
/// in `nwc::client: relay lost`; the console shows the time and severity.
pub fn web_console_line(target: &str, message: &str) -> (r: String)
    ensures
        r@ == target@ + ": "@ + message@,
{
    let mut r = String::from_str(target);
    r.append(": ");
    r.append(message);
    r
}

} // verus!
