//! The gateway: when to send an update, what an update holds, and the
//! status it serves to whoever asks.
use vstd::prelude::*;
use crate::scan::{age_secs, spec_age_secs};

verus! {

/// Time between two updates, in microseconds (six minutes).
pub const TIME_BETWEEN_UPDATES: u64 = 360_000_000;

/// Updates closer together than this (ten seconds) are skipped.
pub const MIN_TIME_BETWEEN_UPDATES: u64 = 10_000_000;

/// Battery level reported until it is measured.
pub const REPORTED_BATTERY_LEVEL: u8 = 100;

/// How long is left until the next update is due, `elapsed` microseconds
/// after the last one; zero once it is due.
pub open spec fn spec_time_until_update(elapsed: u64) -> u64 {
    if elapsed <= TIME_BETWEEN_UPDATES { (TIME_BETWEEN_UPDATES - elapsed) as u64 } else { 0 }
}

pub fn time_until_update(elapsed: u64) -> (wait: u64)
    ensures
        wait == spec_time_until_update(elapsed),
{
    match TIME_BETWEEN_UPDATES.checked_sub(elapsed) {
        Some(d) => d,
        None => 0,
    }
}

/// Whether the gateway waits (for the button, or a timeout) before the next
/// update: only while the update is not yet due.
pub fn should_wait_before_update(elapsed: u64) -> (wait: bool)
    ensures
        wait == (spec_time_until_update(elapsed) > 0),
        wait == (elapsed < TIME_BETWEEN_UPDATES),
{
    time_until_update(elapsed) > 0
}

/// Whether an update `elapsed` microseconds after the last one comes too
/// soon and is skipped.
pub fn update_too_soon(elapsed: u64) -> (skip: bool)
    ensures
        skip == (elapsed < MIN_TIME_BETWEEN_UPDATES),
{
    elapsed < MIN_TIME_BETWEEN_UPDATES
}

/// What the gateway is doing, as its LED shows it.
#[derive(Debug, Clone, Copy, PartialEq, Eq)]
pub enum Phase {
    /// Waiting for the next update to be due.
    Waiting,
    /// Acquiring a GNSS fix.
    Locating,
    /// Acquiring a GNSS fix after at least one attempt failed.
    RetryingLocation,
    /// Receiving the tags from the scanner.
    ReceivingTags,
    /// Bringing the cellular network up.
    EnablingNetwork,
    /// Sending the update.
    Sending,
}

/// Which of the red, green and blue LEDs are lit.
#[derive(Debug, Clone, Copy, PartialEq, Eq)]
pub struct LedColour {
    pub red: bool,
    pub green: bool,
    pub blue: bool,
}

/// The colour of a phase: blue while waiting, cyan while locating, yellow
/// once locating failed, purple while receiving tags, white while the
/// network comes up, green while sending.
pub open spec fn spec_led_colour(phase: Phase) -> LedColour {
    match phase {
        Phase::Waiting => LedColour { red: false, green: false, blue: true },
        Phase::Locating => LedColour { red: false, green: true, blue: true },
        Phase::RetryingLocation => LedColour { red: true, green: true, blue: false },
        Phase::ReceivingTags => LedColour { red: true, green: false, blue: true },
        Phase::EnablingNetwork => LedColour { red: true, green: true, blue: true },
        Phase::Sending => LedColour { red: false, green: true, blue: false },
    }
}

pub fn led_colour(phase: Phase) -> (c: LedColour)
    ensures
        c == spec_led_colour(phase),
{
    match phase {
        Phase::Waiting => LedColour { red: false, green: false, blue: true },
        Phase::Locating => LedColour { red: false, green: true, blue: true },
        Phase::RetryingLocation => LedColour { red: true, green: true, blue: false },
        Phase::ReceivingTags => LedColour { red: true, green: false, blue: true },
        Phase::EnablingNetwork => LedColour { red: true, green: true, blue: true },
        Phase::Sending => LedColour { red: false, green: true, blue: false },
    }
}

/// Every phase shows a different colour.
pub proof fn lemma_phase_colours_distinct(a: Phase, b: Phase)
    requires
        a != b,
    ensures
        spec_led_colour(a) != spec_led_colour(b),
{
}

/// How long the gateway waits for the button before it updates anyway
/// (microseconds, six minutes).
pub const TRIGGER_TIMEOUT: u64 = 360_000_000;

/// Where the gateway stands in its update cycle.
#[derive(Debug, Clone, Copy, PartialEq, Eq)]
pub enum UpdateStage {
    /// At the start of a cycle.
    Idle,
    /// Waiting for the button or the timeout.
    AwaitingTrigger,
    /// Acquiring a GNSS fix.
    Locating,
    /// Acquiring a GNSS fix after an attempt failed.
    RetryingLocation,
    /// Receiving the tags from the scanner.
    ReceivingTags,
    /// Bringing the cellular network up.
    EnablingNetwork,
    /// Building and posting the update.
    Sending,
}

/// What happened, as the gateway reports it to its update cycle. Times are
/// in microseconds.
#[derive(Debug, Clone, Copy, PartialEq, Eq)]
pub enum UpdateEvent {
    /// A cycle starts.
    Start { now: u64 },
    /// The button was pressed or the timeout ran out.
    WaitOver { now: u64 },
    /// An attempt at a GNSS fix ended.
    LocationAttempt { found: bool },
    /// The scanner's tags were received and decoded.
    TagsDecoded { now: u64 },
    /// The cellular network is up.
    NetworkUp { now: u64 },
    /// The update could not be serialized, so nothing was posted.
    SerializeFailed,
    /// The update was posted, whatever the backend answered.
    Posted { now: u64 },
}

/// What the gateway does next.
#[derive(Debug, Clone, Copy, PartialEq, Eq)]
pub enum UpdateAction {
    /// Wait for the button, or for `timeout` microseconds; then `WaitOver`.
    WaitForTrigger { timeout: u64 },
    /// Start a new cycle; then `Start`.
    Restart,
    /// Switch the modem off and try for a GNSS fix; then `LocationAttempt`.
    AcquireLocation,
    /// Ask the scanner for its tags; then `TagsDecoded`.
    ReceiveTags,
    /// Bring the cellular network up; then `NetworkUp`.
    EnableNetwork,
    /// Make the tags `tag_age` seconds older, build the update, serialize
    /// and post it, and switch the modem off; then `Posted` or
    /// `SerializeFailed`.
    SendUpdate { tag_age: u16 },
    /// The event does not belong to the current stage; nothing changes.
    Ignore,
}

/// The gateway's update cycle.
#[derive(Debug, Clone, Copy, PartialEq, Eq)]
pub struct UpdateCycle {
    pub stage: UpdateStage,
    /// When the last update was posted (0 before the first).
    pub last_update: u64,
    /// When this cycle passed its check that updates are far enough apart.
    pub cleared_at: u64,
    /// When the tags of this cycle were decoded.
    pub decoded_at: u64,
}

/// The LED phase of a stage.
pub open spec fn spec_stage_phase(stage: UpdateStage) -> Phase {
    match stage {
        UpdateStage::Idle => Phase::Waiting,
        UpdateStage::AwaitingTrigger => Phase::Waiting,
        UpdateStage::Locating => Phase::Locating,
        UpdateStage::RetryingLocation => Phase::RetryingLocation,
        UpdateStage::ReceivingTags => Phase::ReceivingTags,
        UpdateStage::EnablingNetwork => Phase::EnablingNetwork,
        UpdateStage::Sending => Phase::Sending,
    }
}

/// The events whose times the cycle subtracts come no earlier than the
/// times they are measured from.
pub open spec fn step_times_ok(c: UpdateCycle, e: UpdateEvent) -> bool {
    match (c.stage, e) {
        (UpdateStage::Idle, UpdateEvent::Start { now }) => now >= c.last_update,
        (UpdateStage::AwaitingTrigger, UpdateEvent::WaitOver { now }) => now >= c.last_update,
        (UpdateStage::EnablingNetwork, UpdateEvent::NetworkUp { now }) => now >= c.decoded_at,
        _ => true,
    }
}

/// The cycle after a spacing check passed at `now`: on to the fix.
pub open spec fn spec_cleared(c: UpdateCycle, now: u64) -> (UpdateCycle, UpdateAction) {
    (UpdateCycle { stage: UpdateStage::Locating, cleared_at: now, ..c }, UpdateAction::AcquireLocation)
}

/// One step of the update cycle: the cycle after an event, and what to do
/// next. A cycle waits for the button (or the timeout) while the next
/// update is not due; goes on only when the last update was posted at least
/// `MIN_TIME_BETWEEN_UPDATES` before; retries the fix until one is found;
/// ages the tags by the time since they were decoded; and takes the time of
/// posting as the time of the last update, whatever the backend answered,
/// but keeps it when nothing could be posted.
pub open spec fn spec_update_step(c: UpdateCycle, e: UpdateEvent) -> (UpdateCycle, UpdateAction) {
    match (c.stage, e) {
        (UpdateStage::Idle, UpdateEvent::Start { now }) => {
            if now - c.last_update < TIME_BETWEEN_UPDATES {
                (UpdateCycle { stage: UpdateStage::AwaitingTrigger, ..c }, UpdateAction::WaitForTrigger { timeout: TRIGGER_TIMEOUT })
            } else {
                spec_cleared(c, now)
            }
        },
        (UpdateStage::AwaitingTrigger, UpdateEvent::WaitOver { now }) => {
            if now - c.last_update < MIN_TIME_BETWEEN_UPDATES {
                (UpdateCycle { stage: UpdateStage::Idle, ..c }, UpdateAction::Restart)
            } else {
                spec_cleared(c, now)
            }
        },
        (UpdateStage::Locating, UpdateEvent::LocationAttempt { found }) => {
            if found {
                (UpdateCycle { stage: UpdateStage::ReceivingTags, ..c }, UpdateAction::ReceiveTags)
            } else {
                (UpdateCycle { stage: UpdateStage::RetryingLocation, ..c }, UpdateAction::AcquireLocation)
            }
        },
        (UpdateStage::RetryingLocation, UpdateEvent::LocationAttempt { found }) => {
            if found {
                (UpdateCycle { stage: UpdateStage::ReceivingTags, ..c }, UpdateAction::ReceiveTags)
            } else {
                (c, UpdateAction::AcquireLocation)
            }
        },
        (UpdateStage::ReceivingTags, UpdateEvent::TagsDecoded { now }) => {
            (UpdateCycle { stage: UpdateStage::EnablingNetwork, decoded_at: now, ..c }, UpdateAction::EnableNetwork)
        },
        (UpdateStage::EnablingNetwork, UpdateEvent::NetworkUp { now }) => {
            (UpdateCycle { stage: UpdateStage::Sending, ..c }, UpdateAction::SendUpdate { tag_age: spec_age_secs(now, c.decoded_at) })
        },
        (UpdateStage::Sending, UpdateEvent::SerializeFailed) => {
            (UpdateCycle { stage: UpdateStage::Idle, ..c }, UpdateAction::Restart)
        },
        (UpdateStage::Sending, UpdateEvent::Posted { now }) => {
            (UpdateCycle { stage: UpdateStage::Idle, last_update: now, ..c }, UpdateAction::Restart)
        },
        _ => (c, UpdateAction::Ignore),
    }
}

/// Between its spacing check and its post, a cycle remembers a check that
/// came at least `MIN_TIME_BETWEEN_UPDATES` after the last post.
pub open spec fn cycle_inv(c: UpdateCycle) -> bool {
    c.stage != UpdateStage::Idle && c.stage != UpdateStage::AwaitingTrigger
        ==> c.cleared_at >= c.last_update + MIN_TIME_BETWEEN_UPDATES
}

impl UpdateCycle {
    /// A cycle about to start, no update posted yet.
    pub fn new() -> (c: UpdateCycle)
        ensures
            c.stage == UpdateStage::Idle,
            c.last_update == 0,
            c.cleared_at == 0,
            c.decoded_at == 0,
    {
        UpdateCycle { stage: UpdateStage::Idle, last_update: 0, cleared_at: 0, decoded_at: 0 }
    }

    /// The LED phase of the cycle.
    pub fn phase(&self) -> (p: Phase)
        ensures
            p == spec_stage_phase(self.stage),
    {
        match self.stage {
            UpdateStage::Idle => Phase::Waiting,
            UpdateStage::AwaitingTrigger => Phase::Waiting,
            UpdateStage::Locating => Phase::Locating,
            UpdateStage::RetryingLocation => Phase::RetryingLocation,
            UpdateStage::ReceivingTags => Phase::ReceivingTags,
            UpdateStage::EnablingNetwork => Phase::EnablingNetwork,
            UpdateStage::Sending => Phase::Sending,
        }
    }

    /// Takes an event, and says what to do next.
    pub fn step(&mut self, event: UpdateEvent) -> (action: UpdateAction)
        requires
            step_times_ok(*old(self), event),
        ensures
            (*final(self), action) == spec_update_step(*old(self), event),
            is_locating(old(self).stage) && event == (UpdateEvent::LocationAttempt { found: false })
                ==> action == UpdateAction::AcquireLocation && *final(self) == (UpdateCycle { stage: UpdateStage::RetryingLocation, ..*old(self) }),
            is_locating(old(self).stage) && event == (UpdateEvent::LocationAttempt { found: true })
                ==> action == UpdateAction::ReceiveTags && *final(self) == (UpdateCycle { stage: UpdateStage::ReceivingTags, ..*old(self) }),
    {
        match (self.stage, event) {
            (UpdateStage::Idle, UpdateEvent::Start { now }) => {
                if now - self.last_update < TIME_BETWEEN_UPDATES {
                    self.stage = UpdateStage::AwaitingTrigger;
                    UpdateAction::WaitForTrigger { timeout: TRIGGER_TIMEOUT }
                } else {
                    self.stage = UpdateStage::Locating;
                    self.cleared_at = now;
                    UpdateAction::AcquireLocation
                }
            },
            (UpdateStage::AwaitingTrigger, UpdateEvent::WaitOver { now }) => {
                if update_too_soon(now - self.last_update) {
                    self.stage = UpdateStage::Idle;
                    UpdateAction::Restart
                } else {
                    self.stage = UpdateStage::Locating;
                    self.cleared_at = now;
                    UpdateAction::AcquireLocation
                }
            },
            (UpdateStage::Locating, UpdateEvent::LocationAttempt { found })
            | (UpdateStage::RetryingLocation, UpdateEvent::LocationAttempt { found }) => {
                if found {
                    self.stage = UpdateStage::ReceivingTags;
                    UpdateAction::ReceiveTags
                } else {
                    self.stage = UpdateStage::RetryingLocation;
                    UpdateAction::AcquireLocation
                }
            },
            (UpdateStage::ReceivingTags, UpdateEvent::TagsDecoded { now }) => {
                self.stage = UpdateStage::EnablingNetwork;
                self.decoded_at = now;
                UpdateAction::EnableNetwork
            },
            (UpdateStage::EnablingNetwork, UpdateEvent::NetworkUp { now }) => {
                self.stage = UpdateStage::Sending;
                UpdateAction::SendUpdate { tag_age: age_secs(now, self.decoded_at) }
            },
            (UpdateStage::Sending, UpdateEvent::SerializeFailed) => {
                self.stage = UpdateStage::Idle;
                UpdateAction::Restart
            },
            (UpdateStage::Sending, UpdateEvent::Posted { now }) => {
                self.stage = UpdateStage::Idle;
                self.last_update = now;
                UpdateAction::Restart
            },
            _ => UpdateAction::Ignore,
        }
    }
}

/// Every step keeps the cycle's invariant; a fresh cycle has it.
pub proof fn lemma_cycle_inv_kept(c: UpdateCycle, e: UpdateEvent)
    requires
        cycle_inv(c),
        step_times_ok(c, e),
    ensures
        cycle_inv(spec_update_step(c, e).0),
        cycle_inv(UpdateCycle { stage: UpdateStage::Idle, last_update: 0, cleared_at: 0, decoded_at: 0 }),
{
}

/// Whether the cycle is trying for a GNSS fix.
pub open spec fn is_locating(stage: UpdateStage) -> bool {
    stage == UpdateStage::Locating || stage == UpdateStage::RetryingLocation
}

/// The cycle after `n` failed attempts at a fix.
pub open spec fn after_failed_attempts(c: UpdateCycle, n: nat) -> UpdateCycle
    decreases n,
{
    if n == 0 {
        c
    } else {
        spec_update_step(after_failed_attempts(c, (n - 1) as nat), UpdateEvent::LocationAttempt { found: false }).0
    }
}

/// While it locates, a failed attempt at a fix always sends the cycle to
/// another attempt, and only a found fix leads on to receiving the tags;
/// nothing else about the cycle changes.
pub proof fn lemma_location_retried(c: UpdateCycle, found: bool)
    requires
        is_locating(c.stage),
    ensures
        (spec_update_step(c, UpdateEvent::LocationAttempt { found }).1 == UpdateAction::ReceiveTags) <==> found,
        !found ==> spec_update_step(c, UpdateEvent::LocationAttempt { found }).1 == UpdateAction::AcquireLocation,
        !found ==> spec_update_step(c, UpdateEvent::LocationAttempt { found }).0 == (UpdateCycle { stage: UpdateStage::RetryingLocation, ..c }),
        found ==> spec_update_step(c, UpdateEvent::LocationAttempt { found }).0 == (UpdateCycle { stage: UpdateStage::ReceivingTags, ..c }),
{
}

/// The gateway never gives up on a fix: after any number of failed
/// attempts it is still retrying, the next failure asks for yet another
/// attempt, and a fix found then leads on to receiving the tags.
pub proof fn lemma_retries_until_found(c: UpdateCycle, n: nat)
    requires
        is_locating(c.stage),
        n >= 1,
    ensures
        after_failed_attempts(c, n) == (UpdateCycle { stage: UpdateStage::RetryingLocation, ..c }),
        spec_update_step(after_failed_attempts(c, n), UpdateEvent::LocationAttempt { found: false }).1 == UpdateAction::AcquireLocation,
        spec_update_step(after_failed_attempts(c, n), UpdateEvent::LocationAttempt { found: true }) == (
            UpdateCycle { stage: UpdateStage::ReceivingTags, ..c },
            UpdateAction::ReceiveTags,
        ),
    decreases n,
{
    if n > 1 {
        lemma_retries_until_found(c, (n - 1) as nat);
    }
    reveal_with_fuel(after_failed_attempts, 2);
}

/// Two posts are at least `MIN_TIME_BETWEEN_UPDATES` apart: a post that
/// comes no earlier than its cycle's spacing check is at least that long
/// after the previous one. A failed serialization posts nothing and keeps
/// the time of the last post; a post counts whatever the backend answered.
pub proof fn lemma_posts_spaced(c: UpdateCycle, now: u64)
    requires
        cycle_inv(c),
        c.stage == UpdateStage::Sending,
        now >= c.cleared_at,
    ensures
        spec_update_step(c, UpdateEvent::Posted { now }).0.last_update == now,
        now >= c.last_update + MIN_TIME_BETWEEN_UPDATES,
        spec_update_step(c, UpdateEvent::SerializeFailed).0.last_update == c.last_update,
{
}

/// The tags are aged by the time between their decoding and the network
/// coming up: the age handed to the update is the whole seconds between
/// those two events.
pub proof fn lemma_tags_aged_since_decoding(c: UpdateCycle, decoded: u64, up: u64)
    requires
        c.stage == UpdateStage::ReceivingTags,
        decoded <= up,
    ensures
        spec_update_step(c, UpdateEvent::TagsDecoded { now: decoded }).1 == UpdateAction::EnableNetwork,
        spec_update_step(spec_update_step(c, UpdateEvent::TagsDecoded { now: decoded }).0, UpdateEvent::NetworkUp { now: up })
            == (
            UpdateCycle { stage: UpdateStage::Sending, decoded_at: decoded, ..c },
            UpdateAction::SendUpdate { tag_age: spec_age_secs(up, decoded) },
        ),
{
}

/// When the button or the timeout ends the wait less than
/// `MIN_TIME_BETWEEN_UPDATES` after the last post, the cycle starts over
/// and nothing is posted; otherwise it goes on to the fix.
pub proof fn lemma_wait_over_spacing(c: UpdateCycle, now: u64)
    requires
        c.stage == UpdateStage::AwaitingTrigger,
        now >= c.last_update,
    ensures
        now - c.last_update < MIN_TIME_BETWEEN_UPDATES ==> spec_update_step(c, UpdateEvent::WaitOver { now })
            == (UpdateCycle { stage: UpdateStage::Idle, ..c }, UpdateAction::Restart),
        now - c.last_update >= MIN_TIME_BETWEEN_UPDATES ==> spec_update_step(c, UpdateEvent::WaitOver { now })
            == (UpdateCycle { stage: UpdateStage::Locating, cleared_at: now, ..c }, UpdateAction::AcquireLocation),
{
}

/// An event that the current stage does not wait for changes nothing and
/// is ignored.
pub proof fn lemma_unexpected_event_ignored(c: UpdateCycle, e: UpdateEvent)
    requires
        !expected_event(c.stage, e),
    ensures
        spec_update_step(c, e) == (c, UpdateAction::Ignore),
{
}

/// Whether a stage waits for an event of this kind.
pub open spec fn expected_event(stage: UpdateStage, e: UpdateEvent) -> bool {
    match e {
        UpdateEvent::Start { .. } => stage == UpdateStage::Idle,
        UpdateEvent::WaitOver { .. } => stage == UpdateStage::AwaitingTrigger,
        UpdateEvent::LocationAttempt { .. } => is_locating(stage),
        UpdateEvent::TagsDecoded { .. } => stage == UpdateStage::ReceivingTags,
        UpdateEvent::NetworkUp { .. } => stage == UpdateStage::EnablingNetwork,
        UpdateEvent::SerializeFailed => stage == UpdateStage::Sending,
        UpdateEvent::Posted { .. } => stage == UpdateStage::Sending,
    }
}

/// A cycle that starts while an update is due goes straight to the fix;
/// otherwise it waits for the button or the timeout.
pub proof fn lemma_start_waits_until_due(c: UpdateCycle, now: u64)
    requires
        c.stage == UpdateStage::Idle,
        now >= c.last_update,
    ensures
        now - c.last_update >= TIME_BETWEEN_UPDATES ==> spec_update_step(c, UpdateEvent::Start { now }).1 == UpdateAction::AcquireLocation,
        now - c.last_update < TIME_BETWEEN_UPDATES ==> spec_update_step(c, UpdateEvent::Start { now }).1 == (UpdateAction::WaitForTrigger { timeout: TRIGGER_TIMEOUT }),
{
}

/// A tag as the gateway forwards it.
#[derive(Debug, Clone)]
pub struct DetectedTag {
    /// Seconds since the tag was seen.
    pub age: u16,
    pub rssi: i8,
    pub addr: String,
    pub name: String,
    pub sequence: u32,
}

pub struct DetectedTagModel {
    pub age: u16,
    pub rssi: i8,
    pub addr: Seq<char>,
    pub name: Seq<char>,
    pub sequence: u32,
}

impl View for DetectedTag {
    type V = DetectedTagModel;

    open spec fn view(&self) -> DetectedTagModel {
        DetectedTagModel {
            age: self.age,
            rssi: self.rssi,
            addr: self.addr@,
            name: self.name@,
            sequence: self.sequence,
        }
    }
}

impl DetectedTag {
    /// A copy of the tag.
    pub fn duplicate(&self) -> (t: DetectedTag)
        ensures
            t@ == self@,
    {
        DetectedTag {
            age: self.age,
            rssi: self.rssi,
            addr: self.addr.clone(),
            name: self.name.clone(),
            sequence: self.sequence,
        }
    }
}

pub open spec fn detected_view(tags: Seq<DetectedTag>) -> Seq<DetectedTagModel> {
    tags.map_values(|t: DetectedTag| t@)
}

/// A copy of a list of tags.
pub fn duplicate_tags(tags: &Vec<DetectedTag>) -> (copy: Vec<DetectedTag>)
    ensures
        detected_view(copy@) == detected_view(tags@),
{
    let mut copy: Vec<DetectedTag> = Vec::new();
    let mut i: usize = 0;
    while i < tags.len()
        invariant
            i <= tags.len(),
            copy@.len() == i,
            forall|k: int| 0 <= k < i ==> #[trigger] copy@[k]@ == tags@[k]@,
        decreases tags.len() - i,
    {
        copy.push(tags[i].duplicate());
        i = i + 1;
    }
    assert(detected_view(copy@) =~= detected_view(tags@));
    copy
}

/// Every tag `extra` seconds older.
pub open spec fn aged(tags: Seq<DetectedTagModel>, extra: u16) -> Seq<DetectedTagModel> {
    tags.map_values(|t: DetectedTagModel| DetectedTagModel { age: (t.age + extra) as u16, ..t })
}

/// Ageing changes only the age: each tag keeps its place, its signal
/// strength, address, name and sequence number, and is `extra` seconds
/// older.
pub proof fn lemma_aged_fields(tags: Seq<DetectedTagModel>, extra: u16)
    requires
        forall|i: int| 0 <= i < tags.len() ==> #[trigger] tags[i].age + extra <= u16::MAX,
    ensures
        aged(tags, extra).len() == tags.len(),
        forall|i: int| 0 <= i < tags.len() ==> #[trigger] aged(tags, extra)[i].age == tags[i].age + extra,
        forall|i: int| 0 <= i < tags.len() ==> #[trigger] aged(tags, extra)[i].rssi == tags[i].rssi,
        forall|i: int| 0 <= i < tags.len() ==> #[trigger] aged(tags, extra)[i].addr == tags[i].addr,
        forall|i: int| 0 <= i < tags.len() ==> #[trigger] aged(tags, extra)[i].name == tags[i].name,
        forall|i: int| 0 <= i < tags.len() ==> #[trigger] aged(tags, extra)[i].sequence == tags[i].sequence,
{
}

/// Makes every tag `extra` seconds older: the time between receiving the
/// tags and sending them on. Ages do not wrap.
pub fn age_tags(tags: Vec<DetectedTag>, extra: u16) -> (out: Vec<DetectedTag>)
    requires
        forall|i: int| 0 <= i < tags@.len() ==> #[trigger] tags@[i].age + extra <= u16::MAX,
    ensures
        detected_view(out@) == aged(detected_view(tags@), extra),
        out@.len() == tags@.len(),
        forall|i: int| 0 <= i < tags@.len() ==> (#[trigger] out@[i]).age == tags@[i].age + extra,
        forall|i: int| 0 <= i < tags@.len() ==> (#[trigger] out@[i]).rssi == tags@[i].rssi,
        forall|i: int| 0 <= i < tags@.len() ==> (#[trigger] out@[i]).addr@ == tags@[i].addr@,
        forall|i: int| 0 <= i < tags@.len() ==> (#[trigger] out@[i]).name@ == tags@[i].name@,
        forall|i: int| 0 <= i < tags@.len() ==> (#[trigger] out@[i]).sequence == tags@[i].sequence,
{
    let mut out: Vec<DetectedTag> = Vec::new();
    let mut i: usize = 0;
    let n = tags.len();
    while i < n
        invariant
            n == tags.len(),
            i <= n,
            forall|k: int| 0 <= k < n ==> #[trigger] tags@[k].age + extra <= u16::MAX,
            out@.len() == i,
            forall|k: int| 0 <= k < i ==> #[trigger] out@[k]@ == (DetectedTagModel { age: (tags@[k]@.age + extra) as u16, ..tags@[k]@ }),
        decreases n - i,
    {
        let t = &tags[i];
        let moved = DetectedTag {
            age: t.age + extra,
            rssi: t.rssi,
            addr: t.addr.clone(),
            name: t.name.clone(),
            sequence: t.sequence,
        };
        out.push(moved);
        i = i + 1;
    }
    assert(detected_view(out@) =~= aged(detected_view(tags@), extra));
    assert forall|k: int| 0 <= k < tags@.len() implies (#[trigger] out@[k]).age == tags@[k].age + extra
        && out@[k].rssi == tags@[k].rssi && out@[k].addr@ == tags@[k].addr@ && out@[k].name@ == tags@[k].name@
        && out@[k].sequence == tags@[k].sequence by {
        assert(out@[k]@ == (DetectedTagModel { age: (tags@[k]@.age + extra) as u16, ..tags@[k]@ }));
    }
    out
}

/// A position reading: `value / divisor` in the sensor's unit.
#[derive(Debug, Clone, Copy, PartialEq, Eq)]
pub struct Coordinate {
    pub value: i32,
    pub divisor: i32,
}

/// A GNSS fix.
#[derive(Debug, Clone, Copy, PartialEq, Eq)]
pub struct Fix {
    pub latitude: Coordinate,
    pub longitude: Coordinate,
    pub altitude: Coordinate,
    /// When the fix was taken, as a timestamp.
    pub time_of_fix: u64,
}

/// The update the gateway sends.
#[derive(Debug, Clone)]
pub struct GatewayUpdate {
    pub location: Option<Fix>,
    pub detected_tags: Vec<DetectedTag>,
    pub battery_level: Option<u8>,
    pub gateway_id: String,
    pub timestamp: u64,
}

pub struct GatewayUpdateModel {
    pub location: Option<Fix>,
    pub detected_tags: Seq<DetectedTagModel>,
    pub battery_level: Option<u8>,
    pub gateway_id: Seq<char>,
    pub timestamp: u64,
}

impl View for GatewayUpdate {
    type V = GatewayUpdateModel;

    open spec fn view(&self) -> GatewayUpdateModel {
        GatewayUpdateModel {
            location: self.location,
            detected_tags: detected_view(self.detected_tags@),
            battery_level: self.battery_level,
            gateway_id: self.gateway_id@,
            timestamp: self.timestamp,
        }
    }
}

impl GatewayUpdate {
    /// A copy of the update.
    pub fn duplicate(&self) -> (u: GatewayUpdate)
        ensures
            u@ == self@,
    {
        GatewayUpdate {
            location: self.location,
            detected_tags: duplicate_tags(&self.detected_tags),
            battery_level: self.battery_level,
            gateway_id: self.gateway_id.clone(),
            timestamp: self.timestamp,
        }
    }
}

/// The update made of a location, the tags and the gateway's identity: the
/// battery level is reported as 100, and the update is stamped with the
/// time of the fix (0 without one).
pub fn build_update(location: Option<Fix>, detected_tags: Vec<DetectedTag>, gateway_id: String) -> (u: GatewayUpdate)
    ensures
        u.location == location,
        u.detected_tags@ == detected_tags@,
        u.battery_level == Some(REPORTED_BATTERY_LEVEL),
        u.gateway_id == gateway_id,
        u.timestamp == match location {
            Some(f) => f.time_of_fix,
            None => 0u64,
        },
{
    let timestamp = match location {
        Some(f) => f.time_of_fix,
        None => 0,
    };
    GatewayUpdate {
        location,
        detected_tags,
        battery_level: Some(REPORTED_BATTERY_LEVEL),
        gateway_id,
        timestamp,
    }
}

/// What a GNSS sample measures.
#[derive(Debug, Clone, Copy, PartialEq, Eq)]
pub enum SampleLabel {
    Altitude,
    Latitude,
    Longitude,
    Other,
}

/// One sample of a GNSS reading: its label, its value when it has one, and
/// the power of ten its value is scaled by.
#[derive(Debug, Clone, Copy, PartialEq, Eq)]
pub struct GnssSample {
    pub label: SampleLabel,
    pub value: Option<i32>,
    pub scaling: i8,
}

pub open spec fn pow10(n: nat) -> int
    decreases n,
{
    if n == 0 { 1 } else { 10 * pow10((n - 1) as nat) }
}

/// `10` to the power `-scaling`: what a value with that scaling is divided
/// by. Scalings below -9 would overflow, positive ones have no divisor.
pub fn scale_divisor(scaling: i8) -> (d: i32)
    requires
        -9 <= scaling <= 0,
    ensures
        d == pow10((-scaling) as nat),
{
    let n: u32 = (-(scaling as i32)) as u32;
    let mut d: i32 = 1;
    let mut k: u32 = 0;
    while k < n
        invariant
            k <= n <= 9,
            d == pow10(k as nat),
            d <= 100_000_000 || k == n,
        decreases n - k,
    {
        proof {
            reveal_with_fuel(pow10, 10);
        }
        assert(d <= 100_000_000) by {
            reveal_with_fuel(pow10, 10);
            assert(pow10(8) == 100_000_000);
            lemma_pow10_mono(k as nat, 8);
        }
        d = d * 10;
        k = k + 1;
    }
    d
}

proof fn lemma_pow10_positive(a: nat)
    ensures
        pow10(a) >= 1,
    decreases a,
{
    if a > 0 {
        lemma_pow10_positive((a - 1) as nat);
    }
}

proof fn lemma_pow10_mono(a: nat, b: nat)
    requires
        a <= b,
    ensures
        pow10(a) <= pow10(b),
    decreases b,
{
    if a < b {
        lemma_pow10_mono(a, (b - 1) as nat);
        lemma_pow10_positive((b - 1) as nat);
    }
}

/// Whether a sample gives a reading for `label`.
pub open spec fn reads(s: GnssSample, label: SampleLabel) -> bool {
    s.label == label && s.value is Some && label != SampleLabel::Other
}

/// The coordinate of a usable sample.
pub open spec fn sample_coordinate(s: GnssSample) -> Coordinate {
    Coordinate { value: s.value->Some_0, divisor: pow10((-s.scaling) as nat) as i32 }
}

/// The last reading for `label` among the samples.
pub open spec fn last_reading(samples: Seq<GnssSample>, label: SampleLabel) -> Option<Coordinate>
    decreases samples.len(),
{
    if samples.len() == 0 {
        None
    } else if reads(samples.last(), label) {
        Some(sample_coordinate(samples.last()))
    } else {
        last_reading(samples.drop_last(), label)
    }
}

/// Whether some sample gives a reading for `label`.
pub open spec fn has_reading(samples: Seq<GnssSample>, label: SampleLabel) -> bool {
    exists|i: int| 0 <= i < samples.len() && #[trigger] reads(samples[i], label)
}

/// Position `i` holds the last sample that gives a reading for `label`.
pub open spec fn is_last_reading(samples: Seq<GnssSample>, label: SampleLabel, i: int) -> bool {
    &&& 0 <= i < samples.len()
    &&& reads(samples[i], label)
    &&& forall|j: int| i < j < samples.len() ==> !reads(#[trigger] samples[j], label)
}

/// There is a last reading for a label exactly when some sample gives a
/// reading for it, and it is the coordinate of the last such sample: a
/// later reading replaces an earlier one.
pub proof fn lemma_last_reading_found(samples: Seq<GnssSample>, label: SampleLabel)
    ensures
        last_reading(samples, label) is Some <==> has_reading(samples, label),
        last_reading(samples, label) is Some ==> exists|i: int| #[trigger] is_last_reading(samples, label, i)
            && last_reading(samples, label) == Some(sample_coordinate(samples[i])),
    decreases samples.len(),
{
    if samples.len() > 0 {
        let rest = samples.drop_last();
        lemma_last_reading_found(rest, label);
        if reads(samples.last(), label) {
            assert(reads(samples[samples.len() - 1], label));
            assert(is_last_reading(samples, label, samples.len() - 1));
        } else {
            if has_reading(samples, label) {
                let i = choose|i: int| 0 <= i < samples.len() && #[trigger] reads(samples[i], label);
                assert(i < samples.len() - 1);
                assert(rest[i] == samples[i]);
            }
            if has_reading(rest, label) {
                let i = choose|i: int| 0 <= i < rest.len() && #[trigger] reads(rest[i], label);
                assert(rest[i] == samples[i]);
            }
            if last_reading(rest, label) is Some {
                let i = choose|i: int| #[trigger] is_last_reading(rest, label, i)
                    && last_reading(rest, label) == Some(sample_coordinate(rest[i]));
                assert(rest[i] == samples[i]);
                assert forall|j: int| i < j < samples.len() implies !reads(#[trigger] samples[j], label) by {
                    if j < samples.len() - 1 {
                        assert(rest[j] == samples[j]);
                    }
                }
                assert(is_last_reading(samples, label, i));
            }
        }
    }
}

/// A fix is complete exactly when some sample reads the altitude, some the
/// latitude and some the longitude, and a time of fix is given: without an
/// altitude reading, for one, it is incomplete.
pub proof fn lemma_fix_complete_needs_readings(samples: Seq<GnssSample>, time_of_fix: Option<u64>)
    ensures
        spec_fix_complete(samples, time_of_fix) <==> (has_reading(samples, SampleLabel::Altitude)
            && has_reading(samples, SampleLabel::Latitude) && has_reading(samples, SampleLabel::Longitude)
            && time_of_fix is Some),
{
    lemma_last_reading_found(samples, SampleLabel::Altitude);
    lemma_last_reading_found(samples, SampleLabel::Latitude);
    lemma_last_reading_found(samples, SampleLabel::Longitude);
}

/// Every sample that gives a position reading has a scaling whose divisor
/// fits.
pub open spec fn scalings_fit(samples: Seq<GnssSample>) -> bool {
    forall|i: int| 0 <= i < samples.len() && #[trigger] samples[i].value is Some && samples[i].label != SampleLabel::Other
        ==> -9 <= samples[i].scaling <= 0
}

pub open spec fn zero_coordinate() -> Coordinate {
    Coordinate { value: 0, divisor: 1 }
}

pub open spec fn reading_or_zero(c: Option<Coordinate>) -> Coordinate {
    match c {
        Some(c) => c,
        None => zero_coordinate(),
    }
}

/// The fix made of the last reading of each position (zero where there is
/// none) and the time of fix (zero where there is none).
pub open spec fn spec_fix(samples: Seq<GnssSample>, time_of_fix: Option<u64>) -> Fix {
    Fix {
        latitude: reading_or_zero(last_reading(samples, SampleLabel::Latitude)),
        longitude: reading_or_zero(last_reading(samples, SampleLabel::Longitude)),
        altitude: reading_or_zero(last_reading(samples, SampleLabel::Altitude)),
        time_of_fix: match time_of_fix {
            Some(t) => t,
            None => 0u64,
        },
    }
}

/// The fix is valid when altitude, latitude, longitude and the time of fix
/// were all found.
pub open spec fn spec_fix_complete(samples: Seq<GnssSample>, time_of_fix: Option<u64>) -> bool {
    &&& last_reading(samples, SampleLabel::Altitude) is Some
    &&& last_reading(samples, SampleLabel::Latitude) is Some
    &&& last_reading(samples, SampleLabel::Longitude) is Some
    &&& time_of_fix is Some
}

/// Assembles a fix from the samples of a GNSS reading; `Err` holds the
/// incomplete fix when a position or the time of fix is missing.
pub fn assemble_fix(samples: &Vec<GnssSample>, time_of_fix: Option<u64>) -> (res: Result<Fix, Fix>)
    requires
        scalings_fit(samples@),
    ensures
        res is Ok <==> spec_fix_complete(samples@, time_of_fix),
        res is Ok <==> (has_reading(samples@, SampleLabel::Altitude) && has_reading(samples@, SampleLabel::Latitude)
            && has_reading(samples@, SampleLabel::Longitude) && time_of_fix is Some),
        match res {
            Ok(f) => f == spec_fix(samples@, time_of_fix),
            Err(f) => f == spec_fix(samples@, time_of_fix),
        },
{
    let mut latitude: Option<Coordinate> = None;
    let mut longitude: Option<Coordinate> = None;
    let mut altitude: Option<Coordinate> = None;
    let mut i: usize = 0;
    while i < samples.len()
        invariant
            i <= samples.len(),
            scalings_fit(samples@),
            latitude == last_reading(samples@.take(i as int), SampleLabel::Latitude),
            longitude == last_reading(samples@.take(i as int), SampleLabel::Longitude),
            altitude == last_reading(samples@.take(i as int), SampleLabel::Altitude),
        decreases samples.len() - i,
    {
        let s = samples[i];
        assert(samples@.take(i + 1).drop_last() =~= samples@.take(i as int));
        assert(samples@.take(i + 1).last() == s);
        match s.value {
            Some(v) => {
                match s.label {
                    SampleLabel::Altitude => {
                        altitude = Some(Coordinate { value: v, divisor: scale_divisor(s.scaling) });
                    },
                    SampleLabel::Latitude => {
                        latitude = Some(Coordinate { value: v, divisor: scale_divisor(s.scaling) });
                    },
                    SampleLabel::Longitude => {
                        longitude = Some(Coordinate { value: v, divisor: scale_divisor(s.scaling) });
                    },
                    SampleLabel::Other => {},
                }
            },
            None => {},
        }
        i = i + 1;
    }
    assert(samples@.take(samples.len() as int) =~= samples@);
    let zero = Coordinate { value: 0, divisor: 1 };
    let fix = Fix {
        latitude: match latitude { Some(c) => c, None => zero },
        longitude: match longitude { Some(c) => c, None => zero },
        altitude: match altitude { Some(c) => c, None => zero },
        time_of_fix: match time_of_fix { Some(t) => t, None => 0 },
    };
    proof {
        lemma_fix_complete_needs_readings(samples@, time_of_fix);
    }
    if altitude.is_some() && latitude.is_some() && longitude.is_some() && time_of_fix.is_some() {
        Ok(fix)
    } else {
        Err(fix)
    }
}

/// The status resource found no update to serve.
#[derive(Debug, Clone, Copy, PartialEq, Eq)]
pub enum StatusError {
    ServiceUnavailable,
}

/// The last update published, and whether it was read since.
pub struct StatusBoard {
    last_update: Option<GatewayUpdate>,
    update_read: bool,
}

pub struct StatusBoardModel {
    pub last_update: Option<GatewayUpdateModel>,
    pub update_read: bool,
}

impl View for StatusBoard {
    type V = StatusBoardModel;

    closed spec fn view(&self) -> StatusBoardModel {
        StatusBoardModel {
            last_update: match self.last_update {
                Some(u) => Some(u@),
                None => None,
            },
            update_read: self.update_read,
        }
    }
}

/// The board after `update` is published.
pub open spec fn spec_publish(b: StatusBoardModel, update: GatewayUpdateModel) -> StatusBoardModel {
    StatusBoardModel { last_update: Some(update), update_read: false }
}

/// What the status resource serves from a board.
pub open spec fn spec_status(b: StatusBoardModel) -> Result<GatewayUpdateModel, StatusError> {
    match b.last_update {
        Some(u) => Ok(u),
        None => Err(StatusError::ServiceUnavailable),
    }
}

/// The board after the status resource served it.
pub open spec fn spec_after_read(b: StatusBoardModel) -> StatusBoardModel {
    StatusBoardModel { last_update: b.last_update, update_read: true }
}

pub open spec fn status_view(r: Result<GatewayUpdate, StatusError>) -> Result<GatewayUpdateModel, StatusError> {
    match r {
        Ok(u) => Ok(u@),
        Err(e) => Err(e),
    }
}

/// Reading the status right after an update is published serves that
/// update, marks it read, and leaves it published.
pub proof fn lemma_status_serves_published(b: StatusBoardModel, update: GatewayUpdateModel)
    ensures
        spec_status(spec_publish(b, update)) == Ok::<GatewayUpdateModel, StatusError>(update),
        spec_after_read(spec_publish(b, update)).update_read,
        spec_after_read(spec_publish(b, update)).last_update == Some(update),
        !spec_publish(b, update).update_read,
{
}

/// Reading the status does not change what is served.
pub proof fn lemma_status_read_idempotent(b: StatusBoardModel)
    ensures
        spec_status(spec_after_read(b)) == spec_status(b),
        spec_after_read(spec_after_read(b)) == spec_after_read(b),
{
}

impl StatusBoard {
    /// No update yet, nothing read.
    pub fn new() -> (b: StatusBoard)
        ensures
            b@.last_update is None,
            !b@.update_read,
    {
        StatusBoard { last_update: None, update_read: false }
    }

    /// Publishes an update: it replaces the last one, and is not read yet.
    pub fn publish(&mut self, update: GatewayUpdate)
        ensures
            final(self)@ == spec_publish(old(self)@, update@),
    {
        self.last_update = Some(update);
        self.update_read = false;
    }

    /// Whether the last update was read since it was published.
    pub fn update_read(&self) -> (r: bool)
        ensures
            r == self@.update_read,
    {
        self.update_read
    }
}

/// The resource that serves the gateway's status.
pub struct StatusRenderer {}

impl StatusRenderer {
    pub fn new() -> (r: StatusRenderer)
        ensures
            r == (StatusRenderer {}),
    {
        StatusRenderer {}
    }

    /// Serves the last update published; marks it read. Without an update
    /// the service is unavailable.
    pub fn get(&mut self, board: &mut StatusBoard) -> (res: Result<GatewayUpdate, StatusError>)
        ensures
            final(board)@ == spec_after_read(old(board)@),
            status_view(res) == spec_status(old(board)@),
    {
        board.update_read = true;
        match &board.last_update {
            Some(u) => Ok(u.duplicate()),
            None => Err(StatusError::ServiceUnavailable),
        }
    }
}

} // verus!
