//! Activity logs and metrics history of worktrees.
use vstd::prelude::*;
use crate::paths::{path_join, spec_path_join};
use crate::error::{join_strings, seq_join, views};
use crate::text::{concat2, concat3, decimal, spec_decimal};

verus! {

/// Something that happened to a worktree, with the time it happened (seconds since the
/// Unix epoch).
#[derive(Debug)]
pub enum ActivityEvent {
    WorktreeCreated { timestamp: u64, branch: String, template: Option<String> },
    WorktreeRemoved { timestamp: u64 },
    WorktreeSwitched { timestamp: u64, from: Option<String> },
    DockerStarted { timestamp: u64, services: Vec<String> },
    DockerStopped { timestamp: u64 },
    HookExecuted { timestamp: u64, hook: String, duration_ms: u64, success: bool },
    IntegrationPerformed { timestamp: u64, source: String, target: String },
    SnapshotCreated { timestamp: u64, snapshot_name: String },
    SnapshotRestored { timestamp: u64, snapshot_name: String },
}

/// When `e` happened.
pub open spec fn event_time(e: ActivityEvent) -> u64 {
    match e {
        ActivityEvent::WorktreeCreated { timestamp, .. } => timestamp,
        ActivityEvent::WorktreeRemoved { timestamp } => timestamp,
        ActivityEvent::WorktreeSwitched { timestamp, .. } => timestamp,
        ActivityEvent::DockerStarted { timestamp, .. } => timestamp,
        ActivityEvent::DockerStopped { timestamp } => timestamp,
        ActivityEvent::HookExecuted { timestamp, .. } => timestamp,
        ActivityEvent::IntegrationPerformed { timestamp, .. } => timestamp,
        ActivityEvent::SnapshotCreated { timestamp, .. } => timestamp,
        ActivityEvent::SnapshotRestored { timestamp, .. } => timestamp,
    }
}

/// The events of `es` that happened at or after `t`, in order.
pub open spec fn events_from(es: Seq<ActivityEvent>, t: u64) -> Seq<ActivityEvent>
    decreases es.len(),
{
    if es.len() == 0 {
        Seq::empty()
    } else if event_time(es.last()) >= t {
        events_from(es.drop_last(), t).push(es.last())
    } else {
        events_from(es.drop_last(), t)
    }
}

/// Where a sequence of `len` items is cut to keep its last `count`.
pub open spec fn keep_last_start(len: nat, count: nat) -> int {
    if len > count {
        len - count
    } else {
        0
    }
}

/// The values behind a sequence of references.
pub open spec fn derefs<T>(v: Seq<&T>) -> Seq<T> {
    v.map_values(|e: &T| *e)
}

/// The icon shown beside an event.
pub open spec fn event_icon(e: ActivityEvent) -> Seq<char> {
    match e {
        ActivityEvent::WorktreeCreated { .. } => "✨"@,
        ActivityEvent::WorktreeRemoved { .. } => "🗑️"@,
        ActivityEvent::WorktreeSwitched { .. } => "🔄"@,
        ActivityEvent::DockerStarted { .. } => "🐳"@,
        ActivityEvent::DockerStopped { .. } => "🐳"@,
        ActivityEvent::HookExecuted { .. } => "🪝"@,
        ActivityEvent::IntegrationPerformed { .. } => "🔗"@,
        ActivityEvent::SnapshotCreated { .. } => "📸"@,
        ActivityEvent::SnapshotRestored { .. } => "📸"@,
    }
}

/// The sentence that describes an event in the activity log.
pub open spec fn event_text(e: ActivityEvent) -> Seq<char> {
    match e {
        ActivityEvent::WorktreeCreated { branch, template, .. } => match template {
            Some(t) => "Created from "@ + branch@ + " with template '"@ + t@ + "'"@,
            None => "Created from "@ + branch@,
        },
        ActivityEvent::WorktreeRemoved { .. } => "Worktree removed"@,
        ActivityEvent::WorktreeSwitched { from, .. } => match from {
            Some(f) => "Switched from "@ + f@,
            None => "Switched to this worktree"@,
        },
        ActivityEvent::DockerStarted { services, .. } => "Docker started ("@ + seq_join(
            views(services@),
            ", "@,
        ) + ")"@,
        ActivityEvent::DockerStopped { .. } => "Docker stopped"@,
        ActivityEvent::HookExecuted { hook, duration_ms, success, .. } => "Hook "@ + hook@
            + " executed "@ + (if success {
            "✓"@
        } else {
            "✗"@
        }) + " ("@ + spec_decimal(duration_ms as nat) + " ms)"@,
        ActivityEvent::IntegrationPerformed { source, target, .. } => "Integrated "@ + source@
            + " → "@ + target@,
        ActivityEvent::SnapshotCreated { snapshot_name, .. } => "Snapshot '"@ + snapshot_name@
            + "' created"@,
        ActivityEvent::SnapshotRestored { snapshot_name, .. } => "Snapshot '"@ + snapshot_name@
            + "' restored"@,
    }
}

impl ActivityEvent {
    /// The icon shown beside the event.
    pub fn icon(&self) -> (r: &'static str)
        ensures
            r@ == event_icon(*self),
    {
        match self {
            ActivityEvent::WorktreeCreated { .. } => "✨",
            ActivityEvent::WorktreeRemoved { .. } => "🗑️",
            ActivityEvent::WorktreeSwitched { .. } => "🔄",
            ActivityEvent::DockerStarted { .. } => "🐳",
            ActivityEvent::DockerStopped { .. } => "🐳",
            ActivityEvent::HookExecuted { .. } => "🪝",
            ActivityEvent::IntegrationPerformed { .. } => "🔗",
            ActivityEvent::SnapshotCreated { .. } => "📸",
            ActivityEvent::SnapshotRestored { .. } => "📸",
        }
    }

    /// The sentence that describes the event.
    pub fn describe(&self) -> (r: String)
        ensures
            r@ == event_text(*self),
    {
        match self {
            ActivityEvent::WorktreeCreated { branch, template, .. } => match template {
                Some(t) => {
                    let mut m = concat3("Created from ", branch.as_str(), " with template '");
                    m.append(t.as_str());
                    m.append("'");
                    m
                },
                None => concat2("Created from ", branch.as_str()),
            },
            ActivityEvent::WorktreeRemoved { .. } => String::from_str("Worktree removed"),
            ActivityEvent::WorktreeSwitched { from, .. } => match from {
                Some(f) => concat2("Switched from ", f.as_str()),
                None => String::from_str("Switched to this worktree"),
            },
            ActivityEvent::DockerStarted { services, .. } => {
                let list = join_strings(services, ", ");
                concat3("Docker started (", list.as_str(), ")")
            },
            ActivityEvent::DockerStopped { .. } => String::from_str("Docker stopped"),
            ActivityEvent::HookExecuted { hook, duration_ms, success, .. } => {
                let mut m = concat3("Hook ", hook.as_str(), " executed ");
                m.append(
                    if *success {
                        "✓"
                    } else {
                        "✗"
                    },
                );
                m.append(" (");
                let d = decimal(*duration_ms);
                m.append(d.as_str());
                m.append(" ms)");
                m
            },
            ActivityEvent::IntegrationPerformed { source, target, .. } => {
                let mut m = concat3("Integrated ", source.as_str(), " → ");
                m.append(target.as_str());
                m
            },
            ActivityEvent::SnapshotCreated { snapshot_name, .. } => concat3(
                "Snapshot '",
                snapshot_name.as_str(),
                "' created",
            ),
            ActivityEvent::SnapshotRestored { snapshot_name, .. } => concat3(
                "Snapshot '",
                snapshot_name.as_str(),
                "' restored",
            ),
        }
    }
}

/// The activity log of a worktree.
#[derive(Debug)]
pub struct ActivityLog {
    pub worktree: String,
    pub events: Vec<ActivityEvent>,
}

impl ActivityLog {
    /// An empty log for `worktree`.
    pub fn new(worktree: String) -> (r: Self)
        ensures
            r.worktree == worktree,
            r.events@.len() == 0,
    {
        ActivityLog { worktree, events: Vec::new() }
    }

    /// Appends `event`.
    pub fn add_event(&mut self, event: ActivityEvent)
        ensures
            final(self).worktree == old(self).worktree,
            final(self).events@ == old(self).events@.push(event),
    {
        self.events.push(event);
    }

    /// When `event` happened.
    fn event_timestamp(&self, event: &ActivityEvent) -> (r: u64)
        ensures
            r == event_time(*event),
    {
        match event {
            ActivityEvent::WorktreeCreated { timestamp, .. } => *timestamp,
            ActivityEvent::WorktreeRemoved { timestamp } => *timestamp,
            ActivityEvent::WorktreeSwitched { timestamp, .. } => *timestamp,
            ActivityEvent::DockerStarted { timestamp, .. } => *timestamp,
            ActivityEvent::DockerStopped { timestamp } => *timestamp,
            ActivityEvent::HookExecuted { timestamp, .. } => *timestamp,
            ActivityEvent::IntegrationPerformed { timestamp, .. } => *timestamp,
            ActivityEvent::SnapshotCreated { timestamp, .. } => *timestamp,
            ActivityEvent::SnapshotRestored { timestamp, .. } => *timestamp,
        }
    }

    /// The events at or after `timestamp`, in order.
    pub fn events_since(&self, timestamp: u64) -> (r: Vec<&ActivityEvent>)
        ensures
            derefs(r@) == events_from(self.events@, timestamp),
    {
        let mut r: Vec<&ActivityEvent> = Vec::new();
        let mut i: usize = 0;
        while i < self.events.len()
            invariant
                i <= self.events@.len(),
                derefs(r@) == events_from(self.events@.take(i as int), timestamp),
            decreases self.events.len() - i,
        {
            let e = &self.events[i];
            proof {
                assert(self.events@.take(i + 1).drop_last() =~= self.events@.take(i as int));
            }
            if self.event_timestamp(e) >= timestamp {
                r.push(e);
                assert(derefs(r@) =~= events_from(self.events@.take(i + 1), timestamp));
            } else {
                assert(derefs(r@) =~= events_from(self.events@.take(i + 1), timestamp));
            }
            i = i + 1;
        }
        assert(self.events@.take(self.events@.len() as int) =~= self.events@);
        r
    }

    /// The last `count` events (all of them when there are fewer), in order.
    pub fn last_events(&self, count: usize) -> (r: Vec<&ActivityEvent>)
        ensures
            derefs(r@) == self.events@.skip(keep_last_start(self.events@.len(), count as nat)),
    {
        let start: usize = if self.events.len() > count {
            self.events.len() - count
        } else {
            0
        };
        let mut r: Vec<&ActivityEvent> = Vec::new();
        let mut i: usize = start;
        while i < self.events.len()
            invariant
                start <= i <= self.events@.len(),
                start == keep_last_start(self.events@.len(), count as nat),
                derefs(r@) == self.events@.subrange(start as int, i as int),
            decreases self.events.len() - i,
        {
            let e = &self.events[i];
            let ghost prev = r@;
            r.push(e);
            assert(r@ == prev.push(e));
            assert(derefs(r@) =~= derefs(prev).push(self.events@[i as int]));
            assert(self.events@.subrange(start as int, i + 1) =~= self.events@.subrange(
                start as int,
                i as int,
            ).push(self.events@[i as int]));
            i = i + 1;
        }
        assert(derefs(r@) =~= self.events@.skip(start as int));
        r
    }
}

/// A measurement of a worktree at one time. The CPU percentage is kept as the bit pattern
/// of its `f64` value (`f64::to_bits`).
#[derive(Debug)]
pub struct MetricsSnapshot {
    pub timestamp: u64,
    pub disk_usage: u64,
    pub state_dir_size: u64,
    pub docker_running: bool,
    pub docker_memory_mb: Option<u64>,
    pub docker_cpu_percent_bits: Option<u64>,
}

/// The most recent measurements of a worktree, at most `max_snapshots` of them.
#[derive(Debug)]
pub struct MetricsHistory {
    pub worktree: String,
    pub snapshots: Vec<MetricsSnapshot>,
    pub max_snapshots: usize,
}

/// `s` with its oldest items dropped so that at most `max` are left.
pub open spec fn keep_newest<T>(s: Seq<T>, max: nat) -> Seq<T> {
    if s.len() > max {
        s.skip(s.len() - max)
    } else {
        s
    }
}

/// The snapshots of `ss` taken between `start` and `end`, both included, in order.
pub open spec fn snapshots_between(ss: Seq<MetricsSnapshot>, start: u64, end: u64) -> Seq<
    MetricsSnapshot,
>
    decreases ss.len(),
{
    if ss.len() == 0 {
        Seq::empty()
    } else if start <= ss.last().timestamp <= end {
        snapshots_between(ss.drop_last(), start, end).push(ss.last())
    } else {
        snapshots_between(ss.drop_last(), start, end)
    }
}

impl MetricsHistory {
    /// An empty history for `worktree` that keeps 168 snapshots (a week of hourly ones).
    pub fn new(worktree: String) -> (r: Self)
        ensures
            r.worktree == worktree,
            r.snapshots@.len() == 0,
            r.max_snapshots == 168,
    {
        MetricsHistory { worktree, snapshots: Vec::new(), max_snapshots: 168 }
    }

    /// Appends `snapshot`, then drops the oldest snapshots beyond `max_snapshots`.
    pub fn add_snapshot(&mut self, snapshot: MetricsSnapshot)
        ensures
            final(self).worktree == old(self).worktree,
            final(self).max_snapshots == old(self).max_snapshots,
            final(self).snapshots@ == keep_newest(
                old(self).snapshots@.push(snapshot),
                old(self).max_snapshots as nat,
            ),
            final(self).snapshots@.len() <= old(self).max_snapshots,
            old(self).max_snapshots > 0 ==> final(self).snapshots@.last() == snapshot,
    {
        self.snapshots.push(snapshot);
        let ghost full = self.snapshots@;
        if self.snapshots.len() > self.max_snapshots {
            let extra = self.snapshots.len() - self.max_snapshots;
            let mut k: usize = 0;
            while k < extra
                invariant
                    k <= extra,
                    extra == full.len() - self.max_snapshots,
                    self.worktree == old(self).worktree,
                    self.max_snapshots == old(self).max_snapshots,
                    self.snapshots@ == full.skip(k as int),
                decreases extra - k,
            {
                self.snapshots.remove(0);
                assert(self.snapshots@ =~= full.skip(k + 1));
                k = k + 1;
            }
        }
    }

    /// The snapshots taken between `start` and `end`, both included, in order.
    pub fn range(&self, start: u64, end: u64) -> (r: Vec<&MetricsSnapshot>)
        ensures
            derefs(r@) == snapshots_between(self.snapshots@, start, end),
    {
        let mut r: Vec<&MetricsSnapshot> = Vec::new();
        let mut i: usize = 0;
        while i < self.snapshots.len()
            invariant
                i <= self.snapshots@.len(),
                derefs(r@) == snapshots_between(self.snapshots@.take(i as int), start, end),
            decreases self.snapshots.len() - i,
        {
            let s = &self.snapshots[i];
            proof {
                assert(self.snapshots@.take(i + 1).drop_last() =~= self.snapshots@.take(i as int));
            }
            if s.timestamp >= start && s.timestamp <= end {
                r.push(s);
            }
            assert(derefs(r@) =~= snapshots_between(self.snapshots@.take(i + 1), start, end));
            i = i + 1;
        }
        assert(self.snapshots@.take(self.snapshots@.len() as int) =~= self.snapshots@);
        r
    }

    /// The last `count` snapshots (all of them when there are fewer), in order.
    pub fn last_snapshots(&self, count: usize) -> (r: Vec<&MetricsSnapshot>)
        ensures
            derefs(r@) == self.snapshots@.skip(keep_last_start(self.snapshots@.len(), count as nat)),
    {
        let start: usize = if self.snapshots.len() > count {
            self.snapshots.len() - count
        } else {
            0
        };
        let mut r: Vec<&MetricsSnapshot> = Vec::new();
        let mut i: usize = start;
        while i < self.snapshots.len()
            invariant
                start <= i <= self.snapshots@.len(),
                start == keep_last_start(self.snapshots@.len(), count as nat),
                derefs(r@) == self.snapshots@.subrange(start as int, i as int),
            decreases self.snapshots.len() - i,
        {
            let e = &self.snapshots[i];
            let ghost prev = r@;
            r.push(e);
            assert(r@ == prev.push(e));
            assert(derefs(r@) =~= derefs(prev).push(self.snapshots@[i as int]));
            assert(self.snapshots@.subrange(start as int, i + 1) =~= self.snapshots@.subrange(
                start as int,
                i as int,
            ).push(self.snapshots@[i as int]));
            i = i + 1;
        }
        assert(derefs(r@) =~= self.snapshots@.skip(start as int));
        r
    }
}

/// The activity log file of `worktree`: `<state dir>/<worktree>/activity.json`.
pub fn get_activity_log_path(state_dir: &str, worktree: &str) -> (r: String)
    ensures
        r@ == spec_path_join(spec_path_join(state_dir@, worktree@), "activity.json"@),
{
    let dir = path_join(state_dir, worktree);
    path_join(dir.as_str(), "activity.json")
}

/// The metrics file of `worktree`: `<state dir>/<worktree>/metrics.json`.
pub fn get_metrics_path(state_dir: &str, worktree: &str) -> (r: String)
    ensures
        r@ == spec_path_join(spec_path_join(state_dir@, worktree@), "metrics.json"@),
{
    let dir = path_join(state_dir, worktree);
    path_join(dir.as_str(), "metrics.json")
}

} // verus!
