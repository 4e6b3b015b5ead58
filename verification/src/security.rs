//! Security policy: the rolling-window rate limit on tool actions, and the
//! workspace / command configuration that gates what tools may do.

use vstd::prelude::*;

verus! {

/// Length of the rolling window, in seconds.
pub const WINDOW_SECS: u64 = 3600;

/// Controls the tool-action rate and workspace confinement.
///
/// `actions` holds the times (unix seconds) of the accepted actions; only
/// those within the last hour count against the budget.
pub struct SecurityPolicy {
    pub max_actions_per_hour: u64,
    pub workspace_only: bool,
    pub workspace_dir: String,
    pub allowed_commands: Vec<String>,
    pub actions: Vec<u64>,
}

/// The times in `times` that fall within the hour before `now`:
/// strictly newer than `now - 3600`.
pub open spec fn recent_times(times: Seq<u64>, now: u64) -> Seq<u64> {
    times.filter(|t: u64| t + WINDOW_SECS > now)
}

/// Whether an action at `now` is accepted: the recent actions must number
/// strictly fewer than the hourly budget.
pub open spec fn action_allowed(times: Seq<u64>, now: u64, max_per_hour: u64) -> bool {
    recent_times(times, now).len() < max_per_hour
}

impl SecurityPolicy {
    /// Accepted actions recorded so far, newest last.
    pub open spec fn times(&self) -> Seq<u64> {
        self.actions@
    }

    /// Build a policy; the action log starts empty.
    pub fn new(
        max_actions_per_hour: u64,
        workspace_only: bool,
        workspace_dir: String,
        allowed_commands: Vec<String>,
    ) -> (p: SecurityPolicy)
        ensures
            p.max_actions_per_hour == max_actions_per_hour,
            p.workspace_only == workspace_only,
            p.workspace_dir@ == workspace_dir@,
            p.allowed_commands@ == allowed_commands@,
            p.times() == Seq::<u64>::empty(),
    {
        let p = SecurityPolicy {
            max_actions_per_hour,
            workspace_only,
            workspace_dir,
            allowed_commands,
            actions: Vec::new(),
        };
        proof {
            assert(p.actions@ =~= Seq::<u64>::empty());
        }
        p
    }

    /// Record an action attempted at time `now` (unix seconds).
    ///
    /// Consults the rolling window: when the accepted actions of the past
    /// hour already reach `max_actions_per_hour`, the action is rejected
    /// and nothing is recorded; otherwise `now` is recorded and the action
    /// accepted.
    pub fn record_action_at(&mut self, now: u64) -> (accepted: bool)
        ensures
            accepted == action_allowed(old(self).times(), now, old(self).max_actions_per_hour),
            accepted ==> final(self).times() == old(self).times().push(now),
            !accepted ==> final(self).times() == old(self).times(),
            final(self).max_actions_per_hour == old(self).max_actions_per_hour,
            final(self).workspace_only == old(self).workspace_only,
            final(self).workspace_dir == old(self).workspace_dir,
            final(self).allowed_commands == old(self).allowed_commands,
    {
        let n = self.actions.len();
        let mut recent: u64 = 0;
        let mut i: usize = 0;
        while i < n
            invariant
                n == self.actions@.len(),
                i <= n,
                recent == recent_times(self.actions@.take(i as int), now).len(),
                recent <= i,
            decreases n - i,
        {
            proof {
                reveal_with_fuel(Seq::filter, 2);
                assert(self.actions@.take(i as int + 1).drop_last() =~= self.actions@.take(
                    i as int,
                ));
                assert(self.actions@.take(i as int + 1).last() == self.actions@[i as int]);
            }
            let t = self.actions[i];
            if now < WINDOW_SECS || t > now - WINDOW_SECS {
                recent = recent + 1;
            }
            i = i + 1;
        }
        proof {
            assert(self.actions@.take(n as int) =~= self.actions@);
        }
        if recent < self.max_actions_per_hour {
            self.actions.push(now);
            true
        } else {
            false
        }
    }
}

/// The first whitespace-separated token of a command line.
pub open spec fn first_token(s: Seq<char>) -> Seq<char> {
    let t = crate::strings::trim_spec(s);
    t.take(token_end(t, 0))
}

/// Where the first token ends: the first space at or after `i`, or the end.
pub open spec fn token_end(s: Seq<char>, i: int) -> int
    decreases s.len() - i,
{
    if i < 0 || i >= s.len() {
        s.len() as int
    } else if crate::strings::is_space_char(s[i]) {
        i
    } else {
        token_end(s, i + 1)
    }
}

impl SecurityPolicy {
    /// Whether the allowed-command list admits this shell command: an empty
    /// list admits everything, otherwise the command's first token must be
    /// one of the allowed names.
    pub fn command_allowed(&self, command: &str) -> (r: bool)
        ensures
            r == (self.allowed_commands@.len() == 0 || exists|k: int|
                0 <= k < self.allowed_commands@.len() && (#[trigger] self.allowed_commands@[k])@
                    == first_token(command@)),
    {
        if self.allowed_commands.len() == 0 {
            return true;
        }
        let trimmed = crate::strings::trim_str(command);
        let chars = crate::strings::str_chars(trimmed.as_str());
        let n = chars.len();
        let mut e: usize = 0;
        while e < n && !crate::strings::is_space(chars[e])
            invariant
                n == chars@.len(),
                e <= n,
                token_end(chars@, 0) == token_end(chars@, e as int),
            decreases n - e,
        {
            e = e + 1;
        }
        let mut token: Vec<char> = Vec::new();
        let mut i: usize = 0;
        while i < e
            invariant
                e <= chars@.len(),
                i <= e,
                token@ == chars@.take(e as int).take(i as int),
            decreases e - i,
        {
            token.push(chars[i]);
            i = i + 1;
            proof {
                assert(token@ =~= chars@.take(e as int).take(i as int));
            }
        }
        proof {
            assert(chars@.take(e as int).take(e as int) =~= chars@.take(e as int));
            assert(token@ =~= first_token(command@));
        }
        let token_str = crate::strings::chars_to_string(&token);
        let m = self.allowed_commands.len();
        let mut k: usize = 0;
        while k < m
            invariant
                m == self.allowed_commands@.len(),
                k <= m,
                token_str@ == first_token(command@),
                forall|j: int|
                    0 <= j < k ==> (#[trigger] self.allowed_commands@[j])@ != first_token(
                        command@,
                    ),
            decreases m - k,
        {
            if crate::strings::str_eq(self.allowed_commands[k].as_str(), token_str.as_str()) {
                return true;
            }
            k = k + 1;
        }
        false
    }
}

/// Whether an already-canonicalized absolute path lies within the
/// workspace: it is the workspace itself, or sits below it.
pub open spec fn within_dir(path: Seq<char>, dir: Seq<char>) -> bool {
    path == dir || crate::strings::starts_with_seq(path, dir + "/"@)
}

/// Path confinement for an already-canonicalized path. Canonicalization
/// (resolving `..` and links) is filesystem work and happens outside; this
/// decides on the resolved text.
pub fn path_within_workspace(canonical_path: &str, workspace_dir: &str) -> (r: bool)
    ensures
        r == within_dir(canonical_path@, workspace_dir@),
{
    if crate::strings::str_eq(canonical_path, workspace_dir) {
        return true;
    }
    let prefix = crate::strings::concat_str(workspace_dir, "/");
    crate::strings::str_starts_with(canonical_path, prefix.as_str())
}

impl Default for SecurityPolicy {
    /// A fresh policy: sixty actions an hour, confined to an (unset)
    /// workspace, no commands allowed yet, nothing recorded.
    fn default() -> (p: SecurityPolicy)
        ensures
            p.max_actions_per_hour == 60,
            p.workspace_only,
            p.workspace_dir@.len() == 0,
            p.allowed_commands@.len() == 0,
            p.times() == Seq::<u64>::empty(),
    {
        let p = SecurityPolicy {
            max_actions_per_hour: 60,
            workspace_only: true,
            workspace_dir: String::new(),
            allowed_commands: Vec::new(),
            actions: Vec::new(),
        };
        proof {
            assert(p.actions@ =~= Seq::<u64>::empty());
        }
        p
    }
}

/// Every recorded time in the window count is a recorded time.
proof fn lemma_recent_subset(times: Seq<u64>, now: u64)
    ensures
        recent_times(times, now).len() <= times.len(),
    decreases times.len(),
{
    broadcast use vstd::seq_lib::group_filter_ensures;

}

/// Rate-limit round trip. After exactly `max` accepted calls within the
/// window, the next call is rejected; and once a full hour passes with no
/// further calls, the quota is fully restored.
///
/// Starting from an empty log, `max` calls at times that all lie within
/// one hour of `last` are all accepted; a further call at `last` is
/// rejected; and a call at any time `later` at least an hour past every
/// recorded action is accepted again.
pub proof fn lemma_rate_limit_round_trip(times: Seq<u64>, max: u64, now: u64, later: u64)
    requires
        max >= 1,
    ensures
        times.len() < max ==> action_allowed(times, now, max),
        (forall|i: int|
            0 <= i < times.len() ==> (#[trigger] times[i]) + WINDOW_SECS > now) && times.len()
            >= max ==> !action_allowed(times, now, max),
        (forall|i: int|
            0 <= i < times.len() ==> (#[trigger] times[i]) + WINDOW_SECS <= later)
            ==> action_allowed(times, later, max),
{
    broadcast use vstd::seq_lib::group_filter_ensures;

    lemma_recent_subset(times, now);
    if forall|i: int| 0 <= i < times.len() ==> (#[trigger] times[i]) + WINDOW_SECS > now {
        lemma_recent_all(times, now);
    }
    if forall|i: int| 0 <= i < times.len() ==> (#[trigger] times[i]) + WINDOW_SECS <= later {
        lemma_recent_none(times, later);
    }
}

/// When every time is recent, the window holds all of them.
proof fn lemma_recent_all(times: Seq<u64>, now: u64)
    requires
        forall|i: int| 0 <= i < times.len() ==> (#[trigger] times[i]) + WINDOW_SECS > now,
    ensures
        recent_times(times, now).len() == times.len(),
    decreases times.len(),
{
    reveal_with_fuel(Seq::filter, 2);
    if times.len() > 0 {
        lemma_recent_all(times.drop_last(), now);
    }
}

/// When every time is stale, the window is empty.
proof fn lemma_recent_none(times: Seq<u64>, now: u64)
    requires
        forall|i: int| 0 <= i < times.len() ==> (#[trigger] times[i]) + WINDOW_SECS <= now,
    ensures
        recent_times(times, now).len() == 0,
    decreases times.len(),
{
    reveal_with_fuel(Seq::filter, 2);
    if times.len() > 0 {
        lemma_recent_none(times.drop_last(), now);
    }
}

} // verus!
