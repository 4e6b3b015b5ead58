//! Daemon bookkeeping the kernel can decide by itself: where the pid and
//! state files live, reading a pid from file text, which channels call for
//! a supervisor, heartbeat task collection, and snapshot freshness.

use vstd::prelude::*;

use crate::config::Config;
use crate::strings::{chars_to_string, str_chars, trim_chars, trim_spec};

verus! {

/// The directory part of a path: everything before the last `/`, or `.`
/// when there is none.
pub open spec fn dir_of(p: Seq<char>) -> Seq<char> {
    if exists|i: int| 0 <= i < p.len() && p[i] == '/' {
        let last = choose|i: int|
            0 <= i < p.len() && p[i] == '/' && (forall|j: int| i < j < p.len() ==> p[j] != '/');
        p.take(last)
    } else {
        "."@
    }
}

/// The position of the last `/` of a path, if any.
fn last_slash(p: &Vec<char>) -> (r: Option<usize>)
    ensures
        r matches Some(i) ==> i < p@.len() && p@[i as int] == '/' && (forall|j: int|
            i < j < p@.len() ==> p@[j] != '/'),
        r is None ==> forall|j: int| 0 <= j < p@.len() ==> p@[j] != '/',
{
    let n = p.len();
    let mut i: usize = n;
    while i > 0
        invariant
            n == p@.len(),
            i <= n,
            forall|j: int| i <= j < n ==> p@[j] != '/',
        decreases i,
    {
        i = i - 1;
        if p[i] == '/' {
            return Some(i);
        }
    }
    None
}

/// Join the directory of `config_path` with a file name.
fn sibling_path(config_path: &str, file_name: &str) -> (r: String)
    ensures
        r@ == dir_of(config_path@) + "/"@ + file_name@,
{
    let chars = str_chars(config_path);
    let found = last_slash(&chars);
    let dir: String = if let Some(idx) = found {
        let mut d: Vec<char> = Vec::new();
        let mut i: usize = 0;
        let end: usize = idx;
        while i < end
            invariant
                end <= chars@.len(),
                i <= end,
                d@ == chars@.take(end as int).take(i as int),
            decreases end - i,
        {
            d.push(chars[i]);
            i = i + 1;
            proof {
                assert(d@ =~= chars@.take(end as int).take(i as int));
            }
        }
        proof {
            assert(chars@.take(end as int).take(end as int) =~= chars@.take(end as int));
            let last = choose|i: int|
                0 <= i < chars@.len() && chars@[i] == '/' && (forall|j: int|
                    i < j < chars@.len() ==> chars@[j] != '/');
            assert(chars@[end as int] == '/');
            if last < end {
                assert(chars@[end as int] != '/');
            }
            if last > end {
                assert(chars@[last] != '/');
            }
            assert(last == end);
        }
        chars_to_string(&d)
    } else {
        ".".to_owned()
    };
    let with_sep = crate::strings::concat_str(dir.as_str(), "/");
    let r = crate::strings::concat_str(with_sep.as_str(), file_name);
    proof {
        assert(r@ =~= dir_of(config_path@) + "/"@ + file_name@);
    }
    r
}

/// Where the daemon records its pid: `daemon.pid` beside the config file.
pub fn pid_file_path(config: &Config) -> (r: String)
    ensures
        r@ == dir_of(config.config_path@) + "/"@ + "daemon.pid"@,
{
    sibling_path(config.config_path.as_str(), "daemon.pid")
}

/// Where the daemon writes its health snapshot: `daemon_state.json`
/// beside the config file.
pub fn state_file_path(config: &Config) -> (r: String)
    ensures
        r@ == dir_of(config.config_path@) + "/"@ + "daemon_state.json"@,
{
    sibling_path(config.config_path.as_str(), "daemon_state.json")
}

/// Is `c` a decimal digit?
pub open spec fn is_digit(c: char) -> bool {
    '0' <= c && c <= '9'
}

/// The numeric value of a digit string, accumulated left to right.
pub open spec fn digits_value(s: Seq<char>) -> int
    decreases s.len(),
{
    if s.len() == 0 {
        0
    } else {
        digits_value(s.drop_last()) * 10 + (s.last() as int - '0' as int)
    }
}

/// What parsing pid-file text yields: the text is trimmed, and accepted
/// exactly when what remains is one or more digits whose value fits `u32`.
pub open spec fn parse_pid_spec(raw: Seq<char>) -> Option<u32> {
    let t = trim_spec(raw);
    if t.len() > 0 && (forall|i: int| 0 <= i < t.len() ==> is_digit(#[trigger] t[i]))
        && digits_value(t) <= u32::MAX {
        Some(digits_value(t) as u32)
    } else {
        None
    }
}

/// Parse the contents of a pid file: trim, then read a decimal pid.
pub fn parse_pid(raw: &str) -> (r: Option<u32>)
    ensures
        r == parse_pid_spec(raw@),
{
    let chars = str_chars(raw);
    let t = trim_chars(&chars);
    let n = t.len();
    if n == 0 {
        return None;
    }
    let mut value: u64 = 0;
    let mut i: usize = 0;
    while i < n
        invariant
            n == t@.len(),
            t@ == trim_spec(raw@),
            i <= n,
            forall|j: int| 0 <= j < i ==> is_digit(#[trigger] t@[j]),
            value == digits_value(t@.take(i as int)),
            value <= u32::MAX,
        decreases n - i,
    {
        let c = t[i];
        if c < '0' || c > '9' {
            proof {
                assert(!is_digit(t@[i as int]));
            }
            return None;
        }
        let d: u64 = (c as u32 as u64) - ('0' as u32 as u64);
        proof {
            assert(t@.take(i as int + 1).drop_last() =~= t@.take(i as int));
            assert(t@.take(i as int + 1).last() == t@[i as int]);
        }
        let next = value * 10 + d;
        if next > u32::MAX as u64 {
            proof {
                if forall|j: int| 0 <= j < t@.len() ==> is_digit(#[trigger] t@[j]) {
                    lemma_digits_prefix_bound(t@, i as int + 1);
                }
            }
            return None;
        }
        value = next;
        i = i + 1;
    }
    proof {
        assert(t@.take(n as int) =~= t@);
    }
    Some(value as u32)
}

/// A longer digit string never has a smaller value: when some prefix
/// already exceeds `u32::MAX`, so does the whole.
proof fn lemma_digits_prefix_bound(t: Seq<char>, m: int)
    requires
        0 <= m <= t.len(),
        forall|i: int| 0 <= i < m ==> is_digit(#[trigger] t[i]),
        forall|i: int| 0 <= i < t.len() ==> is_digit(#[trigger] t[i]),
        digits_value(t.take(m)) > u32::MAX,
    ensures
        digits_value(t) > u32::MAX,
    decreases t.len() - m,
{
    if m < t.len() {
        assert(t.take(m + 1).drop_last() =~= t.take(m));
        assert(t.take(m + 1).last() == t[m]);
        assert(digits_value(t.take(m + 1)) == digits_value(t.take(m)) * 10 + (t[m] as int
            - '0' as int));
        assert(digits_value(t.take(m)) * 10 >= digits_value(t.take(m))) by (nonlinear_arith)
            requires
                digits_value(t.take(m)) >= 0,
        ;
        assert(digits_value(t.take(m)) >= 0) by {
            lemma_digits_nonneg(t.take(m));
        }
        lemma_digits_prefix_bound(t, m + 1);
    } else {
        assert(t.take(m) =~= t);
    }
}

proof fn lemma_digits_nonneg(s: Seq<char>)
    requires
        forall|i: int| 0 <= i < s.len() ==> is_digit(#[trigger] s[i]),
    ensures
        digits_value(s) >= 0,
    decreases s.len(),
{
    if s.len() > 0 {
        assert(forall|i: int| 0 <= i < s.drop_last().len() ==> is_digit(
            #[trigger] s.drop_last()[i],
        ));
        lemma_digits_nonneg(s.drop_last());
        assert(digits_value(s.drop_last()) * 10 >= 0) by (nonlinear_arith)
            requires
                digits_value(s.drop_last()) >= 0,
        ;
    }
}

/// Whether any messaging transport is configured, so that the daemon must
/// spawn the channels supervisor.
pub fn has_supervised_channels(config: &Config) -> (b: bool)
    ensures
        b == (config.channels_config.telegram is Some || config.channels_config.discord is Some
            || config.channels_config.slack is Some || config.channels_config.imessage is Some
            || config.channels_config.matrix is Some),
{
    config.channels_config.telegram.is_some() || config.channels_config.discord.is_some()
        || config.channels_config.slack.is_some() || config.channels_config.imessage.is_some()
        || config.channels_config.matrix.is_some()
}

/// The position of the first `\n`, or the length when there is none.
pub open spec fn first_newline(text: Seq<char>) -> int
    decreases text.len(),
{
    if text.len() == 0 {
        0
    } else if text[0] == '\n' {
        0
    } else {
        1 + first_newline(text.drop_first())
    }
}

/// The first newline lies in range, is a newline, and nothing before it is.
pub proof fn lemma_first_newline(text: Seq<char>)
    ensures
        0 <= first_newline(text) <= text.len(),
        first_newline(text) < text.len() ==> text[first_newline(text)] == '\n',
        forall|j: int| 0 <= j < first_newline(text) ==> text[j] != '\n',
    decreases text.len(),
{
    if text.len() > 0 && text[0] != '\n' {
        lemma_first_newline(text.drop_first());
        let d = text.drop_first();
        assert forall|j: int| 0 <= j < first_newline(text) implies text[j] != '\n' by {
            if j > 0 {
                assert(d[j - 1] == text[j]);
                assert(d[j - 1] != '\n');
            }
        }
    }
}

/// One heartbeat task per line of the tasks file: blank lines and comment
/// lines (starting with `#` after trimming) are skipped, others are kept
/// trimmed, in order.
pub open spec fn heartbeat_tasks_spec(text: Seq<char>) -> Seq<Seq<char>>
    decreases text.len(),
    via heartbeat_tasks_spec_dec
{
    let line_end = first_newline(text);
    let line = trim_spec(text.take(line_end));
    let rest = if line_end >= text.len() {
        Seq::<Seq<char>>::empty()
    } else {
        heartbeat_tasks_spec(text.skip(line_end + 1))
    };
    if line.len() == 0 || line[0] == '#' {
        rest
    } else {
        seq![line] + rest
    }
}

#[via_fn]
proof fn heartbeat_tasks_spec_dec(text: Seq<char>) {
    lemma_first_newline(text);
}

/// Collect the heartbeat tasks from the tasks file's text.
pub fn heartbeat_tasks(text: &str) -> (r: Vec<String>)
    ensures
        r@.map_values(|s: String| s@) == heartbeat_tasks_spec(text@),
{
    let chars = str_chars(text);
    let mut out: Vec<String> = Vec::new();
    let ghost whole = chars@;
    let mut rest: Vec<char> = chars;
    proof {
        assert(heartbeat_tasks_spec(text@) =~= Seq::<Seq<char>>::empty()
            + heartbeat_tasks_spec(rest@));
        assert(out@.map_values(|s: String| s@) =~= Seq::<Seq<char>>::empty());
    }
    loop
        invariant
            heartbeat_tasks_spec(text@) == out@.map_values(|s: String| s@)
                + heartbeat_tasks_spec(rest@),
        decreases rest@.len(),
    {
        let n = rest.len();
        // Find the first newline.
        let mut e: usize = 0;
        while e < n && rest[e] != '\n'
            invariant
                n == rest@.len(),
                e <= n,
                forall|j: int| 0 <= j < e ==> rest@[j] != '\n',
            decreases n - e,
        {
            e = e + 1;
        }
        proof {
            lemma_first_newline(rest@);
            let fnl = first_newline(rest@);
            if e < n {
                assert(rest@[e as int] == '\n');
                if fnl < e {
                    assert(rest@[fnl] != '\n');
                }
                if fnl > e {
                    assert(rest@[e as int] != '\n');
                }
                assert(fnl == e);
            } else {
                if fnl < n {
                    assert(rest@[fnl] != '\n');
                }
                assert(fnl == n as int);
            }
        }
        // The line itself.
        let mut line: Vec<char> = Vec::new();
        let mut i: usize = 0;
        while i < e
            invariant
                e <= rest@.len(),
                i <= e,
                line@ == rest@.take(e as int).take(i as int),
            decreases e - i,
        {
            line.push(rest[i]);
            i = i + 1;
            proof {
                assert(line@ =~= rest@.take(e as int).take(i as int));
            }
        }
        proof {
            assert(rest@.take(e as int).take(e as int) =~= rest@.take(e as int));
        }
        let trimmed = trim_chars(&line);
        let ghost out_before = out@;
        if trimmed.len() > 0 && trimmed[0] != '#' {
            out.push(chars_to_string(&trimmed));
            proof {
                assert(out@.map_values(|s: String| s@) =~= out_before.map_values(|s: String| s@)
                    + seq![trim_spec(rest@.take(first_newline(rest@)))]);
            }
        }
        if e == n {
            proof {
                let line_spec = trim_spec(rest@.take(first_newline(rest@)));
                if line_spec.len() == 0 || line_spec[0] == '#' {
                    assert(heartbeat_tasks_spec(rest@) =~= Seq::<Seq<char>>::empty());
                } else {
                    assert(heartbeat_tasks_spec(rest@) =~= seq![line_spec]);
                }
                assert(heartbeat_tasks_spec(text@) =~= out@.map_values(|s: String| s@));
            }
            return out;
        }
        // Drop the line and its newline.
        let mut next: Vec<char> = Vec::new();
        let mut j: usize = e + 1;
        while j < n
            invariant
                n == rest@.len(),
                e + 1 <= j <= n,
                next@ == rest@.subrange(e as int + 1, j as int),
            decreases n - j,
        {
            next.push(rest[j]);
            j = j + 1;
            proof {
                assert(next@ =~= rest@.subrange(e as int + 1, j as int));
            }
        }
        proof {
            assert(next@ =~= rest@.skip(e as int + 1));
            let line_spec = trim_spec(rest@.take(first_newline(rest@)));
            if line_spec.len() == 0 || line_spec[0] == '#' {
                assert(heartbeat_tasks_spec(rest@) =~= heartbeat_tasks_spec(rest@.skip(
                    e as int + 1,
                )));
            } else {
                assert(heartbeat_tasks_spec(rest@) =~= seq![line_spec] + heartbeat_tasks_spec(
                    rest@.skip(e as int + 1),
                ));
            }
            assert(out@.map_values(|s: String| s@) + heartbeat_tasks_spec(next@)
                =~= heartbeat_tasks_spec(text@));
        }
        rest = next;
    }
}

/// The heartbeat period actually used: the configured minutes, floored
/// at five.
pub fn heartbeat_interval_minutes(configured: u32) -> (m: u32)
    ensures
        m == vstd::math::max(configured as int, 5),
{
    if configured < 5 {
        5
    } else {
        configured
    }
}

/// The user prompt a heartbeat task runs with.
pub fn heartbeat_prompt(task: &str) -> (r: String)
    ensures
        r@ == "[Heartbeat Task] "@ + task@,
{
    crate::strings::concat_str("[Heartbeat Task] ", task)
}

/// What the stop sequence does next, after `polls_done` hundred-millisecond
/// polls have found the process still alive: keep waiting for up to ten
/// seconds, then escalate to a hard kill.
#[derive(Clone, Copy, Debug, PartialEq, Eq, Structural)]
pub enum StopStep {
    /// Sleep this many milliseconds, then probe again.
    Wait { millis: u64 },
    /// The grace period is spent: kill hard.
    Escalate,
}

/// The stop sequence's next move.
pub fn stop_poll_step(polls_done: u32) -> (r: StopStep)
    ensures
        polls_done < 100 ==> r == (StopStep::Wait { millis: 100 }),
        polls_done >= 100 ==> r == StopStep::Escalate,
{
    if polls_done < 100 {
        StopStep::Wait { millis: 100 }
    } else {
        StopStep::Escalate
    }
}

/// Whether a component's snapshot is stale: its age exceeds the threshold.
pub fn snapshot_stale(age_secs: i64, threshold_secs: i64) -> (b: bool)
    ensures
        b == (age_secs > threshold_secs),
{
    age_secs > threshold_secs
}

} // verus!
