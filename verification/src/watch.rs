//! Debouncing of file changes. Editors write a file in bursts; the watcher
//! answers each change of a watched path by setting a timer anew, and only a
//! timer that runs out undisturbed signals a change. The clock and the timer
//! belong to the caller: it reports what happened and when, and is told
//! what to do.

use vstd::prelude::*;
use crate::text::same_text;

verus! {

/// The quiet period of the preview, in milliseconds.
pub const QUIET_PERIOD_MS: u64 = 200;

/// The watcher of a fixed set of paths.
pub struct Debouncer {
    watched: Vec<String>,
    quiet: u64,
    deadline: Option<u64>,
}

/// What a debouncer is, for the contracts.
pub struct DebouncerModel {
    /// The watched paths.
    pub watched: Seq<Seq<char>>,
    /// The quiet period: how long no change must come before one is
    /// signalled.
    pub quiet: nat,
    /// When the timer runs out, where one is set.
    pub deadline: Option<nat>,
}

/// Whether `path` is one of the paths `watched`.
pub open spec fn is_watched(watched: Seq<Seq<char>>, path: Seq<char>) -> bool {
    exists|i: int| 0 <= i < watched.len() && watched[i] == path
}

/// When a timer set at `now` runs out: a quiet period later, or at the end
/// of the clock where that comes first.
pub open spec fn deadline_after(now: nat, quiet: nat) -> nat {
    if now + quiet > u64::MAX {
        u64::MAX as nat
    } else {
        now + quiet
    }
}

/// Whether a timer with this deadline has run out at `now`.
pub open spec fn has_run_out(deadline: Option<nat>, now: nat) -> bool {
    deadline matches Some(at) && at <= now
}

/// How many changes are signalled for changes of a watched path at the
/// moments `times`, when the timer stands at `deadline` before the first of
/// them: a timer that has run out when the next change comes has signalled
/// one change, each change sets the timer anew, and the last timer runs out
/// undisturbed.
pub open spec fn signals(deadline: Option<nat>, quiet: nat, times: Seq<nat>) -> nat
    decreases times.len(),
{
    if times.len() == 0 {
        if deadline is Some {
            1
        } else {
            0
        }
    } else {
        let fired: nat = if has_run_out(deadline, times[0]) {
            1
        } else {
            0
        };
        fired + signals(Some(deadline_after(times[0], quiet)), quiet, times.drop_first())
    }
}

/// Changes that all come within less than the quiet period of the one
/// before are signalled once, by the timer that the last of them set.
pub proof fn burst_is_signalled_once(deadline: Option<nat>, quiet: nat, times: Seq<nat>)
    requires
        times.len() > 0,
        !has_run_out(deadline, times[0]),
        forall|i: int|
            0 < i < times.len() ==> times[i - 1] <= #[trigger] times[i] < times[i - 1] + quiet,
        times.last() + quiet <= u64::MAX,
    ensures
        signals(deadline, quiet, times) == 1,
    decreases times.len(),
{
    let rest = times.drop_first();
    if rest.len() > 0 {
        assert(times[0] <= times[1] < times[0] + quiet);
        assert forall|i: int| 0 < i < rest.len() implies rest[i - 1] <= #[trigger] rest[i]
            < rest[i - 1] + quiet by {
            assert(times[i] <= times[i + 1] < times[i] + quiet);
        }
        assert(rest.last() == times.last());
        assert(times[0] + quiet <= u64::MAX) by {
            assert forall|i: int| 0 < i < times.len() implies times[i - 1] <= #[trigger] times[i] by {
                assert(times[i - 1] <= times[i] < times[i - 1] + quiet);
            }
            never_after_last(times, 0);
        }
        burst_is_signalled_once(Some(deadline_after(times[0], quiet)), quiet, rest);
    } else {
        assert(signals(Some(deadline_after(times[0], quiet)), quiet, rest) == 1);
    }
}

/// In a sequence of moments that never go back, none comes after the last.
pub proof fn never_after_last(times: Seq<nat>, at: int)
    requires
        0 <= at < times.len(),
        forall|i: int| 0 < i < times.len() ==> times[i - 1] <= #[trigger] times[i],
    ensures
        times[at] <= times.last(),
    decreases times.len() - at,
{
    if at < times.len() - 1 {
        assert(times[at] <= times[at + 1]);
        never_after_last(times, at + 1);
    }
}

/// Changes that each come more than the quiet period after the one before
/// are signalled one by one: as many signals as changes, and one more for a
/// timer that was set before the first of them and has run out when it
/// comes.
pub proof fn spaced_changes_are_signalled_each(deadline: Option<nat>, quiet: nat, times: Seq<nat>)
    requires
        times.len() > 0 && deadline is Some ==> has_run_out(deadline, times[0]),
        forall|i: int| 0 < i < times.len() ==> times[i - 1] + quiet < #[trigger] times[i],
        times.len() > 0 ==> times.last() + quiet <= u64::MAX,
    ensures
        signals(deadline, quiet, times) == times.len() + if deadline is Some {
            1nat
        } else {
            0nat
        },
    decreases times.len(),
{
    if times.len() > 0 {
        let rest = times.drop_first();
        assert forall|i: int| 0 < i < rest.len() implies rest[i - 1] + quiet < #[trigger] rest[i] by {
            assert(times[i] + quiet < times[i + 1]);
        }
        if rest.len() > 0 {
            assert(rest.last() == times.last());
            assert(times[0] + quiet < times[1]);
            assert(times[1] <= times.last()) by {
                assert forall|i: int| 0 < i < times.len() implies times[i - 1] <= #[trigger] times[i] by {
                    assert(times[i - 1] + quiet < times[i]);
                }
                never_after_last(times, 1);
            }
        }
        spaced_changes_are_signalled_each(Some(deadline_after(times[0], quiet)), quiet, rest);
    }
}

/// The paths to watch for a deck: its markdown, then its style and its
/// script where it has them.
pub open spec fn watched_paths(
    input: Seq<char>,
    css: Option<Seq<char>>,
    js: Option<Seq<char>>,
) -> Seq<Seq<char>> {
    seq![input] + match css {
        Some(path) => seq![path],
        None => Seq::empty(),
    } + match js {
        Some(path) => seq![path],
        None => Seq::empty(),
    }
}

/// The paths to watch for a deck: its markdown, then its style and its
/// script where it has them.
pub fn watch_set(input: String, css: Option<String>, js: Option<String>) -> (paths: Vec<String>)
    ensures
        Seq::new(paths@.len(), |i: int| paths@[i]@) == watched_paths(
            input@,
            match css {
                Some(path) => Some(path@),
                None => None,
            },
            match js {
                Some(path) => Some(path@),
                None => None,
            },
        ),
{
    let mut paths: Vec<String> = Vec::new();
    paths.push(input);
    match css {
        Some(path) => {
            paths.push(path);
        },
        None => {},
    }
    match js {
        Some(path) => {
            paths.push(path);
        },
        None => {},
    }
    assert(Seq::new(paths@.len(), |i: int| paths@[i]@) =~= watched_paths(
        input@,
        match css {
            Some(path) => Some(path@),
            None => None,
        },
        match js {
            Some(path) => Some(path@),
            None => None,
        },
    ));
    paths
}

impl View for Debouncer {
    type V = DebouncerModel;

    closed spec fn view(&self) -> DebouncerModel {
        DebouncerModel {
            watched: Seq::new(self.watched@.len(), |i: int| self.watched@[i]@),
            quiet: self.quiet as nat,
            deadline: match self.deadline {
                Some(at) => Some(at as nat),
                None => None,
            },
        }
    }
}

impl Debouncer {
    /// A watcher of `paths` with the quiet period `quiet`, with no timer set.
    pub fn new(paths: Vec<String>, quiet: u64) -> (watcher: Debouncer)
        ensures
            watcher@.watched == Seq::new(paths@.len(), |i: int| paths@[i]@),
            watcher@.quiet == quiet,
            watcher@.deadline is None,
    {
        Debouncer { watched: paths, quiet, deadline: None }
    }

    /// Whether `path` is one of the watched paths.
    pub fn watches(&self, path: &str) -> (yes: bool)
        ensures
            yes == is_watched(self@.watched, path@),
    {
        let mut i: usize = 0;
        while i < self.watched.len()
            invariant
                i <= self.watched.len(),
                forall|k: int| 0 <= k < i ==> self@.watched[k] != path@,
            decreases self.watched.len() - i,
        {
            if same_text(self.watched[i].as_str(), path) {
                assert(self@.watched[i as int] == path@);
                return true;
            }
            i += 1;
        }
        false
    }

    /// When the timer runs out, where one is set.
    pub fn deadline(&self) -> (at: Option<u64>)
        ensures
            match at {
                Some(moment) => self@.deadline == Some(moment as nat),
                None => self@.deadline is None,
            },
    {
        self.deadline
    }

    /// How long the timer has to run at `now`: nothing where it has run out,
    /// and no time at all where none is set.
    pub fn time_left(&self, now: u64) -> (left: Option<u64>)
        ensures
            match self@.deadline {
                Some(at) => left == Some(
                    if at <= now {
                        0u64
                    } else {
                        (at - now) as u64
                    },
                ),
                None => left is None,
            },
    {
        match self.deadline {
            Some(at) => {
                if at <= now {
                    Some(0)
                } else {
                    Some(at - now)
                }
            },
            None => None,
        }
    }

    /// A file changed at `now`. A change of a watched path sets the timer
    /// anew, to run out a quiet period after `now`, and the deadline is
    /// returned; a change of any other path is ignored.
    pub fn on_event(&mut self, path: &str, now: u64) -> (armed: Option<u64>)
        ensures
            final(self)@.watched == old(self)@.watched,
            final(self)@.quiet == old(self)@.quiet,
            is_watched(old(self)@.watched, path@) ==> armed == Some(
                deadline_after(now as nat, old(self)@.quiet) as u64,
            ) && final(self)@.deadline == Some(deadline_after(now as nat, old(self)@.quiet)),
            !is_watched(old(self)@.watched, path@) ==> armed is None && final(self)@.deadline
                == old(self)@.deadline,
    {
        if self.watches(path) {
            let at: u64 = if now > u64::MAX - self.quiet {
                u64::MAX
            } else {
                now + self.quiet
            };
            self.deadline = Some(at);
            Some(at)
        } else {
            None
        }
    }

    /// The timer woke at `now`. Where it has run out, the change is
    /// signalled (the result is `true`) and no timer is left; where it was
    /// set anew in the meantime, or none is set, nothing happens.
    pub fn on_timer(&mut self, now: u64) -> (fire: bool)
        ensures
            final(self)@.watched == old(self)@.watched,
            final(self)@.quiet == old(self)@.quiet,
            fire == has_run_out(old(self)@.deadline, now as nat),
            fire ==> final(self)@.deadline is None,
            !fire ==> final(self)@.deadline == old(self)@.deadline,
    {
        match self.deadline {
            Some(at) => {
                if at <= now {
                    self.deadline = None;
                    true
                } else {
                    false
                }
            },
            None => false,
        }
    }
}

/// The moments of a clock, as the contracts speak of them.
pub open spec fn moments(times: Seq<u64>) -> Seq<nat> {
    Seq::new(times.len(), |i: int| times[i] as nat)
}

/// Runs a watcher of `paths` through changes of `path` at the moments
/// `times`, as the loop that drives a watcher does: when a change comes, the
/// timer is asked first whether it has run out, then the change sets it
/// anew; after the last change the timer runs out undisturbed. The result
/// is how many changes were signalled: none for a path that is not watched.
pub fn count_signals(paths: Vec<String>, quiet: u64, path: &str, times: &Vec<u64>) -> (count: usize)
    ensures
        count == if is_watched(Seq::new(paths@.len(), |i: int| paths@[i]@), path@) {
            signals(None, quiet as nat, moments(times@))
        } else {
            0
        },
{
    let ghost all = moments(times@);
    let mut watcher = Debouncer::new(paths, quiet);
    let ghost watched = watcher@.watched;
    let mut count: usize = 0;
    let mut i: usize = 0;
    assert(all.subrange(0, all.len() as int) == all);
    while i < times.len()
        invariant
            i <= times.len(),
            all == moments(times@),
            watcher@.watched == watched,
            watcher@.quiet == quiet,
            count + (if watcher@.deadline is Some {
                1int
            } else {
                0int
            }) <= i,
            is_watched(watched, path@) ==> signals(None, quiet as nat, all) == count + signals(
                watcher@.deadline,
                quiet as nat,
                all.subrange(i as int, all.len() as int),
            ),
            !is_watched(watched, path@) ==> count == 0 && watcher@.deadline is None,
        decreases times.len() - i,
    {
        let now = times[i];
        proof {
            let rest = all.subrange(i as int, all.len() as int);
            assert(rest[0] == now as nat);
            assert(rest.drop_first() == all.subrange(i + 1, all.len() as int));
        }
        if watcher.on_timer(now) {
            count += 1;
        }
        watcher.on_event(path, now);
        i += 1;
    }
    match watcher.deadline() {
        Some(at) => {
            if watcher.on_timer(at) {
                count += 1;
            }
        },
        None => {},
    }
    count
}

} // verus!
