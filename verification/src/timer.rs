//! The countdown itself, as a state machine. The caller owns the output
//! sink and the sleeps; the machine decides what text to hand out next and
//! how a write's outcome changes the state, so every decision — when to
//! render, what the closing write holds for which kind of sink, when to
//! stop, and that a failed write stops everything — is made here.

use vstd::prelude::*;
use vstd::string::StringExecFns;
use crate::clock::{clock_text, format_duration};
use crate::duration::{Dur, NANOS_PER_SEC};
use crate::parse::OutType;

verus! {

/// Where the countdown stands.
#[derive(Clone, Copy, Debug, PartialEq, Eq, Structural)]
pub enum Phase {
    /// Time remains: render it, then sleep one step.
    Counting,
    /// Time is exhausted: emit the closing write.
    Ending,
    /// The closing write is out; nothing more to write.
    Done,
    /// A write failed; nothing more may be written.
    Failed,
}

/// What the caller should write next, if anything.
#[derive(Debug)]
pub enum Action {
    /// Write this rendering of the remaining time, then sleep one step.
    Render(String),
    /// Write this closing text; the countdown is over, do not sleep.
    Finish(String),
}

/// One tick's remaining time, after `rem` has been decremented by `step`
/// and clamped at zero.
pub open spec fn step_down(rem: nat, step: nat) -> nat {
    if rem <= step { 0 } else { (rem - step) as nat }
}

/// The remaining time (in nanoseconds) when the `i`-th render happens,
/// counting from a whole countdown of `total` decremented by `step`.
pub open spec fn remaining_at(total: nat, step: nat, i: nat) -> nat
    decreases i,
{
    if i == 0 {
        total
    } else {
        step_down(remaining_at(total, step, (i - 1) as nat), step)
    }
}

/// Every text a countdown of `total` with step `step` (both in
/// nanoseconds) renders, in order, the closing newline not included.
pub open spec fn render_plan(total: nat, step: nat) -> Seq<Seq<char>>
    decreases total,
{
    if total == 0 || step == 0 {
        Seq::empty()
    } else {
        seq![clock_text(total / (NANOS_PER_SEC as nat))] + render_plan(step_down(total, step), step)
    }
}

/// Peeling one tick off the front: what is left of the plan after the
/// first render is the plan of the decremented remaining time.
proof fn lemma_remaining_shift(total: nat, step: nat, i: nat)
    requires
        i >= 1,
    ensures
        remaining_at(total, step, i) == remaining_at(step_down(total, step), step, (i - 1) as nat),
    decreases i,
{
    if i == 1 {
        assert(remaining_at(total, step, 1) == step_down(remaining_at(total, step, 0), step));
        assert(remaining_at(total, step, 0) == total);
        assert(remaining_at(step_down(total, step), step, 0) == step_down(total, step));
    } else {
        lemma_remaining_shift(total, step, (i - 1) as nat);
        assert(remaining_at(total, step, i)
            == step_down(remaining_at(total, step, (i - 1) as nat), step));
        assert(remaining_at(step_down(total, step), step, (i - 1) as nat)
            == step_down(remaining_at(step_down(total, step), step, (i - 2) as nat), step));
    }
}

/// Tick-count law: a countdown of `total` with a positive step `step`
/// (both in nanoseconds) renders exactly the rounded-up quotient
/// `total / step` many times, and every render — the last one included —
/// shows a still positive remaining time, clamping having kept every
/// remaining time non-negative.
pub proof fn lemma_render_count(total: nat, step: nat)
    requires
        0 < step,
        0 < total,
    ensures
        render_plan(total, step).len() == (total + step - 1) / (step as int),
        forall|i: nat| i < render_plan(total, step).len()
            ==> #[trigger] remaining_at(total, step, i) > 0,
        forall|i: int| 0 <= i < render_plan(total, step).len()
            ==> (#[trigger] render_plan(total, step)[i])
                == clock_text(remaining_at(total, step, i as nat) / (NANOS_PER_SEC as nat)),
    decreases total,
{
    if total <= step {
        vstd::arithmetic::div_mod::lemma_fundamental_div_mod_converse(
            total + step - 1, step as int, 1, total - 1);
        assert(render_plan(total, step)
            == seq![clock_text(total / (NANOS_PER_SEC as nat))] + render_plan(0, step));
        assert(render_plan(total, step).len() == 1);
        assert forall|i: nat| i < render_plan(total, step).len()
            implies #[trigger] remaining_at(total, step, i) > 0 by {
            assert(i == 0);
            assert(remaining_at(total, step, 0) == total);
        }
        assert forall|i: int| 0 <= i < render_plan(total, step).len()
            implies (#[trigger] render_plan(total, step)[i])
                == clock_text(remaining_at(total, step, i as nat) / (NANOS_PER_SEC as nat)) by {
            assert(i == 0);
            assert(remaining_at(total, step, 0) == total);
            assert(render_plan(total, step)[0] == clock_text(total / (NANOS_PER_SEC as nat)));
        }
    } else {
        let rest = (total - step) as nat;
        lemma_render_count(rest, step);
        let q0 = (total - 1) / (step as int);
        let r0 = (total - 1) % (step as int);
        vstd::arithmetic::div_mod::lemma_fundamental_div_mod(total - 1, step as int);
        assert((q0 + 1) * step + r0 == step * q0 + r0 + step) by (nonlinear_arith);
        vstd::arithmetic::div_mod::lemma_fundamental_div_mod_converse(
            total + step - 1, step as int, q0 + 1, r0);
        assert(render_plan(total, step)
            == seq![clock_text(total / (NANOS_PER_SEC as nat))] + render_plan(rest, step));
        assert forall|i: nat| i < render_plan(total, step).len()
            implies #[trigger] remaining_at(total, step, i) > 0 by {
            if i >= 1 {
                lemma_remaining_shift(total, step, i);
                assert(step_down(total, step) == rest);
                assert(remaining_at(rest, step, (i - 1) as nat) > 0);
            } else {
                assert(remaining_at(total, step, 0) == total);
            }
        }
        assert forall|i: int| 0 <= i < render_plan(total, step).len()
            implies (#[trigger] render_plan(total, step)[i])
                == clock_text(remaining_at(total, step, i as nat) / (NANOS_PER_SEC as nat)) by {
            if i >= 1 {
                lemma_remaining_shift(total, step, i as nat);
                assert(render_plan(total, step)[i] == render_plan(rest, step)[i - 1]);
                assert(step_down(total, step) == rest);
            } else {
                assert(remaining_at(total, step, 0) == total);
            }
        }
    }
}

/// The tick-count law restated in whole seconds: a countdown of
/// `total_secs` whole seconds with a step of `step_secs` whole seconds, no
/// larger than the total, renders exactly the rounded-up quotient of the
/// two second counts many times, every render at a positive remaining time.
pub proof fn lemma_render_count_whole_seconds(total_secs: nat, step_secs: nat)
    requires
        0 < step_secs <= total_secs,
    ensures
        render_plan(total_secs * (NANOS_PER_SEC as nat), step_secs * (NANOS_PER_SEC as nat)).len()
            == (total_secs + step_secs - 1) / (step_secs as int),
        forall|i: nat|
            i < render_plan(total_secs * (NANOS_PER_SEC as nat), step_secs * (NANOS_PER_SEC as nat)).len()
            ==> #[trigger] remaining_at(
                total_secs * (NANOS_PER_SEC as nat), step_secs * (NANOS_PER_SEC as nat), i) > 0,
{
    let total = total_secs * (NANOS_PER_SEC as nat);
    let step = step_secs * (NANOS_PER_SEC as nat);
    let k = 1_000_000_000int;
    assert(NANOS_PER_SEC as int == k);
    assert(0 < step <= total) by (nonlinear_arith)
        requires
            0 < step_secs <= total_secs,
            total == total_secs * 1_000_000_000,
            step == step_secs * 1_000_000_000,
    ;
    lemma_render_count(total, step);
    let c = (total_secs + step_secs - 1) / (step_secs as int);
    let r0 = (total_secs + step_secs - 1) % (step_secs as int);
    vstd::arithmetic::div_mod::lemma_fundamental_div_mod(
        total_secs + step_secs - 1, step_secs as int);
    let r = r0 * k + k - 1;
    assert(total + step - 1 == c * (step as int) + r && 0 <= r < step as int) by (nonlinear_arith)
        requires
            total == total_secs * 1_000_000_000,
            step == step_secs * 1_000_000_000,
            k == 1_000_000_000,
            total_secs + step_secs - 1 == (step_secs as int) * c + r0,
            0 <= r0 < step_secs as int,
            r == r0 * k + k - 1,
            0 < step_secs,
    ;
    vstd::arithmetic::div_mod::lemma_fundamental_div_mod_converse(
        total + step - 1, step as int, c, r);
}

/// A step no smaller than the whole countdown still renders exactly once,
/// and the one decrement clamps the remaining time to zero instead of
/// wrapping below it.
pub proof fn lemma_render_once(total: nat, step: nat)
    requires
        0 < total <= step,
    ensures
        render_plan(total, step).len() == 1,
        render_plan(total, step)[0] == clock_text(total / (NANOS_PER_SEC as nat)),
        remaining_at(total, step, 1) == 0,
{
    assert(render_plan(total, step)
        == seq![clock_text(total / (NANOS_PER_SEC as nat))] + render_plan(0, step));
    assert(remaining_at(total, step, 1) == step_down(remaining_at(total, step, 0), step));
}

/// A countdown in progress: the remaining time, where it stands, the kind
/// of sink it writes to, and the tick it last rendered. The sink kind
/// decides the closing write: a terminal already shows the last render, so
/// a bare newline completes its line; a file sink replaces the whole file
/// on every write, so the closing write must carry the last render again,
/// newline-terminated, for the file to end up holding it.
#[derive(Clone, Copy, Debug)]
pub struct Countdown {
    pub remaining: Dur,
    pub phase: Phase,
    pub out: OutType,
    pub last: Option<Dur>,
}

impl Countdown {
    /// While counting, time remains; once the countdown ends normally, the
    /// remaining time is pinned at zero.
    pub open spec fn wf(&self) -> bool {
        &&& self.remaining.wf()
        &&& self.phase is Counting ==> self.remaining@ > 0
        &&& self.phase is Ending ==> self.remaining@ == 0
        &&& self.phase is Done ==> self.remaining@ == 0
        &&& (self.last matches Some(d) ==> d.wf())
    }

    /// The text of the closing write: the last render again, newline
    /// terminated, where a file sink would otherwise lose it; a bare
    /// newline for the terminal, or when nothing was rendered at all.
    pub open spec fn finish_text(&self) -> Seq<char> {
        match (self.out, self.last) {
            (OutType::FILE, Some(d)) => clock_text(d@ / (NANOS_PER_SEC as nat)) + seq!['\n'],
            _ => seq!['\n'],
        }
    }

    /// A fresh countdown over the whole configured time, bound to one kind
    /// of sink; one of zero has nothing to render and goes straight to the
    /// closing write.
    pub fn new(total: Dur, out: OutType) -> (c: Countdown)
        requires
            total.wf(),
        ensures
            c.wf(),
            c.remaining == total,
            c.out == out,
            c.last is None,
            c.phase is Counting <==> total@ > 0,
            c.phase is Ending <==> total@ == 0,
    {
        let phase = if total.is_zero() { Phase::Ending } else { Phase::Counting };
        Countdown { remaining: total, phase, out, last: None }
    }

    /// What to write next: the rendered remaining time while counting, the
    /// closing text once exhausted — a bare newline for the terminal, the
    /// last render plus the newline for a file, whose every write replaces
    /// the whole file — and nothing at all, no further render and no
    /// closing text, once done or after a failed write.
    pub fn next_action(&self) -> (a: Option<Action>)
        requires
            self.wf(),
        ensures
            self.phase is Counting ==> (a matches Some(act)
                && (act matches Action::Render(s)
                    && s@ == clock_text(self.remaining@ / (NANOS_PER_SEC as nat)))),
            self.phase is Ending ==> (a matches Some(act)
                && (act matches Action::Finish(s) && s@ == self.finish_text())),
            self.phase is Done || self.phase is Failed ==> a is None,
    {
        match self.phase {
            Phase::Counting => Some(Action::Render(format_duration(&self.remaining))),
            Phase::Ending => {
                proof {
                    reveal_strlit("\n");
                }
                let text = match (self.out, &self.last) {
                    (OutType::FILE, Some(d)) => {
                        let mut s = format_duration(d);
                        s.append("\n");
                        s
                    },
                    _ => {
                        let mut s = String::new();
                        s.append("\n");
                        s
                    },
                };
                proof {
                    assert(text@ =~= self.finish_text());
                }
                Some(Action::Finish(text))
            },
            Phase::Done => None,
            Phase::Failed => None,
        }
    }

    /// Records the outcome of the write the last action asked for. A
    /// failed write moves to `Failed` at once — after which nothing more
    /// is ever written — whatever phase the countdown was in. A successful
    /// render is remembered as the last one and decrements the remaining
    /// time by one step, clamped at zero; a successful closing write
    /// finishes the countdown; once finished or failed, nothing changes
    /// any more.
    pub fn record_write(&mut self, step: &Dur, ok: bool)
        requires
            old(self).wf(),
            step.wf(),
            step@ > 0,
        ensures
            final(self).wf(),
            final(self).out == old(self).out,
            !ok ==> final(self).phase is Failed
                && final(self).remaining == old(self).remaining
                && final(self).last == old(self).last,
            ok && old(self).phase is Counting ==> {
                &&& final(self).remaining@ == step_down(old(self).remaining@, step@)
                &&& final(self).last == Some(old(self).remaining)
                &&& (final(self).remaining@ > 0 <==> final(self).phase is Counting)
                &&& (final(self).remaining@ == 0 <==> final(self).phase is Ending)
            },
            ok && old(self).phase is Ending ==> final(self).phase is Done
                && final(self).remaining == old(self).remaining
                && final(self).last == old(self).last,
            ok && (old(self).phase is Done || old(self).phase is Failed)
                ==> *final(self) == *old(self),
    {
        if !ok {
            self.phase = Phase::Failed;
            return;
        }
        match self.phase {
            Phase::Counting => {
                self.last = Some(self.remaining);
                self.remaining = self.remaining.saturating_sub(step);
                if self.remaining.is_zero() {
                    self.phase = Phase::Ending;
                }
            },
            Phase::Ending => {
                self.phase = Phase::Done;
            },
            Phase::Done => {},
            Phase::Failed => {},
        }
    }
}

/// Every rendering a countdown will make, in order: what a run over `total`
/// with step `step` writes before the closing newline, all computed up
/// front.
pub fn plan(total: &Dur, step: &Dur) -> (v: Vec<String>)
    requires
        total.wf(),
        step.wf(),
        step@ > 0,
    ensures
        v@.len() == render_plan(total@, step@).len(),
        forall|i: int| 0 <= i < v@.len() ==> v@[i]@ == render_plan(total@, step@)[i],
{
    let ghost whole = render_plan(total@, step@);
    let mut v: Vec<String> = Vec::new();
    let mut rem: Dur = *total;
    while !rem.is_zero()
        invariant
            total.wf(),
            step.wf(),
            step@ > 0,
            rem.wf(),
            whole == render_plan(total@, step@),
            render_plan(rem@, step@) =~= whole.skip(v@.len() as int),
            v@.len() <= whole.len(),
            forall|i: int| 0 <= i < v@.len() ==> v@[i]@ == whole[i],
        decreases rem@,
    {
        proof {
            assert(rem@ > 0);
            assert(render_plan(rem@, step@)
                == seq![clock_text(rem@ / (NANOS_PER_SEC as nat))] + render_plan(step_down(rem@, step@), step@));
            assert(render_plan(rem@, step@).len() >= 1);
            assert(whole.skip(v@.len() as int).len() == whole.len() - v@.len());
            assert(v@.len() < whole.len());
            assert(render_plan(rem@, step@)[0] == clock_text(rem@ / (NANOS_PER_SEC as nat)));
            assert(whole.skip(v@.len() as int)[0] == whole[v@.len() as int]);
            assert(whole[v@.len() as int] == render_plan(rem@, step@)[0]);
        }
        v.push(format_duration(&rem));
        let next = rem.saturating_sub(step);
        proof {
            assert(next@ == step_down(rem@, step@));
            assert(render_plan(next@, step@) =~= render_plan(rem@, step@).skip(1));
            assert(render_plan(rem@, step@).skip(1) =~= whole.skip(v@.len() as int));
        }
        rem = next;
    }
    proof {
        assert(render_plan(rem@, step@).len() == 0);
        assert(v@.len() == whole.len());
    }
    v
}

} // verus!
