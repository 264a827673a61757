//! The status-bar scheduler: per-widget cooldown timers and render
//! caches, stepped once per tick.
use vstd::prelude::*;
use crate::render::{Elem, ElemV, render_matches};
use crate::w::{
    BatteryW, DateTimeW, MemoryW, Readings, Widget, readings_wf,
};
use crate::pattern::{acpi_captures_of, free_captures_of};
use crate::w::battery::battery_render_spec;
use crate::w::date::date_elems_spec;
use crate::w::memory::memory_render_spec;
use crate::{Error, error_eqv, message_spec};

verus! {

/// One of the closed set of widgets the bar schedules.
pub enum WidgetKind {
    DateTime(DateTimeW),
    Battery(BatteryW),
    Memory(MemoryW),
}

/// The declared cooldown of each widget kind.
pub open spec fn cooldown_spec(w: &WidgetKind) -> int {
    match w {
        WidgetKind::DateTime(_) => 1,
        WidgetKind::Battery(_) => 6,
        WidgetKind::Memory(_) => 4,
    }
}

/// The one render outcome of widget `w` on the readings `inp`: exact
/// for the clock, and exact over the named pattern captures for the
/// two widgets that consult an external text.
pub open spec fn blit_outcome(w: &WidgetKind, inp: &Readings, r: Result<Vec<Elem>, Error>) -> bool {
    match w {
        WidgetKind::DateTime(_) => r matches Ok(v) && v.deep_view() == date_elems_spec(inp.time),
        WidgetKind::Battery(_) => match inp.battery {
            Err(e0) => r matches Err(e) && error_eqv(e, e0),
            Ok(t) => render_matches(battery_render_spec(acpi_captures_of(t@)), r),
        },
        WidgetKind::Memory(_) => match inp.memory {
            Err(e0) => r matches Err(e) && error_eqv(e, e0),
            Ok(t) => render_matches(memory_render_spec(free_captures_of(t@)), r),
        },
    }
}

impl WidgetKind {
    /// The widget's refresh cooldown in ticks.
    pub fn cooldown(&self) -> (c: i32)
        ensures
            c == cooldown_spec(self),
    {
        match self {
            WidgetKind::DateTime(w) => 1,
            WidgetKind::Battery(w) => 6,
            WidgetKind::Memory(w) => 4,
        }
    }

    /// Renders the widget from this tick's readings.
    pub fn blit(&self, inp: &Readings) -> (r: Result<Vec<Elem>, Error>)
        requires
            readings_wf(*inp),
        ensures
            blit_outcome(self, inp, r),
    {
        match self {
            WidgetKind::DateTime(w) => Ok(w.render(&inp.time)),
            WidgetKind::Battery(w) => w.render(&inp.battery),
            WidgetKind::Memory(w) => w.render(&inp.memory),
        }
    }
}

/// The fixed ordered widget list: clock, battery, memory.
pub fn all_widgets() -> (v: Vec<WidgetKind>)
    ensures
        v@.len() == 3,
        v@[0] is DateTime,
        v@[1] is Battery,
        v@[2] is Memory,
{
    let mut v: Vec<WidgetKind> = Vec::new();
    v.push(WidgetKind::DateTime(DateTimeW::new()));
    v.push(WidgetKind::Battery(BatteryW::new()));
    v.push(WidgetKind::Memory(MemoryW::new()));
    v
}

/// The status bar's state: the widgets, a countdown timer per widget,
/// and the last successfully rendered segments per widget.
pub struct StatusBar {
    pub widgets: Vec<WidgetKind>,
    pub timers: Vec<i32>,
    pub cache: Vec<Vec<Elem>>,
}

/// Index-aligned slots, every timer within its widget's cooldown.
pub open spec fn bar_wf(sb: &StatusBar) -> bool {
    &&& sb.timers@.len() == sb.widgets@.len()
    &&& sb.cache@.len() == sb.widgets@.len()
    &&& forall|i: int|
        0 <= i < sb.timers@.len() ==> 0 <= #[trigger] sb.timers@[i] < cooldown_spec(
            &sb.widgets@[i],
        )
}

/// How one successful tick relates the bar's state before and after:
/// a widget whose timer was zero re-renders and its timer restarts at
/// its cooldown, every other widget keeps its cache; every timer is
/// then decremented.
pub open spec fn tick_rel(pre: &StatusBar, post: &StatusBar, inp: &Readings) -> bool {
    &&& post.widgets@ == pre.widgets@
    &&& post.timers@.len() == pre.timers@.len() == pre.widgets@.len()
    &&& post.cache@.len() == pre.cache@.len() == pre.widgets@.len()
    &&& forall|i: int|
        0 <= i < pre.timers@.len() ==> if pre.timers@[i] == 0 {
            &&& blit_outcome(&pre.widgets@[i], inp, Ok(#[trigger] post.cache@[i]))
            &&& post.timers@[i] == cooldown_spec(&pre.widgets@[i]) - 1
        } else {
            &&& post.cache@[i] == pre.cache@[i]
            &&& post.timers@[i] == pre.timers@[i] - 1
        }
}

/// A failed tick: some due widget's render can fail with this error.
pub open spec fn tick_err(pre: &StatusBar, inp: &Readings, e: Error) -> bool {
    exists|i: int|
        0 <= i < pre.timers@.len() && pre.timers@[i] == 0 && blit_outcome(
            &pre.widgets@[i],
            inp,
            Err(e),
        )
}

/// The spacer segment written after every widget's segments.
pub open spec fn spacer_v() -> ElemV {
    ElemV { text: seq![' ', ' ', ' ', ' '], color: "#ffffff"@ }
}

/// The assembled display: each widget's cached segments in order,
/// each followed by the spacer.
pub open spec fn assembled(cache: Seq<Seq<ElemV>>) -> Seq<ElemV>
    decreases cache.len(),
{
    if cache.len() == 0 {
        Seq::empty()
    } else {
        assembled(cache.drop_last()) + cache.last() + seq![spacer_v()]
    }
}

impl StatusBar {
    /// A bar over the fixed widget list, every timer at zero so that
    /// every widget renders on the first tick, every cache empty.
    pub fn new() -> (sb: StatusBar)
        ensures
            bar_wf(&sb),
            sb.widgets@.len() == 3,
            sb.widgets@[0] is DateTime,
            sb.widgets@[1] is Battery,
            sb.widgets@[2] is Memory,
            forall|i: int| 0 <= i < 3 ==> #[trigger] sb.timers@[i] == 0,
            forall|i: int| 0 <= i < 3 ==> (#[trigger] sb.cache@[i])@.len() == 0,
    {
        let widgets = all_widgets();
        let mut timers: Vec<i32> = Vec::new();
        let mut cache: Vec<Vec<Elem>> = Vec::new();
        let mut i: usize = 0;
        while i < widgets.len()
            invariant
                0 <= i <= widgets@.len(),
                timers@.len() == i,
                cache@.len() == i,
                forall|j: int| 0 <= j < i ==> #[trigger] timers@[j] == 0,
                forall|j: int| 0 <= j < i ==> (#[trigger] cache@[j])@.len() == 0,
            decreases widgets@.len() - i,
        {
            timers.push(0);
            cache.push(Vec::new());
            i = i + 1;
        }
        proof {
            assert forall|j: int| 0 <= j < widgets@.len() implies 0 < cooldown_spec(
                &widgets@[j],
            ) by {
                assert(widgets@.len() == 3);
            }
        }
        StatusBar { widgets, timers, cache }
    }

    /// One scheduler tick. On success the state advances by
    /// `tick_rel`; on failure the state is left entirely unchanged and
    /// the error is a due widget's render failure.
    pub fn step(&mut self, inp: &Readings) -> (r: Result<(), Error>)
        requires
            bar_wf(&*old(self)),
            readings_wf(*inp),
        ensures
            bar_wf(&*final(self)),
            match r {
                Ok(()) => tick_rel(&*old(self), &*final(self), inp),
                Err(e) => *final(self) == *old(self) && tick_err(&*old(self), inp, e),
            },
    {
        let n = self.timers.len();
        let mut staged: Vec<Option<Vec<Elem>>> = Vec::new();
        let mut i: usize = 0;
        while i < n
            invariant
                0 <= i <= n,
                n == self.timers@.len(),
                bar_wf(&*self),
                *self == *old(self),
                readings_wf(*inp),
                staged@.len() == i,
                forall|j: int|
                    0 <= j < i ==> match #[trigger] staged@[j] {
                        Some(v) => self.timers@[j] == 0 && blit_outcome(
                            &self.widgets@[j],
                            inp,
                            Ok(v),
                        ),
                        None => self.timers@[j] != 0,
                    },
            decreases n - i,
        {
            if self.timers[i] == 0 {
                match self.widgets[i].blit(inp) {
                    Ok(v) => {
                        staged.push(Some(v));
                    },
                    Err(e) => {
                        return Err(e);
                    },
                }
            } else {
                staged.push(None);
            }
            i = i + 1;
        }
        let ghost pre = *self;
        let mut idx = staged.len();
        while idx > 0
            invariant
                0 <= idx <= n,
                n == pre.timers@.len(),
                staged@.len() == idx,
                bar_wf(&pre),
                self.widgets@ == pre.widgets@,
                self.timers@.len() == n,
                self.cache@.len() == pre.cache@.len() == n,
                forall|j: int| 0 <= j < idx ==> #[trigger] self.timers@[j] == pre.timers@[j],
                forall|j: int| 0 <= j < idx ==> #[trigger] self.cache@[j] == pre.cache@[j],
                forall|j: int|
                    0 <= j < idx ==> match #[trigger] staged@[j] {
                        Some(v) => pre.timers@[j] == 0 && blit_outcome(&pre.widgets@[j], inp, Ok(v)),
                        None => pre.timers@[j] != 0,
                    },
                forall|j: int|
                    idx <= j < n ==> if pre.timers@[j] == 0 {
                        blit_outcome(&pre.widgets@[j], inp, Ok(#[trigger] self.cache@[j]))
                            && self.timers@[j] == cooldown_spec(&pre.widgets@[j]) - 1
                    } else {
                        self.cache@[j] == pre.cache@[j] && self.timers@[j] == pre.timers@[j] - 1
                    },
            decreases idx,
        {
            idx = idx - 1;
            let ghost snap = *self;
            let slot = staged.pop();
            match slot {
                Some(Some(v)) => {
                    let ghost vv = v;
                    self.cache[idx] = v;
                    let c = self.widgets[idx].cooldown();
                    self.timers[idx] = c - 1;
                    proof {
                        assert(self.cache@[idx as int] == vv);
                        assert(blit_outcome(&pre.widgets@[idx as int], inp, Ok(vv)));
                        assert(self.timers@[idx as int] == cooldown_spec(&pre.widgets@[idx as int])
                            - 1);
                        assert(forall|j: int|
                            0 <= j < idx ==> #[trigger] self.timers@[j] == snap.timers@[j]
                                && self.cache@[j] == snap.cache@[j]);
                    }
                },
                Some(None) => {
                    let t = self.timers[idx];
                    self.timers[idx] = t - 1;
                    proof {
                        assert(self.timers@ =~= snap.timers@.update(idx as int, (t - 1) as i32));
                    }
                },
                None => {
                    assert(false);
                },
            }
            proof {
                assert(forall|j: int|
                    idx < j < n ==> #[trigger] self.cache@[j] == snap.cache@[j]
                        && self.timers@[j] == snap.timers@[j]);
                assert forall|j: int|
                    idx <= j < n implies (if pre.timers@[j] == 0 {
                        blit_outcome(&pre.widgets@[j], inp, Ok(#[trigger] self.cache@[j]))
                            && self.timers@[j] == cooldown_spec(&pre.widgets@[j]) - 1
                    } else {
                        self.cache@[j] == pre.cache@[j] && self.timers@[j] == pre.timers@[j] - 1
                    }) by {
                    if j > idx {
                        assert(self.cache@[j] == snap.cache@[j]);
                        assert(self.timers@[j] == snap.timers@[j]);
                    }
                }
            }
        }
        proof {
            assert forall|j: int|
                0 <= j < self.timers@.len() implies 0 <= #[trigger] self.timers@[j]
                < cooldown_spec(&self.widgets@[j]) by {
                let cached = self.cache@[j];
                assert(self.widgets@[j] == pre.widgets@[j]);
                if pre.timers@[j] == 0 {
                    assert(blit_outcome(&pre.widgets@[j], inp, Ok(cached)));
                    assert(cooldown_spec(&pre.widgets@[j]) >= 1);
                }
            }
        }
        Ok(())
    }

    /// The full displayed sequence: every widget's cached segments,
    /// each followed by the four-space spacer.
    pub fn blit(&self) -> (v: Vec<Elem>)
        ensures
            v.deep_view() == assembled(self.cache.deep_view()),
    {
        let ghost dc = self.cache.deep_view();
        let mut v: Vec<Elem> = Vec::new();
        let mut i: usize = 0;
        while i < self.cache.len()
            invariant
                0 <= i <= self.cache@.len(),
                dc == self.cache.deep_view(),
                dc.len() == self.cache@.len(),
                v@.len() == assembled(dc.take(i as int)).len(),
                forall|k: int|
                    0 <= k < v@.len() ==> (#[trigger] v@[k]).deep_view() =~~= assembled(
                        dc.take(i as int),
                    )[k],
            decreases self.cache@.len() - i,
        {
            let ghost base = assembled(dc.take(i as int));
            let entry = &self.cache[i];
            proof {
                assert(dc[i as int] == self.cache@[i as int].deep_view());
            }
            let mut j: usize = 0;
            while j < entry.len()
                invariant
                    0 <= j <= entry@.len(),
                    entry == &self.cache@[i as int],
                    0 <= i < self.cache@.len(),
                    dc == self.cache.deep_view(),
                    dc.len() == self.cache@.len(),
                    dc[i as int] == self.cache@[i as int].deep_view(),
                    entry@.len() == dc[i as int].len(),
                    base == assembled(dc.take(i as int)),
                    v@.len() == base.len() + j,
                    forall|k: int|
                        0 <= k < v@.len() ==> (#[trigger] v@[k]).deep_view() =~~= (base
                            + dc[i as int].take(j as int))[k],
                decreases entry@.len() - j,
            {
                let e = &entry[j];
                v.push(Elem { text: e.text.clone(), color: e.color.clone() });
                proof {
                    assert(dc[i as int][j as int] == entry@[j as int].deep_view());
                    assert(v@[v@.len() - 1].deep_view() =~~= (base + dc[i as int].take(j + 1))[v@.len() - 1]);
                }
                j = j + 1;
            }
            v.push(Elem::plain("    "));
            proof {
                reveal_strlit("    ");
                assert("    "@ =~= seq![' ', ' ', ' ', ' ']);
                assert(v@[v@.len() - 1].deep_view() =~~= spacer_v());
                assert(dc[i as int].take(entry@.len() as int) =~= dc[i as int]);
                assert(dc.take(i + 1).drop_last() =~= dc.take(i as int));
                assert(dc.take(i + 1).last() == dc[i as int]);
                assert(assembled(dc.take(i + 1)) == base + dc[i as int] + seq![spacer_v()]);
            }
            i = i + 1;
        }
        proof {
            assert(dc.take(dc.len() as int) =~= dc);
            assert(v.deep_view() =~~= assembled(dc)) by {
                assert(forall|k: int|
                    0 <= k < v@.len() ==> #[trigger] v.deep_view()[k] == v@[k].deep_view());
            }
        }
        v
    }

    /// One displayed tick: steps the scheduler and assembles the
    /// caches; when a due widget's render failed, the scheduler state
    /// is left unchanged and the display is the single red error
    /// segment instead of the stale caches.
    pub fn tick_display(&mut self, inp: &Readings) -> (v: Vec<Elem>)
        requires
            bar_wf(&*old(self)),
            readings_wf(*inp),
        ensures
            bar_wf(&*final(self)),
            (tick_rel(&*old(self), &*final(self), inp) && v.deep_view() == assembled(
                final(self).cache.deep_view(),
            )) || (*final(self) == *old(self) && exists|e: Error|
                #[trigger] tick_err(&*old(self), inp, e) && v.deep_view() == seq![error_elem_v(e)]),
    {
        match self.step(inp) {
            Ok(()) => self.blit(),
            Err(e) => error_blit(&e),
        }
    }
}

/// The one red segment shown for a failed tick.
pub open spec fn error_elem_v(e: Error) -> ElemV {
    ElemV { text: "error: "@ + message_spec(e) + "   "@, color: "#ff0000"@ }
}

/// The single red segment shown for a tick whose render failed.
pub fn error_blit(e: &Error) -> (v: Vec<Elem>)
    ensures
        v.deep_view() == seq![error_elem_v(*e)],
{
    let mut text = String::from_str("error: ");
    let msg = e.message();
    text.append(msg.as_str());
    text.append("   ");
    let mut v: Vec<Elem> = Vec::new();
    v.push(Elem { text, color: String::from_str("#ff0000") });
    proof {
        assert(v.deep_view() =~~= seq![error_elem_v(*e)]);
    }
    v
}

/// On the first tick, with every timer at zero, every widget renders
/// exactly once: each slot's cache is replaced by a fresh render and
/// each timer restarts from its widget's cooldown.
pub proof fn lemma_first_tick_renders_all(pre: &StatusBar, post: &StatusBar, inp: &Readings)
    requires
        tick_rel(pre, post, inp),
        forall|i: int| 0 <= i < pre.timers@.len() ==> #[trigger] pre.timers@[i] == 0,
    ensures
        forall|i: int|
            0 <= i < pre.timers@.len() ==> blit_outcome(
                &pre.widgets@[i],
                inp,
                Ok(#[trigger] post.cache@[i]),
            ) && post.timers@[i] == cooldown_spec(&pre.widgets@[i]) - 1,
{
}

/// After a successful render of widget `i` with cooldown `c` (its
/// timer standing at `c - 1`), further successful ticks leave its
/// cache untouched and count its timer down, so that it re-renders
/// only on the tick `c` ticks after the render: its timer reaches zero
/// exactly when `c - 1` further ticks have passed.
pub proof fn lemma_cooldown_schedule(
    trace: Seq<StatusBar>,
    inps: Seq<Readings>,
    i: int,
    c: int,
)
    requires
        trace.len() >= 1,
        inps.len() >= trace.len() - 1,
        forall|k: int|
            0 <= k < trace.len() - 1 ==> tick_rel(&trace[k], &#[trigger] trace[k + 1], &inps[k]),
        0 <= i < trace[0].timers@.len(),
        trace[0].timers@[i] == c - 1,
        trace.len() <= c,
    ensures
        forall|k: int|
            1 <= k < trace.len() ==> (#[trigger] trace[k].cache@[i]) == trace[0].cache@[i]
                && trace[k].timers@[i] == c - 1 - k,
        forall|k: int|
            0 <= k < trace.len() ==> (#[trigger] trace[k].timers@).len()
                == trace[0].timers@.len(),
    decreases trace.len(),
{
    if trace.len() >= 2 {
        let prefix = trace.drop_last();
        assert(forall|k: int| 0 <= k < prefix.len() ==> prefix[k] == trace[k]);
        assert forall|k: int| 0 <= k < prefix.len() - 1 implies tick_rel(
            &prefix[k],
            &#[trigger] prefix[k + 1],
            &inps[k],
        ) by {
            assert(tick_rel(&trace[k], &trace[k + 1], &inps[k]));
        }
        lemma_cooldown_schedule(prefix, inps, i, c);
        let m = trace.len() - 2;
        assert(tick_rel(&trace[m], &trace[m + 1], &inps[m]));
        if m == 0 {
            assert(trace[m].timers@[i] == c - 1);
        } else {
            assert(prefix[m].cache@[i] == prefix[0].cache@[i]);
            assert(prefix[m].timers@[i] == c - 1 - m);
        }
        assert(trace[m].timers@.len() == trace[0].timers@.len());
        assert(trace[m].timers@[i] == c - 1 - m);
        assert(c - 1 - m >= 1);
        assert(trace[m].timers@[i] != 0);
        assert(trace[m + 1].cache@[i] == trace[m].cache@[i]);
        assert(trace[m + 1].timers@[i] == c - 1 - (m + 1));
        assert forall|k: int|
            1 <= k < trace.len() implies (#[trigger] trace[k].cache@[i]) == trace[0].cache@[i]
            && trace[k].timers@[i] == c - 1 - k by {
            if k < trace.len() - 1 {
                assert(prefix[k].cache@[i] == prefix[0].cache@[i]);
                assert(prefix[k].timers@[i] == c - 1 - k);
            } else {
                if m >= 1 {
                    assert(trace[m].cache@[i] == trace[0].cache@[i]);
                }
            }
        }
    }
}

} // verus!
