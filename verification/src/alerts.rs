//! The queue of toast alerts.
use vstd::prelude::*;
use vstd::string::*;
use crate::lists::lemma_filter_take_step;

verus! {

/// The kind of an alert.
#[derive(Clone, Copy, Debug, PartialEq, Eq, Structural)]
pub enum AlertKind {
    Info,
    Success,
    Warning,
    Error,
}

/// The daisyUI class of an alert kind.
pub open spec fn css_class_spec(k: AlertKind) -> Seq<char> {
    match k {
        AlertKind::Info => "alert-info"@,
        AlertKind::Success => "alert-success"@,
        AlertKind::Warning => "alert-warning"@,
        AlertKind::Error => "alert-error"@,
    }
}

/// The icon name of an alert kind.
pub open spec fn icon_spec(k: AlertKind) -> Seq<char> {
    match k {
        AlertKind::Info | AlertKind::Success => "info"@,
        AlertKind::Warning => "warning"@,
        AlertKind::Error => "error"@,
    }
}

impl AlertKind {
    /// The daisyUI class of alerts of this kind.
    pub fn css_class(&self) -> (r: &'static str)
        ensures
            r@ == css_class_spec(*self),
    {
        match self {
            AlertKind::Info => "alert-info",
            AlertKind::Success => "alert-success",
            AlertKind::Warning => "alert-warning",
            AlertKind::Error => "alert-error",
        }
    }

    /// The icon of alerts of this kind.
    pub fn icon(&self) -> (r: &'static str)
        ensures
            r@ == icon_spec(*self),
    {
        match self {
            AlertKind::Info | AlertKind::Success => "info",
            AlertKind::Warning => "warning",
            AlertKind::Error => "error",
        }
    }
}

/// An alert on screen.
#[derive(Clone, Debug)]
pub struct Alert {
    pub kind: AlertKind,
    pub text: String,
    pub id: u64,
}

/// At most this many alerts are on screen.
pub const MAX_ALERTS: usize = 5;

/// An alert repeated within this many milliseconds of the last one is dropped.
pub const REPEAT_WINDOW_MS: u64 = 1500;

/// The alerts on screen, oldest first, and what is needed to number and deduplicate new ones.
pub struct AlertQueue {
    alerts: Vec<Alert>,
    next_id: u64,
    last_kind: AlertKind,
    last_text: String,
    last_at: u64,
}

/// What a queue holds, seen from outside.
pub struct AlertQueueView {
    /// The alerts on screen, oldest first.
    pub alerts: Seq<Alert>,
    /// The id of the last alert shown (0 before the first).
    pub last_id: u64,
    /// The kind, text and time of the last alert shown (`Info`, empty, 0 at first).
    pub last: (AlertKind, Seq<char>, u64),
}

impl View for AlertQueue {
    type V = AlertQueueView;

    closed spec fn view(&self) -> AlertQueueView {
        AlertQueueView {
            alerts: self.alerts@,
            last_id: self.next_id,
            last: (self.last_kind, self.last_text@, self.last_at),
        }
    }
}

/// The queue's rule: at most five alerts, their ids increasing and none above the last id.
pub open spec fn queue_wf(v: AlertQueueView) -> bool {
    &&& v.alerts.len() <= MAX_ALERTS
    &&& forall|i: int, j: int| 0 <= i < j < v.alerts.len() ==> v.alerts[i].id < v.alerts[j].id
    &&& forall|i: int| 0 <= i < v.alerts.len() ==> v.alerts[i].id <= v.last_id
}

/// An alert of kind `k` with text `t` at `now` repeats the last one: same kind, same text,
/// less than 1.5 seconds later (or the clock went back).
pub open spec fn is_repeat(v: AlertQueueView, k: AlertKind, t: Seq<char>, now: u64) -> bool {
    v.last.0 == k && v.last.1 == t && (now as int) - (v.last.2 as int) < REPEAT_WINDOW_MS as int
}

/// The alerts after `a` is shown: appended, and the oldest ones dropped beyond five.
pub open spec fn shown(alerts: Seq<Alert>, a: Alert) -> Seq<Alert> {
    let all = alerts.push(a);
    if all.len() > MAX_ALERTS {
        all.skip(all.len() - MAX_ALERTS)
    } else {
        all
    }
}

/// Filtering keeps ids increasing and bounded.
proof fn lemma_filter_keeps_order(s: Seq<Alert>, pred: spec_fn(Alert) -> bool)
    requires
        forall|i: int, j: int| 0 <= i < j < s.len() ==> s[i].id < s[j].id,
    ensures
        forall|i: int, j: int|
            0 <= i < j < s.filter(pred).len() ==> s.filter(pred)[i].id < s.filter(pred)[j].id,
        forall|i: int|
            0 <= i < s.filter(pred).len() ==> exists|j: int|
                0 <= j < s.len() && s[j] == #[trigger] s.filter(pred)[i],
        s.filter(pred).len() <= s.len(),
    decreases s.len(),
{
    reveal(Seq::filter);
    if s.len() > 0 {
        let d = s.drop_last();
        lemma_filter_keeps_order(d, pred);
        let f = d.filter(pred);
        assert forall|i: int| 0 <= i < f.len() implies f[i].id < s.last().id by {
            let j = choose|j: int| 0 <= j < d.len() && d[j] == f[i];
            assert(s[j] == d[j]);
        }
        if pred(s.last()) {
            let g = f.push(s.last());
            assert(s.filter(pred) == g);
            assert forall|i: int| 0 <= i < g.len() implies exists|j: int|
                0 <= j < s.len() && s[j] == #[trigger] g[i] by {
                if i < f.len() {
                    let j = choose|j: int| 0 <= j < d.len() && d[j] == f[i];
                    assert(s[j] == g[i]);
                } else {
                    assert(s[s.len() - 1] == g[i]);
                }
            }
        } else {
            assert(s.filter(pred) == f);
            assert forall|i: int| 0 <= i < f.len() implies exists|j: int|
                0 <= j < s.len() && s[j] == #[trigger] f[i] by {
                let j = choose|j: int| 0 <= j < d.len() && d[j] == f[i];
                assert(s[j] == f[i]);
            }
        }
    }
}

impl AlertQueue {
    /// Every queue keeps the rule.
    #[verifier::type_invariant]
    spec fn keeps_rule(self) -> bool {
        queue_wf(self@)
    }

    /// An empty queue.
    pub fn new() -> (q: Self)
        ensures
            q@.alerts.len() == 0,
            q@.last_id == 0,
            q@.last == (AlertKind::Info, Seq::<char>::empty(), 0u64),
            queue_wf(q@),
    {
        AlertQueue {
            alerts: Vec::new(),
            next_id: 0,
            last_kind: AlertKind::Info,
            last_text: String::new(),
            last_at: 0,
        }
    }

    /// The alerts on screen, oldest first.
    pub fn alerts(&self) -> (r: &Vec<Alert>)
        ensures
            r@ == self@.alerts,
    {
        &self.alerts
    }

    /// The id of the last alert shown (0 before the first).
    pub fn last_id(&self) -> (r: u64)
        ensures
            r == self@.last_id,
    {
        self.next_id
    }

    /// Shows an alert at `now` (milliseconds): unless it repeats the last one, it gets the next
    /// id, becomes the last one and is appended, dropping the oldest beyond five. Returns the id
    /// of the shown alert, to dismiss it later.
    pub fn show(&mut self, kind: AlertKind, text: String, now: u64) -> (r: Option<u64>)
        requires
            old(self)@.last_id < u64::MAX,
        ensures
            queue_wf(final(self)@),
            if is_repeat(old(self)@, kind, text@, now) {
                r is None && final(self)@ == old(self)@
            } else {
                &&& r == Some((old(self)@.last_id + 1) as u64)
                &&& final(self)@.last_id == old(self)@.last_id + 1
                &&& final(self)@.last == (kind, text@, now)
                &&& final(self)@.alerts == shown(
                    old(self)@.alerts,
                    Alert { kind, text, id: (old(self)@.last_id + 1) as u64 },
                )
            },
    {
        proof {
            use_type_invariant(&*self);
        }
        let repeat = self.last_kind == kind && self.last_text == text && (now as i128)
            - (self.last_at as i128) < 1500;
        if repeat {
            return None;
        }
        self.last_kind = kind;
        self.last_text = text.clone();
        self.last_at = now;
        self.next_id = self.next_id + 1;
        let id = self.next_id;
        let mut alerts: Vec<Alert> = Vec::new();
        std::mem::swap(&mut alerts, &mut self.alerts);
        let ghost before = alerts@;
        alerts.push(Alert { kind, text, id });
        if alerts.len() > MAX_ALERTS {
            alerts.remove(0);
            assert(alerts@ =~= before.push(Alert { kind, text, id }).skip(1));
        }
        proof {
            let a = alerts@;
            assert forall|i: int, j: int| 0 <= i < j < a.len() implies a[i].id < a[j].id by {}
        }
        self.alerts = alerts;
        Some(id)
    }

    /// Removes the alert with the id `id`, if it is still on screen.
    pub fn dismiss(&mut self, id: u64)
        ensures
            queue_wf(final(self)@),
            final(self)@.alerts == old(self)@.alerts.filter(|a: Alert| a.id != id),
            final(self)@.last_id == old(self)@.last_id,
            final(self)@.last == old(self)@.last,
    {
        proof {
            use_type_invariant(&*self);
        }
        let mut alerts: Vec<Alert> = Vec::new();
        std::mem::swap(&mut alerts, &mut self.alerts);
        let ghost orig = alerts@;
        let ghost pred = |a: Alert| a.id != id;
        let mut i: usize = 0;
        let ghost mut j: int = 0;
        proof {
            reveal(Seq::filter);
            assert(orig.take(0) =~= Seq::<Alert>::empty());
            assert(orig.skip(0) =~= orig);
            assert(orig.take(0).filter(pred) =~= Seq::<Alert>::empty());
        }
        while i < alerts.len()
            invariant
                0 <= j <= orig.len(),
                pred == (|a: Alert| a.id != id),
                i == orig.take(j).filter(pred).len(),
                alerts@ == orig.take(j).filter(pred) + orig.skip(j),
            decreases alerts.len() - i,
        {
            proof {
                lemma_filter_take_step(orig, pred, j);
                assert(alerts@[i as int] == orig[j]);
            }
            if alerts[i].id == id {
                alerts.remove(i);
                proof {
                    assert(alerts@ =~= orig.take(j + 1).filter(pred) + orig.skip(j + 1));
                    j = j + 1;
                }
            } else {
                proof {
                    assert(alerts@ =~= orig.take(j + 1).filter(pred) + orig.skip(j + 1));
                    j = j + 1;
                }
                i = i + 1;
            }
        }
        proof {
            assert(orig.take(j) =~= orig);
            assert(alerts@ =~= orig.filter(pred));
            lemma_filter_keeps_order(orig, pred);
        }
        self.alerts = alerts;
    }

    /// Takes the alerts on screen, oldest first, and leaves none; the numbering and the last
    /// alert stay.
    pub fn drain(&mut self) -> (r: Vec<Alert>)
        ensures
            r@ == old(self)@.alerts,
            final(self)@.alerts.len() == 0,
            final(self)@.last_id == old(self)@.last_id,
            final(self)@.last == old(self)@.last,
            queue_wf(final(self)@),
    {
        proof {
            use_type_invariant(&*self);
        }
        let mut taken: Vec<Alert> = Vec::new();
        std::mem::swap(&mut taken, &mut self.alerts);
        taken
    }
}

} // verus!
