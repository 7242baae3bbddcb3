//! Reports that are shown for a while.

use vstd::prelude::*;

verus! {

/// How long a report of success stays, in milliseconds.
pub const TOAST_SUCCESS_MS: u64 = 4000;

/// How long a report of a failure stays, in milliseconds.
pub const TOAST_ERROR_MS: u64 = 12000;

#[derive(Debug)]
pub struct Toast {
    pub id: u64,
    pub message: String,
    pub is_error: bool,
    pub created_at_ms: u64,
}

impl Toast {
    pub open spec fn max_age(self) -> u64 {
        if self.is_error {
            TOAST_ERROR_MS
        } else {
            TOAST_SUCCESS_MS
        }
    }

    /// The report is still to be shown at a time; one of the future is new.
    pub open spec fn fresh(self, now_ms: u64) -> bool {
        now_ms <= self.created_at_ms || now_ms - self.created_at_ms < self.max_age()
    }
}

/// The numbers of reports increase, up to `last`.
pub open spec fn numbered(toasts: Seq<Toast>, last: u64) -> bool {
    &&& forall|i: int, j: int|
        0 <= i < j < toasts.len() ==> (#[trigger] toasts[i]).id < (#[trigger] toasts[j]).id
    &&& forall|i: int| 0 <= i < toasts.len() ==> (#[trigger] toasts[i]).id <= last
}

proof fn lemma_filter_keeps_numbers(toasts: Seq<Toast>, keep: spec_fn(Toast) -> bool, last: u64)
    requires
        numbered(toasts, last),
    ensures
        numbered(toasts.filter(keep), last),
        forall|i: int|
            0 <= i < toasts.filter(keep).len() ==> toasts.contains(
                #[trigger] toasts.filter(keep)[i],
            ),
    decreases toasts.len(),
{
    reveal(Seq::filter);
    if toasts.len() > 0 {
        let front = toasts.drop_last();
        lemma_filter_keeps_numbers(front, keep, last);
        assert forall|i: int| 0 <= i < front.filter(keep).len() implies toasts.contains(
            #[trigger] front.filter(keep)[i],
        ) && front.filter(keep)[i].id < toasts.last().id by {
            assert(front.contains(front.filter(keep)[i]));
            let k = choose|k: int| 0 <= k < front.len() && front[k] == front.filter(keep)[i];
            assert(toasts[k] == front[k]);
            assert(toasts[k].id < toasts[toasts.len() - 1].id);
        }
        assert(toasts.contains(toasts.last()));
    }
}

/// The reports that are shown, the oldest first, and the number of the last one.
#[derive(Debug)]
pub struct ToastQueue {
    pub toasts: Vec<Toast>,
    pub seq: u64,
}

impl ToastQueue {
    /// `next` holds one more report.
    pub open spec fn reports(
        self,
        next: ToastQueue,
        message: Seq<char>,
        is_error: bool,
        now_ms: u64,
    ) -> bool {
        &&& next.seq == self.seq + 1
        &&& next.toasts@.len() == self.toasts@.len() + 1
        &&& next.toasts@.drop_last() == self.toasts@
        &&& next.toasts@.last().id == next.seq
        &&& next.toasts@.last().message@ == message
        &&& next.toasts@.last().is_error == is_error
        &&& next.toasts@.last().created_at_ms == now_ms
    }

    /// Each report has a number of its own, none above that of the last one.
    pub open spec fn wf(self) -> bool {
        numbered(self.toasts@, self.seq)
    }

    pub fn new() -> (r: ToastQueue)
        ensures
            r.toasts@.len() == 0,
            r.seq == 0,
            r.wf(),
    {
        ToastQueue { toasts: Vec::new(), seq: 0 }
    }

    /// Shows a report.
    pub fn push_toast(&mut self, message: String, is_error: bool, now_ms: u64)
        requires
            old(self).seq < u64::MAX,
        ensures
            old(self).reports(*final(self), message@, is_error, now_ms),
            old(self).wf() ==> final(self).wf(),
    {
        self.seq = self.seq + 1;
        let ghost before = self.toasts@;
        self.toasts.push(Toast { id: self.seq, message, is_error, created_at_ms: now_ms });
        assert(self.toasts@.drop_last() =~= before);
        assert(old(self).wf() ==> self.wf()) by {
            assert(forall|i: int| 0 <= i < before.len() ==> self.toasts@[i] == before[i]);
        }
    }

    /// Takes the reports away that were shown long enough.
    pub fn tick_toasts(&mut self, now_ms: u64)
        ensures
            final(self).seq == old(self).seq,
            final(self).toasts@ == old(self).toasts@.filter(|t: Toast| t.fresh(now_ms)),
            old(self).wf() ==> final(self).wf(),
    {
        let ghost keep = |t: Toast| t.fresh(now_ms);
        let ghost all = self.toasts@;
        let count: usize = self.toasts.len();
        let mut kept: Vec<Toast> = Vec::new();
        let mut i: usize = 0;
        assert(all.take(0).filter(keep) =~= Seq::empty()) by {
            reveal(Seq::filter);
        }
        while i < count
            invariant
                i <= count == all.len(),
                keep == (|t: Toast| t.fresh(now_ms)),
                self.toasts@ == all.subrange(i as int, count as int),
                kept@ == all.take(i as int).filter(keep),
                self.seq == old(self).seq,
            decreases count - i,
        {
            let toast = self.toasts.remove(0);
            proof {
                assert(toast == all[i as int]);
                assert(self.toasts@ =~= all.subrange(i + 1, count as int));
                reveal(Seq::filter);
                assert(all.take(i + 1).drop_last() =~= all.take(i as int));
            }
            let max_age = if toast.is_error {
                TOAST_ERROR_MS
            } else {
                TOAST_SUCCESS_MS
            };
            if now_ms <= toast.created_at_ms || now_ms - toast.created_at_ms < max_age {
                kept.push(toast);
            }
            i = i + 1;
        }
        assert(all.take(i as int) =~= all);
        self.toasts = kept;
        proof {
            if old(self).wf() {
                lemma_filter_keeps_numbers(all, keep, self.seq);
            }
        }
    }

    /// Takes a report away.
    pub fn dismiss_toast(&mut self, id: u64)
        ensures
            final(self).seq == old(self).seq,
            final(self).toasts@ == old(self).toasts@.filter(|t: Toast| t.id != id),
            old(self).wf() ==> final(self).wf(),
    {
        let ghost keep = |t: Toast| t.id != id;
        let ghost all = self.toasts@;
        let count: usize = self.toasts.len();
        let mut kept: Vec<Toast> = Vec::new();
        let mut i: usize = 0;
        assert(all.take(0).filter(keep) =~= Seq::empty()) by {
            reveal(Seq::filter);
        }
        while i < count
            invariant
                i <= count == all.len(),
                keep == (|t: Toast| t.id != id),
                self.toasts@ == all.subrange(i as int, count as int),
                kept@ == all.take(i as int).filter(keep),
                self.seq == old(self).seq,
            decreases count - i,
        {
            let toast = self.toasts.remove(0);
            proof {
                assert(toast == all[i as int]);
                assert(self.toasts@ =~= all.subrange(i + 1, count as int));
                reveal(Seq::filter);
                assert(all.take(i + 1).drop_last() =~= all.take(i as int));
            }
            if toast.id != id {
                kept.push(toast);
            }
            i = i + 1;
        }
        assert(all.take(i as int) =~= all);
        self.toasts = kept;
        proof {
            if old(self).wf() {
                lemma_filter_keeps_numbers(all, keep, self.seq);
            }
        }
    }

    pub fn has_active_toasts(&self) -> (r: bool)
        ensures
            r == (self.toasts@.len() > 0),
    {
        self.toasts.len() > 0
    }
}

/// A report that was just shown is still there at any time before its age is
/// reached, and gone from then on.
pub proof fn law_report_stays_for_its_age(toast: Toast, now_ms: u64)
    requires
        toast.created_at_ms <= now_ms,
    ensures
        toast.fresh(now_ms) <==> now_ms < toast.created_at_ms + (if toast.is_error {
            12000int
        } else {
            4000int
        }),
{
}

} // verus!
