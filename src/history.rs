use vstd::prelude::*;

use crate::domain::{ExecutionLog, LogView};

verus! {

/// How many execution records the history keeps.
pub const HISTORY_LIMIT: usize = 200;

/// How many records a history listing returns when the caller names no limit.
pub const DEFAULT_HISTORY_PAGE: usize = 50;

/// The contents of a sequence of execution records.
pub open spec fn log_views(s: Seq<ExecutionLog>) -> Seq<LogView> {
    s.map_values(|l: ExecutionLog| l@)
}

/// `l` put in front of `h`, with the oldest record dropped where that makes
/// more than the limit.
pub open spec fn pushed_front(h: Seq<LogView>, l: LogView) -> Seq<LogView> {
    let s = seq![l] + h;
    if s.len() > HISTORY_LIMIT {
        s.subrange(0, HISTORY_LIMIT as int)
    } else {
        s
    }
}

/// `i` is the first place in `h` of a record with the id.
pub open spec fn is_first_log(h: Seq<LogView>, id: Seq<char>, i: int) -> bool {
    0 <= i < h.len() && h[i].id == id && forall|j: int| 0 <= j < i ==> h[j].id != id
}

/// `h` with `l` in place of the first record with its id, or with `l` in
/// front where there is none.
pub open spec fn recorded(h: Seq<LogView>, l: LogView) -> Seq<LogView> {
    if exists|i: int| is_first_log(h, l.id, i) {
        h.update(choose|i: int| is_first_log(h, l.id, i), l)
    } else {
        pushed_front(h, l)
    }
}

/// The `limit` newest records of `h`, newest first.
pub open spec fn newest(h: Seq<LogView>, limit: nat) -> Seq<LogView> {
    if limit < h.len() {
        h.take(limit as int)
    } else {
        h
    }
}

/// Putting a record in front, or recording it, never makes a history longer
/// than the limit, and the newest record then stands in it.
pub proof fn lemma_history_bounded(h: Seq<LogView>, l: LogView)
    requires
        h.len() <= HISTORY_LIMIT,
    ensures
        pushed_front(h, l).len() <= HISTORY_LIMIT,
        pushed_front(h, l)[0] == l,
        recorded(h, l).len() <= HISTORY_LIMIT,
        recorded(h, l).contains(l),
{
    if exists|i: int| is_first_log(h, l.id, i) {
        let i = choose|i: int| is_first_log(h, l.id, i);
        assert(recorded(h, l)[i] == l);
    } else {
        assert(recorded(h, l)[0] == l);
    }
}

/// The records of past and running executions, newest first.
pub struct History {
    entries: Vec<ExecutionLog>,
}

impl History {
    /// The records, newest first.
    pub closed spec fn records(&self) -> Seq<LogView> {
        log_views(self.entries@)
    }

    pub open spec fn wf(&self) -> bool {
        self.records().len() <= HISTORY_LIMIT
    }

    /// An empty history.
    pub fn new() -> (r: History)
        ensures
            r.wf(),
            r.records().len() == 0,
    {
        History { entries: Vec::new() }
    }

    /// Puts `l` in front, dropping the oldest record beyond the limit.
    pub fn push(&mut self, l: ExecutionLog)
        requires
            old(self).wf(),
        ensures
            final(self).wf(),
            final(self).records() == pushed_front(old(self).records(), l@),
    {
        let ghost before = self.records();
        self.entries.insert(0, l);
        if self.entries.len() > HISTORY_LIMIT {
            self.entries.truncate(HISTORY_LIMIT);
        }
        proof {
            assert(self.records() =~= pushed_front(before, l@));
        }
    }

    /// Replaces the first record with the id of `l` by `l`, or puts `l` in
    /// front where there is none.
    pub fn record(&mut self, l: ExecutionLog)
        requires
            old(self).wf(),
        ensures
            final(self).wf(),
            final(self).records() == recorded(old(self).records(), l@),
    {
        let mut i: usize = 0;
        while i < self.entries.len()
            invariant
                i <= self.entries@.len(),
                self.wf(),
                self.records() == old(self).records(),
                forall|j: int| 0 <= j < i ==> self.records()[j].id != l.id@,
            decreases self.entries@.len() - i,
        {
            if self.entries[i].id == l.id {
                let ghost h = self.records();
                let ghost lv = l@;
                proof {
                    assert(is_first_log(h, l.id@, i as int));
                    assert forall|k: int| is_first_log(h, l.id@, k) implies k == i by {
                        if k < i {
                        } else if k > i {
                            assert(h[i as int].id == l.id@);
                        }
                    }
                }
                self.entries.set(i, l);
                proof {
                    assert(self.records() =~= h.update(i as int, lv));
                    assert(self.records().len() == old(self).records().len());
                    assert(is_first_log(h, lv.id, i as int));
                    let c = choose|k: int| is_first_log(h, lv.id, k);
                    assert(is_first_log(h, lv.id, c));
                    assert(c == i);
                    assert(recorded(h, lv) == h.update(i as int, lv));
                }
                return;
            }
            i = i + 1;
        }
        self.push(l);
    }

    /// Copies of the `limit` newest records, newest first.
    pub fn newest(&self, limit: usize) -> (r: Vec<ExecutionLog>)
        ensures
            log_views(r@) == newest(self.records(), limit as nat),
    {
        let n = if limit < self.entries.len() {
            limit
        } else {
            self.entries.len()
        };
        let mut out: Vec<ExecutionLog> = Vec::new();
        let mut i: usize = 0;
        while i < n
            invariant
                n <= self.entries@.len(),
                i <= n,
                log_views(out@) == self.records().take(i as int),
            decreases n - i,
        {
            let ghost before = out@;
            out.push(self.entries[i].copy());
            proof {
                assert(log_views(out@) =~= log_views(before).push(self.entries@[i as int]@));
                assert(self.records().take(i as int + 1) =~= self.records().take(i as int).push(self.records()[i as int]));
            }
            i = i + 1;
        }
        proof {
            if limit >= self.entries@.len() {
                assert(self.records().take(n as int) =~= self.records());
            }
        }
        out
    }
}

} // verus!
