//! Bookkeeping for the process-tree CPU sampler.
//!
//! The sampler enumerates the live subtree of the root child and reads each
//! process's CPU clock.  The surrounding task does the `/proc` reads; this
//! module holds the verified parts: the walk's stack discipline and the
//! table of per-process CPU times.  The table never drops an entry and
//! never lowers a recorded value, so the billed totals — the sum of all
//! values and the count of processes ever seen — are nondecreasing even
//! when processes die between ticks or a stale sample arrives.

use vstd::prelude::*;

verus! {

/// Sum of the recorded CPU milliseconds in a table view.
pub open spec fn total_of(entries: Seq<(u64, u64)>) -> int
    decreases entries.len(),
{
    if entries.len() == 0 {
        0
    } else {
        total_of(entries.drop_last()) + entries.last().1
    }
}

/// Clamp a mathematical total into a `u64` reading.
pub open spec fn clamp_u64(x: int) -> u64 {
    if x > u64::MAX {
        u64::MAX
    } else if x < 0 {
        0u64
    } else {
        x as u64
    }
}

/// Per-process CPU time, keyed by process ID, in milliseconds.
pub struct CpuTimeTable {
    entries: Vec<(u64, u64)>,
}

impl View for CpuTimeTable {
    type V = Seq<(u64, u64)>;

    closed spec fn view(&self) -> Seq<(u64, u64)> {
        self.entries@
    }
}

impl CpuTimeTable {
    /// Process IDs are recorded at most once.
    pub open spec fn wf(&self) -> bool {
        forall|i: int, j: int|
            0 <= i < j < self@.len() ==> (#[trigger] self@[i]).0 != (#[trigger] self@[j]).0
    }

    /// The table holds an entry for `pid`.
    pub open spec fn has_pid(&self, pid: u64) -> bool {
        exists|i: int| 0 <= i < self@.len() && (#[trigger] self@[i]).0 == pid
    }

    /// An empty table.
    pub fn new() -> (table: CpuTimeTable)
        ensures
            table@ =~= Seq::<(u64, u64)>::empty(),
            table.wf(),
    {
        CpuTimeTable { entries: Vec::new() }
    }

    /// Number of distinct processes ever recorded.
    pub fn count(&self) -> (n: usize)
        ensures
            n == self@.len(),
    {
        self.entries.len()
    }

    /// Record one CPU-clock sample for `pid`.
    ///
    /// A new process is appended; a known process keeps the larger of its
    /// recorded value and the sample, so no entry is ever removed and no
    /// recorded value ever decreases.
    pub fn record(&mut self, pid: u64, millis: u64)
        requires
            old(self).wf(),
        ensures
            final(self).wf(),
            final(self)@ == record_one(old(self)@, pid, millis),
    {
        let n: usize = self.entries.len();
        let mut i: usize = 0;
        while i < n
            invariant
                n == self@.len(),
                0 <= i <= n,
                self@ == old(self)@,
                self.wf(),
                forall|k: int| 0 <= k < i ==> (#[trigger] self@[k]).0 != pid,
            decreases n - i,
        {
            if self.entries[i].0 == pid {
                proof {
                    let j = choose|j: int|
                        0 <= j < old(self)@.len() && (#[trigger] old(self)@[j]).0 == pid;
                    assert(old(self)@[i as int].0 == pid);
                    assert(j == i) by {
                        if j < i as int {
                            assert(old(self)@[j].0 != old(self)@[i as int].0);
                        } else if j > i as int {
                            assert(old(self)@[i as int].0 != old(self)@[j].0);
                        }
                    }
                }
                if self.entries[i].1 < millis {
                    self.entries[i] = (pid, millis);
                } else {
                    proof {
                        assert(old(self)@.update(i as int, (pid, old(self)@[i as int].1)) =~= old(
                            self,
                        )@);
                    }
                }
                return ;
            }
            i = i + 1;
        }
        self.entries.push((pid, millis));
    }

    /// The total CPU milliseconds recorded over all processes, saturating
    /// at `u64::MAX`.
    pub fn total_millis(&self) -> (total: u64)
        ensures
            total == clamp_u64(total_of(self@)),
    {
        let n: usize = self.entries.len();
        let mut acc: u128 = 0;
        let mut i: usize = 0;
        proof {
            assert(self@.take(0) =~= Seq::<(u64, u64)>::empty());
        }
        while i < n
            invariant
                n == self@.len(),
                0 <= i <= n,
                acc == total_of(self@.take(i as int)),
                acc <= (i as int) * (u64::MAX as int),
            decreases n - i,
        {
            proof {
                assert(self@.take(i + 1).drop_last() =~= self@.take(i as int));
                assert(self@.take(i + 1).last() == self@[i as int]);
                assert((i as int) * (u64::MAX as int) + (u64::MAX as int) == ((i + 1) as int) * (
                u64::MAX as int)) by (nonlinear_arith);
                assert(((i + 1) as int) * (u64::MAX as int) < u128::MAX) by (nonlinear_arith)
                    requires
                        i + 1 <= u64::MAX,
                ;
            }
            acc = acc + self.entries[i].1 as u128;
            i = i + 1;
        }
        proof {
            assert(self@.take(n as int) =~= self@);
        }
        if acc > u64::MAX as u128 {
            u64::MAX
        } else {
            acc as u64
        }
    }
}

/// The table view after recording one sample: a known process keeps the
/// larger of its recorded value and the sample, a new one is appended.
pub open spec fn record_one(t: Seq<(u64, u64)>, pid: u64, millis: u64) -> Seq<(u64, u64)> {
    if exists|j: int| 0 <= j < t.len() && (#[trigger] t[j]).0 == pid {
        let j = choose|j: int| 0 <= j < t.len() && (#[trigger] t[j]).0 == pid;
        t.update(j, (pid, if t[j].1 >= millis {
            t[j].1
        } else {
            millis
        }))
    } else {
        t.push((pid, millis))
    }
}

/// The table view after recording a batch of samples, first to last.
pub open spec fn record_all(t: Seq<(u64, u64)>, samples: Seq<(u64, u64)>) -> Seq<(u64, u64)>
    decreases samples.len(),
{
    if samples.len() == 0 {
        t
    } else {
        record_all(record_one(t, samples[0].0, samples[0].1), samples.drop_first())
    }
}

/// Recording a batch then one more sample is recording into the batch's table.
pub proof fn lemma_record_all_snoc(t: Seq<(u64, u64)>, samples: Seq<(u64, u64)>, x: (u64, u64))
    ensures
        record_all(t, samples.push(x)) == record_one(record_all(t, samples), x.0, x.1),
    decreases samples.len(),
{
    if samples.len() == 0 {
        assert(samples.push(x)[0] == x);
        assert(samples.push(x).drop_first() =~= Seq::<(u64, u64)>::empty());
        assert(record_all(t, samples.push(x)) == record_all(
            record_one(t, x.0, x.1),
            samples.push(x).drop_first(),
        ));
        assert(record_all(record_one(t, x.0, x.1), samples.push(x).drop_first()) == record_one(
            t,
            x.0,
            x.1,
        ));
    } else {
        assert(samples.push(x)[0] == samples[0]);
        assert(samples.push(x).drop_first() =~= samples.drop_first().push(x));
        lemma_record_all_snoc(record_one(t, samples[0].0, samples[0].1), samples.drop_first(), x);
        assert(record_all(t, samples.push(x)) == record_all(
            record_one(t, samples[0].0, samples[0].1),
            samples.drop_first().push(x),
        ));
        assert(record_all(t, samples) == record_all(
            record_one(t, samples[0].0, samples[0].1),
            samples.drop_first(),
        ));
    }
}

/// The table `post` still holds `pid`, with at least the value `val`.
pub open spec fn entry_kept(post: Seq<(u64, u64)>, pid: u64, val: u64) -> bool {
    exists|j: int| 0 <= j < post.len() && (#[trigger] post[j]).0 == pid && post[j].1 >= val
}

/// Every process of `pre` is still in `post`, with at least its old value.
pub open spec fn keeps_entries(pre: Seq<(u64, u64)>, post: Seq<(u64, u64)>) -> bool {
    forall|i: int|
        0 <= i < pre.len() ==> entry_kept(post, (#[trigger] pre[i]).0, pre[i].1)
}

proof fn lemma_record_one_keeps(pre: Seq<(u64, u64)>, pid: u64, millis: u64)
    ensures
        keeps_entries(pre, record_one(pre, pid, millis)),
{
    let post = record_one(pre, pid, millis);
    if exists|j: int| 0 <= j < pre.len() && (#[trigger] pre[j]).0 == pid {
        let j0 = choose|j: int| 0 <= j < pre.len() && (#[trigger] pre[j]).0 == pid;
        assert forall|i: int| 0 <= i < pre.len() implies entry_kept(
            post,
            (#[trigger] pre[i]).0,
            pre[i].1,
        ) by {
            if i == j0 {
                assert(post[j0].0 == pre[i].0 && post[j0].1 >= pre[i].1);
            } else {
                assert(post[i].0 == pre[i].0 && post[i].1 >= pre[i].1);
            }
        }
    } else {
        assert forall|i: int| 0 <= i < pre.len() implies entry_kept(
            post,
            (#[trigger] pre[i]).0,
            pre[i].1,
        ) by {
            assert(post[i].0 == pre[i].0 && post[i].1 >= pre[i].1);
        }
    }
}

proof fn lemma_keeps_entries_trans(a: Seq<(u64, u64)>, b: Seq<(u64, u64)>, c: Seq<(u64, u64)>)
    requires
        keeps_entries(a, b),
        keeps_entries(b, c),
    ensures
        keeps_entries(a, c),
{
    assert forall|i: int| 0 <= i < a.len() implies entry_kept(
        c,
        (#[trigger] a[i]).0,
        a[i].1,
    ) by {
        assert(entry_kept(b, a[i].0, a[i].1));
        let jb = choose|j: int| 0 <= j < b.len() && (#[trigger] b[j]).0 == a[i].0 && b[j].1
            >= a[i].1;
        assert(entry_kept(c, b[jb].0, b[jb].1));
        let jc = choose|j: int| 0 <= j < c.len() && (#[trigger] c[j]).0 == b[jb].0 && c[j].1
            >= b[jb].1;
        assert(c[jc].0 == a[i].0 && c[jc].1 >= a[i].1);
    }
}

/// A sampling tick never removes a process from the table and never
/// lowers a recorded value: whatever the batch holds — including nothing
/// at all for a process that died mid-walk — every entry survives with
/// at least its old reading.
pub proof fn lemma_record_all_keeps_entries(pre: Seq<(u64, u64)>, samples: Seq<(u64, u64)>)
    ensures
        keeps_entries(pre, record_all(pre, samples)),
    decreases samples.len(),
{
    if samples.len() == 0 {
        assert forall|i: int| 0 <= i < pre.len() implies entry_kept(
            pre,
            (#[trigger] pre[i]).0,
            pre[i].1,
        ) by {
            assert(pre[i].0 == pre[i].0 && pre[i].1 >= pre[i].1);
        }
    } else {
        let mid = record_one(pre, samples[0].0, samples[0].1);
        lemma_record_one_keeps(pre, samples[0].0, samples[0].1);
        lemma_record_all_keeps_entries(mid, samples.drop_first());
        lemma_keeps_entries_trans(pre, mid, record_all(mid, samples.drop_first()));
    }
}

/// Updating one entry shifts the total by exactly the change in that entry.
pub proof fn lemma_total_update(s: Seq<(u64, u64)>, j: int, e: (u64, u64))
    requires
        0 <= j < s.len(),
    ensures
        total_of(s.update(j, e)) == total_of(s) - s[j].1 + e.1,
    decreases s.len(),
{
    if j == s.len() - 1 {
        assert(s.update(j, e).drop_last() =~= s.drop_last());
    } else {
        assert(s.update(j, e).drop_last() =~= s.drop_last().update(j, e));
        lemma_total_update(s.drop_last(), j, e);
    }
}

/// Appending an entry adds exactly its value to the total.
pub proof fn lemma_total_push(s: Seq<(u64, u64)>, e: (u64, u64))
    ensures
        total_of(s.push(e)) == total_of(s) + e.1,
{
    assert(s.push(e).drop_last() =~= s);
}

/// CPU milliseconds from a clock reading of whole seconds and leftover
/// nanoseconds, saturating at `u64::MAX`.
pub fn cpu_millis_of(secs: u64, nanos: u64) -> (millis: u64)
    ensures
        millis == clamp_u64(secs * 1000 + nanos / 1000000),
{
    let extra: u64 = nanos / 1000000;
    if secs > (u64::MAX - extra) / 1000 {
        proof {
            assert(1000 * secs + extra > u64::MAX) by (nonlinear_arith)
                requires
                    secs > (u64::MAX - extra) / 1000,
                    0 <= extra,
            ;
        }
        u64::MAX
    } else {
        proof {
            assert(secs * 1000 + extra <= u64::MAX) by (nonlinear_arith)
                requires
                    secs <= (u64::MAX - extra) / 1000,
                    0 <= extra <= u64::MAX,
            ;
        }
        secs * 1000 + extra
    }
}

/// ASCII whitespace, as the kernel separates child process IDs with.
pub open spec fn is_ascii_ws(b: u8) -> bool {
    b == 32 || b == 9 || b == 10 || b == 12 || b == 13
}

/// An ASCII decimal digit.
pub open spec fn is_ascii_digit(b: u8) -> bool {
    48 <= b <= 57
}

/// Length of the whitespace-free token at the front of `s`.
pub open spec fn token_len(s: Seq<u8>) -> nat
    decreases s.len(),
{
    if s.len() == 0 || is_ascii_ws(s[0]) {
        0
    } else {
        1 + token_len(s.skip(1))
    }
}

/// The maximal whitespace-free tokens of `s`, in order.
pub open spec fn split_ws(s: Seq<u8>) -> Seq<Seq<u8>>
    decreases s.len(),
    via split_ws_decreases
{
    if s.len() == 0 {
        Seq::empty()
    } else if is_ascii_ws(s[0]) {
        split_ws(s.skip(1))
    } else {
        seq![s.take(token_len(s) as int)] + split_ws(s.skip(token_len(s) as int))
    }
}

#[via_fn]
proof fn split_ws_decreases(s: Seq<u8>) {
    if s.len() > 0 && !is_ascii_ws(s[0]) {
        lemma_token_len_bound(s);
    }
}

/// The front token is never longer than the whole string.
proof fn lemma_token_len_bound(s: Seq<u8>)
    ensures
        token_len(s) <= s.len(),
    decreases s.len(),
{
    if s.len() > 0 && !is_ascii_ws(s[0]) {
        lemma_token_len_bound(s.skip(1));
    }
}

/// The front token ends exactly at the first whitespace byte, or at the
/// end of the string if there is none.
proof fn lemma_token_len_at(s: Seq<u8>, j: int)
    requires
        0 <= j <= s.len(),
        forall|k: int| 0 <= k < j ==> !is_ascii_ws(s[k]),
        j < s.len() ==> is_ascii_ws(s[j]),
    ensures
        token_len(s) == j,
    decreases j,
{
    if j > 0 {
        lemma_token_len_at(s.skip(1), j - 1);
    }
}

/// The numeric value of a decimal digit string, most significant first.
pub open spec fn dec_value(t: Seq<u8>) -> int
    decreases t.len(),
{
    if t.len() == 0 {
        0
    } else {
        10 * dec_value(t.drop_last()) + (t.last() - 48)
    }
}

/// Every byte of `t` is a decimal digit.
pub open spec fn all_digits(t: Seq<u8>) -> bool {
    forall|k: int| 0 <= k < t.len() ==> is_ascii_digit(#[trigger] t[k])
}

/// Every token is a digit string whose value fits a `u64` process ID.
pub open spec fn valid_pid_tokens(tokens: Seq<Seq<u8>>) -> bool {
    forall|i: int|
        0 <= i < tokens.len() ==> all_digits(#[trigger] tokens[i]) && dec_value(tokens[i])
            <= u64::MAX
}

/// The process IDs a token list denotes.
pub open spec fn pid_values(tokens: Seq<Seq<u8>>) -> Seq<u64> {
    tokens.map_values(|t: Seq<u8>| dec_value(t) as u64)
}

/// A digit string's value is never negative.
proof fn lemma_dec_value_nonneg(t: Seq<u8>)
    requires
        all_digits(t),
    ensures
        dec_value(t) >= 0,
    decreases t.len(),
{
    if t.len() > 0 {
        assert(all_digits(t.drop_last())) by {
            assert(forall|k: int| 0 <= k < t.len() - 1 ==> t.drop_last()[k] == t[k]);
        }
        lemma_dec_value_nonneg(t.drop_last());
    }
}

/// A digit string's value is at least the value of any of its prefixes.
proof fn lemma_dec_value_prefix(t: Seq<u8>, m: int)
    requires
        all_digits(t),
        0 <= m <= t.len(),
    ensures
        dec_value(t) >= dec_value(t.take(m)),
    decreases t.len(),
{
    if m == t.len() {
        assert(t.take(m) =~= t);
    } else {
        assert(all_digits(t.drop_last())) by {
            assert(forall|k: int| 0 <= k < t.len() - 1 ==> t.drop_last()[k] == t[k]);
        }
        lemma_dec_value_nonneg(t.drop_last());
        lemma_dec_value_prefix(t.drop_last(), m);
        assert(t.drop_last().take(m) =~= t.take(m));
    }
}

fn byte_is_ws(b: u8) -> (ws: bool)
    ensures
        ws == is_ascii_ws(b),
{
    b == 32 || b == 9 || b == 10 || b == 12 || b == 13
}

/// Parse the contents of a kernel children list: whitespace-separated
/// decimal process IDs.
///
/// Returns the IDs in order exactly when every token is a digit string
/// whose value fits; returns nothing when any token is malformed.
pub fn parse_child_pids(data: &[u8]) -> (result: Option<Vec<u64>>)
    ensures
        match result {
            Some(pids) => valid_pid_tokens(split_ws(data@)) && pids@ == pid_values(split_ws(data@)),
            None => !valid_pid_tokens(split_ws(data@)),
        },
{
    let n: usize = data.len();
    let mut out: Vec<u64> = Vec::new();
    let mut i: usize = 0;
    let ghost mut done: Seq<Seq<u8>> = Seq::empty();
    proof {
        assert(data@.skip(0) =~= data@);
    }
    while i < n
        invariant
            n == data@.len(),
            0 <= i <= n,
            split_ws(data@) == done + split_ws(data@.skip(i as int)),
            valid_pid_tokens(done),
            out@ == pid_values(done),
        decreases n - i,
    {
        if byte_is_ws(data[i]) {
            proof {
                assert(data@.skip(i as int)[0] == data@[i as int]);
                assert(data@.skip(i as int).skip(1) =~= data@.skip(i + 1));
            }
            i = i + 1;
        } else {
            let start: usize = i;
            let mut val: u64 = 0;
            let mut valid: bool = true;
            let ghost mut bad_end: int = 0;
            while i < n && valid && !byte_is_ws(data[i])
                invariant
                    n == data@.len(),
                    start <= i <= n,
                    start < n,
                    !is_ascii_ws(data@[start as int]),
                    forall|k: int| start <= k < i ==> !is_ascii_ws(data@[k]),
                    valid ==> all_digits(data@.subrange(start as int, i as int)) && val
                        == dec_value(data@.subrange(start as int, i as int)),
                    !valid ==> start < bad_end <= i && !(all_digits(
                        data@.subrange(start as int, bad_end),
                    ) && dec_value(data@.subrange(start as int, bad_end)) <= u64::MAX),
                decreases n - i,
            {
                let b: u8 = data[i];
                let ghost pre = data@.subrange(start as int, i as int);
                let ghost post = data@.subrange(start as int, i + 1);
                proof {
                    assert(post.drop_last() =~= pre);
                    assert(post.last() == data@[i as int]);
                }
                if b >= 48 && b <= 57 {
                    let d: u64 = (b - 48) as u64;
                    if val <= (u64::MAX - d) / 10 {
                        proof {
                            assert(val * 10 + d <= u64::MAX) by (nonlinear_arith)
                                requires
                                    val <= (u64::MAX - d) / 10,
                                    0 <= d < 10,
                            ;
                        }
                        val = val * 10 + d;
                    } else {
                        proof {
                            assert(10 * val + d > u64::MAX) by (nonlinear_arith)
                                requires
                                    val > (u64::MAX - d) / 10,
                                    0 <= d < 10,
                            ;
                            bad_end = i as int + 1;
                        }
                        valid = false;
                    }
                } else {
                    proof {
                        bad_end = i as int + 1;
                        assert(!is_ascii_digit(post[post.len() - 1]));
                    }
                    valid = false;
                }
                i = i + 1;
            }
            if !valid {
                while i < n && !byte_is_ws(data[i])
                    invariant
                        n == data@.len(),
                        start <= i <= n,
                        forall|k: int| start <= k < i ==> !is_ascii_ws(data@[k]),
                        start < bad_end <= i,
                        !(all_digits(data@.subrange(start as int, bad_end)) && dec_value(
                            data@.subrange(start as int, bad_end),
                        ) <= u64::MAX),
                    decreases n - i,
                {
                    i = i + 1;
                }
            }
            let ghost tok = data@.subrange(start as int, i as int);
            proof {
                lemma_token_len_at(data@.skip(start as int), i - start);
                assert(data@.skip(start as int).take(i - start) =~= tok);
                assert(data@.skip(start as int).skip(i - start) =~= data@.skip(i as int));
                assert(data@.skip(start as int)[0] == data@[start as int]);
                assert(split_ws(data@.skip(start as int)) == seq![tok] + split_ws(
                    data@.skip(i as int),
                ));
            }
            if valid {
                out.push(val);
                proof {
                    let prior = done;
                    done = done.push(tok);
                    assert(prior + (seq![tok] + split_ws(data@.skip(i as int))) =~= done
                        + split_ws(data@.skip(i as int)));
                    assert(valid_pid_tokens(done)) by {
                        assert(forall|k: int| 0 <= k < prior.len() ==> done[k] == prior[k]);
                        assert(done[prior.len() as int] == tok);
                    }
                    assert(out@ =~= pid_values(done)) by {
                        assert(forall|k: int| 0 <= k < prior.len() ==> done[k] == prior[k]);
                        assert(done[prior.len() as int] == tok);
                    }
                }
            } else {
                proof {
                    let rest = split_ws(data@.skip(i as int));
                    let whole = split_ws(data@);
                    assert((seq![tok] + rest)[0] == tok);
                    assert(whole == done + (seq![tok] + rest));
                    assert(whole[done.len() as int] == (seq![tok] + rest)[0]);
                    let p = data@.subrange(start as int, bad_end);
                    assert(p =~= tok.take(bad_end - start));
                    if all_digits(tok) {
                        assert(all_digits(p)) by {
                            assert(forall|k: int| 0 <= k < p.len() ==> p[k] == tok[k]);
                        }
                        lemma_dec_value_prefix(tok, bad_end - start);
                        assert(dec_value(tok) > u64::MAX);
                    }
                    assert(!(all_digits(tok) && dec_value(tok) <= u64::MAX));
                    assert(!valid_pid_tokens(whole));
                }
                return None;
            }
        }
    }
    proof {
        assert(data@.skip(n as int) =~= Seq::<u8>::empty());
        assert(split_ws(Seq::<u8>::empty()) =~= Seq::<Seq<u8>>::empty());
        assert(done + Seq::<Seq<u8>>::empty() =~= done);
    }
    Some(out)
}

/// Depth-first traversal state for enumerating a process subtree.
///
/// The surrounding task pops one process at a time, reads that process's
/// children lists from `/proc`, and offers whatever it could read back to
/// the stack; a failed read simply offers nothing, so a process dying
/// mid-walk stops that branch and nothing else.
pub struct SubtreeWalk {
    pending: Vec<u64>,
}

impl View for SubtreeWalk {
    type V = Seq<u64>;

    closed spec fn view(&self) -> Seq<u64> {
        self.pending@
    }
}

impl SubtreeWalk {
    /// A walk that starts at the subtree's root process.
    pub fn new(root: u64) -> (walk: SubtreeWalk)
        ensures
            walk@ =~= seq![root],
    {
        let mut pending: Vec<u64> = Vec::new();
        pending.push(root);
        SubtreeWalk { pending }
    }

    /// Take the next process to visit, if any is left.
    pub fn next_pid(&mut self) -> (r: Option<u64>)
        ensures
            old(self)@.len() == 0 ==> r is None && final(self)@ == old(self)@,
            old(self)@.len() > 0 ==> r == Some(old(self)@.last()) && final(self)@ == old(
                self,
            )@.drop_last(),
    {
        self.pending.pop()
    }

    /// Schedule the children of the process just visited.
    pub fn offer_children(&mut self, children: &Vec<u64>)
        ensures
            final(self)@ == old(self)@ + children@,
    {
        let n: usize = children.len();
        let mut i: usize = 0;
        while i < n
            invariant
                n == children@.len(),
                0 <= i <= n,
                self@ == old(self)@ + children@.take(i as int),
            decreases n - i,
        {
            proof {
                assert(old(self)@ + children@.take(i + 1) =~= (old(self)@ + children@.take(
                    i as int,
                )).push(children@[i as int]));
            }
            self.pending.push(children[i]);
            i = i + 1;
        }
        proof {
            assert(children@.take(n as int) =~= children@);
        }
    }

    /// Whether every discovered process has been visited.
    pub fn is_done(&self) -> (done: bool)
        ensures
            done == (self@.len() == 0),
    {
        self.pending.len() == 0
    }
}

} // verus!
