//! Bookkeeping of a batch run: which items start, the page number of each,
//! the output name, the counters and the error log, and the summary.

use vstd::prelude::*;
use crate::jpeg::{extension, last_dot, lemma_name_start_le, name_start};
use crate::types::ProcessResult;

verus! {

pub open spec fn digit_char(d: int) -> char {
    seq!['0', '1', '2', '3', '4', '5', '6', '7', '8', '9'][d]
}

/// Decimal digits of `n`, without leading zeros.
pub open spec fn decimal(n: nat) -> Seq<char>
    decreases n,
{
    if n < 10 {
        seq![digit_char(n as int)]
    } else {
        decimal(n / 10).push(digit_char((n % 10) as int))
    }
}

/// Relies on `ToString::to_string` for `usize`, which writes the number in
/// decimal through `Display`.
#[verifier::external_body]
pub(crate) fn decimal_string(n: usize) -> (r: String)
    ensures
        r@ == decimal(n as nat),
{
    n.to_string()
}

/// Size of the worker pool: twice the logical cores, at most 32.
pub fn worker_count(cores: usize) -> (r: usize)
    ensures
        r == if 2 * cores < 32 { 2 * cores } else { 32 },
{
    if cores < 16 { 2 * cores } else { 32 }
}

/// Page number of the item at `index`: the batch's start number plus the
/// item's place in the input list, whatever order items finish in.
pub fn page_number(start: u32, index: usize) -> (r: u32)
    requires
        start as int + index as int <= u32::MAX,
    ensures
        r == start as int + index as int,
{
    start + index as u32
}

/// The file name of a path with its extension set to `jpg`; `None` when the
/// path has no file name.
pub open spec fn spec_output_name(s: Seq<char>) -> Option<Seq<char>> {
    let ns = name_start(s, s.len() as int);
    let name = s.subrange(ns, s.len() as int);
    if name.len() == 0 || name == seq!['.'] || name == seq!['.', '.'] {
        None
    } else {
        let stem = match extension(s) {
            Some(e) => s.subrange(ns, last_dot(s, ns, s.len() as int)),
            None => name,
        };
        Some(stem + seq!['.', 'j', 'p', 'g'])
    }
}

/// Name of the JPEG written for an input file.
pub fn output_file_name(filename: &str) -> (r: Option<String>)
    ensures
        match spec_output_name(filename@) {
            Some(n) => r matches Some(s) && s@ == n,
            None => r is None,
        },
{
    let ghost s = filename@;
    let n = filename.unicode_len();
    // start of the file name
    let mut ns: usize = n;
    while ns > 0 && filename.get_char(ns - 1) != '/' && filename.get_char(ns - 1) != '\\'
        invariant
            s == filename@,
            n == s.len(),
            ns <= n,
            forall|j: int| ns <= j < n ==> s[j] != '/' && s[j] != '\\',
        decreases ns,
    {
        ns = ns - 1;
    }
    proof {
        lemma_name_start_tail(s, ns as int, n as int);
    }
    let name = filename.substring_char(ns, n);
    if n - ns == 0 || (n - ns == 1 && filename.get_char(ns) == '.') || (n - ns == 2 && filename.get_char(ns) == '.'
        && filename.get_char(ns + 1) == '.') {
        proof {
            if n - ns == 1 {
                assert(name@ =~= seq!['.']);
            }
            if n - ns == 2 {
                assert(name@ =~= seq!['.', '.']);
            }
        }
        return None;
    }
    proof {
        assert(name@ != seq!['.'] && name@ != seq!['.', '.']) by {
            if name@ == seq!['.'] {
                assert(seq!['.'].len() == 1 && seq!['.'][0] == '.');
                assert(name@[0] == s[ns as int]);
            }
            if name@ == seq!['.', '.'] {
                assert(seq!['.', '.'].len() == 2 && seq!['.', '.'][0] == '.' && seq!['.', '.'][1] == '.');
                assert(name@[0] == s[ns as int]);
                assert(name@[1] == s[ns + 1]);
            }
        }
    }
    // last dot of the file name
    let mut k: usize = n;
    while k > ns && filename.get_char(k - 1) != '.'
        invariant
            s == filename@,
            n == s.len(),
            ns <= k <= n,
            forall|j: int| k <= j < n ==> s[j] != '.',
        decreases k,
    {
        k = k - 1;
    }
    proof {
        lemma_last_dot_tail(s, ns as int, k as int, n as int);
    }
    let stem_end = if k > ns + 1 { k - 1 } else { n };
    let stem = filename.substring_char(ns, stem_end);
    let out = String::from_str(stem).concat(".jpg");
    proof {
        reveal_strlit(".jpg");
        assert(".jpg"@ =~= seq!['.', 'j', 'p', 'g']);
    }
    Some(out)
}

proof fn lemma_name_start_tail(s: Seq<char>, ns: int, n: int)
    requires
        0 <= ns <= n == s.len(),
        forall|j: int| ns <= j < n ==> s[j] != '/' && s[j] != '\\',
        ns == 0 || s[ns - 1] == '/' || s[ns - 1] == '\\',
    ensures
        name_start(s, n) == ns,
    decreases n - ns,
{
    if n > ns {
        lemma_name_start_prefix(s, ns, n - 1);
    }
}

proof fn lemma_name_start_prefix(s: Seq<char>, ns: int, k: int)
    requires
        0 <= ns <= k + 1 <= s.len(),
        forall|j: int| ns <= j < s.len() ==> s[j] != '/' && s[j] != '\\',
        ns == 0 || s[ns - 1] == '/' || s[ns - 1] == '\\',
    ensures
        name_start(s, k + 1) == ns,
    decreases k + 1 - ns,
{
    if k + 1 > ns {
        lemma_name_start_prefix(s, ns, k - 1);
    }
}

proof fn lemma_last_dot_tail(s: Seq<char>, ns: int, k: int, n: int)
    requires
        0 <= ns <= k <= n <= s.len(),
        forall|j: int| k <= j < n ==> s[j] != '.',
        k == ns || s[k - 1] == '.',
    ensures
        last_dot(s, ns, n) == k - 1,
    decreases n - k,
{
    if n > k {
        lemma_last_dot_tail(s, ns, k, n - 1);
    }
}

/// Counters and error log of a running batch.
pub struct BatchTracker {
    total: usize,
    started: usize,
    processed: usize,
    in_progress: usize,
    errors: Vec<String>,
}

impl BatchTracker {
    pub closed spec fn spec_total(&self) -> nat {
        self.total as nat
    }

    pub closed spec fn spec_started(&self) -> nat {
        self.started as nat
    }

    pub closed spec fn spec_processed(&self) -> nat {
        self.processed as nat
    }

    pub closed spec fn spec_in_progress(&self) -> nat {
        self.in_progress as nat
    }

    pub closed spec fn spec_errors(&self) -> Seq<Seq<char>> {
        self.errors@.map_values(|e: String| e@)
    }

    /// Every started item is either finished or in progress, and no more
    /// items start than the batch holds.
    pub open spec fn wf(&self) -> bool {
        &&& self.spec_processed() + self.spec_in_progress() == self.spec_started()
        &&& self.spec_started() <= self.spec_total()
    }

    /// A batch of `total` items, none started.
    pub fn new(total: usize) -> (r: BatchTracker)
        ensures
            r.wf(),
            r.spec_total() == total,
            r.spec_started() == 0,
            r.spec_processed() == 0,
            r.spec_in_progress() == 0,
            r.spec_errors().len() == 0,
    {
        let r = BatchTracker { total, started: 0, processed: 0, in_progress: 0, errors: Vec::new() };
        assert(r.spec_errors() =~= Seq::<Seq<char>>::empty());
        r
    }

    pub fn total(&self) -> (r: usize)
        ensures
            r == self.spec_total(),
    {
        self.total
    }

    pub fn started(&self) -> (r: usize)
        ensures
            r == self.spec_started(),
    {
        self.started
    }

    pub fn processed(&self) -> (r: usize)
        ensures
            r == self.spec_processed(),
    {
        self.processed
    }

    pub fn in_progress(&self) -> (r: usize)
        ensures
            r == self.spec_in_progress(),
    {
        self.in_progress
    }

    /// Decides whether the next item starts. Once cancellation is seen, or
    /// once every item of the batch has started, no item starts and nothing
    /// changes; otherwise the item counts as in progress, and the completed
    /// and in-progress counts for the "started" report come back.
    pub fn begin_item(&mut self, cancelled: bool) -> (r: Option<(usize, usize)>)
        requires
            old(self).wf(),
        ensures
            final(self).wf(),
            final(self).spec_total() == old(self).spec_total(),
            final(self).spec_errors() == old(self).spec_errors(),
            final(self).spec_processed() == old(self).spec_processed(),
            (cancelled || old(self).spec_started() >= old(self).spec_total()) ==> r is None
                && final(self).spec_started() == old(self).spec_started()
                && final(self).spec_in_progress() == old(self).spec_in_progress(),
            !(cancelled || old(self).spec_started() >= old(self).spec_total()) ==> r == Some(
                (old(self).spec_processed() as usize, (old(self).spec_in_progress() + 1) as usize),
            ) && final(self).spec_started() == old(self).spec_started() + 1
                && final(self).spec_in_progress() == old(self).spec_in_progress() + 1,
    {
        if cancelled || self.started >= self.total {
            return None;
        }
        self.started = self.started + 1;
        self.in_progress = self.in_progress + 1;
        Some((self.processed, self.in_progress))
    }

    /// Records that a started item is done, with its error, if any, logged
    /// as "`filename`: `message`". The completed count and the count still
    /// in progress come back for the "finished" report.
    pub fn finish_item(&mut self, filename: &str, outcome: Result<(), String>) -> (r: (usize, usize))
        requires
            old(self).wf(),
            old(self).spec_in_progress() > 0,
        ensures
            final(self).wf(),
            final(self).spec_total() == old(self).spec_total(),
            final(self).spec_started() == old(self).spec_started(),
            final(self).spec_processed() == old(self).spec_processed() + 1,
            final(self).spec_in_progress() == old(self).spec_in_progress() - 1,
            r == (final(self).spec_processed() as usize, final(self).spec_in_progress() as usize),
            match outcome {
                Ok(_) => final(self).spec_errors() == old(self).spec_errors(),
                Err(m) => final(self).spec_errors() == old(self).spec_errors().push(filename@ + ": "@ + m@),
            },
    {
        self.in_progress = self.in_progress - 1;
        self.processed = self.processed + 1;
        match outcome {
            Ok(_) => {},
            Err(m) => {
                let ghost before = self.errors@;
                let entry = String::from_str(filename).concat(": ").concat(m.as_str());
                self.errors.push(entry);
                proof {
                    assert(self.spec_errors() =~= before.map_values(|e: String| e@).push(filename@ + ": "@ + m@));
                }
            },
        }
        (self.processed, self.in_progress)
    }

    /// The batch's summary. After cancellation it reports the items
    /// completed and a single "cancelled" entry in place of the error log.
    pub fn finish(self, cancelled: bool, output_folder: String) -> (r: ProcessResult)
        requires
            self.wf(),
        ensures
            r.processed == self.spec_processed(),
            r.total == self.spec_total(),
            r.processed <= r.total,
            r.processed + self.spec_in_progress() == self.spec_started(),
            r.output_folder == output_folder,
            cancelled ==> r.errors@.len() == 1 && r.errors@[0]@ == cancelled_message(
                self.spec_processed(),
                self.spec_total(),
            ),
            !cancelled ==> r.errors@.map_values(|e: String| e@) == self.spec_errors(),
    {
        if cancelled {
            let done = self.processed;
            let msg = String::from_str("処理がキャンセルされました (").concat(decimal_string(done).as_str()).concat(
                "/",
            ).concat(decimal_string(self.total).as_str()).concat("完了)");
            let errors = vec![msg];
            ProcessResult { processed: self.processed, total: self.total, errors, output_folder }
        } else {
            ProcessResult { processed: self.processed, total: self.total, errors: self.errors, output_folder }
        }
    }
}

/// The entry a cancelled batch reports.
pub open spec fn cancelled_message(done: nat, total: nat) -> Seq<char> {
    "処理がキャンセルされました ("@ + decimal(done) + "/"@ + decimal(total) + "完了)"@
}

} // verus!
