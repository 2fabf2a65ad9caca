//! The location indexer: a once-scanned table of line-start byte offsets
//! for one source text, and the mapping from a byte offset to a line and
//! column.

use vstd::prelude::*;

verus! {

/// Whether a table of offsets is strictly ascending.
pub open spec fn spec_ascending(t: Seq<usize>) -> bool {
    forall|i: int, j: int| 0 <= i < j < t.len() ==> t[i] < t[j]
}

/// The number of table entries at or below the given byte offset.
pub open spec fn spec_count_le(t: Seq<usize>, b: usize) -> int
    decreases t.len(),
{
    if t.len() == 0 {
        0
    } else {
        spec_count_le(t.drop_last(), b) + if t.last() <= b {
            1int
        } else {
            0int
        }
    }
}

/// The count lies between zero and the table length.
pub proof fn lemma_count_le_bounds(t: Seq<usize>, b: usize)
    ensures
        0 <= spec_count_le(t, b) <= t.len(),
    decreases t.len(),
{
    if t.len() > 0 {
        lemma_count_le_bounds(t.drop_last(), b);
    }
}

/// In an ascending table, the entries below the count are exactly those at
/// or below the byte offset.
pub proof fn lemma_count_le_entries(t: Seq<usize>, b: usize)
    requires
        spec_ascending(t),
    ensures
        0 <= spec_count_le(t, b) <= t.len(),
        forall|i: int| 0 <= i < spec_count_le(t, b) ==> t[i] <= b,
        forall|i: int| spec_count_le(t, b) <= i < t.len() ==> t[i] > b,
    decreases t.len(),
{
    lemma_count_le_bounds(t, b);
    if t.len() > 0 {
        assert(forall|i: int, j: int|
            0 <= i < j < t.len() - 1 ==> t.drop_last()[i] < t.drop_last()[j]);
        lemma_count_le_entries(t.drop_last(), b);
        assert(forall|i: int| 0 <= i < t.len() - 1 ==> t.drop_last()[i] == #[trigger] t[i]);
        assert(t.last() == t[t.len() - 1]);
        if t.last() <= b {
            // ascending: everything before the last entry is below it
            assert forall|i: int| 0 <= i < spec_count_le(t, b) implies t[i] <= b by {
                if i < t.len() - 1 {
                    assert(t[i] < t[t.len() - 1]);
                }
            }
        }
    }
}

/// Counting entries at or below a byte offset is monotonic in the offset.
pub proof fn lemma_count_le_mono(t: Seq<usize>, b1: usize, b2: usize)
    requires
        b1 <= b2,
    ensures
        spec_count_le(t, b1) <= spec_count_le(t, b2),
    decreases t.len(),
{
    if t.len() > 0 {
        lemma_count_le_mono(t.drop_last(), b1, b2);
    }
}

/// The line and column of a byte offset against a table of line-start
/// offsets: bytes before the first recorded line start are clamped to line
/// zero, column zero; every other byte lies on the line of the last start
/// at or before it, with the column measured from that start.
pub open spec fn spec_line_col(t: Seq<usize>, b: usize) -> (int, int) {
    let ln = spec_count_le(t, b);
    if ln == 0 {
        (0, 0)
    } else {
        (ln, b - t[ln - 1])
    }
}

/// The table of line-start byte offsets of one source text, scanned once.
/// Offset zero is the implicit start of line zero; each entry is the offset
/// immediately following a line-terminator byte.
pub struct SourceLineNumberIndex {
    /// Strictly ascending offsets, one per newline byte of the text.
    pub newlines: Vec<usize>,
    /// Whether a carriage-return byte was seen; informational only, with no
    /// effect on offset arithmetic.
    pub is_crlf: bool,
}

impl SourceLineNumberIndex {
    /// The table is sound: strictly ascending offsets.
    pub open spec fn wf(&self) -> bool {
        spec_ascending(self.newlines@)
    }

    /// Scans a source text once, recording the offset just after every
    /// newline byte, and whether any carriage return occurs.
    #[verifier::loop_isolation(false)]
    pub fn new(bytes: &Vec<u8>) -> (r: SourceLineNumberIndex)
        ensures
            r.wf(),
            forall|k: int|
                0 <= k < r.newlines@.len() ==> 1 <= #[trigger] r.newlines@[k] <= bytes@.len()
                    && bytes@[r.newlines@[k] - 1] == 10u8,
            forall|p: int|
                0 <= p < bytes@.len() && bytes@[p] == 10u8 ==> r.newlines@.contains(
                    (p + 1) as usize,
                ),
            r.is_crlf <==> (exists|p: int| 0 <= p < bytes@.len() && bytes@[p] == 13u8),
    {
        let mut newlines: Vec<usize> = Vec::new();
        let mut is_crlf = false;
        let n: usize = bytes.len();
        let mut current: usize = 0;
        while current < n
            invariant
                0 <= current <= n,
                spec_ascending(newlines@),
                forall|k: int|
                    0 <= k < newlines@.len() ==> 1 <= #[trigger] newlines@[k] <= current
                        && bytes@[newlines@[k] - 1] == 10u8,
                forall|p: int|
                    0 <= p < current && bytes@[p] == 10u8 ==> newlines@.contains((p + 1) as usize),
                is_crlf <==> (exists|p: int| 0 <= p < current && bytes@[p] == 13u8),
            decreases n - current,
        {
            let byte = bytes[current];
            if byte == 10 {
                let ghost old_newlines = newlines@;
                newlines.push(current + 1);
                proof {
                    assert(forall|k: int|
                        0 <= k < old_newlines.len() ==> newlines@[k] == old_newlines[k]);
                    assert(newlines@.last() == current + 1);
                    assert forall|p: int|
                        0 <= p < current + 1 && bytes@[p] == 10u8 implies newlines@.contains(
                        (p + 1) as usize,
                    ) by {
                        if p < current {
                            assert(old_newlines.contains((p + 1) as usize));
                            let k = choose|k: int|
                                0 <= k < old_newlines.len() && old_newlines[k] == (p + 1) as usize;
                            assert(newlines@[k] == (p + 1) as usize);
                        } else {
                            assert(newlines@[newlines@.len() - 1] == (p + 1) as usize);
                        }
                    }
                }
            } else if byte == 13 {
                is_crlf = true;
            }
            current = current + 1;
        }
        SourceLineNumberIndex { newlines, is_crlf }
    }

    /// A copy of this index for another converter over the same file.
    #[verifier::loop_isolation(false)]
    pub fn duplicate(&self) -> (r: SourceLineNumberIndex)
        ensures
            r.newlines@ == self.newlines@,
            r.is_crlf == self.is_crlf,
    {
        let n: usize = self.newlines.len();
        let mut newlines: Vec<usize> = Vec::new();
        let mut i: usize = 0;
        while i < n
            invariant
                0 <= i <= n,
                newlines@ =~= self.newlines@.take(i as int),
            decreases n - i,
        {
            newlines.push(self.newlines[i]);
            proof {
                assert(newlines@ =~= self.newlines@.take(i + 1));
            }
            i = i + 1;
        }
        proof {
            assert(self.newlines@.take(n as int) =~= self.newlines@);
        }
        SourceLineNumberIndex { newlines, is_crlf: self.is_crlf }
    }

    /// The line and column of a byte offset, by binary search over the
    /// table.  A byte can never precede the line start it is matched
    /// against: the subtraction is proved in range, so the corrupt-table
    /// failure the policy calls fatal cannot arise here.
    #[verifier::loop_isolation(false)]
    pub fn get_ln_col(&self, byte: usize) -> (r: (usize, usize))
        requires
            self.wf(),
        ensures
            (r.0 as int, r.1 as int) == spec_line_col(self.newlines@, byte),
    {
        proof {
            lemma_count_le_entries(self.newlines@, byte);
        }
        let ghost t = self.newlines@;
        let n: usize = self.newlines.len();
        let mut lo: usize = 0;
        let mut hi: usize = n;
        while lo < hi
            invariant
                0 <= lo <= hi <= n,
                forall|i: int| 0 <= i < lo ==> t[i] <= byte,
                forall|i: int| hi <= i < n ==> t[i] > byte,
            decreases hi - lo,
        {
            let mid: usize = lo + (hi - lo) / 2;
            if self.newlines[mid] <= byte {
                proof {
                    assert(forall|i: int| 0 <= i <= mid ==> t[i] <= t[mid as int]);
                }
                lo = mid + 1;
            } else {
                proof {
                    assert(forall|i: int| mid <= i < n ==> t[i] >= t[mid as int]);
                }
                hi = mid;
            }
        }
        proof {
            // the split point is exactly the count
            if spec_count_le(t, byte) < lo {
                assert(t[spec_count_le(t, byte)] <= byte);
                assert(t[spec_count_le(t, byte)] > byte);
            }
            if spec_count_le(t, byte) > lo {
                assert(t[lo as int] <= byte);
                assert(t[lo as int] > byte);
            }
            assert(spec_count_le(t, byte) == lo);
        }
        if lo == 0 {
            (0, 0)
        } else {
            (lo, byte - self.newlines[lo - 1])
        }
    }
}

/// As the byte offset grows, the line of `spec_line_col` never decreases:
/// walking forward through a source text only ever moves to the same or a
/// later line.
pub proof fn lemma_line_col_monotonic(t: Seq<usize>, b1: usize, b2: usize)
    requires
        spec_ascending(t),
        b1 <= b2,
    ensures
        spec_line_col(t, b1).0 <= spec_line_col(t, b2).0,
{
    lemma_count_le_mono(t, b1, b2);
    lemma_count_le_bounds(t, b1);
}

/// At every recorded line-start offset the column is zero, and the line is
/// the one the entry starts.
pub proof fn lemma_col_zero_at_line_start(t: Seq<usize>, k: int)
    requires
        spec_ascending(t),
        0 <= k < t.len(),
    ensures
        spec_line_col(t, t[k]).0 == k + 1,
        spec_line_col(t, t[k]).1 == 0,
{
    lemma_count_le_entries(t, t[k]);
    let c = spec_count_le(t, t[k]);
    if c <= k {
        assert(t[k] > t[k]);
    }
    if c > k + 1 {
        assert(t[k + 1] <= t[k]);
        assert(t[k] < t[k + 1]);
    }
    assert(c == k + 1);
}

/// For bytes at or after the first recorded line start, the column is zero
/// exactly at the recorded line-start offsets.
pub proof fn lemma_col_zero_only_at_line_start(t: Seq<usize>, b: usize)
    requires
        spec_ascending(t),
        t.len() > 0,
        t[0] <= b,
    ensures
        spec_line_col(t, b).1 == 0 <==> t.contains(b),
{
    lemma_count_le_entries(t, b);
    let c = spec_count_le(t, b);
    if c == 0 {
        assert(t[0] > b);
    }
    assert(c >= 1);
    if spec_line_col(t, b).1 == 0 {
        assert(t[c - 1] == b);
        assert(t.contains(b));
    }
    if t.contains(b) {
        let k = choose|k: int| 0 <= k < t.len() && t[k] == b;
        lemma_col_zero_at_line_start(t, k);
    }
}

} // verus!
