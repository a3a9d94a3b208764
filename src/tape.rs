//! The memory tape: byte cells addressed by a signed index.
//!
//! Cells at index 0 and above live in the positive store, cells below 0 in
//! the negative store (index -1 is its slot 0, -2 its slot 1, ...). A cell
//! that was never written reads as 0. In expanding mode a write beyond either
//! store grows it; in wraparound mode every address is folded into the
//! positive store, whose length then never changes.
use vstd::prelude::*;

verus! {

pub struct Tape {
    ptape: Vec<u8>,
    ntape: Vec<u8>,
    wraps: bool,
}

/// Zero-filled growth of a store up to `len` cells.
fn grow_to(v: &mut Vec<u8>, len: usize)
    requires
        old(v)@.len() <= len,
    ensures
        final(v)@.len() == len,
        forall|k: int| 0 <= k < old(v)@.len() ==> final(v)@[k] == old(v)@[k],
        forall|k: int| old(v)@.len() <= k < len ==> final(v)@[k] == 0,
{
    while v.len() < len
        invariant
            old(v)@.len() <= v@.len() <= len,
            forall|k: int| 0 <= k < old(v)@.len() ==> v@[k] == old(v)@[k],
            forall|k: int| old(v)@.len() <= k < v@.len() ==> v@[k] == 0,
        decreases len - v@.len(),
    {
        v.push(0);
    }
}

impl Tape {
    /// The positive store: cells 0, 1, 2, ...
    pub closed spec fn pos(&self) -> Seq<u8> {
        self.ptape@
    }

    /// The negative store: cells -1, -2, -3, ...
    pub closed spec fn neg(&self) -> Seq<u8> {
        self.ntape@
    }

    /// Whether addresses wrap around the positive store.
    pub closed spec fn wraps(&self) -> bool {
        self.wraps
    }

    pub open spec fn wf(&self) -> bool {
        &&& 0 < self.pos().len() <= isize::MAX
        &&& self.neg().len() <= isize::MAX
    }

    /// The address that index `i` designates once wraparound is applied.
    pub open spec fn addr(&self, i: int) -> int {
        if self.wraps() {
            if i < 0 {
                self.pos().len() - 1
            } else if i >= self.pos().len() {
                0
            } else {
                i
            }
        } else {
            i
        }
    }

    /// The byte held at address `a` of the stores, 0 where nothing is stored.
    pub open spec fn stored(&self, a: int) -> u8 {
        if a >= 0 {
            if a < self.pos().len() {
                self.pos()[a]
            } else {
                0
            }
        } else {
            if -1 - a < self.neg().len() {
                self.neg()[-1 - a]
            } else {
                0
            }
        }
    }

    /// What a read at index `i` returns.
    pub open spec fn value(&self, i: int) -> u8 {
        self.stored(self.addr(i))
    }

    /// `after` is `before` with `v` written at index `i`.
    pub open spec fn is_write(before: Tape, i: int, v: u8, after: Tape) -> bool {
        &&& after.wf()
        &&& after.wraps() == before.wraps()
        &&& before.wraps() ==> after.pos().len() == before.pos().len()
        &&& forall|j: int|
            #[trigger] after.value(j) == if before.addr(j) == before.addr(i) {
                v
            } else {
                before.value(j)
            }
    }

    /// A tape whose positive store holds `len` zero cells, and whose
    /// negative store is empty.
    pub fn new(len: usize, wraps: bool) -> (t: Tape)
        requires
            0 < len <= isize::MAX,
        ensures
            t.wf(),
            t.wraps() == wraps,
            t.pos().len() == len,
            t.neg().len() == 0,
            forall|i: int| #[trigger] t.value(i) == 0,
    {
        let mut ptape: Vec<u8> = Vec::new();
        grow_to(&mut ptape, len);
        Tape { ptape, ntape: Vec::new(), wraps }
    }

    /// Whether addresses wrap around the positive store.
    pub fn is_wraparound(&self) -> (r: bool)
        ensures
            r == self.wraps(),
    {
        self.wraps
    }

    /// Length of the positive store.
    pub fn positive_len(&self) -> (r: usize)
        ensures
            r == self.pos().len(),
    {
        self.ptape.len()
    }

    /// The byte at `index`; 0 for a cell never written. Never grows the tape.
    pub fn read(&self, index: isize) -> (r: u8)
        requires
            self.wf(),
        ensures
            r == self.value(index as int),
    {
        let plen = self.ptape.len() as isize;
        let mut index = index;
        if self.wraps {
            if index < 0 {
                index = plen - 1;
            } else if index >= plen {
                index = 0;
            }
        }
        if index >= 0 {
            let a = index as usize;
            if a < self.ptape.len() {
                self.ptape[a]
            } else {
                0
            }
        } else {
            let a = (-1 - index) as usize;
            if a < self.ntape.len() {
                self.ntape[a]
            } else {
                0
            }
        }
    }

    /// Stores `value` at `index`. In expanding mode the store that `index`
    /// falls in grows, zero-filled, to hold it; in wraparound mode the index
    /// is folded as a read folds it.
    pub fn write(&mut self, index: isize, value: u8)
        requires
            old(self).wf(),
            isize::MIN < index < isize::MAX,
        ensures
            Tape::is_write(*old(self), index as int, value, *final(self)),
    {
        let plen = self.ptape.len() as isize;
        let mut index = index;
        if self.wraps {
            if index < 0 {
                index = plen - 1;
            } else if index >= plen {
                index = 0;
            }
        } else {
            if index >= plen {
                grow_to(&mut self.ptape, (index + 1) as usize);
            }
            if index < 0 && -index > self.ntape.len() as isize {
                grow_to(&mut self.ntape, (-index) as usize);
            }
        }
        if index >= 0 {
            self.ptape.set(index as usize, value);
        } else {
            self.ntape.set((-1 - index) as usize, value);
        }
    }
}

/// Each of `tapes` after the first is the one before it with the
/// corresponding entry of `writes` (index, value) written.
pub open spec fn write_chain(tapes: Seq<Tape>, writes: Seq<(int, u8)>) -> bool {
    &&& tapes.len() == writes.len() + 1
    &&& forall|k: int|
        0 <= k < writes.len() ==> #[trigger] Tape::is_write(
            tapes[k],
            writes[k].0,
            writes[k].1,
            tapes[k + 1],
        )
}

/// What index `a` of tape `t` reads after `writes`, taken in order: the
/// value of the last write to the same address, else what `t` held.
pub open spec fn latest(t: Tape, writes: Seq<(int, u8)>, a: int) -> u8
    decreases writes.len(),
{
    if writes.len() == 0 {
        t.value(a)
    } else if t.addr(writes.last().0) == t.addr(a) {
        writes.last().1
    } else {
        latest(t, writes.drop_last(), a)
    }
}

proof fn lemma_chain_keeps_addr(tapes: Seq<Tape>, writes: Seq<(int, u8)>, k: int)
    requires
        write_chain(tapes, writes),
        0 <= k < tapes.len(),
    ensures
        tapes[k].wraps() == tapes[0].wraps(),
        tapes[0].wraps() ==> tapes[k].pos().len() == tapes[0].pos().len(),
        forall|i: int| #[trigger] tapes[k].addr(i) == tapes[0].addr(i),
    decreases k,
{
    if k > 0 {
        lemma_chain_keeps_addr(tapes, writes, k - 1);
        let j = k - 1;
        assert(Tape::is_write(tapes[j], writes[j].0, writes[j].1, tapes[j + 1]));
    }
}

/// After any sequence of writes, at any indices, negative ones included,
/// a read returns the value of the last write to the same address, and
/// what the tape held before where there was none.
pub proof fn lemma_read_sees_latest_write(tapes: Seq<Tape>, writes: Seq<(int, u8)>, a: int)
    requires
        write_chain(tapes, writes),
    ensures
        tapes.last().value(a) == latest(tapes[0], writes, a),
    decreases writes.len(),
{
    if writes.len() > 0 {
        let n = writes.len() - 1;
        let (i, v) = writes[n];
        assert(Tape::is_write(tapes[n], i, v, tapes[n + 1]));
        lemma_chain_keeps_addr(tapes, writes, n);
        assert(tapes[n + 1].value(a) == if tapes[n].addr(a) == tapes[n].addr(i) {
            v
        } else {
            tapes[n].value(a)
        });
        let shorter = tapes.drop_last();
        assert(write_chain(shorter, writes.drop_last())) by {
            assert forall|k: int| 0 <= k < writes.drop_last().len() implies #[trigger] Tape::is_write(
                shorter[k],
                writes.drop_last()[k].0,
                writes.drop_last()[k].1,
                shorter[k + 1],
            ) by {
                assert(Tape::is_write(tapes[k], writes[k].0, writes[k].1, tapes[k + 1]));
            }
        }
        lemma_read_sees_latest_write(shorter, writes.drop_last(), a);
    }
}

/// Starting from a tape of zeros, a read at an index whose address no
/// write touched returns 0.
pub proof fn lemma_never_written_reads_zero(tapes: Seq<Tape>, writes: Seq<(int, u8)>, a: int)
    requires
        write_chain(tapes, writes),
        forall|i: int| #[trigger] tapes[0].value(i) == 0,
        forall|k: int|
            0 <= k < writes.len() ==> tapes[0].addr(#[trigger] writes[k].0) != tapes[0].addr(a),
    ensures
        tapes.last().value(a) == 0,
{
    lemma_read_sees_latest_write(tapes, writes, a);
    lemma_latest_untouched(tapes[0], writes, a);
}

proof fn lemma_latest_untouched(t: Tape, writes: Seq<(int, u8)>, a: int)
    requires
        forall|k: int| 0 <= k < writes.len() ==> t.addr(#[trigger] writes[k].0) != t.addr(a),
    ensures
        latest(t, writes, a) == t.value(a),
    decreases writes.len(),
{
    if writes.len() > 0 {
        assert(t.addr(writes[writes.len() - 1].0) != t.addr(a));
        let shorter = writes.drop_last();
        assert forall|k: int| 0 <= k < shorter.len() implies t.addr(#[trigger] shorter[k].0) != t.addr(a) by {
            assert(shorter[k] == writes[k]);
        }
        lemma_latest_untouched(t, shorter, a);
    }
}

} // verus!
