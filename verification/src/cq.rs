//! The completion side: the user is the consumer, the kernel the producer.
//! The state mirrors what the user may read of the shared completion ring:
//! the consumer cursor `khead` (user-owned), the latest observed producer
//! cursor `ktail`, and the entries the kernel has published between them.
//! New entries come in through `observe`, the one place a producer-cursor
//! load lands; everything after that load is verified against the mirror.

use vstd::prelude::*;

verus! {

use vstd::arithmetic::power2::pow2;

use crate::cqe::CQE;
use crate::cursor::lemma_cursor_slot;
use crate::cursor::lemma_entries_bound;
use crate::cursor::lemma_same_slot_far;
use crate::cursor::lemma_wrapping_add_word;
use crate::cursor::lemma_wrapping_distance;
use crate::cursor::ring_geometry;
use crate::cursor::word32;
use crate::sys::SQ_CQ_OVERFLOW;

/// The ghost image of the completion side.
pub struct CqView {
    /// Number of slots; a power of two, `pow2(k)`.
    pub entries: nat,
    pub k: nat,
    /// Consumer cursor: the next entry the user will take.
    pub khead: nat,
    /// Producer cursor as last observed: `[khead, ktail)` is ready.
    pub ktail: nat,
    /// The ring contents.
    pub ring: Seq<CQE>,
}

impl CqView {
    /// Completions ready to be taken: `ktail - khead`, wrapping.
    pub open spec fn ready(self) -> nat {
        (self.ktail - self.khead) as nat
    }

    /// The entry at a cursor's physical slot.
    pub open spec fn entry_at(self, c: nat) -> CQE {
        self.ring[(c % self.entries) as int]
    }

    pub open spec fn wf(self) -> bool {
        &&& self.k < 32
        &&& self.entries == pow2(self.k)
        &&& self.ring.len() == self.entries
        &&& self.khead <= self.ktail
        &&& self.ktail - self.khead <= self.entries
    }

    /// The consumer frees `m` slots.
    pub open spec fn advance(self, m: nat) -> CqView {
        CqView { khead: self.khead + m, ..self }
    }

    /// The producer publishes one entry at `ktail`.
    pub open spec fn fill1(self, e: CQE) -> CqView {
        CqView {
            ktail: self.ktail + 1,
            ring: self.ring.update((self.ktail % self.entries) as int, e),
            ..self
        }
    }

    /// The producer publishes a batch, in order.
    pub open spec fn filln(self, s: Seq<CQE>) -> CqView
        decreases s.len(),
    {
        if s.len() == 0 {
            self
        } else {
            self.fill1(s[0]).filln(s.drop_first())
        }
    }
}

/// Filling one more entry after a batch is one more fill.
pub proof fn lemma_filln_snoc(v: CqView, s: Seq<CQE>, e: CQE)
    ensures
        v.filln(s.push(e)) == v.filln(s).fill1(e),
    decreases s.len(),
{
    if s.len() == 0 {
        assert(s.push(e).drop_first() =~= s);
        assert(s.push(e)[0] == e);
        assert(v.filln(s.push(e)) == v.fill1(e).filln(s));
        assert(v.filln(s) == v);
    } else {
        assert(s.push(e).drop_first() =~= s.drop_first().push(e));
        assert(s.push(e)[0] == s[0]);
        lemma_filln_snoc(v.fill1(s[0]), s.drop_first(), e);
        assert(v.filln(s.push(e)) == v.fill1(s[0]).filln(s.push(e).drop_first()));
        assert(v.filln(s) == v.fill1(s[0]).filln(s.drop_first()));
    }
}

/// Fills move only the producer cursor and the ring contents.
pub proof fn lemma_filln_frame(v: CqView, s: Seq<CQE>)
    requires
        v.entries > 0,
        v.ring.len() == v.entries,
    ensures
        v.filln(s).ktail == v.ktail + s.len(),
        v.filln(s).khead == v.khead,
        v.filln(s).entries == v.entries,
        v.filln(s).k == v.k,
        v.filln(s).ring.len() == v.ring.len(),
    decreases s.len(),
{
    if s.len() > 0 {
        assert(0 <= v.ktail % v.entries < v.entries);
        lemma_filln_frame(v.fill1(s[0]), s.drop_first());
    }
}

/// Filling within capacity keeps the view well formed and leaves the
/// not-yet-consumed entries in place: an entry already ready before the fill
/// reads the same afterwards.
pub proof fn lemma_filln_wf(v: CqView, s: Seq<CQE>)
    requires
        v.wf(),
        v.ktail + s.len() - v.khead <= v.entries,
    ensures
        v.filln(s).wf(),
        forall|c: nat|
            v.khead <= c < v.ktail ==> #[trigger] v.filln(s).entry_at(c) == v.entry_at(c),
        forall|j: int|
            0 <= j < s.len() ==> #[trigger] v.filln(s).entry_at((v.ktail + j) as nat) == s[j],
    decreases s.len(),
{
    vstd::arithmetic::power2::lemma_pow2_pos(v.k);
    lemma_filln_frame(v, s);
    if s.len() > 0 {
        let w = v.fill1(s[0]);
        assert forall|c: nat| v.khead <= c < v.ktail implies #[trigger] w.entry_at(c) == v.entry_at(
            c,
        ) by {
            if c % v.entries == v.ktail % v.entries {
                lemma_same_slot_far(c, v.ktail, v.entries);
            }
        }
        assert(w.wf());
        lemma_filln_wf(w, s.drop_first());
        assert forall|j: int|
            0 <= j < s.len() implies #[trigger] v.filln(s).entry_at((v.ktail + j) as nat)
            == s[j] by {
            if j == 0 {
                assert(w.filln(s.drop_first()).entry_at(v.ktail) == w.entry_at(v.ktail));
            } else {
                assert(w.filln(s.drop_first()).entry_at((w.ktail + (j - 1)) as nat)
                    == s.drop_first()[j - 1]);
            }
        }
    }
}

/// After one entry is taken, the next peek reads a different physical slot
/// whenever an entry is still ready: taking and peeking never see one slot
/// twice.
pub proof fn lemma_pop_moves_to_next_slot(c: CqView)
    requires
        c.wf(),
        c.ready() >= 2,
    ensures
        c.advance(1).khead % c.entries != c.khead % c.entries,
{
    vstd::arithmetic::power2::lemma_pow2_pos(c.k);
    assert(c.ktail >= c.khead + 2);
    if (c.khead + 1) % c.entries == c.khead % c.entries {
        lemma_same_slot_far(c.khead, c.khead + 1, c.entries);
        assert(c.entries <= 1);
        assert(c.ktail - c.khead <= 1);
        assert(false);
    }
    assert((c.khead + 1) % c.entries != c.khead % c.entries);
}

/// Free-running ghost counterparts of the two 32-bit cursors.
pub struct CqGhost {
    pub k: nat,
    pub khead: nat,
    pub ktail: nat,
}

/// The completion queue mirror.
pub struct CompletionQueue {
    mask: u32,
    entries: u32,
    khead: u32,
    ktail: u32,
    ring: Vec<CQE>,
    g: Ghost<CqGhost>,
}

impl View for CompletionQueue {
    type V = CqView;

    closed spec fn view(&self) -> CqView {
        CqView {
            entries: self.entries as nat,
            k: self.g@.k,
            khead: self.g@.khead,
            ktail: self.g@.ktail,
            ring: self.ring@,
        }
    }
}

/// Whether the kernel-shared submission-queue flags word signals overflown
/// completions waiting to be drained.
pub fn needs_flush_word(sq_kflags: u32) -> (r: bool)
    ensures
        r == (sq_kflags & SQ_CQ_OVERFLOW != 0),
{
    sq_kflags & SQ_CQ_OVERFLOW != 0
}

impl CompletionQueue {
    pub closed spec fn wf(&self) -> bool {
        &&& self@.wf()
        &&& ring_geometry(self.entries, self.mask, self.g@.k)
        &&& self.khead == word32(self.g@.khead)
        &&& self.ktail == word32(self.g@.ktail)
    }

    /// The view of a well-formed queue is well formed.
    pub proof fn lemma_wf_view(&self)
        requires
            self.wf(),
        ensures
            self@.wf(),
    {
    }

    /// Builds the completion side at setup: both shared cursors read
    /// `head`, nothing is ready, the ring reads as zeroed entries.
    pub fn new(entries: u32, head: u32) -> (r: Self)
        requires
            exists|k: nat| k < 32 && entries == pow2(k),
        ensures
            r.wf(),
            r@.entries == entries,
            r@.ready() == 0,
            word32(r@.khead) == head,
            word32(r@.ktail) == head,
    {
        let ghost k = choose|k: nat| k < 32 && entries == pow2(k);
        proof {
            vstd::arithmetic::power2::lemma_pow2_pos(k);
        }
        let mask = entries - 1;
        let mut ring: Vec<CQE> = Vec::new();
        let mut i: u32 = 0;
        while i < entries
            invariant
                i <= entries,
                ring@.len() == i,
            decreases entries - i,
        {
            ring.push(CQE::new(0, 0, 0));
            i = i + 1;
        }
        let ghost gh = head as nat + 0x1_0000_0000nat;
        proof {
            vstd::arithmetic::div_mod::lemma_mod_add_multiples_vanish(
                head as int,
                0x1_0000_0000int,
            );
            vstd::arithmetic::div_mod::lemma_small_mod(head as nat, 0x1_0000_0000nat);
        }
        CompletionQueue {
            mask,
            entries,
            khead: head,
            ktail: head,
            ring,
            g: Ghost(CqGhost { k, khead: gh, ktail: gh }),
        }
    }

    /// Number of slots.
    pub fn cq_entries(&self) -> (r: u32)
        requires
            self.wf(),
        ensures
            r == self@.entries,
    {
        self.entries
    }

    /// The consumer cursor word, for the consumer's release store.
    pub fn khead_word(&self) -> (r: u32)
        requires
            self.wf(),
        ensures
            r == word32(self@.khead),
    {
        self.khead
    }

    /// The latest observed producer cursor word.
    pub fn ktail_word(&self) -> (r: u32)
        requires
            self.wf(),
        ensures
            r == word32(self@.ktail),
    {
        self.ktail
    }

    /// Completions ready to be taken.
    pub fn ready(&self) -> (r: u32)
        requires
            self.wf(),
        ensures
            r == self@.ready(),
    {
        proof {
            lemma_entries_bound(self.entries, self.mask, self.g@.k);
            lemma_wrapping_distance(self.g@.khead, self.g@.ktail);
        }
        self.ktail.wrapping_sub(self.khead)
    }

    /// Records a load of the kernel's producer cursor together with the
    /// entries published since the last observation, in ring order.  The
    /// producer only moves forward and never overruns the consumer by more
    /// than the ring length.
    pub fn observe(&mut self, tail: u32, fresh: &Vec<CQE>)
        requires
            old(self).wf(),
            exists|t: nat|
                {
                    &&& old(self)@.ktail <= t
                    &&& t - old(self)@.khead <= old(self)@.entries
                    &&& #[trigger] word32(t) == tail
                    &&& fresh@.len() == t - old(self)@.ktail
                },
        ensures
            final(self).wf(),
            final(self)@ == old(self)@.filln(fresh@),
            final(self)@.ktail == old(self)@.ktail + fresh@.len(),
            word32(final(self)@.ktail) == tail,
            forall|c: nat|
                old(self)@.khead <= c < old(self)@.ktail ==> #[trigger] final(self)@.entry_at(c)
                    == old(self)@.entry_at(c),
    {
        proof {
            lemma_filln_wf(old(self)@, fresh@);
        }
        proof {
            assert(fresh@.take(0) =~= Seq::<CQE>::empty());
        }
        let mut i: usize = 0;
        let n = fresh.len();
        while i < n
            invariant
                i <= n,
                n == fresh@.len(),
                self.wf(),
                self@ == old(self)@.filln(fresh@.take(i as int)),
                old(self)@.wf(),
                old(self)@.ktail + n - old(self)@.khead <= old(self)@.entries,
            decreases n - i,
        {
            proof {
                lemma_filln_frame(old(self)@, fresh@.take(i as int));
                lemma_cursor_slot(self.g@.ktail, self.ktail, self.entries, self.mask, self.g@.k);
                lemma_wrapping_add_word(self.ktail, self.g@.ktail, 1);
            }
            let slot = self.ktail & self.mask;
            self.ring[slot as usize] = fresh[i];
            self.ktail = self.ktail.wrapping_add(1);
            let ghost gold = self.g@;
            self.g = Ghost(CqGhost { ktail: gold.ktail + 1, ..gold });
            proof {
                assert(fresh@.take(i as int + 1) =~= fresh@.take(i as int).push(fresh@[i as int]));
                lemma_filln_snoc(old(self)@, fresh@.take(i as int), fresh@[i as int]);
            }
            i = i + 1;
        }
        proof {
            assert(fresh@.take(n as int) =~= fresh@);
            lemma_filln_frame(old(self)@, fresh@);
        }
    }

    /// The producer's step: writes one entry at `ktail` and advances it.
    /// In the model the simulated kernel calls this; on a live ring the
    /// kernel performs it invisibly and `observe` records it.
    pub(crate) fn kernel_fill(&mut self, e: CQE)
        requires
            old(self).wf(),
            old(self)@.ready() < old(self)@.entries,
        ensures
            final(self).wf(),
            final(self)@ == old(self)@.fill1(e),
    {
        proof {
            lemma_cursor_slot(self.g@.ktail, self.ktail, self.entries, self.mask, self.g@.k);
            lemma_wrapping_add_word(self.ktail, self.g@.ktail, 1);
        }
        let slot = self.ktail & self.mask;
        self.ring[slot as usize] = e;
        self.ktail = self.ktail.wrapping_add(1);
        let ghost gold = self.g@;
        self.g = Ghost(CqGhost { ktail: gold.ktail + 1, ..gold });
    }

    /// A borrowed view of the next ready entry, without consuming it.
    pub fn peek_cqe(&self) -> (r: Option<&CQE>)
        requires
            self.wf(),
        ensures
            (self@.ready() > 0) <==> r is Some,
            r matches Some(c) ==> *c == self@.entry_at(self@.khead),
    {
        let ready = self.ready();
        if ready > 0 {
            proof {
                lemma_cursor_slot(self.g@.khead, self.khead, self.entries, self.mask, self.g@.k);
            }
            let slot = self.khead & self.mask;
            Some(&self.ring[slot as usize])
        } else {
            None
        }
    }

    /// Copies up to `cap` ready entries, oldest first, without consuming.
    pub fn peek_batch_cqe(&self, cap: usize) -> (r: Vec<CQE>)
        requires
            self.wf(),
        ensures
            r@.len() == if self@.ready() < cap {
                self@.ready()
            } else {
                cap as nat
            },
            forall|j: int|
                0 <= j < r@.len() ==> #[trigger] r@[j] == self@.entry_at(
                    (self@.khead + j) as nat,
                ),
    {
        let ready = self.ready();
        let len: usize = if (ready as usize) < cap {
            ready as usize
        } else {
            cap
        };
        let mut out: Vec<CQE> = Vec::new();
        let mut i: usize = 0;
        let mut cursor = self.khead;
        while i < len
            invariant
                i <= len,
                len <= self@.ready(),
                self.wf(),
                cursor == word32((self@.khead + i) as nat),
                out@.len() == i,
                forall|j: int|
                    0 <= j < i ==> #[trigger] out@[j] == self@.entry_at((self@.khead + j) as nat),
            decreases len - i,
        {
            proof {
                lemma_cursor_slot(
                    (self.g@.khead + i) as nat,
                    cursor,
                    self.entries,
                    self.mask,
                    self.g@.k,
                );
                lemma_wrapping_add_word(cursor, (self.g@.khead + i) as nat, 1);
            }
            let slot = cursor & self.mask;
            out.push(self.ring[slot as usize]);
            cursor = cursor.wrapping_add(1);
            i = i + 1;
        }
        out
    }

    /// Takes the next ready entry by value and frees its slot.
    pub fn pop_cqe(&mut self) -> (r: Option<CQE>)
        requires
            old(self).wf(),
        ensures
            final(self).wf(),
            old(self)@.ready() == 0 ==> r is None && final(self)@ == old(self)@,
            old(self)@.ready() > 0 ==> r == Some(old(self)@.entry_at(old(self)@.khead))
                && final(self)@ == old(self)@.advance(1),
    {
        let ready = self.ready();
        if ready == 0 {
            return None;
        }
        proof {
            lemma_cursor_slot(self.g@.khead, self.khead, self.entries, self.mask, self.g@.k);
            lemma_wrapping_add_word(self.khead, self.g@.khead, 1);
        }
        let slot = self.khead & self.mask;
        let cqe = self.ring[slot as usize];
        self.khead = self.khead.wrapping_add(1);
        let ghost gold = self.g@;
        self.g = Ghost(CqGhost { khead: gold.khead + 1, ..gold });
        Some(cqe)
    }

    /// Takes up to `cap` ready entries by value, oldest first, and frees
    /// their slots.
    pub fn pop_batch_cqe(&mut self, cap: usize) -> (r: Vec<CQE>)
        requires
            old(self).wf(),
        ensures
            final(self).wf(),
            r@.len() == if old(self)@.ready() < cap {
                old(self)@.ready()
            } else {
                cap as nat
            },
            final(self)@ == old(self)@.advance(r@.len()),
            forall|j: int|
                0 <= j < r@.len() ==> #[trigger] r@[j] == old(self)@.entry_at(
                    (old(self)@.khead + j) as nat,
                ),
    {
        let out = self.peek_batch_cqe(cap);
        let len32 = out.len() as u32;
        self.advance(len32);
        out
    }

    /// Frees `n` slots the caller has already read.  `n` must not exceed
    /// the ready count.
    pub fn advance(&mut self, n: u32)
        requires
            old(self).wf(),
            n <= old(self)@.ready(),
        ensures
            final(self).wf(),
            final(self)@ == old(self)@.advance(n as nat),
    {
        if n == 0 {
            return ;
        }
        proof {
            lemma_wrapping_add_word(self.khead, self.g@.khead, n);
        }
        let new_khead = self.khead.wrapping_add(n);
        self.khead = new_khead;
        let ghost gold = self.g@;
        self.g = Ghost(CqGhost { khead: gold.khead + n as nat, ..gold });
    }

    /// Whether at least `count` completions are already ready: the
    /// non-blocking half of the wait operation.  Returns the ready count
    /// when no kernel transition is needed.
    pub fn wait_ready(&self, count: u32) -> (r: Option<u32>)
        requires
            self.wf(),
        ensures
            self@.ready() >= count ==> r == Some(self@.ready() as u32),
            self@.ready() < count ==> r is None,
    {
        let ready = self.ready();
        if ready >= count {
            Some(ready)
        } else {
            None
        }
    }
}

} // verus!
