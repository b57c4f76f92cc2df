//! The submission side: a two-level ring.  The kernel-visible ring holds,
//! behind the shared head and tail, indices into the submission-entry table;
//! the indirection table `array` doubles as a free list.  Two private
//! cursors, `rhead` and `rtail`, delimit the slots the user has acquired but
//! not yet published, so batches can be prepared without a system call per
//! entry.
//!
//! The central invariant: the multiset of indices stored in the live window
//! `array[rhead .. rtail]`, together with the indices currently held by the
//! user, is exactly one copy of every index below `sq_entries`.  Every
//! operation preserves it, so the table remains a permutation whenever all
//! held slots have been pushed back.

use vstd::prelude::*;

verus! {

use vstd::arithmetic::power2::pow2;
use vstd::multiset::Multiset;

use crate::cursor::lemma_cursor_slot;
use crate::cursor::lemma_entries_bound;
use crate::cursor::lemma_same_slot_far;
use crate::cursor::lemma_wrapping_add_word;
use crate::cursor::lemma_wrapping_distance;
use crate::cursor::ring_geometry;
use crate::cursor::word32;
use crate::sqe::SQE;

broadcast use {vstd::multiset::group_multiset_axioms, vstd::seq_lib::group_to_multiset_ensures};

/// An index into the submission-entry table, as handed out by `pop_sqe` and
/// given back by `push_sqe`.
#[derive(Clone, Copy, Debug, PartialEq, Eq, Structural, PartialOrd, Ord, Hash)]
pub struct SQEIndex(pub u32);

/// The multiset of index values a window of the indirection table holds:
/// one value per cursor position in `[lo, hi)`, each read at its physical
/// slot `position mod len`.
pub open spec fn window(arr: Seq<u32>, lo: nat, hi: nat) -> Multiset<u32>
    decreases hi - lo,
{
    if lo >= hi {
        Multiset::empty()
    } else {
        window(arr, lo + 1, hi).insert(arr[(lo % arr.len()) as int])
    }
}

/// The sequence `0, 1, .., n - 1`.
pub open spec fn identity_seq(n: nat) -> Seq<u32> {
    Seq::new(n, |i: int| i as u32)
}

/// One copy of every index below `n`.
pub open spec fn ids(n: nat) -> Multiset<u32> {
    identity_seq(n).to_multiset()
}

/// The ghost image of the submission side: free-running cursors, the
/// indirection table, the entry table, and the multiset of indices the user
/// holds between a pop and the matching push.
pub struct SqView {
    /// Number of slots; a power of two, `pow2(k)`.
    pub entries: nat,
    pub k: nat,
    /// Free-list read cursor: `[rhead, khead)` are the free slots.
    pub rhead: nat,
    /// Kernel consumption cursor, as last observed.
    pub khead: nat,
    /// Kernel-visible tail: `[khead, ktail)` is published work.
    pub ktail: nat,
    /// Private tail: `[ktail, rtail)` is prepared, unpublished work.
    pub rtail: nat,
    /// The indirection table.
    pub arr: Seq<u32>,
    /// The submission-entry table.
    pub sqes: Seq<SQE>,
    /// Indices popped and not yet pushed back.
    pub held: Multiset<u32>,
}

impl SqView {
    /// Free slots: what `pop_sqe` may still hand out.
    pub open spec fn available(self) -> nat {
        (self.khead - self.rhead) as nat
    }

    /// Entries the user has prepared that the kernel has not consumed.
    pub open spec fn prepared(self) -> nat {
        (self.rtail - self.khead) as nat
    }

    /// Entries published to the kernel and not yet consumed.
    pub open spec fn to_submit(self) -> nat {
        (self.ktail - self.khead) as nat
    }

    /// Slots in the user's hand, between a pop and the matching push.
    pub open spec fn held_count(self) -> nat {
        self.held.len()
    }

    /// The index value stored at a cursor's physical slot.
    pub open spec fn slot_value(self, c: nat) -> u32 {
        self.arr[(c % self.entries) as int]
    }

    /// Well-formedness: power-of-two geometry, table lengths, cursor order,
    /// and the free-list permutation invariant.
    pub open spec fn wf(self) -> bool {
        &&& self.k < 32
        &&& self.entries == pow2(self.k)
        &&& self.arr.len() == self.entries
        &&& self.sqes.len() == self.entries
        &&& self.rhead <= self.khead
        &&& self.khead <= self.ktail
        &&& self.ktail <= self.rtail
        &&& self.rtail - self.rhead <= self.entries
        &&& window(self.arr, self.rhead, self.rtail).add(self.held) == ids(self.entries)
    }

    /// One pop: the slot at `rhead` leaves the free list and joins the held
    /// indices.
    pub open spec fn pop1(self) -> SqView {
        SqView {
            rhead: self.rhead + 1,
            held: self.held.insert(self.slot_value(self.rhead)),
            ..self
        }
    }

    /// `m` consecutive pops.
    pub open spec fn popn(self, m: nat) -> SqView
        decreases m,
    {
        if m == 0 {
            self
        } else {
            self.pop1().popn((m - 1) as nat)
        }
    }

    /// One push: `idx` leaves the held indices and is written at `rtail`.
    pub open spec fn push1(self, idx: u32) -> SqView {
        SqView {
            rtail: self.rtail + 1,
            arr: self.arr.update((self.rtail % self.entries) as int, idx),
            held: self.held.remove(idx),
            ..self
        }
    }

    /// Consecutive pushes, in order.
    pub open spec fn pushn(self, idxs: Seq<u32>) -> SqView
        decreases idxs.len(),
    {
        if idxs.len() == 0 {
            self
        } else {
            self.push1(idxs[0]).pushn(idxs.drop_first())
        }
    }

    /// Publication: the kernel-visible tail catches up with `rtail`.
    pub open spec fn publish(self) -> SqView {
        SqView { ktail: self.rtail, ..self }
    }

    /// A kernel observation: the consumption cursor has moved to `h`.
    pub open spec fn with_khead(self, h: nat) -> SqView {
        SqView { khead: h, ..self }
    }

    /// An entry rewritten in place.
    pub open spec fn with_sqe(self, idx: u32, sqe: SQE) -> SqView {
        SqView { sqes: self.sqes.update(idx as int, sqe), ..self }
    }
}

/// The entry count of a well-formed view fits the 32-bit cursor space.
proof fn lemma_entries_pow2_bound(k: nat, entries: nat)
    requires
        k < 32,
        entries == pow2(k),
    ensures
        0 < entries <= 0x8000_0000,
{
    vstd::arithmetic::power2::lemma_pow2_pos(k);
    vstd::arithmetic::power2::lemma2_to64();
    if k < 31 {
        vstd::arithmetic::power2::lemma_pow2_strictly_increases(k, 31);
    }
}

/// A window holds one value per cursor position.
proof fn lemma_window_len(arr: Seq<u32>, lo: nat, hi: nat)
    requires
        lo <= hi,
    ensures
        window(arr, lo, hi).len() == hi - lo,
    decreases hi - lo,
{
    if lo < hi {
        lemma_window_len(arr, lo + 1, hi);
    }
}

/// Extending a window upward inserts the value at the new high position.
proof fn lemma_window_extend_high(arr: Seq<u32>, lo: nat, hi: nat)
    requires
        lo <= hi,
        arr.len() > 0,
    ensures
        window(arr, lo, hi + 1) == window(arr, lo, hi).insert(arr[(hi % arr.len()) as int]),
    decreases hi - lo,
{
    if lo == hi {
        assert(window(arr, lo, hi + 1) == window(arr, lo + 1, hi + 1).insert(
            arr[(lo % arr.len()) as int],
        ));
    } else {
        lemma_window_extend_high(arr, lo + 1, hi);
        assert(window(arr, lo, hi).insert(arr[(hi % arr.len()) as int]) =~= window(
            arr,
            lo + 1,
            hi,
        ).insert(arr[(hi % arr.len()) as int]).insert(arr[(lo % arr.len()) as int]));
    }
}

/// A window ignores an update at a physical slot none of its positions use.
proof fn lemma_window_update_outside(arr: Seq<u32>, lo: nat, hi: nat, j: nat, v: u32)
    requires
        lo <= hi,
        j < arr.len(),
        forall|p: nat| lo <= p < hi ==> #[trigger] (p % arr.len()) != j,
    ensures
        window(arr.update(j as int, v), lo, hi) == window(arr, lo, hi),
    decreases hi - lo,
{
    if lo < hi {
        lemma_window_update_outside(arr, lo + 1, hi, j, v);
        assert(lo % arr.len() != j);
    }
}

/// Every position's value is in the window's multiset.
proof fn lemma_window_contains(arr: Seq<u32>, lo: nat, hi: nat, p: nat)
    requires
        lo <= p < hi,
    ensures
        window(arr, lo, hi).count(arr[(p % arr.len()) as int]) > 0,
    decreases hi - lo,
{
    if p > lo {
        lemma_window_contains(arr, lo + 1, hi, p);
    }
}

/// A window of the table's full length, starting anywhere, holds exactly the
/// table's contents: the ring is a rotation, not a reordering.
proof fn lemma_window_rotation(arr: Seq<u32>, lo: nat)
    requires
        arr.len() > 0,
    ensures
        window(arr, lo, lo + arr.len()) == arr.to_multiset(),
    decreases lo,
{
    let n = arr.len();
    if lo == 0 {
        lemma_window_prefix(arr, n);
        assert(arr.take(n as int) =~= arr);
    } else {
        lemma_window_rotation(arr, (lo - 1) as nat);
        // One rotation step: dropping the low position and adding position
        // `lo - 1 + n` inserts the same physical slot's value.
        let prev = (lo - 1) as nat;
        lemma_window_extend_high(arr, prev, prev + n);
        assert((prev + n) % n == prev % n) by {
            vstd::arithmetic::div_mod::lemma_mod_add_multiples_vanish(prev as int, n as int);
        }
        let x = arr[(prev % n) as int];
        // window(prev, prev + n + 1) peels both ways.
        assert(window(arr, prev, prev + n + 1) == window(arr, prev + 1, prev + n + 1).insert(x));
        assert(window(arr, prev, prev + n + 1) == window(arr, prev, prev + n).insert(x));
        let a = window(arr, prev + 1, prev + n + 1);
        let b = window(arr, prev, prev + n);
        assert forall|v: u32| a.count(v) == b.count(v) by {
            assert(a.insert(x).count(v) == b.insert(x).count(v));
        }
        assert(a =~= b);
    }
}

/// A window from zero is a prefix of the table.
proof fn lemma_window_prefix(arr: Seq<u32>, m: nat)
    requires
        m <= arr.len(),
        arr.len() > 0,
    ensures
        window(arr, 0, m) == arr.take(m as int).to_multiset(),
    decreases m,
{
    if m == 0 {
        assert(arr.take(0).to_multiset() =~= Multiset::<u32>::empty()) by {
            arr.take(0).to_multiset_ensures();
        }
    } else {
        let p = (m - 1) as nat;
        lemma_window_prefix(arr, p);
        lemma_window_extend_high(arr, 0, p);
        vstd::arithmetic::div_mod::lemma_small_mod(p, arr.len());
        assert(arr.take(m as int) =~= arr.take(p as int).push(arr[p as int]));
    }
}

/// The identity multiset holds exactly the indices below `n`, once each.
proof fn lemma_ids_count(n: nat, v: u32)
    requires
        n <= 0x1_0000_0000,
    ensures
        ids(n).count(v) == if (v as nat) < n {
            1nat
        } else {
            0nat
        },
    decreases n,
{
    identity_seq(n).to_multiset_ensures();
    if n == 0 {
        assert(ids(0).count(v) == 0);
    } else {
        let p = (n - 1) as nat;
        lemma_ids_count(p, v);
        assert(identity_seq(n) =~= identity_seq(p).push(p as u32));
        identity_seq(p).to_multiset_ensures();
        assert(ids(n) =~= ids(p).insert(p as u32));
    }
}

/// Any index in the window or in the user's hand is a real table index.
proof fn lemma_member_in_range(s: SqView, v: u32)
    requires
        s.wf(),
        window(s.arr, s.rhead, s.rtail).count(v) > 0 || s.held.count(v) > 0,
    ensures
        (v as nat) < s.entries,
{
    lemma_entries_pow2_bound(s.k, s.entries);
    lemma_ids_count(s.entries, v);
    assert(ids(s.entries).count(v) == window(s.arr, s.rhead, s.rtail).count(v) + s.held.count(v));
}

/// The counting identity behind the queue: free, prepared and held slots
/// together account for every entry.
pub proof fn lemma_slot_accounting(s: SqView)
    requires
        s.wf(),
    ensures
        s.available() + s.prepared() + s.held_count() == s.entries,
{
    lemma_window_len(s.arr, s.rhead, s.rtail);
    identity_seq(s.entries).to_multiset_ensures();
    assert(ids(s.entries).len() == s.entries);
    assert(window(s.arr, s.rhead, s.rtail).add(s.held).len() == window(
        s.arr,
        s.rhead,
        s.rtail,
    ).len() + s.held.len());
}

/// Once every held slot has been pushed back, the indirection table is again
/// a permutation of all indices, counting multiplicities.
pub proof fn lemma_table_permutation(s: SqView)
    requires
        s.wf(),
        s.held_count() == 0,
    ensures
        s.arr.to_multiset() == ids(s.entries),
{
    vstd::multiset::lemma_multiset_empty_len(s.held);
    assert(s.held =~= Multiset::<u32>::empty());
    lemma_slot_accounting(s);
    assert(s.rtail - s.rhead == s.entries);
    vstd::arithmetic::power2::lemma_pow2_pos(s.k);
    lemma_window_rotation(s.arr, s.rhead);
    assert(window(s.arr, s.rhead, s.rtail).add(s.held) =~= window(s.arr, s.rhead, s.rtail));
}

/// The index values of a sequence of slot handles.
pub open spec fn index_values(s: Seq<SQEIndex>) -> Seq<u32> {
    s.map_values(|ix: SQEIndex| ix.0)
}

/// Popping `m + 1` times is popping `m` times, then once more.
pub proof fn lemma_popn_snoc(v: SqView, m: nat)
    ensures
        v.popn(m + 1) == v.popn(m).pop1(),
    decreases m,
{
    if m == 0 {
        assert(v.popn(1) == v.pop1().popn(0));
    } else {
        lemma_popn_snoc(v.pop1(), (m - 1) as nat);
        assert(v.popn(m + 1) == v.pop1().popn(m));
        assert(v.popn(m) == v.pop1().popn((m - 1) as nat));
    }
}

/// Pops only move the free-list cursor and grow the held set.
pub proof fn lemma_popn_frame(v: SqView, m: nat)
    ensures
        v.popn(m) == (SqView { rhead: v.rhead + m, held: v.popn(m).held, ..v }),
    decreases m,
{
    if m > 0 {
        lemma_popn_frame(v.pop1(), (m - 1) as nat);
    }
}

/// Pushing one more element after a batch is one more push.
pub proof fn lemma_pushn_snoc(v: SqView, s: Seq<u32>, x: u32)
    ensures
        v.pushn(s.push(x)) == v.pushn(s).push1(x),
    decreases s.len(),
{
    if s.len() == 0 {
        assert(s.push(x).drop_first() =~= s);
        assert(s.push(x)[0] == x);
        assert(v.pushn(s.push(x)) == v.push1(x).pushn(s));
        assert(v.pushn(s) == v);
    } else {
        assert(s.push(x).drop_first() =~= s.drop_first().push(x));
        assert(s.push(x)[0] == s[0]);
        lemma_pushn_snoc(v.push1(s[0]), s.drop_first(), x);
        assert(v.pushn(s.push(x)) == v.push1(s[0]).pushn(s.push(x).drop_first()));
        assert(v.pushn(s) == v.push1(s[0]).pushn(s.drop_first()));
    }
}

/// On a freshly set-up queue every slot is free, so popping succeeds
/// exactly `entries` times: each pop leaves one fewer free slot, and after
/// `entries` pops none is left.
pub proof fn lemma_pop_exhausts_fresh(v: SqView, m: nat)
    requires
        v.wf(),
        v.available() == v.entries,
    ensures
        m < v.entries ==> v.popn(m).available() > 0,
        v.popn(v.entries).available() == 0,
{
    lemma_popn_frame(v, m);
    lemma_popn_frame(v, v.entries);
}

/// A queue whose slots are all free and all published has its four cursors
/// equal: nothing is prepared, nothing is outstanding.
pub proof fn lemma_drained_cursors(s: SqView)
    requires
        s.wf(),
        s.available() == 0,
        s.prepared() == 0,
    ensures
        s.rhead == s.rtail,
        s.khead == s.ktail,
{
}

/// The submission queue: the user-side producer state of the shared ring,
/// exactly mirroring what user space owns of the mapping (the indirection
/// table and the entry table are written by user space alone), together
/// with the latest observed kernel head.
pub struct SubmissionQueue {
    mask: u32,
    entries: u32,
    khead: u32,
    ktail: u32,
    rhead: u32,
    rtail: u32,
    array: Vec<u32>,
    sqes: Vec<SQE>,
    g: Ghost<SqGhost>,
}

/// Free-running ghost counterparts of the four 32-bit cursors.
pub struct SqGhost {
    pub k: nat,
    pub rhead: nat,
    pub khead: nat,
    pub ktail: nat,
    pub rtail: nat,
    pub held: Multiset<u32>,
}

impl View for SubmissionQueue {
    type V = SqView;

    closed spec fn view(&self) -> SqView {
        SqView {
            entries: self.entries as nat,
            k: self.g@.k,
            rhead: self.g@.rhead,
            khead: self.g@.khead,
            ktail: self.g@.ktail,
            rtail: self.g@.rtail,
            arr: self.array@,
            sqes: self.sqes@,
            held: self.g@.held,
        }
    }
}

impl SubmissionQueue {
    /// The exec cursors are the 32-bit words of the ghost cursors, and the
    /// ghost state is well formed.
    pub closed spec fn wf(&self) -> bool {
        &&& self@.wf()
        &&& ring_geometry(self.entries, self.mask, self.g@.k)
        &&& self.rhead == word32(self.g@.rhead)
        &&& self.khead == word32(self.g@.khead)
        &&& self.ktail == word32(self.g@.ktail)
        &&& self.rtail == word32(self.g@.rtail)
    }

    /// The view of a well-formed queue is well formed; the exec fields are
    /// its cursor words.
    pub proof fn lemma_wf_view(&self)
        requires
            self.wf(),
        ensures
            self@.wf(),
    {
    }

    /// An index stored anywhere in the live window names a real table slot.
    pub proof fn lemma_published_index_in_range(v: SqView, c: nat)
        requires
            v.wf(),
            v.rhead <= c < v.rtail,
        ensures
            (v.slot_value(c) as nat) < v.entries,
    {
        vstd::arithmetic::power2::lemma_pow2_pos(v.k);
        lemma_window_contains(v.arr, v.rhead, v.rtail, c);
        lemma_member_in_range(v, v.slot_value(c));
    }

    /// The ring mask, `entries - 1`.
    pub fn mask(&self) -> (r: u32)
        requires
            self.wf(),
        ensures
            r == self@.entries - 1,
    {
        self.mask
    }

    /// Published and not yet consumed: `ktail - khead`, wrapping.
    pub fn to_submit(&self) -> (r: u32)
        requires
            self.wf(),
        ensures
            r == self@.to_submit(),
    {
        proof {
            lemma_entries_bound(self.entries, self.mask, self.g@.k);
            lemma_wrapping_distance(self.g@.khead, self.g@.ktail);
        }
        self.ktail.wrapping_sub(self.khead)
    }

    /// Number of slots.
    pub fn sq_entries(&self) -> (r: u32)
        requires
            self.wf(),
        ensures
            r == self@.entries,
    {
        self.entries
    }

    /// The kernel-visible tail word, for the publisher to store.
    pub fn ktail_word(&self) -> (r: u32)
        requires
            self.wf(),
        ensures
            r == word32(self@.ktail),
    {
        self.ktail
    }

    /// The latest observed kernel head word.
    pub fn khead_word(&self) -> (r: u32)
        requires
            self.wf(),
        ensures
            r == word32(self@.khead),
    {
        self.khead
    }

    /// The value of the indirection table at a physical slot.
    pub fn array_at(&self, slot: u32) -> (r: u32)
        requires
            self.wf(),
            slot < self@.entries,
        ensures
            r == self@.arr[slot as int],
    {
        self.array[slot as usize]
    }

    /// The entry table record at an index.
    pub fn sqe_at(&self, idx: u32) -> (r: &SQE)
        requires
            self.wf(),
            idx < self@.entries,
        ensures
            *r == self@.sqes[idx as int],
    {
        &self.sqes[idx as usize]
    }

    /// Free slot count: `khead - rhead`, wrapping.
    pub fn available(&self) -> (r: u32)
        requires
            self.wf(),
        ensures
            r == self@.available(),
    {
        proof {
            lemma_entries_bound(self.entries, self.mask, self.g@.k);
            lemma_wrapping_distance(self.g@.rhead, self.g@.khead);
        }
        self.khead.wrapping_sub(self.rhead)
    }

    /// User-prepared, not yet consumed: `rtail - khead`, wrapping.
    pub fn prepared(&self) -> (r: u32)
        requires
            self.wf(),
        ensures
            r == self@.prepared(),
    {
        proof {
            lemma_entries_bound(self.entries, self.mask, self.g@.k);
            lemma_wrapping_distance(self.g@.khead, self.g@.rtail);
        }
        self.rtail.wrapping_sub(self.khead)
    }

    /// Takes one slot off the free list: reads the index stored at `rhead`
    /// and advances `rhead`.  Returns nothing when no slot is free.
    pub fn pop_sqe(&mut self) -> (r: Option<SQEIndex>)
        requires
            old(self).wf(),
        ensures
            final(self).wf(),
            old(self)@.available() == 0 ==> r is None && final(self)@ == old(self)@,
            old(self)@.available() > 0 ==> r == Some(
                SQEIndex(old(self)@.slot_value(old(self)@.rhead)),
            ) && final(self)@ == old(self)@.pop1(),
    {
        let avail = self.available();
        if avail == 0 {
            return None;
        }
        proof {
            lemma_cursor_slot(self.g@.rhead, self.rhead, self.entries, self.mask, self.g@.k);
        }
        let slot = self.rhead & self.mask;
        let idx = self.array[slot as usize];
        proof {
            lemma_wrapping_add_word(self.rhead, self.g@.rhead, 1);
        }
        self.rhead = self.rhead.wrapping_add(1);
        let ghost gold = self.g@;
        self.g = Ghost(
            SqGhost { rhead: gold.rhead + 1, held: gold.held.insert(idx), ..gold },
        );
        proof {
            let v = old(self)@;
            assert(window(v.arr, v.rhead, v.rtail) == window(v.arr, v.rhead + 1, v.rtail).insert(
                idx,
            ));
            assert(window(v.arr, v.rhead + 1, v.rtail).add(v.held.insert(idx)) =~= window(
                v.arr,
                v.rhead,
                v.rtail,
            ).add(v.held));
            assert(final(self)@ == v.pop1());
        }
        Some(SQEIndex(idx))
    }

    /// Gives one slot back: writes the index at `rtail` and advances
    /// `rtail`.  The index must have come from a pop and not been pushed
    /// since.
    pub fn push_sqe(&mut self, index: SQEIndex)
        requires
            old(self).wf(),
            old(self)@.held.count(index.0) > 0,
        ensures
            final(self).wf(),
            final(self)@ == old(self)@.push1(index.0),
    {
        proof {
            let v = self@;
            lemma_window_len(v.arr, v.rhead, v.rtail);
            identity_seq(v.entries).to_multiset_ensures();
            assert(window(v.arr, v.rhead, v.rtail).add(v.held).len() == window(
                v.arr,
                v.rhead,
                v.rtail,
            ).len() + v.held.len());
            assert(v.held.len() > 0) by {
                vstd::multiset::axiom_count_le_len(v.held, index.0);
            }
            assert(v.rtail - v.rhead < v.entries);
            lemma_cursor_slot(self.g@.rtail, self.rtail, self.entries, self.mask, self.g@.k);
        }
        let slot = self.rtail & self.mask;
        self.array[slot as usize] = index.0;
        proof {
            lemma_wrapping_add_word(self.rtail, self.g@.rtail, 1);
        }
        self.rtail = self.rtail.wrapping_add(1);
        let ghost gold = self.g@;
        self.g = Ghost(
            SqGhost { rtail: gold.rtail + 1, held: gold.held.remove(index.0), ..gold },
        );
        proof {
            let v = old(self)@;
            let n = v.entries;
            let j = v.rtail % n;
            let arr2 = v.arr.update(j as int, index.0);
            assert forall|p: nat| v.rhead <= p < v.rtail implies #[trigger] (p % arr2.len()) != j by {
                if p % n == v.rtail % n {
                    lemma_same_slot_far(p, v.rtail, n);
                }
            }
            lemma_window_update_outside(v.arr, v.rhead, v.rtail, j, index.0);
            lemma_window_extend_high(arr2, v.rhead, v.rtail);
            assert(window(arr2, v.rhead, v.rtail + 1) == window(v.arr, v.rhead, v.rtail).insert(
                index.0,
            ));
            assert(window(arr2, v.rhead, v.rtail + 1).add(v.held.remove(index.0)) =~= window(
                v.arr,
                v.rhead,
                v.rtail,
            ).add(v.held));
            assert(final(self)@ == v.push1(index.0));
        }
    }

    /// Builds the submission side at setup: the kernel-shared head and tail
    /// both read `head`, the indirection table is seeded with the identity
    /// permutation, every entry is a no-op, and the private cursors make all
    /// slots free.
    pub fn new(entries: u32, head: u32) -> (r: Self)
        requires
            exists|k: nat| k < 32 && entries == pow2(k),
        ensures
            r.wf(),
            r@.entries == entries,
            r@.k < 32,
            r@.available() == entries,
            r@.prepared() == 0,
            r@.to_submit() == 0,
            r@.held == Multiset::<u32>::empty(),
            r@.arr == identity_seq(entries as nat),
            word32(r@.ktail) == head,
            word32(r@.khead) == head,
            forall|i: int|
                0 <= i < entries ==> #[trigger] r@.sqes[i].raw == crate::sys::RawSQE::prep_nop_spec(),
    {
        let ghost k = choose|k: nat| k < 32 && entries == pow2(k);
        proof {
            lemma_entries_pow2_bound(k, entries as nat);
        }
        let mask = entries - 1;
        let mut array: Vec<u32> = Vec::new();
        let mut j: u32 = 0;
        while j < entries
            invariant
                j <= entries,
                array@ == identity_seq(j as nat),
            decreases entries - j,
        {
            array.push(j);
            proof {
                assert(identity_seq((j + 1) as nat) =~= identity_seq(j as nat).push(j));
            }
            j = j + 1;
        }
        let mut sqes: Vec<SQE> = Vec::new();
        let mut i: u32 = 0;
        while i < entries
            invariant
                i <= entries,
                sqes@.len() == i,
                forall|t: int|
                    0 <= t < i ==> #[trigger] sqes@[t].raw == crate::sys::RawSQE::prep_nop_spec(),
            decreases entries - i,
        {
            sqes.push(SQE::nop());
            i = i + 1;
        }
        let ghost m = 0x1_0000_0000nat;
        let ghost gh = head as nat + m;
        let ghost grhead = (gh - entries) as nat;
        let rhead = head.wrapping_sub(entries);
        proof {
            vstd::arithmetic::div_mod::lemma_mod_add_multiples_vanish(head as int, m as int);
            vstd::arithmetic::div_mod::lemma_small_mod(head as nat, m);
            assert(word32(gh) == head);
            if head >= entries {
                vstd::arithmetic::div_mod::lemma_mod_add_multiples_vanish(
                    head as int - entries as int,
                    m as int,
                );
                vstd::arithmetic::div_mod::lemma_small_mod((head - entries) as nat, m);
            } else {
                vstd::arithmetic::div_mod::lemma_small_mod(grhead, m);
            }
            assert(word32(grhead) == rhead);
        }
        let r = SubmissionQueue {
            mask,
            entries,
            khead: head,
            ktail: head,
            rhead,
            rtail: head,
            array,
            sqes,
            g: Ghost(
                SqGhost {
                    k,
                    rhead: grhead,
                    khead: gh,
                    ktail: gh,
                    rtail: gh,
                    held: Multiset::empty(),
                },
            ),
        };
        proof {
            vstd::arithmetic::power2::lemma_pow2_pos(k);
            lemma_window_rotation(r@.arr, grhead);
            assert(window(r@.arr, grhead, gh) == r@.arr.to_multiset());
            assert(window(r@.arr, grhead, gh).add(Multiset::<u32>::empty()) =~= window(
                r@.arr,
                grhead,
                gh,
            ));
        }
        r
    }

    /// Rewrites the entry table slot at `idx` in place.  The index must have
    /// come from a pop and not been pushed back yet.
    pub fn modify_sqe(&mut self, index: SQEIndex, sqe: SQE)
        requires
            old(self).wf(),
            old(self)@.held.count(index.0) > 0,
        ensures
            final(self).wf(),
            final(self)@ == old(self)@.with_sqe(index.0, sqe),
    {
        proof {
            lemma_member_in_range(self@, index.0);
        }
        self.sqes[index.0 as usize] = sqe;
    }

    /// Pops up to `cap` slots, in ring order.
    pub fn pop_batch_sqe(&mut self, cap: usize) -> (r: Vec<SQEIndex>)
        requires
            old(self).wf(),
        ensures
            final(self).wf(),
            r@.len() == if old(self)@.available() < cap {
                old(self)@.available()
            } else {
                cap as nat
            },
            final(self)@ == old(self)@.popn(r@.len()),
            forall|j: int|
                0 <= j < r@.len() ==> #[trigger] r@[j] == SQEIndex(
                    old(self)@.slot_value((old(self)@.rhead + j) as nat),
                ),
    {
        let avail = self.available();
        let len: usize = if (avail as usize) < cap {
            avail as usize
        } else {
            cap
        };
        let mut out: Vec<SQEIndex> = Vec::new();
        let mut i: usize = 0;
        while i < len
            invariant
                i <= len,
                len <= old(self)@.available(),
                self.wf(),
                self@ == old(self)@.popn(i as nat),
                out@.len() == i,
                forall|j: int|
                    0 <= j < i ==> #[trigger] out@[j] == SQEIndex(
                        old(self)@.slot_value((old(self)@.rhead + j) as nat),
                    ),
            decreases len - i,
        {
            proof {
                lemma_popn_frame(old(self)@, i as nat);
            }
            let popped = self.pop_sqe();
            proof {
                assert(popped is Some);
                lemma_popn_snoc(old(self)@, i as nat);
            }
            out.push(popped.unwrap());
            i = i + 1;
        }
        out
    }

    /// Pushes a batch of slot handles, in order.  Every handle must have
    /// come from a pop and not been pushed back since, each its own pop.
    pub fn push_batch_sqe(&mut self, indices: &Vec<SQEIndex>)
        requires
            old(self).wf(),
            index_values(indices@).to_multiset().subset_of(old(self)@.held),
        ensures
            final(self).wf(),
            final(self)@ == old(self)@.pushn(index_values(indices@)),
    {
        let ghost vals = index_values(indices@);
        proof {
            assert(vals.skip(0) =~= vals);
            assert(vals.take(0) =~= Seq::<u32>::empty());
        }
        let mut i: usize = 0;
        while i < indices.len()
            invariant
                i <= indices.len(),
                self.wf(),
                vals == index_values(indices@),
                vals.len() == indices@.len(),
                forall|j: int| 0 <= j < vals.len() ==> #[trigger] vals[j] == indices@[j].0,
                self@ == old(self)@.pushn(vals.take(i as int)),
                vals.skip(i as int).to_multiset().subset_of(self@.held),
            decreases indices.len() - i,
        {
            let ix = indices[i];
            proof {
                let rest = vals.skip(i as int);
                assert(rest[0] == ix.0);
                assert(rest.to_multiset().count(ix.0) > 0) by {
                    rest.to_multiset_ensures();
                    assert(rest.contains(ix.0));
                }
                assert(self@.held.count(ix.0) > 0);
            }
            self.push_sqe(ix);
            proof {
                let rest = vals.skip(i as int);
                let rest2 = vals.skip(i as int + 1);
                assert(rest.remove(0) =~= rest2);
                rest.to_multiset_ensures();
                assert(rest.remove(0).to_multiset() =~= rest.to_multiset().remove(rest[0]));
                assert forall|v: u32| rest2.to_multiset().count(v) <= self@.held.count(v) by {
                    assert(rest.to_multiset().count(v) <= old(self)@.pushn(
                        vals.take(i as int),
                    ).held.count(v));
                }
                assert(vals.take(i as int + 1) =~= vals.take(i as int).push(ix.0));
                lemma_pushn_snoc(old(self)@, vals.take(i as int), ix.0);
            }
            i = i + 1;
        }
        proof {
            assert(vals.take(indices@.len() as int) =~= vals);
        }
    }

    /// The single publication point: the kernel-visible tail catches up
    /// with the private tail.  Returns the publication count `rtail -
    /// khead`, the number the kernel will be asked to submit.
    pub fn publish(&mut self) -> (r: u32)
        requires
            old(self).wf(),
        ensures
            final(self).wf(),
            final(self)@ == old(self)@.publish(),
            r == old(self)@.prepared(),
    {
        proof {
            lemma_entries_bound(self.entries, self.mask, self.g@.k);
            lemma_wrapping_distance(self.g@.khead, self.g@.rtail);
        }
        self.ktail = self.rtail;
        let ghost gold = self.g@;
        self.g = Ghost(SqGhost { ktail: gold.rtail, ..gold });
        self.rtail.wrapping_sub(self.khead)
    }

    /// Records a load of the kernel's consumption cursor.  The kernel only
    /// ever advances the head over published work, so the new word must be
    /// reachable from the old head without passing the published tail.
    pub fn observe_khead(&mut self, khead: u32)
        requires
            old(self).wf(),
            exists|h: nat|
                old(self)@.khead <= h <= old(self)@.ktail && #[trigger] word32(h) == khead,
        ensures
            final(self).wf(),
            old(self)@.khead <= final(self)@.khead <= old(self)@.ktail,
            word32(final(self)@.khead) == khead,
            final(self)@ == old(self)@.with_khead(final(self)@.khead),
    {
        let ghost h = choose|h: nat|
            old(self)@.khead <= h <= old(self)@.ktail && #[trigger] word32(h) == khead;
        self.khead = khead;
        let ghost gold = self.g@;
        self.g = Ghost(SqGhost { khead: h, ..gold });
    }
}

} // verus!
