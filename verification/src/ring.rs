//! The ring itself: setup and the operations that cross into the kernel.
//! Setup validates the entry count, rounds it to the kernel's power-of-two
//! geometry, and hands back a ring whose submission side is seeded with the
//! identity permutation and whose completion side is empty.  The `enter`
//! transition is the single place the kernel acts: it consumes published
//! submissions, posts completions, and on a get-events call drains the
//! overflow queue.
//!
//! On a live ring the kernel runs concurrently and `enter` is a system call;
//! here the kernel's documented behaviour is the verified transition, and
//! the mapping-size and submit-decision computations that a live setup needs
//! are exported as verified functions.

use vstd::prelude::*;

verus! {

use vstd::arithmetic::power2::pow2;

use crate::cq::CompletionQueue;
use crate::cq::CqView;
use crate::cq::needs_flush_word;
use crate::cqe::CQE;
use crate::cursor::lemma_cursor_slot;
use crate::cursor::lemma_word32_injective;
use crate::cursor::lemma_wrapping_add_word;
use crate::cursor::word32;
use crate::kernel::Kernel;
use crate::kernel::completion_of;
use crate::kernel::completions_of;
use crate::kernel::deliver_seq;
use crate::kernel::drain;
use crate::kernel::lemma_deliver_seq_props;
use crate::kernel::lemma_deliver_seq_snoc;
use crate::kernel::lemma_drain_idempotent;
use crate::kernel::lemma_drain_props;
use crate::reg::RegView;
use crate::reg::Registrar;
use crate::sq::SqView;
use crate::sq::SubmissionQueue;
use crate::sys::ENTER_GETEVENTS;
use crate::sys::ENTER_SQ_WAKEUP;
use crate::sys::EnterFlags;
use crate::sys::RawRingParams;
use crate::sys::SETUP_SQPOLL;
use crate::sys::SQ_CQ_OVERFLOW;
use crate::sys::SQ_NEED_WAKEUP;
use crate::sys::SetupFlags;
use crate::sys::FeatureFlags;
use crate::sys::FEATURE_SINGLE_MMAP;
use crate::utils::EINVAL;
use crate::utils::Errno;

/// The largest entry count the kernel accepts at setup.
pub const MAX_ENTRIES: u32 = 32768;

/// Bytes per entry of the indirection table.
pub const U32_SIZE: u64 = 4;

/// Bytes per completion record.
pub const CQE_SIZE: u64 = 16;

/// Bytes per submission record.
pub const SQE_SIZE: u64 = 64;

/// The ring sizes a live setup must map, computed from the offsets and
/// counts the kernel reports: the submission ring ends with the indirection
/// table, the completion ring with the completion records, and under the
/// single-mapping feature both rings share one mapping of the larger size.
/// The third size is the submission-entry table's.
pub fn mmap_sizes(params: &RawRingParams) -> (r: (u64, u64, u64))
    ensures
        ({
            let sq_sz = params.sq_off.array + params.sq_entries * U32_SIZE;
            let cq_sz = params.cq_off.cqes + params.cq_entries * CQE_SIZE;
            let single = params.features & FEATURE_SINGLE_MMAP == FEATURE_SINGLE_MMAP;
            let max_sz = if sq_sz >= cq_sz {
                sq_sz
            } else {
                cq_sz
            };
            &&& r.0 == (if single {
                max_sz
            } else {
                sq_sz
            })
            &&& r.1 == (if single {
                max_sz
            } else {
                cq_sz
            })
            &&& r.2 == params.sq_entries * SQE_SIZE
        }),
{
    let sq_sz = params.sq_off.array as u64 + params.sq_entries as u64 * U32_SIZE;
    let cq_sz = params.cq_off.cqes as u64 + params.cq_entries as u64 * CQE_SIZE;
    let sqes_sz = params.sq_entries as u64 * SQE_SIZE;
    let single = params.features & FEATURE_SINGLE_MMAP == FEATURE_SINGLE_MMAP;
    if single {
        let max_sz = if sq_sz >= cq_sz {
            sq_sz
        } else {
            cq_sz
        };
        (max_sz, max_sz, sqes_sz)
    } else {
        (sq_sz, cq_sz, sqes_sz)
    }
}

/// Whether a submit must enter the kernel, and with which flags: without a
/// polling thread every submit enters; with one, only when the kernel asked
/// to be woken, or when the caller wants to wait.
pub fn submit_decision(setup_flags: &SetupFlags, sq_kflags: u32, n_wait: u32) -> (r: (
    bool,
    EnterFlags,
))
    ensures
        setup_flags.bits & SETUP_SQPOLL != SETUP_SQPOLL ==> r.0 && r.1.bits == 0,
        setup_flags.bits & SETUP_SQPOLL == SETUP_SQPOLL && sq_kflags & SQ_NEED_WAKEUP != 0 ==> r.0
            && r.1.bits == ENTER_SQ_WAKEUP,
        setup_flags.bits & SETUP_SQPOLL == SETUP_SQPOLL && sq_kflags & SQ_NEED_WAKEUP == 0 ==> r.0
            == (n_wait > 0) && r.1.bits == 0,
{
    if setup_flags.bits() & SETUP_SQPOLL == SETUP_SQPOLL {
        if sq_kflags & SQ_NEED_WAKEUP != 0 {
            (true, EnterFlags { bits: ENTER_SQ_WAKEUP })
        } else {
            (n_wait > 0, EnterFlags { bits: 0 })
        }
    } else {
        (true, EnterFlags { bits: 0 })
    }
}

/// The kernel-shared submission flags word for a given overflow backlog.
pub open spec fn flags_for(ovf_len: nat) -> u32 {
    if ovf_len > 0 {
        SQ_CQ_OVERFLOW
    } else {
        0
    }
}

/// The ghost image of a whole ring: both queue views, the kernel's overflow
/// backlog, the shared flags word, and the registrar.
pub struct RingView {
    pub sq: SqView,
    pub cq: CqView,
    pub overflow: Seq<CQE>,
    pub sq_kflags: u32,
    pub reg: RegView,
}

impl RingView {
    /// The flush transition: when completions have overflowed, a get-events
    /// call drains them into the ring as far as it has room; otherwise
    /// nothing happens.
    pub open spec fn flush_spec(self) -> RingView {
        if self.overflow.len() == 0 {
            self
        } else {
            RingView {
                cq: drain(self.cq, self.overflow).0,
                overflow: drain(self.cq, self.overflow).1,
                sq_kflags: flags_for(drain(self.cq, self.overflow).1.len()),
                ..self
            }
        }
    }
}

/// Flushing is idempotent: a second flush with no intervening submissions
/// leaves the state unchanged.
pub proof fn lemma_flush_idempotent(rv: RingView)
    requires
        rv.cq.wf(),
        rv.sq_kflags == flags_for(rv.overflow.len()),
    ensures
        rv.flush_spec().flush_spec() == rv.flush_spec(),
{
    if rv.overflow.len() > 0 {
        lemma_drain_props(rv.cq, rv.overflow);
        lemma_drain_idempotent(rv.cq, rv.overflow);
        let once = rv.flush_spec();
        if once.overflow.len() > 0 {
            assert(drain(once.cq, once.overflow) == (once.cq, once.overflow));
        }
    }
}

/// A builder holding the requested entry count and the parameter block the
/// setup call fills.
pub struct RingBuilder {
    pub entries: u32,
    pub params: RawRingParams,
}

impl RingBuilder {
    /// Performs setup: rejects an entry count of zero or beyond the kernel's
    /// limit and any setup flag (the model supports the default
    /// interrupt-driven mode only; a polling mode would need a kernel
    /// thread), rounds the count up to the next power of two, gives the
    /// completion ring twice that size, seeds the indirection table with the
    /// identity permutation, and hands back a ring with every submission
    /// slot free and nothing ready.
    pub fn setup(self) -> (r: Result<Ring, Errno>)
        ensures
            (0 < self.entries <= MAX_ENTRIES && self.params.flags == 0) <==> r is Ok,
            !(0 < self.entries <= MAX_ENTRIES && self.params.flags == 0) ==> r == Err::<
                Ring,
                Errno,
            >(Errno(EINVAL)),
            r matches Ok(ring) ==> {
                &&& ring.wf()
                &&& self.entries <= ring@.sq.entries < 2 * self.entries
                &&& ring@.cq.entries == 2 * ring@.sq.entries
                &&& ring@.sq.available() == ring@.sq.entries
                &&& ring@.sq.prepared() == 0
                &&& ring@.sq.held.len() == 0
                &&& ring@.sq.arr == crate::sq::identity_seq(ring@.sq.entries)
                &&& ring@.cq.ready() == 0
                &&& ring@.overflow.len() == 0
                &&& ring@.reg.files is None
                &&& ring@.reg.buffers is None
            },
    {
        if self.entries == 0 || self.entries > MAX_ENTRIES || self.params.flags != 0 {
            return Err(Errno(EINVAL));
        }
        proof {
            vstd::arithmetic::power2::lemma2_to64();
        }
        let mut e: u32 = 1;
        let mut k: u32 = 0;
        while e < self.entries
            invariant
                0 < self.entries <= MAX_ENTRIES,
                e == pow2(k as nat),
                k <= 15,
                e <= MAX_ENTRIES,
                k == 0 || pow2((k - 1) as nat) < self.entries,
            decreases 16 - k,
        {
            proof {
                vstd::arithmetic::power2::lemma2_to64();
                if k == 15 {
                    // then e would already be the full limit, contradicting
                    // e < entries <= MAX_ENTRIES
                    assert(e == 32768);
                    assert(false);
                }
                assert(pow2((k + 1) as nat) == 2 * pow2(k as nat)) by {
                    vstd::arithmetic::power2::lemma_pow2_unfold((k + 1) as nat);
                }
                if k + 1 < 15 {
                    vstd::arithmetic::power2::lemma_pow2_strictly_increases((k + 1) as nat, 15nat);
                }
            }
            e = e * 2;
            k = k + 1;
        }
        let ghost sq_k = k as nat;
        let cq_entries = 2 * e;
        proof {
            assert(cq_entries == pow2((k + 1) as nat)) by {
                vstd::arithmetic::power2::lemma_pow2_unfold((k + 1) as nat);
            }
        }
        let sq = SubmissionQueue::new(e, 0);
        let cq = CompletionQueue::new(cq_entries, 0);
        proof {
            sq.lemma_wf_view();
            cq.lemma_wf_view();
            crate::cursor::lemma_pow2_injective(sq@.k, sq_k);
            crate::cursor::lemma_pow2_injective(cq@.k, (sq_k + 1) as nat);
        }
        let ring = Ring {
            ring_fd: 3,
            setup_flags: SetupFlags::empty(),
            features: FeatureFlags::empty(),
            sq,
            cq,
            reg: Registrar::new(),
            kern: Kernel { kflags: 0, dropped: 0, overflow: Vec::new() },
        };
        Ok(ring)
    }
}

/// The ring: the two queues, the registrar, and the kernel's side of the
/// shared state.
pub struct Ring {
    ring_fd: i32,
    setup_flags: SetupFlags,
    features: FeatureFlags,
    /// The submission half.
    pub sq: SubmissionQueue,
    /// The completion half.
    pub cq: CompletionQueue,
    pub(crate) reg: Registrar,
    pub(crate) kern: Kernel,
}

impl View for Ring {
    type V = RingView;

    closed spec fn view(&self) -> RingView {
        RingView {
            sq: self.sq@,
            cq: self.cq@,
            overflow: self.kern.overflow@,
            sq_kflags: self.kern.kflags,
            reg: self.reg@,
        }
    }
}

impl Ring {
    /// Well-formedness: both queues are well formed, the shared flags word
    /// signals overflow exactly when the backlog is non-empty, the ring is
    /// within the kernel's size limits, and no polling mode is active.
    pub closed spec fn wf(&self) -> bool {
        &&& self.sq.wf()
        &&& self.cq.wf()
        &&& self.sq@.k <= 15
        &&& self.cq@.k <= 16
        &&& self.kern.kflags == flags_for(self.kern.overflow@.len())
        &&& self.setup_flags.bits == 0
    }

    /// Starts a setup with the given entry count and a zeroed parameter
    /// block.
    pub fn with_entries(entries: u32) -> (r: RingBuilder)
        ensures
            r.entries == entries,
            r.params.flags == 0,
    {
        RingBuilder { entries, params: RawRingParams::zeroed() }
    }

    /// The descriptor of this ring instance.
    pub fn ring_fd(&self) -> (r: i32)
        ensures
            r == self.spec_ring_fd(),
    {
        self.ring_fd
    }

    pub closed spec fn spec_ring_fd(&self) -> i32 {
        self.ring_fd
    }

    /// Submission-ring size.
    pub fn sq_entries(&self) -> (r: u32)
        requires
            self.wf(),
        ensures
            r == self@.sq.entries,
    {
        self.sq.sq_entries()
    }

    /// Completion-ring size.
    pub fn cq_entries(&self) -> (r: u32)
        requires
            self.wf(),
        ensures
            r == self@.cq.entries,
    {
        self.cq.cq_entries()
    }

    /// The feature bits reported at setup.
    pub fn features(&self) -> (r: FeatureFlags)
        ensures
            r == self.spec_features(),
    {
        self.features
    }

    pub closed spec fn spec_features(&self) -> FeatureFlags {
        self.features
    }

    /// The kernel transition behind the enter call: consumes up to
    /// `to_submit` published entries in ring order, posts one completion per
    /// entry (into the ring while it has room and nothing is queued ahead of
    /// it, else onto the overflow queue), and on a get-events call (the
    /// explicit flag, or a positive wait count) drains the overflow queue
    /// into the ring.  Returns the number of entries consumed.
    pub fn enter(&mut self, to_submit: u32, min_complete: u32, flags: EnterFlags) -> (r: Result<
        i32,
        Errno,
    >)
        requires
            old(self).wf(),
        ensures
            final(self).wf(),
            ({
                let v = old(self)@;
                let n = if (to_submit as nat) <= v.sq.to_submit() {
                    to_submit as nat
                } else {
                    v.sq.to_submit()
                };
                let mid = deliver_seq(v.cq, v.overflow, completions_of(v.sq, n));
                let wait = flags.bits & ENTER_GETEVENTS != 0 || min_complete > 0;
                let fin = if wait {
                    drain(mid.0, mid.1)
                } else {
                    mid
                };
                &&& r == Ok::<i32, Errno>(n as i32)
                &&& final(self)@.sq == v.sq.with_khead((v.sq.khead + n) as nat)
                &&& final(self)@.cq == fin.0
                &&& final(self)@.overflow == fin.1
                &&& final(self)@.sq_kflags == flags_for(fin.1.len())
                &&& final(self)@.reg == v.reg
            }),
    {
        let ghost v0 = old(self)@;
        proof {
            self.sq.lemma_wf_view();
            self.cq.lemma_wf_view();
            vstd::arithmetic::power2::lemma2_to64();
            if v0.sq.k < 15 {
                vstd::arithmetic::power2::lemma_pow2_strictly_increases(v0.sq.k, 15nat);
            }
        }
        let published = self.sq.to_submit();
        let n = if to_submit < published {
            to_submit
        } else {
            published
        };
        let entries_sq = self.sq.sq_entries();
        let mask = self.sq.mask();
        let cq_entries = self.cq.cq_entries();
        let mut cursor = self.sq.khead_word();
        let mut i: u32 = 0;
        while i < n
            invariant
                i <= n,
                v0.sq.wf(),
                v0.cq.wf(),
                n as nat <= v0.sq.to_submit(),
                self.sq.wf(),
                self.cq.wf(),
                self@.sq == v0.sq,
                self@.reg == v0.reg,
                entries_sq == v0.sq.entries,
                mask == v0.sq.entries - 1,
                cq_entries == v0.cq.entries,
                cursor == word32((v0.sq.khead + i) as nat),
                self.setup_flags.bits == 0,
                self@.cq == deliver_seq(v0.cq, v0.overflow, completions_of(v0.sq, i as nat)).0,
                self@.overflow == deliver_seq(
                    v0.cq,
                    v0.overflow,
                    completions_of(v0.sq, i as nat),
                ).1,
                self@.sq_kflags == flags_for(self@.overflow.len()),
            decreases n - i,
        {
            let ghost c = (v0.sq.khead + i) as nat;
            proof {
                lemma_cursor_slot(c, cursor, entries_sq, mask, v0.sq.k);
                SubmissionQueue::lemma_published_index_in_range(v0.sq, c);
            }
            let slot = cursor & mask;
            let idx = self.sq.array_at(slot);
            let ud = self.sq.sqe_at(idx).raw.user_data;
            let cqe = CQE::new(ud, 0, 0);
            proof {
                assert(idx == v0.sq.slot_value(c));
                assert(cqe == completion_of(v0.sq, c));
                lemma_deliver_seq_props(v0.cq, v0.overflow, completions_of(v0.sq, i as nat));
            }
            let overflow_len = self.kern.overflow.len();
            let ready = self.cq.ready();
            if overflow_len == 0 && ready < cq_entries {
                self.cq.kernel_fill(cqe);
            } else {
                self.kern.overflow.push(cqe);
                self.kern.kflags = SQ_CQ_OVERFLOW;
            }
            proof {
                assert(completions_of(v0.sq, (i + 1) as nat) =~= completions_of(
                    v0.sq,
                    i as nat,
                ).push(cqe));
                lemma_deliver_seq_snoc(v0.cq, v0.overflow, completions_of(v0.sq, i as nat), cqe);
                lemma_wrapping_add_word(cursor, c, 1);
            }
            cursor = cursor.wrapping_add(1);
            i = i + 1;
        }
        let ghost nn = n as nat;
        proof {
            assert(v0.sq.khead + nn <= v0.sq.ktail);
            crate::cursor::lemma_entries_bound(entries_sq, mask, v0.sq.k);
            assert(word32((v0.sq.khead + nn) as nat) == cursor);
        }
        self.sq.observe_khead(cursor);
        proof {
            let h = self@.sq.khead;
            if h <= v0.sq.khead + nn {
                lemma_word32_injective(h, (v0.sq.khead + nn) as nat);
            } else {
                lemma_word32_injective((v0.sq.khead + nn) as nat, h);
            }
            assert(self@.sq == v0.sq.with_khead((v0.sq.khead + nn) as nat));
            lemma_deliver_seq_props(v0.cq, v0.overflow, completions_of(v0.sq, nn));
        }
        let getevents = flags.bits() & ENTER_GETEVENTS != 0;
        if getevents || min_complete > 0 {
            let ghost mid_cq = self@.cq;
            let ghost mid_ovf = self@.overflow;
            let ghost sq_now = self@.sq;
            while self.kern.overflow.len() > 0 && self.cq.ready() < cq_entries
                invariant
                    self.sq.wf(),
                    self.cq.wf(),
                    self@.sq == sq_now,
                    self@.reg == v0.reg,
                    mid_cq.wf(),
                    self.setup_flags.bits == 0,
                    cq_entries == self@.cq.entries,
                    drain(self@.cq, self@.overflow) == drain(mid_cq, mid_ovf),
                decreases self.kern.overflow@.len(),
            {
                let ghost cq_i = self@.cq;
                let ghost ovf_i = self@.overflow;
                let e = self.kern.overflow.remove(0);
                self.cq.kernel_fill(e);
                proof {
                    assert(ovf_i.remove(0) =~= ovf_i.drop_first());
                    assert(drain(cq_i, ovf_i) == drain(cq_i.fill1(e), ovf_i.drop_first()));
                }
            }
            proof {
                assert(drain(self@.cq, self@.overflow) == (self@.cq, self@.overflow));
                lemma_drain_props(mid_cq, mid_ovf);
            }
            if self.kern.overflow.len() == 0 {
                self.kern.kflags = 0;
            } else {
                self.kern.kflags = SQ_CQ_OVERFLOW;
            }
        }
        Ok(n as i32)
    }

    /// Publishes every prepared entry and enters the kernel, waiting until
    /// at least `n_wait` completions are ready.  Returns the number of
    /// entries submitted.  The wait must be satisfiable: no more than the
    /// completion ring holds, and no more than what is or will become ready.
    pub fn submit_and_wait(&mut self, n_wait: u32) -> (r: Result<u32, Errno>)
        requires
            old(self).wf(),
            n_wait as nat <= old(self)@.cq.ready() + old(self)@.overflow.len() + old(
                self,
            )@.sq.prepared(),
            n_wait as nat <= old(self)@.cq.entries,
        ensures
            final(self).wf(),
            r == Ok::<u32, Errno>((old(self)@.sq.prepared() as u32) as u32),
            final(self)@.cq.ready() >= n_wait,
            final(self)@.sq == (SqView {
                khead: old(self)@.sq.rtail,
                ktail: old(self)@.sq.rtail,
                ..old(self)@.sq
            }),
            final(self)@.sq.available() == old(self)@.sq.available() + old(self)@.sq.prepared(),
            final(self)@.sq.prepared() == 0,
            final(self)@.reg == old(self)@.reg,
            ({
                let v = old(self)@;
                let pub_sq = v.sq.publish();
                let mid = deliver_seq(v.cq, v.overflow, completions_of(pub_sq, v.sq.prepared()));
                let fin = if n_wait > 0 {
                    drain(mid.0, mid.1)
                } else {
                    mid
                };
                &&& final(self)@.cq == fin.0
                &&& final(self)@.overflow == fin.1
            }),
    {
        let ghost v0 = old(self)@;
        proof {
            self.sq.lemma_wf_view();
            self.cq.lemma_wf_view();
        }
        let to_submit = self.sq.publish();
        proof {
            assert(0u32 & SETUP_SQPOLL != SETUP_SQPOLL) by (bit_vector);
        }
        let decision = submit_decision(&self.setup_flags, self.kern.kflags, n_wait);
        let ghost pub_sq = v0.sq.publish();
        proof {
            assert(completions_of(pub_sq, v0.sq.prepared() as nat) =~= completions_of(
                v0.sq.publish(),
                v0.sq.prepared() as nat,
            ));
            lemma_deliver_seq_props(
                v0.cq,
                v0.overflow,
                completions_of(pub_sq, v0.sq.prepared() as nat),
            );
        }
        if n_wait > 0 || decision.0 {
            proof {
                assert(0u32 & ENTER_GETEVENTS == 0) by (bit_vector);
            }
            let ret = self.enter(to_submit, n_wait, decision.1);
            proof {
                let mid = deliver_seq(
                    v0.cq,
                    v0.overflow,
                    completions_of(pub_sq, v0.sq.prepared() as nat),
                );
                if n_wait > 0 {
                    lemma_drain_props(mid.0, mid.1);
                }
            }
            match ret {
                Ok(_) => Ok(to_submit),
                Err(e) => Err(e),
            }
        } else {
            Ok(to_submit)
        }
    }

    /// Publishes every prepared entry without waiting.
    pub fn submit(&mut self) -> (r: Result<u32, Errno>)
        requires
            old(self).wf(),
        ensures
            final(self).wf(),
            r == Ok::<u32, Errno>((old(self)@.sq.prepared() as u32) as u32),
            final(self)@.sq == (SqView {
                khead: old(self)@.sq.rtail,
                ktail: old(self)@.sq.rtail,
                ..old(self)@.sq
            }),
            final(self)@.reg == old(self)@.reg,
            ({
                let v = old(self)@;
                let pub_sq = v.sq.publish();
                let mid = deliver_seq(v.cq, v.overflow, completions_of(pub_sq, v.sq.prepared()));
                &&& final(self)@.cq == mid.0
                &&& final(self)@.overflow == mid.1
            }),
    {
        self.submit_and_wait(0)
    }

    /// Whether completions have overflowed the ring and wait to be drained,
    /// read from the kernel-shared submission flags word.
    pub fn needs_flush(&self) -> (r: bool)
        requires
            self.wf(),
        ensures
            r == (self@.overflow.len() > 0),
    {
        proof {
            assert(SQ_CQ_OVERFLOW & SQ_CQ_OVERFLOW != 0) by (bit_vector);
            assert(0u32 & SQ_CQ_OVERFLOW == 0) by (bit_vector);
        }
        needs_flush_word(self.kern.kflags)
    }

    /// Drains overflown completions into the ring, when there are any: a
    /// get-events call with nothing to submit and nothing to wait for.
    pub fn flush(&mut self) -> (r: Result<(), Errno>)
        requires
            old(self).wf(),
        ensures
            final(self).wf(),
            r == Ok::<(), Errno>(()),
            final(self)@ == old(self)@.flush_spec(),
    {
        let ghost v0 = old(self)@;
        proof {
            self.cq.lemma_wf_view();
        }
        if self.needs_flush() {
            proof {
                assert(ENTER_GETEVENTS & ENTER_GETEVENTS != 0) by (bit_vector);
            }
            let flags = EnterFlags { bits: ENTER_GETEVENTS };
            let ret = self.enter(0, 0, flags);
            proof {
                assert(completions_of(v0.sq, 0).len() == 0);
                assert(deliver_seq(v0.cq, v0.overflow, completions_of(v0.sq, 0)) == (
                    v0.cq,
                    v0.overflow,
                ));
                assert(final(self)@.sq == v0.sq.with_khead(v0.sq.khead));
                assert(final(self)@.sq == v0.sq);
            }
        }
        Ok(())
    }

    /// Waits until at least `count` completions are ready and returns the
    /// ready count.  Returns at once when they already are; in particular a
    /// count of zero never blocks and reports the current ready count.  The
    /// wait must be satisfiable: no more than the completion ring holds, and
    /// no more than is ready or overflown.
    pub fn wait_cqes(&mut self, count: u32) -> (r: Result<u32, Errno>)
        requires
            old(self).wf(),
            count as nat <= old(self)@.cq.ready() + old(self)@.overflow.len(),
            count as nat <= old(self)@.cq.entries,
        ensures
            final(self).wf(),
            final(self)@.cq.ready() >= count,
            r == Ok::<u32, Errno>((final(self)@.cq.ready() as u32) as u32),
            old(self)@.cq.ready() >= count ==> final(self)@ == old(self)@,
            old(self)@.cq.ready() < count ==> ({
                let fin = drain(old(self)@.cq, old(self)@.overflow);
                &&& final(self)@.cq == fin.0
                &&& final(self)@.overflow == fin.1
                &&& final(self)@.sq =~= old(self)@.sq
            }),
    {
        let ghost v0 = old(self)@;
        proof {
            self.sq.lemma_wf_view();
            self.cq.lemma_wf_view();
        }
        match self.cq.wait_ready(count) {
            Some(ready) => Ok(ready),
            None => {
                let flags = EnterFlags { bits: ENTER_GETEVENTS };
                let ret = self.enter(0, count, flags);
                proof {
                    assert(completions_of(v0.sq, 0).len() == 0);
                    assert(deliver_seq(v0.cq, v0.overflow, completions_of(v0.sq, 0)) == (
                        v0.cq,
                        v0.overflow,
                    ));
                    lemma_drain_props(v0.cq, v0.overflow);
                    assert(final(self)@.sq == v0.sq.with_khead(v0.sq.khead));
                    assert(final(self)@.sq == v0.sq);
                }
                let ready = self.cq.ready();
                Ok(ready)
            },
        }
    }

    /// Registers a fixed-buffer array with this ring.  The buffers must stay
    /// valid until unregistered or the ring is torn down; that obligation
    /// rests on the caller.
    pub fn register_buffers(&mut self, iovecs: &Vec<crate::reg::RawIoVec>) -> (r: Result<
        (),
        Errno,
    >)
        requires
            old(self).wf(),
        ensures
            final(self).wf(),
            final(self)@ == (RingView { reg: final(self)@.reg, ..old(self)@ }),
            old(self)@.reg.buffers is Some ==> r == Err::<(), Errno>(
                Errno(crate::utils::EBUSY),
            ) && final(self)@.reg == old(self)@.reg,
            old(self)@.reg.buffers is None && !(0 < iovecs@.len()
                <= crate::reg::REGISTER_MAX_BUFFERS) ==> r == Err::<(), Errno>(Errno(EINVAL))
                && final(self)@.reg == old(self)@.reg,
            old(self)@.reg.buffers is None && 0 < iovecs@.len() <= crate::reg::REGISTER_MAX_BUFFERS
                ==> r == Ok::<(), Errno>(()) && final(self)@.reg == (RegView {
                buffers: Some(iovecs@),
                files: old(self)@.reg.files,
            }),
    {
        self.reg.register_buffers(iovecs)
    }

    /// Unregisters the fixed-buffer array.
    pub fn unregister_buffers(&mut self) -> (r: Result<(), Errno>)
        requires
            old(self).wf(),
        ensures
            final(self).wf(),
            final(self)@ == (RingView { reg: final(self)@.reg, ..old(self)@ }),
            old(self)@.reg.buffers is None ==> r == Err::<(), Errno>(Errno(crate::utils::ENXIO))
                && final(self)@.reg == old(self)@.reg,
            old(self)@.reg.buffers is Some ==> r == Ok::<(), Errno>(()) && final(self)@.reg
                == (RegView { buffers: None, files: old(self)@.reg.files }),
    {
        self.reg.unregister_buffers()
    }

    /// Registers a fixed file-descriptor array with this ring.  The
    /// descriptors must stay open until unregistered or the ring is torn
    /// down; that obligation rests on the caller.
    pub fn register_files(&mut self, fds: &Vec<i32>) -> (r: Result<(), Errno>)
        requires
            old(self).wf(),
        ensures
            final(self).wf(),
            final(self)@ == (RingView { reg: final(self)@.reg, ..old(self)@ }),
            old(self)@.reg.files is Some ==> r == Err::<(), Errno>(Errno(crate::utils::EBUSY))
                && final(self)@.reg == old(self)@.reg,
            old(self)@.reg.files is None && !(0 < fds@.len() <= crate::reg::REGISTER_MAX_FILES)
                ==> r == Err::<(), Errno>(Errno(EINVAL)) && final(self)@.reg == old(self)@.reg,
            old(self)@.reg.files is None && 0 < fds@.len() <= crate::reg::REGISTER_MAX_FILES ==> r
                == Ok::<(), Errno>(()) && final(self)@.reg == (RegView {
                files: Some(fds@),
                buffers: old(self)@.reg.buffers,
            }),
    {
        self.reg.register_files(fds)
    }

    /// Unregisters the fixed file-descriptor array.
    pub fn unregister_files(&mut self) -> (r: Result<(), Errno>)
        requires
            old(self).wf(),
        ensures
            final(self).wf(),
            final(self)@ == (RingView { reg: final(self)@.reg, ..old(self)@ }),
            old(self)@.reg.files is None ==> r == Err::<(), Errno>(Errno(crate::utils::ENXIO))
                && final(self)@.reg == old(self)@.reg,
            old(self)@.reg.files is Some ==> r == Ok::<(), Errno>(()) && final(self)@.reg
                == (RegView { files: None, buffers: old(self)@.reg.buffers }),
    {
        self.reg.unregister_files()
    }
}

} // verus!
