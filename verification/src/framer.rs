//! Accumulates sample chunks of arbitrary length into windows of a fixed
//! size, carrying a partial window forward across chunk boundaries.
//!
//! The spec functions `windows_of` and `residue_of` describe framing as a
//! function of the whole stream seen so far, so every contract here is
//! independent of how the stream was cut into chunks; the lemmas at the end
//! state that independence explicitly.

use vstd::arithmetic::div_mod::{
    lemma_basic_div, lemma_div_multiples_vanish_fancy, lemma_fundamental_div_mod,
    lemma_mod_division_less_than_divisor,
};
use vstd::arithmetic::mul::lemma_mul_inequality;
use vstd::prelude::*;

verus! {

/// Number of complete windows of length `n` contained in the stream `s`.
pub open spec fn window_count(s: Seq<u32>, n: nat) -> nat
    recommends
        n >= 1,
{
    s.len() / n
}

/// The `i`-th complete window of length `n` of the stream `s`.
pub open spec fn window_at(s: Seq<u32>, n: nat, i: nat) -> Seq<u32>
    recommends
        n >= 1,
        i < window_count(s, n),
{
    s.subrange((i * n) as int, (i * n + n) as int)
}

/// All complete windows of the stream `s`, in stream order.
pub open spec fn windows_of(s: Seq<u32>, n: nat) -> Seq<Seq<u32>>
    recommends
        n >= 1,
{
    Seq::new(window_count(s, n), |i: int| window_at(s, n, i as nat))
}

/// The samples of `s` left over after its complete windows.
pub open spec fn residue_of(s: Seq<u32>, n: nat) -> Seq<u32>
    recommends
        n >= 1,
{
    s.skip((window_count(s, n) * n) as int)
}

/// Accumulator that turns a chunked sample stream into fixed-size windows.
///
/// The view of a `Framer` is the partial window it is carrying: always
/// shorter than the window size.
pub struct Framer {
    size: usize,
    acc: Vec<u32>,
}

impl View for Framer {
    type V = Seq<u32>;

    closed spec fn view(&self) -> Seq<u32> {
        self.acc@
    }
}

impl Framer {
    /// The framer never retains a complete window.
    pub closed spec fn wf(&self) -> bool {
        &&& self.size >= 1
        &&& self.acc@.len() < self.size
    }

    pub closed spec fn spec_size(&self) -> nat {
        self.size as nat
    }

    pub fn new(size: usize) -> (r: Framer)
        requires
            size >= 1,
        ensures
            r.wf(),
            r.spec_size() == size,
            r@ == Seq::<u32>::empty(),
    {
        let r = Framer { size, acc: Vec::new() };
        proof {
            assert(r@ =~= Seq::<u32>::empty());
        }
        r
    }

    /// A well-formed framer has a positive window size and a residue
    /// shorter than it.
    pub proof fn lemma_wf(&self)
        requires
            self.wf(),
        ensures
            self.spec_size() >= 1,
            self@.len() < self.spec_size(),
    {
    }

    /// The configured window size.
    pub fn size(&self) -> (n: usize)
        ensures
            n == self.spec_size(),
    {
        self.size
    }

    /// How many samples of a partial window are accumulated.
    pub fn residue_len(&self) -> (n: usize)
        ensures
            n == self@.len(),
    {
        self.acc.len()
    }

    /// Feed one chunk; every window completed by it is returned, in order.
    ///
    /// A chunk may complete zero, one, or many windows; an empty chunk
    /// completes none and leaves the accumulator untouched.
    pub fn push_chunk(&mut self, chunk: &Vec<u32>) -> (wins: Vec<Vec<u32>>)
        requires
            old(self).wf(),
        ensures
            final(self).wf(),
            final(self).spec_size() == old(self).spec_size(),
            wins@.map_values(|w: Vec<u32>| w@) == windows_of(
                old(self)@ + chunk@,
                old(self).spec_size(),
            ),
            final(self)@ == residue_of(old(self)@ + chunk@, old(self).spec_size()),
    {
        let ghost n: nat = self.spec_size();
        let ghost init: Seq<u32> = self.acc@;
        let mut wins: Vec<Vec<u32>> = Vec::new();
        let mut i: usize = 0;
        proof {
            lemma_windows_short(init, n);
            assert(init + chunk@.take(0) =~= init);
            assert(wins@.map_values(|w: Vec<u32>| w@) =~= windows_of(init + chunk@.take(0), n));
        }
        while i < chunk.len()
            invariant
                self.wf(),
                self.spec_size() == n,
                i <= chunk.len(),
                wins@.map_values(|w: Vec<u32>| w@) == windows_of(init + chunk@.take(i as int), n),
                self.acc@ == residue_of(init + chunk@.take(i as int), n),
            decreases chunk.len() - i,
        {
            let ghost pre = init + chunk@.take(i as int);
            let ghost acc_start = self.acc@;
            let need = self.size - self.acc.len();
            let have = chunk.len() - i;
            let take = if need < have { need } else { have };
            let ghost delta = chunk@.subrange(i as int, (i + take) as int);
            let mut j: usize = 0;
            proof {
                assert(self.acc@ =~= acc_start + chunk@.subrange(i as int, i as int));
            }
            while j < take
                invariant
                    i + take <= chunk.len(),
                    j <= take,
                    take + acc_start.len() <= self.size,
                    self.acc@ == acc_start + chunk@.subrange(i as int, (i + j) as int),
                    self.spec_size() == n,
                decreases take - j,
            {
                self.acc.push(chunk[i + j]);
                j += 1;
                proof {
                    assert(self.acc@ =~= acc_start + chunk@.subrange(i as int, (i + j) as int));
                }
            }
            let ghost mid = pre + delta;
            proof {
                assert(self.acc@ == acc_start + delta);
                assert(mid =~= init + chunk@.take((i + take) as int));
                if acc_start.len() + delta.len() < n {
                    lemma_windows_grow_partial(pre, delta, n);
                } else {
                    lemma_windows_grow_complete(pre, delta, n);
                }
            }
            i += take;
            if self.acc.len() == self.size {
                let mut w: Vec<u32> = Vec::new();
                core::mem::swap(&mut w, &mut self.acc);
                wins.push(w);
                proof {
                    assert(wins@.map_values(|w: Vec<u32>| w@) =~= windows_of(mid, n));
                    assert(self.acc@ =~= residue_of(mid, n));
                }
            } else {
                proof {
                    assert(wins@.map_values(|w: Vec<u32>| w@) =~= windows_of(mid, n));
                }
            }
        }
        proof {
            assert(init + chunk@.take(chunk@.len() as int) =~= init + chunk@);
        }
        wins
    }
}

/// Every complete window has exactly the window length.
pub proof fn lemma_windows_len(s: Seq<u32>, n: nat)
    requires
        n >= 1,
    ensures
        forall|i: int|
            0 <= i < windows_of(s, n).len() ==> (#[trigger] windows_of(s, n)[i]).len() == n,
{
    let k = window_count(s, n) as int;
    lemma_residue_len(s, n);
    assert forall|i: int| 0 <= i < windows_of(s, n).len() implies (#[trigger] windows_of(s, n)[i]).len()
        == n by {
        assert(i * n + n <= k * n) by {
            lemma_mul_inequality(i + 1, k, n as int);
            assert((i + 1) * n == i * n + n) by (nonlinear_arith);
        }
        assert(i * n >= 0) by (nonlinear_arith)
            requires
                i >= 0,
                n >= 1,
        ;
    }
}

/// The residue is exactly the stream's length-rounding remainder.
pub proof fn lemma_residue_len(s: Seq<u32>, n: nat)
    requires
        n >= 1,
    ensures
        window_count(s, n) * n <= s.len(),
        residue_of(s, n).len() == s.len() % n,
        residue_of(s, n).len() < n,
{
    lemma_fundamental_div_mod(s.len() as int, n as int);
    lemma_mod_division_less_than_divisor(s.len() as int, n as int);
    assert(window_count(s, n) * n == n * (s.len() as int / n as int)) by (nonlinear_arith);
}

/// A stream shorter than the window size has no windows and is all residue.
pub proof fn lemma_windows_short(s: Seq<u32>, n: nat)
    requires
        n >= 1,
        s.len() < n,
    ensures
        windows_of(s, n) =~= Seq::<Seq<u32>>::empty(),
        residue_of(s, n) =~= s,
{
    lemma_basic_div(s.len() as int, n as int);
}

/// Appending too few samples to complete a window adds no window and only
/// extends the residue.
pub proof fn lemma_windows_grow_partial(s: Seq<u32>, d: Seq<u32>, n: nat)
    requires
        n >= 1,
        residue_of(s, n).len() + d.len() < n,
    ensures
        windows_of(s + d, n) =~= windows_of(s, n),
        residue_of(s + d, n) =~= residue_of(s, n) + d,
{
    let k = window_count(s, n) as int;
    let r = residue_of(s, n).len() as int;
    lemma_residue_len(s, n);
    assert((s + d).len() == n * k + (r + d.len())) by {
        lemma_fundamental_div_mod(s.len() as int, n as int);
    }
    assert(window_count(s + d, n) == k) by {
        lemma_div_multiples_vanish_fancy(k, r + d.len() as int, n as int);
    }
    assert forall|i: int| 0 <= i < k implies #[trigger] window_at(s + d, n, i as nat)
        == window_at(s, n, i as nat) by {
        assert(i * n + n <= k * n) by {
            lemma_mul_inequality(i + 1, k, n as int);
            assert((i + 1) * n == i * n + n) by (nonlinear_arith);
        }
        assert(window_at(s + d, n, i as nat) =~= window_at(s, n, i as nat));
    }
    assert(windows_of(s + d, n) =~= windows_of(s, n));
    assert(residue_of(s + d, n) =~= residue_of(s, n) + d);
}

/// Appending exactly enough samples completes one more window and clears
/// the residue.
pub proof fn lemma_windows_grow_complete(s: Seq<u32>, d: Seq<u32>, n: nat)
    requires
        n >= 1,
        residue_of(s, n).len() + d.len() == n,
    ensures
        windows_of(s + d, n) =~= windows_of(s, n).push(residue_of(s, n) + d),
        residue_of(s + d, n) =~= Seq::<u32>::empty(),
{
    let k = window_count(s, n) as int;
    let r = residue_of(s, n).len() as int;
    lemma_residue_len(s, n);
    assert((s + d).len() == n * (k + 1)) by {
        lemma_fundamental_div_mod(s.len() as int, n as int);
        assert(n * (k + 1) == n * k + n) by (nonlinear_arith);
    }
    assert(window_count(s + d, n) == k + 1) by {
        lemma_div_multiples_vanish_fancy(k + 1, 0, n as int);
    }
    assert forall|i: int| 0 <= i < k implies #[trigger] window_at(s + d, n, i as nat)
        == window_at(s, n, i as nat) by {
        assert(i * n + n <= k * n) by {
            lemma_mul_inequality(i + 1, k, n as int);
            assert((i + 1) * n == i * n + n) by (nonlinear_arith);
        }
        assert(window_at(s + d, n, i as nat) =~= window_at(s, n, i as nat));
    }
    assert(window_at(s + d, n, k as nat) =~= residue_of(s, n) + d) by {
        assert(k * n + n == (s + d).len()) by (nonlinear_arith)
            requires
                (s + d).len() == n * (k + 1),
        ;
    }
    assert(windows_of(s + d, n) =~= windows_of(s, n).push(residue_of(s, n) + d));
    assert(residue_of(s + d, n) =~= Seq::<u32>::empty()) by {
        assert((k + 1) * n == (s + d).len()) by (nonlinear_arith)
            requires
                (s + d).len() == n * (k + 1),
        ;
    }
}

/// Framing distributes over concatenation: the windows of `s + t` are the
/// windows of `s` followed by the windows of `s`'s residue extended by `t`.
pub proof fn lemma_framing_split(s: Seq<u32>, t: Seq<u32>, n: nat)
    requires
        n >= 1,
    ensures
        windows_of(s + t, n) =~= windows_of(s, n) + windows_of(residue_of(s, n) + t, n),
        residue_of(s + t, n) =~= residue_of(residue_of(s, n) + t, n),
    decreases t.len(),
{
    let r = residue_of(s, n);
    if r.len() + t.len() < n {
        lemma_residue_len(s, n);
        lemma_windows_grow_partial(s, t, n);
        lemma_windows_short(r + t, n);
        assert(windows_of(s + t, n) =~= windows_of(s, n) + windows_of(r + t, n));
    } else {
        // Split off the prefix of `t` that completes the next window.
        lemma_residue_len(s, n);
        let c = (n - r.len()) as int;
        let t1 = t.take(c);
        let t2 = t.skip(c);
        lemma_windows_grow_complete(s, t1, n);
        lemma_windows_short(r, n);
        lemma_windows_grow_complete(r, t1, n);
        assert(s + t =~= (s + t1) + t2);
        assert(r + t =~= (r + t1) + t2);
        lemma_framing_split(s + t1, t2, n);
        lemma_framing_split(r + t1, t2, n);
        assert(residue_of(s + t1, n) =~= residue_of(r + t1, n));
        assert(windows_of(s + t, n) =~= windows_of(s, n) + windows_of(r + t, n)) by {
            assert(windows_of((s + t1) + t2, n) =~= windows_of(s + t1, n) + windows_of(
                residue_of(s + t1, n) + t2,
                n,
            ));
            assert(windows_of((r + t1) + t2, n) =~= windows_of(r + t1, n) + windows_of(
                residue_of(r + t1, n) + t2,
                n,
            ));
            assert(windows_of(s + t1, n) =~= windows_of(s, n).push(r + t1));
            assert(windows_of(r + t1, n) =~= windows_of(r, n).push(r + t1));
            assert(windows_of(r, n) =~= Seq::<Seq<u32>>::empty()) by {
                lemma_windows_short(r, n);
            }
        }
        assert(residue_of(s + t, n) =~= residue_of(r + t, n));
    }
}

/// The windows a fresh framer emits while fed `chunks` one at a time,
/// starting from the partial window `acc`.
pub open spec fn emitted_from(acc: Seq<u32>, chunks: Seq<Seq<u32>>, n: nat) -> Seq<Seq<u32>>
    decreases chunks.len(),
{
    if chunks.len() == 0 {
        Seq::empty()
    } else {
        windows_of(acc + chunks[0], n) + emitted_from(
            residue_of(acc + chunks[0], n),
            chunks.drop_first(),
            n,
        )
    }
}

/// The partial window left after feeding `chunks` one at a time.
pub open spec fn residue_from(acc: Seq<u32>, chunks: Seq<Seq<u32>>, n: nat) -> Seq<u32>
    decreases chunks.len(),
{
    if chunks.len() == 0 {
        acc
    } else {
        residue_from(residue_of(acc + chunks[0], n), chunks.drop_first(), n)
    }
}

/// Framing completeness: a stream of `k * n + r` samples (`r < n`) has
/// exactly `k` complete windows and leaves exactly `r` residual samples.
pub proof fn lemma_framing_completeness(s: Seq<u32>, n: nat)
    requires
        n >= 1,
    ensures
        windows_of(s, n).len() == s.len() / n,
        residue_of(s, n).len() == s.len() % n,
        n * windows_of(s, n).len() + residue_of(s, n).len() == s.len(),
{
    lemma_residue_len(s, n);
    lemma_fundamental_div_mod(s.len() as int, n as int);
}

/// Framing is chunk-boundary independent: feeding a stream chunk by chunk
/// emits exactly the windows of the concatenated stream, and leaves exactly
/// its residue, no matter where the chunk boundaries fall.
pub proof fn lemma_framing_deterministic(acc: Seq<u32>, chunks: Seq<Seq<u32>>, n: nat)
    requires
        n >= 1,
        acc.len() < n,
    ensures
        emitted_from(acc, chunks, n) =~= windows_of(acc + chunks.flatten(), n),
        residue_from(acc, chunks, n) =~= residue_of(acc + chunks.flatten(), n),
    decreases chunks.len(),
{
    if chunks.len() == 0 {
        assert(acc + chunks.flatten() =~= acc);
        lemma_windows_short(acc, n);
    } else {
        let first = chunks[0];
        let rest = chunks.drop_first();
        let acc2 = residue_of(acc + first, n);
        lemma_residue_len(acc + first, n);
        lemma_framing_deterministic(acc2, rest, n);
        assert(acc + chunks.flatten() =~= (acc + first) + rest.flatten());
        lemma_framing_split(acc + first, rest.flatten(), n);
    }
}

} // verus!
