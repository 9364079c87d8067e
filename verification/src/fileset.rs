//! Generation of benchmark file paths: a set of `num_files` paths fanned
//! out under a base directory with at most `dir_width` entries per level.
//!
//! Paths are byte strings joined with `/`; the level counters run like an
//! odometer, least-significant component last in the path.

use vstd::prelude::*;
use vstd::arithmetic::power::pow;
use vstd::arithmetic::power::lemma_pow0;

verus! {

/// Decimal digits of `n`, most significant first.
pub open spec fn spec_decimal(n: nat) -> Seq<u8>
    decreases n,
{
    if n < 10 {
        seq![(48 + n) as u8]
    } else {
        spec_decimal(n / 10) + seq![(48 + n % 10) as u8]
    }
}

/// Format `n` in decimal.
pub fn decimal_bytes(n: usize) -> (r: Vec<u8>)
    ensures
        r@ == spec_decimal(n as nat),
    decreases n,
{
    if n < 10 {
        let mut out: Vec<u8> = Vec::new();
        out.push(48 + n as u8);
        proof {
            assert(out@ =~= spec_decimal(n as nat));
        }
        out
    } else {
        let mut out = decimal_bytes(n / 10);
        out.push(48 + (n % 10) as u8);
        proof {
            assert(out@ =~= spec_decimal(n as nat));
        }
        out
    }
}

/// How deep the directory tree must be so that `width` entries per level
/// can fan out to at least `num` leaves: the least `d` with
/// `width^d >= num`.
pub fn tree_depth(num: usize, width: usize) -> (d: usize)
    requires
        width >= 2,
    ensures
        pow(width as int, d as nat) >= num,
        d > 0 ==> pow(width as int, (d - 1) as nat) < num,
{
    let mut d: usize = 0;
    let mut cap: u128 = 1;
    proof {
        lemma_pow0(width as int);
    }
    while cap < num as u128
        invariant
            width >= 2,
            num <= u64::MAX,
            cap == pow(width as int, d as nat),
            d > 0 ==> pow(width as int, (d - 1) as nat) < num,
            cap >= d + 1,
        decreases num as int - d,
    {
        proof {
            reveal(pow);
            assert(pow(width as int, (d + 1) as nat) == (width as int) * pow(
                width as int,
                d as nat,
            ));
            assert(cap * (width as u128) < (num as u128) * (width as u128)) by (nonlinear_arith)
                requires
                    cap < num as u128,
                    width >= 2,
            ;
            assert((num as u128) * (width as u128) <= u128::MAX) by (nonlinear_arith)
                requires
                    num <= u64::MAX,
                    width <= u64::MAX,
            ;
            assert(cap * (width as u128) >= cap + cap) by (nonlinear_arith)
                requires
                    cap >= 1,
                    width >= 2,
            ;
        }
        let ghost c0 = cap as int;
        let ghost d0 = d as nat;
        cap = cap * width as u128;
        d = d + 1;
        proof {
            assert(d as nat == d0 + 1);
            assert(cap as int == c0 * (width as int));
            assert(pow(width as int, (d0 + 1) as nat) == (width as int) * pow(width as int, d0));
            assert(c0 == pow(width as int, d0));
            assert(cap as int == pow(width as int, (d0 + 1) as nat)) by (nonlinear_arith)
                requires
                    cap as int == c0 * (width as int),
                    c0 == pow(width as int, d0),
                    pow(width as int, (d0 + 1) as nat) == (width as int) * pow(width as int, d0),
            ;
        }
    }
    d
}

/// A set of paths to generate: `num_files` files under `base_path`, at
/// most `dir_width` directory entries per level.
pub struct FileSet {
    num_files: usize,
    base_path: Vec<u8>,
    dir_width: usize,
}

impl FileSet {
    /// A sensible fan-out: at least two entries per level.
    pub closed spec fn wf(&self) -> bool {
        self.dir_width >= 2
    }

    pub closed spec fn spec_num_files(&self) -> usize {
        self.num_files
    }

    pub closed spec fn spec_base_path(&self) -> Seq<u8> {
        self.base_path@
    }

    pub closed spec fn spec_dir_width(&self) -> usize {
        self.dir_width
    }

    pub fn new(num_files: usize, base_path: Vec<u8>, dir_width: usize) -> (s: FileSet)
        requires
            dir_width >= 2,
        ensures
            s.wf(),
            s.spec_num_files() == num_files,
            s.spec_base_path() == base_path@,
            s.spec_dir_width() == dir_width,
    {
        FileSet { num_files, base_path, dir_width }
    }

    /// The iterator over the set's paths, starting from all-zero level
    /// counters.
    pub fn into_iter(self) -> (it: FileSetIterator)
        requires
            self.wf(),
        ensures
            it.wf(),
            it.counter() == 0,
            it.remaining() == self.spec_num_files(),
            it.base() == self.spec_base_path(),
            it.width() == self.spec_dir_width(),
            forall|j: int| 0 <= j < it.state().len() ==> it.state()[j] == 0usize,
    {
        let depth = tree_depth(self.num_files, self.dir_width);
        let mut state: Vec<usize> = Vec::new();
        let mut i: usize = 0;
        while i < depth
            invariant
                i <= depth,
                state@.len() == i,
                forall|j: int| 0 <= j < i ==> state@[j] == 0usize,
            decreases depth - i,
        {
            state.push(0);
            i = i + 1;
        }
        FileSetIterator {
            state,
            base_path: self.base_path,
            dir_width: self.dir_width,
            counter: 0,
            max: self.num_files,
        }
    }
}

/// One odometer step over the level counters: the lowest counter advances,
/// wrapping to zero and carrying while it reaches the width.
pub open spec fn spec_advance(state: Seq<usize>, width: usize) -> Seq<usize>
    decreases state.len(),
{
    if state.len() == 0 {
        state
    } else if state.first() + 1 >= width {
        seq![0usize] + spec_advance(state.drop_first(), width)
    } else {
        seq![(state.first() + 1) as usize] + state.drop_first()
    }
}

/// The path of the current counters: the base, then each level's counter
/// in decimal, highest level first, joined with `/`.
pub open spec fn spec_path(base: Seq<u8>, state: Seq<usize>) -> Seq<u8>
    decreases state.len(),
{
    if state.len() == 0 {
        base
    } else {
        spec_path(base + seq![47u8] + spec_decimal(state.last() as nat), state.drop_last())
    }
}

/// Walks the paths of a [`FileSet`] in generation order.
pub struct FileSetIterator {
    state: Vec<usize>,
    base_path: Vec<u8>,
    dir_width: usize,
    counter: usize,
    max: usize,
}

impl FileSetIterator {
    /// Level counters stay under the width.
    pub closed spec fn wf(&self) -> bool {
        &&& self.dir_width >= 2
        &&& forall|j: int| 0 <= j < self.state@.len() ==> self.state@[j] < self.dir_width
    }

    pub closed spec fn state(&self) -> Seq<usize> {
        self.state@
    }

    pub closed spec fn base(&self) -> Seq<u8> {
        self.base_path@
    }

    pub closed spec fn width(&self) -> usize {
        self.dir_width
    }

    pub closed spec fn counter(&self) -> usize {
        self.counter
    }

    pub closed spec fn remaining(&self) -> usize {
        self.max
    }

    /// Advance the counters by one step.
    fn advance(&mut self)
        requires
            old(self).wf(),
        ensures
            final(self).wf(),
            final(self).state() == spec_advance(old(self).state(), old(self).width()),
            final(self).base() == old(self).base(),
            final(self).width() == old(self).width(),
            final(self).counter() == old(self).counter(),
            final(self).remaining() == old(self).remaining(),
    {
        let ghost orig = self.state@;
        let width = self.dir_width;
        let mut idx: usize = 0;
        let mut done = false;
        proof {
            assert(self.state@.take(0) =~= Seq::<usize>::empty());
            assert(orig.skip(0) =~= orig);
            assert(Seq::<usize>::empty() + spec_advance(orig, width) =~= spec_advance(
                orig,
                width,
            ));
        }
        while !done && idx < self.state.len()
            invariant
                self.dir_width == old(self).dir_width,
                self.base_path == old(self).base_path,
                self.counter == old(self).counter,
                self.max == old(self).max,
                width == self.dir_width,
                self.state@.len() == orig.len(),
                idx <= orig.len(),
                forall|j: int| 0 <= j < self.state@.len() ==> self.state@[j] < width,
                !done ==> forall|j: int| 0 <= j < idx ==> self.state@[j] == 0usize,
                !done ==> forall|j: int| idx <= j < orig.len() ==> self.state@[j] == orig[j],
                !done ==> spec_advance(orig, width) == self.state@.take(idx as int)
                    + spec_advance(orig.skip(idx as int), width),
                done ==> self.state@ == spec_advance(orig, width),
            decreases orig.len() - idx, (if done {
                0int
            } else {
                1int
            }),
        {
            let ghost pre = self.state@;
            proof {
                assert(orig.skip(idx as int).first() == orig[idx as int]);
            }
            let v = self.state[idx];
            if v + 1 >= width {
                self.state.set(idx, 0);
                proof {
                    assert(self.state@.take(idx + 1) =~= pre.take(idx as int).push(0usize));
                    assert(pre.take(idx as int) =~= self.state@.take(idx as int));
                    assert(orig.skip(idx as int).drop_first() =~= orig.skip(idx + 1));
                    assert(spec_advance(orig, width) =~= self.state@.take(idx + 1)
                        + spec_advance(orig.skip(idx + 1), width));
                }
                idx = idx + 1;
            } else {
                self.state.set(idx, v + 1);
                done = true;
                proof {
                    assert(orig.skip(idx as int).drop_first() =~= orig.skip(idx + 1));
                    assert(spec_advance(orig.skip(idx as int), width) == seq![(v + 1) as usize]
                        + orig.skip(idx + 1));
                    assert(self.state@ =~= pre.take(idx as int) + (seq![(v + 1) as usize]
                        + orig.skip(idx + 1)));
                    assert(self.state@ =~= spec_advance(orig, width));
                }
            }
        }
        proof {
            if !done {
                assert(orig.skip(idx as int).len() == 0);
                assert(spec_advance(orig.skip(idx as int), width) =~= Seq::<usize>::empty());
                assert(self.state@ =~= self.state@.take(idx as int) + spec_advance(
                    orig.skip(idx as int),
                    width,
                ));
            }
        }
    }

    /// The path of the current counters.
    fn current_path(&self) -> (r: Vec<u8>)
        ensures
            r@ == spec_path(self.base(), self.state()),
    {
        let mut path = self.base_path.clone();
        let mut k = self.state.len();
        proof {
            assert(self.state@.take(self.state@.len() as int) =~= self.state@);
        }
        while k > 0
            invariant
                k <= self.state@.len(),
                spec_path(self.base_path@, self.state@) == spec_path(
                    path@,
                    self.state@.take(k as int),
                ),
            decreases k,
        {
            let ghost pre = path@;
            k = k - 1;
            path.push(47);
            let mut digits = decimal_bytes(self.state[k]);
            path.append(&mut digits);
            proof {
                assert(self.state@.take(k + 1).last() == self.state@[k as int]);
                assert(self.state@.take(k + 1).drop_last() =~= self.state@.take(k as int));
                assert(path@ =~= pre + seq![47u8] + spec_decimal(self.state@[k as int] as nat));
            }
        }
        proof {
            assert(self.state@.take(0) =~= Seq::<usize>::empty());
        }
        path
    }

    /// The next path, or `None` when the set is exhausted.  The counters
    /// advance before the path is built, so the first path already has the
    /// lowest level at one (or wrapped to zero at width one short of two).
    pub fn next(&mut self) -> (r: Option<Vec<u8>>)
        requires
            old(self).wf(),
        ensures
            final(self).wf(),
            final(self).base() == old(self).base(),
            final(self).width() == old(self).width(),
            final(self).remaining() == old(self).remaining(),
            old(self).counter() >= old(self).remaining() ==> r is None && *final(self) == *old(
                self,
            ),
            old(self).counter() < old(self).remaining() ==> {
                &&& final(self).state() == spec_advance(old(self).state(), old(self).width())
                &&& final(self).counter() == old(self).counter() + 1
                &&& r matches Some(p) && p@ == spec_path(final(self).base(), final(self).state())
            },
    {
        if self.counter >= self.max {
            None
        } else {
            self.advance();
            let path = self.current_path();
            self.counter = self.counter + 1;
            proof {
                assert(path@ == spec_path(final(self).base(), final(self).state()));
            }
            Some(path)
        }
    }
}

} // verus!
