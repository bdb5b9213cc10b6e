use crate::corpus::clone_bytes;
use crate::rng::{rng_step, Rng64};
use vstd::prelude::*;

verus! {

/// Upper bound on the number of stacked operators one `mutate` call
/// applies: each call applies between 1 and this many.
pub const MAX_STACK: u64 = 4;

/// The number of mutation operators in the fixed operator set.
pub const NUM_OPS: u64 = 8;

/// `dest` with `del_len` bytes removed at `at`, `block` inserted there
/// instead, and the result truncated to `max_len`. Every mutation operator
/// that moves bytes is an instance of this.
pub open spec fn spec_splice(dest: Seq<u8>, at: int, block: Seq<u8>, del_len: int, max_len: int) -> Seq<u8> {
    let spliced = dest.take(at) + block + dest.skip(at + del_len);
    if spliced.len() > max_len {
        spliced.take(max_len)
    } else {
        spliced
    }
}

/// Remove `del_len` bytes of `dest` at `at` and put the `src_len` bytes of
/// `src` starting at `src_from` in their place, truncating the result to
/// `max_len`.
pub fn splice(
    dest: &Vec<u8>,
    at: usize,
    src: &Vec<u8>,
    src_from: usize,
    src_len: usize,
    del_len: usize,
    max_len: usize,
) -> (r: Vec<u8>)
    requires
        at + del_len <= dest@.len(),
        src_from + src_len <= src@.len(),
    ensures
        r@ == spec_splice(
            dest@,
            at as int,
            src@.subrange(src_from as int, src_from + src_len),
            del_len as int,
            max_len as int,
        ),
        r@.len() <= max_len || r@.len() <= dest@.len() + src_len,
{
    let ghost block = src@.subrange(src_from as int, src_from + src_len);
    let dest_len = dest.len();
    let src_total = src.len();
    let mut out: Vec<u8> = Vec::new();
    let mut i: usize = 0;
    while i < at
        invariant
            dest@.len() == dest_len,
            at + del_len <= dest@.len(),
            i <= at,
            out@ == dest@.take(i as int),
        decreases at - i,
    {
        out.push(dest[i]);
        proof {
            assert(dest@.take(i + 1) =~= dest@.take(i as int).push(dest@[i as int]));
        }
        i = i + 1;
    }
    let mut j: usize = 0;
    while j < src_len
        invariant
            dest@.len() == dest_len,
            src@.len() == src_total,
            at + del_len <= dest@.len(),
            src_from + src_len <= src@.len(),
            j <= src_len,
            block == src@.subrange(src_from as int, src_from + src_len),
            out@ == dest@.take(at as int) + block.take(j as int),
        decreases src_len - j,
    {
        out.push(src[src_from + j]);
        proof {
            assert(block.take(j + 1) =~= block.take(j as int).push(block[j as int]));
            assert(out@ =~= dest@.take(at as int) + block.take(j + 1));
        }
        j = j + 1;
    }
    proof {
        assert(block.take(src_len as int) =~= block);
    }
    let mut k: usize = at + del_len;
    while k < dest.len()
        invariant
            dest@.len() == dest_len,
            at + del_len <= k <= dest@.len(),
            block == src@.subrange(src_from as int, src_from + src_len),
            out@ == dest@.take(at as int) + block + dest@.subrange(at + del_len, k as int),
        decreases dest@.len() - k,
    {
        out.push(dest[k]);
        proof {
            assert(dest@.subrange(at + del_len, k + 1) =~= dest@.subrange(
                at + del_len,
                k as int,
            ).push(dest@[k as int]));
            assert(out@ =~= dest@.take(at as int) + block + dest@.subrange(at + del_len, k + 1));
        }
        k = k + 1;
    }
    proof {
        assert(dest@.subrange(at + del_len, dest@.len() as int) =~= dest@.skip(at + del_len));
    }
    if out.len() > max_len {
        out.truncate(max_len);
    }
    out
}

/// One operator application: from the current bytes and generator state,
/// the child bytes and the state after the draws this operator consumed.
///
/// The operator is drawn uniformly from the fixed set: bit flip, byte
/// flip, byte increment, byte decrement, random-byte insertion, block
/// deletion, block duplication, and dictionary splice. On an empty input
/// every operator acts as the insertion, so mutation can always make
/// progress.
pub open spec fn spec_mutate_one(s: Seq<u8>, st0: u64, max_len: int, dict: Seq<Seq<u8>>) -> (
    Seq<u8>,
    u64,
) {
    let st1 = rng_step(st0);
    let op = st1 % NUM_OPS;
    if s.len() == 0 || op == 4 {
        let st2 = rng_step(st1);
        let pos = st2 % ((s.len() + 1) as u64);
        let st3 = rng_step(st2);
        let byte = (st3 % 256) as u8;
        (spec_splice(s, pos as int, seq![byte], 0, max_len), st3)
    } else if op == 0 {
        let st2 = rng_step(st1);
        let pos = st2 % (s.len() as u64);
        let st3 = rng_step(st2);
        let bit = (st3 % 8) as u8;
        (s.update(pos as int, s[pos as int] ^ (1u8 << bit)), st3)
    } else if op == 1 {
        let st2 = rng_step(st1);
        let pos = st2 % (s.len() as u64);
        (s.update(pos as int, s[pos as int] ^ 0xffu8), st2)
    } else if op == 2 {
        let st2 = rng_step(st1);
        let pos = st2 % (s.len() as u64);
        (s.update(pos as int, vstd::wrapping::u8_specs::wrapping_add(s[pos as int], 1)), st2)
    } else if op == 3 {
        let st2 = rng_step(st1);
        let pos = st2 % (s.len() as u64);
        (s.update(pos as int, vstd::wrapping::u8_specs::wrapping_sub(s[pos as int], 1)), st2)
    } else if op == 5 {
        let st2 = rng_step(st1);
        let start = st2 % (s.len() as u64);
        let st3 = rng_step(st2);
        let dlen = 1 + st3 % ((s.len() - start) as u64);
        (spec_splice(s, start as int, Seq::empty(), dlen as int, max_len), st3)
    } else if op == 6 {
        let st2 = rng_step(st1);
        let start = st2 % (s.len() as u64);
        let st3 = rng_step(st2);
        let blen = 1 + st3 % ((s.len() - start) as u64);
        let st4 = rng_step(st3);
        let pos = st4 % ((s.len() + 1) as u64);
        (spec_splice(s, pos as int, s.subrange(start as int, start + blen), 0, max_len), st4)
    } else {
        if dict.len() == 0 {
            (s, st1)
        } else {
            let st2 = rng_step(st1);
            let di = st2 % (dict.len() as u64);
            let st3 = rng_step(st2);
            let pos = st3 % ((s.len() + 1) as u64);
            (spec_splice(s, pos as int, dict[di as int], 0, max_len), st3)
        }
    }
}

/// Apply one randomly drawn mutation operator.
pub fn mutate_one(cur: &Vec<u8>, rng: &mut Rng64, max_len: usize, dict: &Vec<Vec<u8>>) -> (r: Vec<
    u8,
>)
    requires
        1 <= max_len < usize::MAX,
        cur@.len() <= max_len,
        dict@.len() < usize::MAX,
    ensures
        ({
            let (out, st) = spec_mutate_one(
                cur@,
                old(rng).state,
                max_len as int,
                dict@.map_values(|d: Vec<u8>| d@),
            );
            r@ == out && final(rng).state == st
        }),
        r@.len() <= max_len,
{
    let ghost dictv = dict@.map_values(|d: Vec<u8>| d@);
    let op = rng.below(NUM_OPS);
    if cur.len() == 0 || op == 4 {
        let pos = rng.index_below(cur.len() + 1);
        let byte = (rng.below(256) as u8);
        let mut ins: Vec<u8> = Vec::new();
        ins.push(byte);
        proof {
            assert(ins@ =~= seq![byte]);
        }
        let r = splice(cur, pos, &ins, 0, 1, 0, max_len);
        proof {
            assert(ins@.subrange(0, 1) =~= seq![byte]);
        }
        r
    } else if op == 0 {
        let pos = rng.index_below(cur.len());
        let bit = (rng.below(8) as u8);
        let mut out = clone_bytes(cur);
        let b = out[pos] ^ (1u8 << bit);
        out[pos] = b;
        out
    } else if op == 1 {
        let pos = rng.index_below(cur.len());
        let mut out = clone_bytes(cur);
        let b = out[pos] ^ 0xffu8;
        out[pos] = b;
        out
    } else if op == 2 {
        let pos = rng.index_below(cur.len());
        let mut out = clone_bytes(cur);
        let b = out[pos].wrapping_add(1);
        out[pos] = b;
        out
    } else if op == 3 {
        let pos = rng.index_below(cur.len());
        let mut out = clone_bytes(cur);
        let b = out[pos].wrapping_sub(1);
        out[pos] = b;
        out
    } else if op == 5 {
        let start = rng.index_below(cur.len());
        let dlen = 1 + rng.index_below(cur.len() - start);
        let empty: Vec<u8> = Vec::new();
        let r = splice(cur, start, &empty, 0, 0, dlen, max_len);
        proof {
            assert(empty@.subrange(0, 0) =~= Seq::<u8>::empty());
        }
        r
    } else if op == 6 {
        let start = rng.index_below(cur.len());
        let blen = 1 + rng.index_below(cur.len() - start);
        let pos = rng.index_below(cur.len() + 1);
        splice(cur, pos, cur, start, blen, 0, max_len)
    } else {
        if dict.len() == 0 {
            clone_bytes(cur)
        } else {
            let di = rng.index_below(dict.len());
            let frag = &dict[di];
            let pos = rng.index_below(cur.len() + 1);
            let r = splice(cur, pos, frag, 0, frag.len(), 0, max_len);
            proof {
                assert(frag@.subrange(0, frag@.len() as int) =~= frag@);
                assert(dictv[di as int] == frag@);
            }
            r
        }
    }
}

/// `n` stacked operator applications.
pub open spec fn spec_mutate_n(
    s: Seq<u8>,
    st: u64,
    max_len: int,
    dict: Seq<Seq<u8>>,
    n: nat,
) -> (Seq<u8>, u64)
    decreases n,
{
    if n == 0 {
        (s, st)
    } else {
        let (s1, st1) = spec_mutate_one(s, st, max_len, dict);
        spec_mutate_n(s1, st1, max_len, dict, (n - 1) as nat)
    }
}

/// The child derived from a seed: a stacked mutation of 1 to `MAX_STACK`
/// operators, the count itself drawn from the stream first.
pub open spec fn spec_mutate(s: Seq<u8>, st0: u64, max_len: int, dict: Seq<Seq<u8>>) -> (
    Seq<u8>,
    u64,
) {
    let st1 = rng_step(st0);
    let n = 1 + st1 % MAX_STACK;
    spec_mutate_n(s, st1, max_len, dict, n as nat)
}

/// Derive a child input from a seed by a stacked random mutation. The
/// child, and the generator state left behind, are exact functions of the
/// seed bytes and the starting state, so a run is reproducible; the child
/// never exceeds `max_len` bytes.
pub fn mutate(seed: &Vec<u8>, rng: &mut Rng64, max_len: usize, dict: &Vec<Vec<u8>>) -> (r: Vec<u8>)
    requires
        1 <= max_len < usize::MAX,
        seed@.len() <= max_len,
        dict@.len() < usize::MAX,
    ensures
        ({
            let (out, st) = spec_mutate(
                seed@,
                old(rng).state,
                max_len as int,
                dict@.map_values(|d: Vec<u8>| d@),
            );
            r@ == out && final(rng).state == st
        }),
        r@.len() <= max_len,
{
    let ghost dictv = dict@.map_values(|d: Vec<u8>| d@);
    let ghost st0 = rng.state;
    let n = 1 + rng.below(MAX_STACK);
    let ghost target = spec_mutate(seed@, st0, max_len as int, dictv);
    let mut cur = clone_bytes(seed);
    let mut applied: u64 = 0;
    while applied < n
        invariant
            1 <= max_len < usize::MAX,
            dict@.len() < usize::MAX,
            dictv == dict@.map_values(|d: Vec<u8>| d@),
            applied <= n,
            cur@.len() <= max_len,
            target == spec_mutate_n(
                cur@,
                rng.state,
                max_len as int,
                dictv,
                (n - applied) as nat,
            ),
        decreases n - applied,
    {
        cur = mutate_one(&cur, rng, max_len, dict);
        applied = applied + 1;
    }
    cur
}

/// Determinism of mutation: the child is a pure function of the seed
/// bytes, the generator state, the length bound and the dictionary. Two
/// runs that start alike derive identical children, iteration for
/// iteration.
pub proof fn lemma_mutate_deterministic(
    s1: Seq<u8>,
    s2: Seq<u8>,
    st1: u64,
    st2: u64,
    max_len: int,
    d1: Seq<Seq<u8>>,
    d2: Seq<Seq<u8>>,
)
    requires
        s1 == s2,
        st1 == st2,
        d1 == d2,
    ensures
        spec_mutate(s1, st1, max_len, d1) == spec_mutate(s2, st2, max_len, d2),
{
}

} // verus!
