//! A virtual view over a chain of byte slices. A range lookup walks the
//! parts, discounting each part it passes; it yields bytes only when the
//! range lands inside a single part.

use vstd::prelude::*;

verus! {

/// A range with optional bounds.
#[derive(Debug, PartialEq, Eq, Structural, Clone, Copy)]
pub struct MyRange<Idx> {
    pub start: Option<Idx>,
    pub end: Option<Idx>,
}

/// A chain of byte slices seen as one sequence of parts.
pub struct MultipartSlice<'t> {
    pub slices: Vec<&'t [u8]>,
}

/// The total length of a chain of parts.
pub open spec fn parts_len(ps: Seq<Seq<u8>>) -> int
    decreases ps.len(),
{
    if ps.len() == 0 {
        0
    } else {
        parts_len(ps.drop_last()) + ps.last().len()
    }
}

/// What a range lookup over the parts yields: the probe offset (the
/// start, or the end for start-less ranges) is discounted part by part;
/// once it lands inside a part, the range is cut from that part alone,
/// or yields nothing when it reaches past the part's end.
pub open spec fn ms_get(ps: Seq<Seq<u8>>, start: Option<int>, end: Option<int>) -> Option<Seq<u8>>
    decreases ps.len(),
{
    if ps.len() == 0 {
        None
    } else {
        let probe = match start {
            Some(s) => s,
            None => match end {
                Some(e) => e,
                None => 0int,
            },
        };
        let sl = ps[0];
        if probe >= sl.len() {
            ms_get(
                ps.drop_first(),
                match start {
                    Some(s) => Some(s - sl.len()),
                    None => None,
                },
                match end {
                    Some(e) => Some(e - sl.len()),
                    None => None,
                },
            )
        } else {
            match (start, end) {
                (Some(s), Some(e)) => if s <= e && e <= sl.len() {
                    Some(sl.subrange(s, e))
                } else {
                    None
                },
                (Some(s), None) => Some(sl.subrange(s, sl.len() as int)),
                (None, Some(e)) => Some(sl.subrange(0, e)),
                (None, None) => None,
            }
        }
    }
}

/// Lifts an optional machine offset into the mathematical range model.
pub open spec fn opt_int(o: Option<usize>) -> Option<int> {
    match o {
        Some(v) => Some(v as int),
        None => None,
    }
}

impl<'t> MultipartSlice<'t> {
    /// The chain's parts as byte sequences.
    pub open spec fn parts(self) -> Seq<Seq<u8>> {
        self.slices@.map_values(|s: &[u8]| s@)
    }

    /// The bytes of `range`, when it lands inside a single part; see
    /// [`ms_get`].
    pub fn get(&self, range: MyRange<usize>) -> (r: Option<&'t [u8]>)
        requires
            range.start is Some || range.end is Some,
        ensures
            match r {
                Some(sl) => ms_get(self.parts(), opt_int(range.start), opt_int(range.end)) == Some(
                    sl@,
                ),
                None => ms_get(self.parts(), opt_int(range.start), opt_int(range.end)) is None,
            },
    {
        match (range.start, range.end) {
            (Some(s), Some(e)) => {
                if s > e {
                    // an inverted range never lands inside a part
                    proof {
                        lemma_ms_get_inverted(self.parts(), s as int, e as int);
                    }
                    return None;
                }
            },
            _ => {},
        }
        let n = self.slices.len();
        let mut cur_start = range.start;
        let mut cur_end = range.end;
        let mut i: usize = 0;
        proof {
            assert(self.parts().subrange(0, n as int) =~= self.parts());
        }
        while i < n
            invariant
                n == self.slices@.len(),
                i <= n,
                cur_start is Some || cur_end is Some,
                (range.start is Some) == (cur_start is Some),
                (range.end is Some) == (cur_end is Some),
                match (cur_start, cur_end) {
                    (Some(s), Some(e)) => s <= e,
                    _ => true,
                },
                ms_get(
                    self.parts().subrange(i as int, n as int),
                    opt_int(cur_start),
                    opt_int(cur_end),
                ) == ms_get(self.parts(), opt_int(range.start), opt_int(range.end)),
            decreases n - i,
        {
            let sl: &'t [u8] = self.slices[i];
            proof {
                assert(self.parts().subrange(i as int, n as int)[0] == sl@);
                assert(self.parts().subrange(i as int, n as int).drop_first() =~= self.parts()
                    .subrange(i + 1int, n as int));
            }
            let probe = match cur_start {
                Some(s) => s,
                None => {
                    match cur_end {
                        Some(e) => e,
                        None => {
                            proof {
                                assert(false);
                            }
                            0
                        },
                    }
                },
            };
            if probe >= sl.len() {
                cur_start = match cur_start {
                    Some(s) => Some(s - sl.len()),
                    None => None,
                };
                cur_end = match cur_end {
                    Some(e) => Some(e - sl.len()),
                    None => None,
                };
            } else {
                match (cur_start, cur_end) {
                    (Some(s), Some(e)) => {
                        if e <= sl.len() {
                            return Some(vstd::slice::slice_subrange(sl, s, e));
                        } else {
                            return None;
                        }
                    },
                    (Some(s), None) => {
                        return Some(vstd::slice::slice_subrange(sl, s, sl.len()));
                    },
                    (None, Some(e)) => {
                        return Some(vstd::slice::slice_subrange(sl, 0, e));
                    },
                    (None, None) => {
                        proof {
                            assert(false);
                        }
                        return None;
                    },
                }
            }
            i = i + 1;
        }
        proof {
            assert(self.parts().subrange(n as int, n as int) =~= Seq::<Seq<u8>>::empty());
        }
        None
    }

    /// The total number of bytes across all parts.
    pub fn len(&self) -> (r: usize)
        requires
            parts_len(self.parts()) <= usize::MAX,
        ensures
            r as int == parts_len(self.parts()),
    {
        let n = self.slices.len();
        let mut total: usize = 0;
        let mut i: usize = 0;
        while i < n
            invariant
                n == self.slices@.len(),
                i <= n,
                total as int == parts_len(self.parts().subrange(0, i as int)),
                parts_len(self.parts()) <= usize::MAX,
            decreases n - i,
        {
            proof {
                assert(self.parts().subrange(0, i + 1int).drop_last() =~= self.parts().subrange(
                    0,
                    i as int,
                ));
                assert(self.parts().subrange(0, i + 1int).last() == self.parts()[i as int]);
                lemma_parts_len_prefix(self.parts(), i + 1int);
                lemma_parts_len_nonneg(self.parts().subrange(0, i + 1int));
            }
            total = total + self.slices[i].len();
            i = i + 1;
        }
        proof {
            assert(self.parts().subrange(0, n as int) =~= self.parts());
        }
        total
    }
}

/// A chain's length is at least any prefix's.
pub proof fn lemma_parts_len_prefix(ps: Seq<Seq<u8>>, k: int)
    requires
        0 <= k <= ps.len(),
    ensures
        parts_len(ps.subrange(0, k)) <= parts_len(ps),
    decreases ps.len() - k,
{
    if k < ps.len() {
        lemma_parts_len_prefix(ps, k + 1);
        assert(ps.subrange(0, k + 1).drop_last() =~= ps.subrange(0, k));
        assert(ps.subrange(0, k + 1).last() == ps[k]);
    } else {
        assert(ps.subrange(0, k) =~= ps);
    }
}

/// A chain's length is never negative.
pub proof fn lemma_parts_len_nonneg(ps: Seq<Seq<u8>>)
    ensures
        parts_len(ps) >= 0,
    decreases ps.len(),
{
    if ps.len() > 0 {
        lemma_parts_len_nonneg(ps.drop_last());
    }
}


/// A range whose start lies past its end yields nothing, wherever the
/// walk leaves it.
pub proof fn lemma_ms_get_inverted(ps: Seq<Seq<u8>>, s: int, e: int)
    requires
        s > e,
    ensures
        ms_get(ps, Some(s), Some(e)) is None,
    decreases ps.len(),
{
    if ps.len() > 0 && s >= ps[0].len() {
        lemma_ms_get_inverted(ps.drop_first(), s - ps[0].len(), e - ps[0].len());
    }
}

} // verus!
