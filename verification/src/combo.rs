//! Enumeration of fixed-length words over an alphabet, as an odometer:
//! each step increments the least significant digit and carries into the
//! next.

use vstd::prelude::*;

verus! {

/// One odometer digit: the alphabet and the digit's current value.
#[derive(Clone, Debug, PartialEq)]
pub struct Digit {
    pub alph: Vec<u32>,
    pub value: u32,
}

/// `j` is the first position of `v` in `s`.
pub open spec fn is_first_index(s: Seq<u32>, v: u32, j: int) -> bool {
    &&& 0 <= j < s.len()
    &&& s[j] == v
    &&& forall|k: int| 0 <= k < j ==> s[k] != v
}

/// The first position of `v` in `s`, where `v` occurs.
pub open spec fn first_index(s: Seq<u32>, v: u32) -> int {
    choose|j: int| is_first_index(s, v, j)
}

/// One increment of a digit: the last letter wraps to the first and
/// carries; any other value advances to the letter after its first
/// occurrence.
pub open spec fn digit_step(alph: Seq<u32>, v: u32) -> (u32, int) {
    if v == alph.last() {
        (alph[0], 1int)
    } else {
        (alph[first_index(alph, v) + 1], 0int)
    }
}

/// `n` increments of a digit: the final value and how many times it
/// wrapped.
pub open spec fn digit_inc_spec(alph: Seq<u32>, v: u32, n: nat) -> (u32, int)
    decreases n,
{
    if n == 0 {
        (v, 0int)
    } else {
        let prev = digit_inc_spec(alph, v, (n - 1) as nat);
        let st = digit_step(alph, prev.0);
        (st.0, prev.1 + st.1)
    }
}

/// The digit's value is a letter of its nonempty alphabet.
pub open spec fn digit_wf(d: Digit) -> bool {
    &&& d.alph@.len() > 0
    &&& d.alph@.contains(d.value)
}

/// A value occurring in `s` has a first position.
pub proof fn lemma_first_index_exists(s: Seq<u32>, v: u32)
    requires
        s.contains(v),
    ensures
        is_first_index(s, v, first_index(s, v)),
    decreases s.len(),
{
    if s[0] == v {
        assert(is_first_index(s, v, 0));
    } else {
        assert(s.drop_first().contains(v)) by {
            let k = choose|k: int| 0 <= k < s.len() && s[k] == v;
            assert(s.drop_first()[k - 1] == v);
        }
        lemma_first_index_exists(s.drop_first(), v);
        let j = first_index(s.drop_first(), v);
        assert forall|k: int| 0 <= k < j + 1 implies s[k] != v by {
            if k > 0 {
                assert(s.drop_first()[k - 1] != v);
            }
        }
        assert(is_first_index(s, v, j + 1));
    }
}

impl Digit {
    /// A fresh digit holding the alphabet's first letter.
    pub fn new(alph: Vec<u32>) -> (r: Digit)
        requires
            alph@.len() > 0,
        ensures
            r.alph == alph,
            r.value == alph@[0],
            digit_wf(r),
    {
        let value = alph[0];
        Digit { alph, value }
    }

    /// Increments the digit `inc` times and reports how many times it
    /// wrapped around; see [`digit_inc_spec`].
    pub fn inc(&mut self, inc: usize) -> (ret: usize)
        requires
            digit_wf(*old(self)),
        ensures
            digit_wf(*final(self)),
            final(self).alph == old(self).alph,
            final(self).value == digit_inc_spec(old(self).alph@, old(self).value, inc as nat).0,
            ret as int == digit_inc_spec(old(self).alph@, old(self).value, inc as nat).1,
            ret <= inc,
    {
        let mut ret: usize = 0;
        let n = self.alph.len();
        let mut step: usize = 0;
        while step < inc
            invariant
                digit_wf(*self),
                self.alph == old(self).alph,
                n == self.alph@.len(),
                step <= inc,
                ret <= step,
                self.value == digit_inc_spec(old(self).alph@, old(self).value, step as nat).0,
                ret as int == digit_inc_spec(old(self).alph@, old(self).value, step as nat).1,
            decreases inc - step,
        {
            if self.alph[n - 1] == self.value {
                self.value = self.alph[0];
                ret = ret + 1;
            } else {
                proof {
                    lemma_first_index_exists(self.alph@, self.value);
                }
                let mut j: usize = 0;
                while self.alph[j] != self.value
                    invariant
                        digit_wf(*self),
                        n == self.alph@.len(),
                        j < n,
                        forall|k: int| 0 <= k < j ==> self.alph@[k] != self.value,
                        is_first_index(self.alph@, self.value, first_index(self.alph@, self.value)),
                    decreases n - j,
                {
                    j = j + 1;
                    proof {
                        if j == n {
                            let fi = first_index(self.alph@, self.value);
                            assert(self.alph@[fi] == self.value);
                            assert(false);
                        }
                    }
                }
                proof {
                    assert(is_first_index(self.alph@, self.value, j as int));
                    let fi = first_index(self.alph@, self.value);
                    if fi != j {
                        if fi < j {
                            assert(self.alph@[fi] != self.value);
                        } else {
                            assert(self.alph@[j as int] != self.value);
                        }
                    }
                    if j == n - 1 {
                        assert(self.alph@.last() == self.value);
                        assert(false);
                    }
                }
                self.value = self.alph[j + 1];
            }
            step = step + 1;
        }
        ret
    }
}

/// The word enumerator: alphabet, word length, and the digits of the
/// last word handed out, if any.
#[derive(Clone, Debug, PartialEq)]
pub struct WORD {
    pub alph: Vec<u32>,
    pub len: usize,
    pub _state: Option<Vec<Digit>>,
}

/// One odometer step over a word's digit values with incoming carry
/// `add`: the new values and the outgoing carry.
pub open spec fn word_inc(alph: Seq<u32>, vals: Seq<u32>, add: nat) -> (Seq<u32>, int)
    decreases vals.len(),
{
    if vals.len() == 0 {
        (vals, add as int)
    } else {
        let d = digit_inc_spec(alph, vals[0], add);
        let rest = word_inc(alph, vals.drop_first(), d.1 as nat);
        (seq![d.0] + rest.0, rest.1)
    }
}

/// The enumerator's digits track its alphabet and length.
pub open spec fn word_wf(w: WORD) -> bool {
    &&& w.alph@.len() > 0
    &&& (w._state matches Some(st) ==> st@.len() == w.len && forall|i: int|
        0 <= i < st@.len() ==> (#[trigger] st@[i]).alph@ == w.alph@ && digit_wf(st@[i]))
}

/// The digit values of a word state.
pub open spec fn word_values(st: Seq<Digit>) -> Seq<u32> {
    st.map_values(|d: Digit| d.value)
}

impl WORD {
    /// A fresh enumerator over `alph` for words of length `len`.
    pub fn new(alph: Vec<u32>, len: usize) -> (r: WORD)
        requires
            alph@.len() > 0,
        ensures
            r.alph == alph,
            r.len == len,
            r._state is None,
            word_wf(r),
    {
        WORD { alph, len, _state: None }
    }

    /// The next word: the all-first-letter word on the first call, then
    /// one odometer step per call; `None` — and a reset — once the
    /// odometer wraps past the last word.
    pub fn next(&mut self) -> (r: Option<Vec<u32>>)
        requires
            word_wf(*old(self)),
        ensures
            word_wf(*final(self)),
            final(self).alph == old(self).alph,
            final(self).len == old(self).len,
            old(self)._state is None ==> ((r matches Some(v) && v@ == Seq::new(
                old(self).len as nat,
                |i: int| old(self).alph@[0],
            )) && (final(self)._state matches Some(st) && word_values(st@) == Seq::new(
                old(self).len as nat,
                |i: int| old(self).alph@[0],
            ))),
            old(self)._state matches Some(st0) ==> {
                let stepped = word_inc(old(self).alph@, word_values(st0@), 1);
                if stepped.1 > 0 {
                    &&& r is None
                    &&& final(self)._state is None
                } else {
                    &&& r matches Some(v) && v@ == stepped.0
                    &&& final(self)._state matches Some(st) && word_values(st@) == stepped.0
                }
            },
    {
        let taken = self._state.take();
        let state: Vec<Digit> = match taken {
            Some(mut state) => {
                let ghost vals0 = word_values(state@);
                let n = self.len;
                let mut add: usize = 1;
                let mut i: usize = 0;
                proof {
                    assert(vals0.len() == n);
                    assert(vals0.subrange(0, n as int) =~= vals0);
                    assert(word_values(state@.subrange(0, 0int)) =~= Seq::<u32>::empty());
                    assert(Seq::<u32>::empty() + word_inc(self.alph@, vals0, 1).0 =~= word_inc(
                        self.alph@,
                        vals0,
                        1,
                    ).0);
                }
                while i < n
                    invariant
                        n == self.len,
                        word_wf(*self),
                        self.alph == old(self).alph,
                        self.len == old(self).len,
                        state@.len() == n,
                        forall|k: int|
                            0 <= k < n ==> (#[trigger] state@[k]).alph@ == self.alph@ && digit_wf(
                                state@[k],
                            ),
                        i <= n,
                        add <= 1,
                        vals0.len() == n,
                        forall|k: int| i <= k < n ==> (#[trigger] state@[k]).value == vals0[k],
                        word_inc(self.alph@, vals0, 1) == (word_values(state@.subrange(0, i as int))
                            + word_inc(self.alph@, vals0.subrange(i as int, n as int), add as nat).0, word_inc(
                            self.alph@,
                            vals0.subrange(i as int, n as int),
                            add as nat,
                        ).1),
                    decreases n - i,
                {
                    let ghost suffix = vals0.subrange(i as int, n as int);
                    let ghost add0 = add;
                    let d = vstd::std_specs::vec::vec_index_mut(&mut state, i);
                    let w = d.inc(add);
                    add = w;
                    proof {
                        assert(suffix[0] == vals0[i as int]);
                        assert(suffix.drop_first() =~= vals0.subrange(i + 1int, n as int));
                        let dres = digit_inc_spec(self.alph@, vals0[i as int], add0 as nat);
                        let rest = word_inc(self.alph@, vals0.subrange(i + 1int, n as int), add as nat);
                        assert(word_inc(self.alph@, suffix, add0 as nat) == (seq![dres.0] + rest.0, rest.1));
                        assert(word_values(state@.subrange(0, i + 1int)) =~= word_values(
                            state@.subrange(0, i as int),
                        ) + seq![dres.0]);
                        assert((word_values(state@.subrange(0, i as int)) + seq![dres.0]) + rest.0
                            =~= word_values(state@.subrange(0, i as int)) + (seq![dres.0] + rest.0));
                    }
                    i = i + 1;
                }
                proof {
                    assert(vals0.subrange(n as int, n as int) =~= Seq::<u32>::empty());
                    assert(word_inc(self.alph@, vals0.subrange(n as int, n as int), add as nat)
                        == (Seq::<u32>::empty(), add as int));
                    assert(state@.subrange(0, n as int) =~= state@);
                }
                if add > 0 {
                    return None;
                }
                proof {
                    assert(word_values(state@) + Seq::<u32>::empty() =~= word_values(state@));
                }
                state
            },
            None => {
                let n = self.len;
                let mut state: Vec<Digit> = Vec::new();
                let mut i: usize = 0;
                while i < n
                    invariant
                        n == self.len,
                        word_wf(*self),
                        self.alph == old(self).alph,
                        self.len == old(self).len,
                        self.alph@.len() > 0,
                        i <= n,
                        state@.len() == i,
                        forall|k: int|
                            0 <= k < i ==> (#[trigger] state@[k]).alph@ == self.alph@ && digit_wf(
                                state@[k],
                            ) && state@[k].value == self.alph@[0],
                    decreases n - i,
                {
                    let alph2 = self.alph.clone();
                    proof {
                        assert(alph2@ =~= self.alph@);
                    }
                    state.push(Digit::new(alph2));
                    i = i + 1;
                }
                state
            },
        };
        let n = self.len;
        let mut values: Vec<u32> = Vec::new();
        let mut i: usize = 0;
        while i < n
            invariant
                n == self.len,
                state@.len() == n,
                i <= n,
                values@.len() == i,
                forall|k: int| 0 <= k < i ==> values@[k] == (#[trigger] state@[k]).value,
            decreases n - i,
        {
            values.push(state[i].value);
            i = i + 1;
        }
        proof {
            assert(values@ =~= word_values(state@));
            if old(self)._state is None {
                assert(values@ =~= Seq::new(old(self).len as nat, |i: int| old(self).alph@[0]));
            }
        }
        self._state = Some(state);
        Some(values)
    }
}

} // verus!
