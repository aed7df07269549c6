//! Interned symbols and source positions, shared by every stage of the
//! assembler.

use vstd::prelude::*;

verus! {

broadcast use vstd::std_specs::vec::group_vec_axioms;

/// A handle into the [`SymbolMap`].
#[derive(PartialEq, Eq, Structural, PartialOrd, Ord, Clone, Copy, Default, Debug, Hash)]
pub struct SymbolIndex(pub usize);

/// The intern table: every distinct string is stored once and addressed by
/// its position.
#[derive(Debug)]
pub struct SymbolMap {
    vec: Vec<String>,
}

/// The position of the first occurrence of `s` in `m`, if any.
pub open spec fn spec_find_str(m: Seq<Seq<char>>, s: Seq<char>) -> Option<int>
    decreases m.len(),
{
    if m.len() == 0 {
        None
    } else if m[0] == s {
        Some(0int)
    } else {
        match spec_find_str(m.drop_first(), s) {
            Some(i) => Some(i + 1),
            None => None,
        }
    }
}

/// A scan that hits `s` first at position `k` finds exactly `k`.
pub proof fn lemma_spec_find_str_hit(m: Seq<Seq<char>>, s: Seq<char>, k: int)
    requires
        0 <= k < m.len(),
        m[k] == s,
        forall|j: int| 0 <= j < k ==> m[j] != s,
    ensures
        spec_find_str(m, s) == Some(k),
    decreases k,
{
    if k == 0 {
    } else {
        assert(m[0] != s);
        assert(m.drop_first()[k - 1] == m[k]);
        assert(forall|j: int| 0 <= j < k - 1 ==> #[trigger] m.drop_first()[j] == m[j + 1]);
        lemma_spec_find_str_hit(m.drop_first(), s, k - 1);
    }
}

/// A scan that never hits `s` finds nothing.
pub proof fn lemma_spec_find_str_miss(m: Seq<Seq<char>>, s: Seq<char>)
    requires
        forall|j: int| 0 <= j < m.len() ==> m[j] != s,
    ensures
        spec_find_str(m, s) is None,
    decreases m.len(),
{
    if m.len() == 0 {
    } else {
        assert(forall|j: int| 0 <= j < m.len() - 1 ==> #[trigger] m.drop_first()[j] == m[j + 1]);
        lemma_spec_find_str_miss(m.drop_first(), s);
    }
}

impl View for SymbolMap {
    type V = Seq<Seq<char>>;

    closed spec fn view(&self) -> Seq<Seq<char>> {
        self.vec.deep_view()
    }
}

impl SymbolMap {
    /// An empty table.
    pub fn new() -> (r: SymbolMap)
        ensures
            r@ =~= Seq::<Seq<char>>::empty(),
    {
        SymbolMap { vec: Vec::new() }
    }

    /// How many symbols the table holds.
    pub fn len(&self) -> (r: usize)
        ensures
            r == self@.len(),
    {
        self.vec.len()
    }

    /// Intern `val`: hand back the position of its first occurrence, or
    /// append it and hand back the new position.
    pub fn push(&mut self, val: String) -> (r: SymbolIndex)
        ensures
            match spec_find_str(old(self)@, val@) {
                Some(i) => r.0 == i && final(self)@ == old(self)@,
                None => {
                    &&& final(self)@ =~= old(self)@.push(val@)
                    &&& r.0 == old(self)@.len()
                },
            },
            r.0 < final(self)@.len(),
            final(self)@[r.0 as int] == val@,
    {
        let ghost m = self@;
        let mut i: usize = 0;
        while i < self.vec.len()
            invariant
                self@ == m,
                i <= self.vec.len(),
                self.vec.deep_view() == m,
                forall|j: int| 0 <= j < i ==> m[j] != val@,
            decreases self.vec.len() - i,
        {
            assert(self.vec.deep_view()[i as int] == self.vec@[i as int]@);
            if self.vec[i] == val {
                proof {
                    lemma_spec_find_str_hit(m, val@, i as int);
                }
                return SymbolIndex(i);
            }
            i = i + 1;
        }
        proof {
            lemma_spec_find_str_miss(m, val@);
        }
        let n = self.vec.len();
        self.vec.push(val);
        assert(self@ =~= m.push(self.vec@[n as int]@));
        SymbolIndex(n)
    }

    /// The position of `s` in the table, if it is interned.
    pub fn find(&self, s: &str) -> (r: Option<SymbolIndex>)
        ensures
            match spec_find_str(self@, s@) {
                Some(i) => r matches Some(ix) && ix.0 == i,
                None => r is None,
            },
    {
        let owned = s.to_owned();
        let mut i: usize = 0;
        while i < self.vec.len()
            invariant
                owned@ == s@,
                i <= self.vec.len(),
                forall|j: int| 0 <= j < i ==> self@[j] != s@,
            decreases self.vec.len() - i,
        {
            assert(self.vec.deep_view()[i as int] == self.vec@[i as int]@);
            if self.vec[i] == owned {
                proof {
                    lemma_spec_find_str_hit(self@, s@, i as int);
                }
                return Some(SymbolIndex(i));
            }
            i = i + 1;
        }
        proof {
            lemma_spec_find_str_miss(self@, s@);
        }
        None
    }

    /// The string interned at `index`.
    pub fn get(&self, index: SymbolIndex) -> (r: &str)
        requires
            index.0 < self@.len(),
        ensures
            r@ == self@[index.0 as int],
    {
        assert(self.vec.deep_view()[index.0 as int] == self.vec@[index.0 as int]@);
        self.vec[index.0].as_str()
    }
}

/// A half-open span of source positions, counted in characters.
#[derive(Debug, PartialEq, Eq, Structural, Clone, Copy)]
pub struct SourceRange {
    pub start: usize,
    pub end: usize,
}

impl SourceRange {
    /// A span from `start` to `end`; the bounds must be ordered.
    pub fn new(start: usize, end: usize) -> (r: SourceRange)
        requires
            start <= end,
        ensures
            r == (SourceRange { start, end }),
    {
        SourceRange { start, end }
    }

    /// The span from this span's start to `other`'s end.
    pub fn with(self, other: SourceRange) -> (r: SourceRange)
        requires
            self.start <= other.end,
        ensures
            r == (SourceRange { start: self.start, end: other.end }),
    {
        SourceRange::new(self.start, other.end)
    }
}

} // verus!
