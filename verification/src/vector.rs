use vstd::prelude::*;

verus! {

/// An owned, growable sequence.
///
/// The library's records, tables and byte buffers are held in this type; its
/// view is the mathematical sequence of its elements, and every operation is
/// specified against that view.  The byte form (`Vec<u8>`) carries the raw
/// configuration text and path fragments, and offers the splitting operation
/// that the table parser is built on.
#[derive(Debug, Clone, PartialEq)]
pub struct Vec<T> {
    elems: std::vec::Vec<T>,
}

impl<T> View for Vec<T> {
    type V = Seq<T>;

    closed spec fn view(&self) -> Seq<T> {
        self.elems@
    }
}

impl<T> Default for Vec<T> {
    /// The empty sequence.
    fn default() -> (v: Self)
        ensures
            v@ == Seq::<T>::empty(),
    {
        let v = Vec { elems: std::vec::Vec::new() };
        proof {
            assert(v@ =~= Seq::<T>::empty());
        }
        v
    }
}

impl<T> Vec<T> {
    /// Whether the sequence holds no element.
    pub fn empty(&self) -> (r: bool)
        ensures
            r == (self@.len() == 0),
    {
        self.elems.len() == 0
    }

    /// How many elements the sequence holds.
    pub fn len(&self) -> (r: usize)
        ensures
            r == self@.len(),
    {
        self.elems.len()
    }

    /// Appends one element at the back.
    pub fn push(&mut self, value: T)
        ensures
            final(self)@ == old(self)@.push(value),
    {
        self.elems.push(value);
    }

    /// Removes and returns the last element, if any.
    pub fn pop(&mut self) -> (r: Option<T>)
        ensures
            old(self)@.len() == 0 ==> r is None && final(self)@ == old(self)@,
            old(self)@.len() > 0 ==> r == Some(old(self)@.last()) && final(self)@ == old(self)@.drop_last(),
    {
        self.elems.pop()
    }

    /// Borrows the element at `index`.
    pub fn get(&self, index: usize) -> (r: &T)
        requires
            index < self@.len(),
        ensures
            *r == self@[index as int],
    {
        &self.elems[index]
    }

    /// Borrows the whole sequence as a slice; `None` when it is empty.
    pub fn as_slice(&self) -> (r: Option<&[T]>)
        ensures
            (r is Some) == (self@.len() > 0),
            r matches Some(s) ==> s@ == self@,
    {
        if self.elems.len() == 0 {
            None
        } else {
            Some(self.elems.as_slice())
        }
    }
}

impl<T: Copy> Vec<T> {
    /// Builds a sequence holding the elements of `elements`, in order.
    pub fn new(elements: &[T]) -> (v: Self)
        ensures
            v@ == elements@,
    {
        let n: usize = elements.len();
        let mut elems: std::vec::Vec<T> = std::vec::Vec::new();
        let mut i: usize = 0;
        while i < n
            invariant
                n == elements@.len(),
                i <= n,
                elems@ == elements@.take(i as int),
            decreases n - i,
        {
            elems.push(elements[i]);
            proof {
                assert(elems@ =~= elements@.take(i + 1));
            }
            i += 1;
        }
        proof {
            assert(elements@.take(n as int) =~= elements@);
        }
        Vec { elems }
    }

    /// Returns a copy of the element at `index`, or `None` past the end.
    pub fn at(&self, index: usize) -> (r: Option<T>)
        ensures
            index < self@.len() ==> r == Some(self@[index as int]),
            index >= self@.len() ==> r is None,
    {
        if index < self.elems.len() {
            Some(self.elems[index])
        } else {
            None
        }
    }
}

/// The views of a sequence of byte vectors.
pub open spec fn seqs_of(parts: Seq<Vec<u8>>) -> Seq<Seq<u8>> {
    parts.map_values(|v: Vec<u8>| v@)
}

/// Splits `s` at every occurrence of `sep`; the separators themselves are
/// dropped and every segment between two of them is kept, the empty ones
/// included, so the result always holds one segment more than `s` holds
/// separators.
pub open spec fn split_seq(s: Seq<u8>, sep: u8) -> Seq<Seq<u8>>
    decreases s.len(),
{
    if s.len() == 0 {
        seq![Seq::<u8>::empty()]
    } else if s[0] == sep {
        seq![Seq::<u8>::empty()] + split_seq(s.skip(1), sep)
    } else {
        let rest = split_seq(s.skip(1), sep);
        seq![seq![s[0]] + rest[0]] + rest.skip(1)
    }
}

/// Keeps the non-empty segments of `parts`, in order.
pub open spec fn nonblank(parts: Seq<Seq<u8>>) -> Seq<Seq<u8>>
    decreases parts.len(),
{
    if parts.len() == 0 {
        Seq::empty()
    } else {
        let rest = nonblank(parts.drop_last());
        if parts.last().len() > 0 {
            rest.push(parts.last())
        } else {
            rest
        }
    }
}

/// Splitting at `sep` and keeping only the non-empty segments.
pub open spec fn split_fields(s: Seq<u8>, sep: u8) -> Seq<Seq<u8>> {
    nonblank(split_seq(s, sep))
}

pub proof fn lemma_split_seq_len(s: Seq<u8>, sep: u8)
    ensures
        split_seq(s, sep).len() >= 1,
    decreases s.len(),
{
    if s.len() != 0 {
        lemma_split_seq_len(s.skip(1), sep);
    }
}

proof fn lemma_nonblank_push(parts: Seq<Seq<u8>>, x: Seq<u8>)
    ensures
        nonblank(parts.push(x)) == if x.len() > 0 {
            nonblank(parts).push(x)
        } else {
            nonblank(parts)
        },
{
    assert(parts.push(x).drop_last() =~= parts);
}

/// The segments that remain ahead, with the piece gathered so far glued onto
/// the front of the first one.
spec fn glue_first(c: Seq<u8>, parts: Seq<Seq<u8>>) -> Seq<Seq<u8>> {
    seq![c + parts[0]] + parts.skip(1)
}

proof fn lemma_glue_first_empty(parts: Seq<Seq<u8>>)
    requires
        parts.len() >= 1,
    ensures
        glue_first(Seq::empty(), parts) == parts,
{
    assert(Seq::<u8>::empty() + parts[0] =~= parts[0]);
    assert(glue_first(Seq::empty(), parts) =~= parts);
}

impl Vec<u8> {
    /// Whether the bytes equal `lit`.
    pub fn matches(&self, lit: &[u8]) -> (r: bool)
        ensures
            r == (self@ == lit@),
    {
        if self.elems.len() != lit.len() {
            proof {
                assert(self@.len() != lit@.len());
            }
            return false;
        }
        let n: usize = lit.len();
        let mut i: usize = 0;
        while i < n
            invariant
                n == self@.len() == lit@.len(),
                i <= n,
                forall|j: int| 0 <= j < i ==> self@[j] == lit@[j],
            decreases n - i,
        {
            if self.elems[i] != lit[i] {
                return false;
            }
            i += 1;
        }
        proof {
            assert(self@ =~= lit@);
        }
        true
    }

    /// A fresh vector holding the same bytes.
    pub fn copied(&self) -> (r: Self)
        ensures
            r@ == self@,
    {
        let n: usize = self.elems.len();
        let mut out: Vec<u8> = Vec::default();
        let mut i: usize = 0;
        while i < n
            invariant
                n == self@.len(),
                i <= n,
                out@ == self@.take(i as int),
            decreases n - i,
        {
            out.push(self.elems[i]);
            proof {
                assert(self@.take(i as int).push(self@[i as int]) =~= self@.take(i + 1));
            }
            i += 1;
        }
        proof {
            assert(self@.take(n as int) =~= self@);
        }
        out
    }

    /// Whether the bytes begin with `prefix`.
    pub fn starts_with(&self, prefix: &[u8]) -> (r: bool)
        ensures
            r == (self@.len() >= prefix@.len() && self@.take(prefix@.len() as int) == prefix@),
    {
        let m: usize = prefix.len();
        if self.elems.len() < m {
            return false;
        }
        let mut i: usize = 0;
        while i < m
            invariant
                m == prefix@.len(),
                m <= self@.len(),
                i <= m,
                forall|j: int| 0 <= j < i ==> self@[j] == prefix@[j],
            decreases m - i,
        {
            if self.elems[i] != prefix[i] {
                proof {
                    assert(self@.take(m as int)[i as int] != prefix@[i as int]);
                }
                return false;
            }
            i += 1;
        }
        proof {
            assert(self@.take(m as int) =~= prefix@);
        }
        true
    }

    /// The bytes from `from` to the end, as a fresh vector.
    pub fn suffix(&self, from: usize) -> (r: Vec<u8>)
        requires
            from <= self@.len(),
        ensures
            r@ == self@.skip(from as int),
    {
        self.subvec(from, self.elems.len())
    }

    /// The bytes of the range `from..to`, as a fresh vector.
    pub fn subvec(&self, from: usize, to: usize) -> (r: Vec<u8>)
        requires
            from <= to <= self@.len(),
        ensures
            r@ == self@.subrange(from as int, to as int),
    {
        let mut out: Vec<u8> = Vec::default();
        let mut i: usize = from;
        proof {
            assert(out@ =~= self@.subrange(from as int, from as int));
        }
        while i < to
            invariant
                from <= i <= to <= self@.len(),
                out@ == self@.subrange(from as int, i as int),
            decreases to - i,
        {
            out.push(self.elems[i]);
            proof {
                assert(self@.subrange(from as int, i as int).push(self@[i as int])
                    =~= self@.subrange(from as int, i + 1));
            }
            i += 1;
        }
        out
    }

    /// Appends all bytes of `other` at the back.
    pub fn append_from(&mut self, other: &Vec<u8>)
        ensures
            final(self)@ == old(self)@ + other@,
    {
        let n: usize = other.elems.len();
        let mut i: usize = 0;
        while i < n
            invariant
                n == other@.len(),
                i <= n,
                self@ == old(self)@ + other@.take(i as int),
            decreases n - i,
        {
            self.elems.push(other.elems[i]);
            proof {
                assert(old(self)@ + other@.take(i as int).push(other@[i as int])
                    =~= old(self)@ + other@.take(i + 1));
            }
            i += 1;
        }
        proof {
            assert(old(self)@ + other@.take(n as int) =~= old(self)@ + other@);
        }
    }

    /// Appends all bytes of `other` at the back.
    pub fn append_slice(&mut self, other: &[u8])
        ensures
            final(self)@ == old(self)@ + other@,
    {
        let n: usize = other.len();
        let mut i: usize = 0;
        while i < n
            invariant
                n == other@.len(),
                i <= n,
                self@ == old(self)@ + other@.take(i as int),
            decreases n - i,
        {
            self.elems.push(other[i]);
            proof {
                assert(old(self)@ + other@.take(i as int).push(other@[i as int])
                    =~= old(self)@ + other@.take(i + 1));
            }
            i += 1;
        }
        proof {
            assert(old(self)@ + other@.take(n as int) =~= old(self)@ + other@);
        }
    }

    /// Splits the bytes at every `element`.  With `empty_allowed` every
    /// segment is returned; without it the empty segments are dropped.
    pub fn split(&self, element: u8, empty_allowed: bool) -> (r: Vec<Vec<u8>>)
        ensures
            empty_allowed ==> seqs_of(r@) == split_seq(self@, element),
            !empty_allowed ==> seqs_of(r@) == split_fields(self@, element),
    {
        let all = self.split_all(element);
        if empty_allowed {
            all
        } else {
            retain_nonblank(&all)
        }
    }

    /// Splits the bytes at every `element`, keeping the empty segments.
    fn split_all(&self, element: u8) -> (r: Vec<Vec<u8>>)
        ensures
            seqs_of(r@) == split_seq(self@, element),
    {
        let ghost s = self@;
        let n: usize = self.elems.len();
        let mut parts: Vec<Vec<u8>> = Vec::default();
        let mut cur: Vec<u8> = Vec::default();
        let mut i: usize = 0;
        proof {
            assert(s.skip(0) =~= s);
            lemma_split_seq_len(s, element);
            lemma_glue_first_empty(split_seq(s, element));
            assert(seqs_of(parts@) =~= Seq::<Seq<u8>>::empty());
        }
        while i < n
            invariant
                n == s.len(),
                i <= n,
                self@ == s,
                split_seq(s, element) == seqs_of(parts@) + glue_first(cur@, split_seq(s.skip(i as int), element)),
            decreases n - i,
        {
            let ghost tail = split_seq(s.skip(i as int), element);
            let ghost tail1 = split_seq(s.skip(i + 1), element);
            proof {
                assert(s.skip(i as int).len() > 0);
                assert(s.skip(i as int)[0] == s[i as int]);
                assert(s.skip(i as int).skip(1) =~= s.skip(i + 1));
                lemma_split_seq_len(s.skip(i + 1), element);
            }
            let b = self.elems[i];
            if b == element {
                proof {
                    assert(tail == seq![Seq::<u8>::empty()] + tail1);
                    assert((seq![Seq::<u8>::empty()] + tail1)[0] =~= Seq::<u8>::empty());
                    assert(cur@ + (seq![Seq::<u8>::empty()] + tail1)[0] =~= cur@);
                    assert((seq![Seq::<u8>::empty()] + tail1).skip(1) =~= tail1);
                    lemma_glue_first_empty(tail1);
                    assert(glue_first(cur@, tail) =~= seq![cur@] + tail1);
                    assert(seqs_of(parts@.push(cur)) =~= seqs_of(parts@).push(cur@));
                    assert(seqs_of(parts@) + (seq![cur@] + tail1)
                        =~= seqs_of(parts@.push(cur)) + glue_first(Seq::empty(), tail1));
                }
                parts.push(cur);
                cur = Vec::default();
            } else {
                proof {
                    assert(tail == seq![seq![s[i as int]] + tail1[0]] + tail1.skip(1));
                    assert(cur@ + (seq![seq![s[i as int]] + tail1[0]] + tail1)[0] =~= cur@ + (seq![s[i as int]] + tail1[0]));
                    assert(cur@ + (seq![s[i as int]] + tail1[0]) =~= (cur@.push(s[i as int])) + tail1[0]);
                    assert((seq![seq![s[i as int]] + tail1[0]] + tail1.skip(1)).skip(1) =~= tail1.skip(1));
                    assert(glue_first(cur@, tail) =~= glue_first(cur@.push(s[i as int]), tail1));
                }
                cur.push(b);
            }
            i += 1;
        }
        proof {
            assert(s.skip(n as int) =~= Seq::<u8>::empty());
            assert(glue_first(cur@, split_seq(Seq::<u8>::empty(), element)) =~= seq![cur@ + Seq::<u8>::empty()]);
            assert(cur@ + Seq::<u8>::empty() =~= cur@);
            assert(seqs_of(parts@.push(cur)) =~= seqs_of(parts@).push(cur@));
            assert(seqs_of(parts@) + seq![cur@] =~= seqs_of(parts@).push(cur@));
        }
        parts.push(cur);
        parts
    }
}

/// Keeps the non-empty byte vectors of `parts`, in order.
fn retain_nonblank(parts: &Vec<Vec<u8>>) -> (r: Vec<Vec<u8>>)
    ensures
        seqs_of(r@) == nonblank(seqs_of(parts@)),
{
    let n: usize = parts.len();
    let mut out: Vec<Vec<u8>> = Vec::default();
    let mut i: usize = 0;
    proof {
        assert(seqs_of(parts@).take(0) =~= Seq::<Seq<u8>>::empty());
        assert(seqs_of(out@) =~= Seq::<Seq<u8>>::empty());
    }
    while i < n
        invariant
            n == parts@.len(),
            i <= n,
            seqs_of(parts@).len() == n,
            seqs_of(out@) == nonblank(seqs_of(parts@).take(i as int)),
        decreases n - i,
    {
        let p = parts.get(i);
        proof {
            assert(seqs_of(parts@)[i as int] == parts@[i as int]@);
            assert(seqs_of(parts@).take(i + 1) =~= seqs_of(parts@).take(i as int).push(parts@[i as int]@));
            lemma_nonblank_push(seqs_of(parts@).take(i as int), parts@[i as int]@);
        }
        if !p.empty() {
            let c = p.copied();
            out.push(c);
            proof {
                assert(seqs_of(out@) =~= nonblank(seqs_of(parts@).take(i as int)).push(parts@[i as int]@));
            }
        }
        i += 1;
    }
    proof {
        assert(seqs_of(parts@).take(n as int) =~= seqs_of(parts@));
    }
    out
}

} // verus!
