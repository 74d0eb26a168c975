//! A fixed-capacity, append-only telemetry store with a position cursor. A write is
//! accepted whole or not at all.

use vstd::prelude::*;

verus! {

/// A cursor into a buffer of capacity `BUFFER_SIZE`; it never passes the capacity.
#[derive(Debug, Clone, Copy)]
pub struct BufferMarker<const BUFFER_SIZE: usize>(usize);

impl<const BUFFER_SIZE: usize> BufferMarker<BUFFER_SIZE> {
    #[verifier::type_invariant]
    spec fn within_capacity(self) -> bool {
        self.0 <= BUFFER_SIZE
    }

    /// The cursor's position.
    pub closed spec fn pos(self) -> nat {
        self.0 as nat
    }

    /// A cursor at the start.
    pub fn new() -> (r: Self)
        ensures
            r.pos() == 0,
    {
        BufferMarker(0)
    }

    /// The cursor's position.
    pub fn get(&self) -> (r: usize)
        ensures
            r == self.pos(),
            r <= BUFFER_SIZE,
    {
        proof {
            use_type_invariant(self);
        }
        self.0
    }

    /// Moves the cursor one place on and returns its new position; `None`, with the
    /// cursor unchanged, when it already stands at the capacity.
    pub fn inc(&mut self) -> (r: Option<usize>)
        ensures
            old(self).pos() < BUFFER_SIZE ==> r == Some((old(self).pos() + 1) as usize)
                && final(self).pos() == old(self).pos() + 1,
            old(self).pos() >= BUFFER_SIZE ==> r is None && final(self).pos() == old(self).pos(),
    {
        if self.0 >= BUFFER_SIZE {
            None
        } else {
            self.0 = self.0 + 1;
            Some(self.0)
        }
    }

    /// Moves the cursor back to the start.
    pub fn rst(&mut self)
        ensures
            final(self).pos() == 0,
    {
        self.0 = 0;
    }
}

impl<const BUFFER_SIZE: usize> Default for BufferMarker<BUFFER_SIZE> {
    fn default() -> (r: Self)
        ensures
            r.pos() == 0,
    {
        BufferMarker(0)
    }
}

/// What a buffer of capacity `cap` holding `content` holds after a write of `w`:
/// `None` when the write does not fit, in which case the buffer is unchanged.
pub open spec fn after_write<T>(content: Seq<T>, cap: nat, w: Seq<T>) -> Option<Seq<T>> {
    if content.len() + w.len() <= cap {
        Some(content + w)
    } else {
        None
    }
}

/// The content after a sequence of writes, each applied to the result of the one
/// before; `None` as soon as one write does not fit.
pub open spec fn after_writes<T>(content: Seq<T>, cap: nat, ws: Seq<Seq<T>>) -> Option<Seq<T>>
    decreases ws.len(),
{
    if ws.len() == 0 {
        Some(content)
    } else {
        match after_write(content, cap, ws[0]) {
            Some(c) => after_writes(c, cap, ws.drop_first()),
            None => None,
        }
    }
}

/// A telemetry buffer of capacity `BUFFER_SIZE`. Its content is the filled prefix.
#[derive(Debug, Clone)]
pub struct DataBuffer<T, const BUFFER_SIZE: usize> {
    data: Vec<T>,
    marker: BufferMarker<BUFFER_SIZE>,
}

impl<T, const BUFFER_SIZE: usize> DataBuffer<T, BUFFER_SIZE> {
    /// The cursor always stands at the end of the stored data.
    pub closed spec fn wf(&self) -> bool {
        self.data@.len() == self.marker.pos()
    }

    /// The filled prefix.
    pub closed spec fn view(&self) -> Seq<T> {
        self.data@
    }
}

impl<T: Copy, const BUFFER_SIZE: usize> DataBuffer<T, BUFFER_SIZE> {
    /// An empty buffer.
    pub fn new() -> (r: Self)
        ensures
            r.wf(),
            r.view() == Seq::<T>::empty(),
    {
        DataBuffer { data: Vec::new(), marker: BufferMarker::new() }
    }

    /// Appends `buf` if it fits in what is left of the capacity, and returns `Some`.
    /// Otherwise returns `None` and leaves the buffer exactly as it was.
    pub fn add_data(&mut self, buf: &[T]) -> (r: Option<()>)
        requires
            old(self).wf(),
        ensures
            final(self).wf(),
            r is Some <==> old(self).view().len() + buf@.len() <= BUFFER_SIZE,
            r is Some ==> final(self).view() == old(self).view() + buf@,
            r is None ==> *final(self) == *old(self),
            after_write(old(self).view(), BUFFER_SIZE as nat, buf@) == match r {
                Some(_) => Some(final(self).view()),
                None => None::<Seq<T>>,
            },
    {
        let pos = self.marker.get();
        if buf.len() > BUFFER_SIZE - pos {
            return None;
        }
        let ghost start = self.data@;
        let mut i: usize = 0;
        while i < buf.len()
            invariant
                0 <= i <= buf@.len(),
                pos + buf@.len() <= BUFFER_SIZE,
                self.data@ == start + buf@.subrange(0, i as int),
                self.marker.pos() == self.data@.len(),
                start.len() == pos,
            decreases buf@.len() - i,
        {
            self.data.push(buf[i]);
            let _ = self.marker.inc();
            i += 1;
            assert(self.data@ =~= start + buf@.subrange(0, i as int));
        }
        assert(buf@.subrange(0, buf@.len() as int) =~= buf@);
        Some(())
    }

    /// The filled prefix, as a new vector.
    pub fn export(&self) -> (r: Vec<T>)
        requires
            self.wf(),
        ensures
            r@ == self.view(),
    {
        let mut r: Vec<T> = Vec::new();
        let mut i: usize = 0;
        while i < self.data.len()
            invariant
                0 <= i <= self.data@.len(),
                r@ == self.data@.subrange(0, i as int),
            decreases self.data@.len() - i,
        {
            r.push(self.data[i]);
            i += 1;
            assert(r@ =~= self.data@.subrange(0, i as int));
        }
        assert(self.data@.subrange(0, self.data@.len() as int) =~= self.data@);
        r
    }

    /// The filled prefix, borrowed.
    pub fn as_slice(&self) -> (r: &[T])
        requires
            self.wf(),
        ensures
            r@ == self.view(),
    {
        self.data.as_slice()
    }

    /// How many elements the buffer holds.
    pub fn len(&self) -> (r: usize)
        requires
            self.wf(),
        ensures
            r == self.view().len(),
    {
        self.marker.get()
    }

    /// How many more elements fit.
    pub fn remaining(&self) -> (r: usize)
        requires
            self.wf(),
        ensures
            r == BUFFER_SIZE - self.view().len(),
    {
        BUFFER_SIZE - self.marker.get()
    }

    /// Empties the buffer.
    pub fn reset(&mut self)
        ensures
            final(self).wf(),
            final(self).view() == Seq::<T>::empty(),
    {
        self.data.clear();
        self.marker.rst();
    }
}

impl<T, const BUFFER_SIZE: usize> AsRef<[T]> for DataBuffer<T, BUFFER_SIZE> {
    /// The filled prefix, borrowed.
    fn as_ref(&self) -> (r: &[T])
        ensures
            r@ == self.view(),
    {
        self.data.as_slice()
    }
}

impl<T: Copy, const BUFFER_SIZE: usize> Default for DataBuffer<T, BUFFER_SIZE> {
    fn default() -> (r: Self)
        ensures
            r.wf(),
            r.view() == Seq::<T>::empty(),
    {
        Self::new()
    }
}

/// Writes whose cumulative length fits the remaining capacity all succeed, and the
/// content becomes the old content followed by every write, in order.
pub proof fn lemma_writes_within_capacity<T>(content: Seq<T>, cap: nat, ws: Seq<Seq<T>>)
    requires
        content.len() + ws.flatten().len() <= cap,
    ensures
        after_writes(content, cap, ws) == Some(content + ws.flatten()),
    decreases ws.len(),
{
    if ws.len() == 0 {
        assert(content + ws.flatten() =~= content);
    } else {
        let c = content + ws[0];
        assert(ws.flatten() == ws[0] + ws.drop_first().flatten());
        lemma_writes_within_capacity(c, cap, ws.drop_first());
        assert(c + ws.drop_first().flatten() =~= content + ws.flatten());
    }
}

/// Writes from an empty buffer whose cumulative length is at most the capacity all
/// succeed, and the content is their concatenation in order.
pub proof fn lemma_fill_from_empty<T>(cap: nat, ws: Seq<Seq<T>>)
    requires
        ws.flatten().len() <= cap,
    ensures
        after_writes(Seq::<T>::empty(), cap, ws) == Some(ws.flatten()),
{
    lemma_writes_within_capacity(Seq::<T>::empty(), cap, ws);
    assert(Seq::<T>::empty() + ws.flatten() =~= ws.flatten());
}

} // verus!
