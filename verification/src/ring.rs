//! The device's receive buffer: a bounded queue of bytes that gives up its
//! oldest byte when a push finds it full.
//!
//! The queue itself is `ringbuffer::ConstGenericRingBuffer`. What this module
//! assumes of it is stated on the private functions below, each of which makes
//! one call into that crate; `ByteRing` is proved against those statements.

use itertools::Itertools;
use ringbuffer::ConstGenericRingBuffer;
use ringbuffer::RingBuffer;
use vstd::arithmetic::div_mod::lemma_small_mod;
use vstd::prelude::*;

verus! {

/// How many bytes the receive buffer holds.
pub const BUFFER_SIZE: usize = 2048;

#[verifier::external_type_specification]
#[verifier::external_body]
#[verifier::reject_recursive_types(T)]
pub struct ExConstGenericRingBuffer<T, const CAP: usize>(ConstGenericRingBuffer<T, CAP>);

/// The bytes that a buffer holds, oldest first.
pub uninterp spec fn ring_contents(rb: ConstGenericRingBuffer<u8, BUFFER_SIZE>) -> Seq<u8>;

/// How many bytes a buffer has taken in since it was made. The buffer counts
/// them in a machine word that it never resets.
pub uninterp spec fn ring_pushes(rb: ConstGenericRingBuffer<u8, BUFFER_SIZE>) -> nat;

/// What a buffer holds after a push: the byte joins at the young end, and a
/// full buffer first gives up its oldest byte.
pub open spec fn pushed(s: Seq<u8>, b: u8) -> Seq<u8> {
    if s.len() < BUFFER_SIZE {
        s.push(b)
    } else {
        s.subrange(1, s.len() as int).push(b)
    }
}

/// `ConstGenericRingBuffer::new`: a buffer that holds nothing and has taken
/// nothing in.
#[verifier::external_body]
fn ring_new() -> (rb: ConstGenericRingBuffer<u8, BUFFER_SIZE>)
    ensures
        ring_contents(rb) == Seq::<u8>::empty(),
        ring_pushes(rb) == 0,
{
    ConstGenericRingBuffer::new()
}

/// `RingBuffer::len`: the number of bytes held, which never exceeds the
/// capacity.
#[verifier::external_body]
fn ring_len(rb: &ConstGenericRingBuffer<u8, BUFFER_SIZE>) -> (n: usize)
    ensures
        n == ring_contents(*rb).len(),
        n <= BUFFER_SIZE,
{
    rb.len()
}

/// `RingBuffer::push`: appends a byte, overwriting the oldest one when the
/// buffer is full. The call adds one to the buffer's count of bytes taken in,
/// so that count must have room.
#[verifier::external_body]
fn ring_push(rb: &mut ConstGenericRingBuffer<u8, BUFFER_SIZE>, b: u8)
    requires
        ring_pushes(*old(rb)) < usize::MAX,
    ensures
        ring_contents(*final(rb)) == pushed(ring_contents(*old(rb)), b),
        ring_pushes(*final(rb)) == ring_pushes(*old(rb)) + 1,
{
    rb.push(b)
}

/// `RingBuffer::dequeue`: takes the oldest byte out, if there is one.
#[verifier::external_body]
fn ring_dequeue(rb: &mut ConstGenericRingBuffer<u8, BUFFER_SIZE>) -> (r: Option<u8>)
    ensures
        ring_pushes(*final(rb)) == ring_pushes(*old(rb)),
        ring_contents(*old(rb)).len() == 0 ==> r is None && ring_contents(*final(rb))
            == ring_contents(*old(rb)),
        ring_contents(*old(rb)).len() > 0 ==> r == Some(ring_contents(*old(rb))[0])
            && ring_contents(*final(rb)) == ring_contents(*old(rb)).subrange(
            1,
            ring_contents(*old(rb)).len() as int,
        ),
{
    rb.dequeue()
}

/// `RingBuffer::get`: the byte at `index`, counted from the oldest. An index
/// past the end wraps round to the start; only an empty buffer gives nothing.
#[verifier::external_body]
fn ring_get(rb: &ConstGenericRingBuffer<u8, BUFFER_SIZE>, index: usize) -> (r: Option<u8>)
    ensures
        r == (if ring_contents(*rb).len() == 0 {
            None
        } else {
            Some(ring_contents(*rb)[index as int % ring_contents(*rb).len() as int])
        }),
{
    rb.get(index).copied()
}

/// `RingBuffer::to_vec`: the bytes held, oldest first.
#[verifier::external_body]
fn ring_to_vec(rb: &ConstGenericRingBuffer<u8, BUFFER_SIZE>) -> (bytes: Vec<u8>)
    ensures
        bytes@ == ring_contents(*rb),
{
    rb.to_vec()
}

/// `Itertools::tuple_windows`, taken over the bytes in their order: every
/// pair of neighbours, first pair first. Fewer than two bytes have no pair.
#[verifier::external_body]
fn tuple_windows(bytes: &[u8]) -> (pairs: Vec<(u8, u8)>)
    ensures
        pairs@.len() == (if bytes@.len() == 0 {
            0
        } else {
            bytes@.len() - 1
        }),
        forall|i: int| 0 <= i < pairs@.len() ==> #[trigger] pairs@[i] == (bytes@[i], bytes@[i + 1]),
{
    bytes.iter().copied().tuple_windows().collect()
}

/// The receive buffer.
pub struct ByteRing {
    ring: ConstGenericRingBuffer<u8, BUFFER_SIZE>,
    taken: usize,
}

impl View for ByteRing {
    type V = Seq<u8>;

    /// The bytes held, oldest first.
    closed spec fn view(&self) -> Seq<u8> {
        ring_contents(self.ring)
    }
}

impl ByteRing {
    /// The buffer's own count of the bytes it has taken in is known, and it
    /// holds no more than its capacity.
    pub closed spec fn wf(&self) -> bool {
        &&& ring_pushes(self.ring) == self.taken
        &&& ring_contents(self.ring).len() <= BUFFER_SIZE
    }

    pub proof fn lemma_bounded(&self)
        requires
            self.wf(),
        ensures
            self@.len() <= BUFFER_SIZE,
    {
    }

    pub fn new() -> (r: Self)
        ensures
            r.wf(),
            r@ == Seq::<u8>::empty(),
    {
        ByteRing { ring: ring_new(), taken: 0 }
    }

    pub fn len(&self) -> (n: usize)
        requires
            self.wf(),
        ensures
            n == self@.len(),
            n <= BUFFER_SIZE,
    {
        ring_len(&self.ring)
    }

    /// Moves the bytes into a buffer that has taken in nothing else.
    fn renew(&mut self)
        requires
            old(self).wf(),
        ensures
            final(self).wf(),
            final(self)@ == old(self)@,
            final(self).taken <= BUFFER_SIZE,
    {
        let mut fresh = ring_new();
        let mut moved: usize = 0;
        let ghost all = self@;
        loop
            invariant
                ring_pushes(self.ring) == self.taken,
                ring_pushes(fresh) == moved,
                moved == ring_contents(fresh).len(),
                all.len() <= BUFFER_SIZE,
                all == ring_contents(fresh) + ring_contents(self.ring),
            ensures
                all == ring_contents(fresh),
            decreases ring_contents(self.ring).len(),
        {
            let ghost done = ring_contents(fresh);
            match ring_dequeue(&mut self.ring) {
                None => {
                    assert(all =~= done);
                    break ;
                },
                Some(b) => {
                    ring_push(&mut fresh, b);
                    moved += 1;
                    assert(all =~= ring_contents(fresh) + ring_contents(self.ring));
                },
            }
        }
        self.ring = fresh;
        self.taken = moved;
    }

    /// Appends a byte. A full buffer gives up its oldest byte for it.
    pub fn push(&mut self, b: u8)
        requires
            old(self).wf(),
        ensures
            final(self).wf(),
            final(self)@ == pushed(old(self)@, b),
    {
        if self.taken == usize::MAX {
            self.renew();
        }
        ring_push(&mut self.ring, b);
        self.taken += 1;
    }

    /// Takes the oldest byte out, if there is one.
    pub fn dequeue(&mut self) -> (r: Option<u8>)
        requires
            old(self).wf(),
        ensures
            final(self).wf(),
            old(self)@.len() == 0 ==> r is None && final(self)@ == old(self)@,
            old(self)@.len() > 0 ==> r == Some(old(self)@[0]) && final(self)@ == old(self)@.subrange(
                1,
                old(self)@.len() as int,
            ),
    {
        ring_dequeue(&mut self.ring)
    }

    /// The byte at `index`, counted from the oldest, if the buffer holds that
    /// many.
    pub fn get(&self, index: usize) -> (r: Option<u8>)
        requires
            self.wf(),
        ensures
            r == (if index < self@.len() {
                Some(self@[index as int])
            } else {
                None
            }),
    {
        if index < ring_len(&self.ring) {
            proof {
                lemma_small_mod(index as nat, ring_contents(self.ring).len());
            }
            ring_get(&self.ring, index)
        } else {
            None
        }
    }

    /// Every pair of neighbouring bytes, oldest pair first.
    pub fn pairs(&self) -> (pairs: Vec<(u8, u8)>)
        requires
            self.wf(),
        ensures
            pairs@.len() == (if self@.len() == 0 {
                0
            } else {
                self@.len() - 1
            }),
            forall|i: int| 0 <= i < pairs@.len() ==> #[trigger] pairs@[i] == (self@[i], self@[i + 1]),
    {
        let bytes = ring_to_vec(&self.ring);
        tuple_windows(bytes.as_slice())
    }

    /// The bytes held, oldest first.
    pub fn to_vec(&self) -> (bytes: Vec<u8>)
        ensures
            bytes@ == self@,
    {
        ring_to_vec(&self.ring)
    }
}

} // verus!
