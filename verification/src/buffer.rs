//! A fixed-capacity ring buffer of the most recently typed characters.

use vstd::prelude::*;

use crate::chars::{clear_string, push_char};

verus! {

/// The last `n` elements of `s` (all of `s` when it is shorter).
pub open spec fn keep_last(s: Seq<char>, n: nat) -> Seq<char> {
    if s.len() <= n {
        s
    } else {
        s.subrange(s.len() - n, s.len() as int)
    }
}

/// Whether `suffix` is a suffix of `s`.
pub open spec fn ends_with_seq(s: Seq<char>, suffix: Seq<char>) -> bool {
    suffix.len() <= s.len() && s.subrange(s.len() - suffix.len(), s.len() as int) == suffix
}

/// A fixed-size circular buffer for tracking recent keystrokes.
///
/// Used by the keyboard hook to keep a rolling window of typed characters
/// that is matched against snippet triggers.
pub struct KeyBuffer {
    buffer: Vec<char>,
    capacity: usize,
    head: usize,
    len: usize,
}

impl KeyBuffer {
    /// Internal consistency of the ring, kept by every operation.
    #[verifier::type_invariant]
    spec fn wf(&self) -> bool {
        &&& self.buffer@.len() == self.capacity
        &&& self.len <= self.capacity
        &&& (self.capacity == 0 ==> self.head == 0)
        &&& (self.capacity > 0 ==> self.head < self.capacity)
    }

    /// The maximum number of characters kept.
    pub closed spec fn cap(&self) -> nat {
        self.capacity as nat
    }

    /// Physical index of the oldest character.
    spec fn start(&self) -> int {
        if self.head >= self.len {
            self.head - self.len
        } else {
            self.head + self.capacity - self.len
        }
    }

    /// Physical index of the `i`-th oldest character.
    spec fn slot(&self, i: int) -> int {
        if self.start() + i < self.capacity {
            self.start() + i
        } else {
            self.start() + i - self.capacity
        }
    }

    /// The characters held, oldest first.
    pub closed spec fn contents(&self) -> Seq<char> {
        Seq::new(self.len as nat, |i: int| self.buffer@[self.slot(i)])
    }

    proof fn lemma_slot_in_range(&self, i: int)
        requires
            self.wf(),
            0 <= i < self.len,
        ensures
            0 <= self.slot(i) < self.capacity,
    {
    }

    /// Creates a new, empty buffer with the given capacity.
    pub fn new(capacity: usize) -> (r: Self)
        ensures
            r.cap() == capacity,
            r@ == Seq::<char>::empty(),
    {
        let buffer = vec!['\0'; capacity];
        let r = KeyBuffer { buffer, capacity, head: 0, len: 0 };
        assert(r@ =~= Seq::<char>::empty());
        r
    }

    /// Appends a character; when the buffer is full the oldest one is lost.
    /// A buffer of capacity zero keeps nothing.
    pub fn push(&mut self, ch: char)
        ensures
            final(self).cap() == old(self).cap(),
            final(self)@ == keep_last(old(self)@.push(ch), old(self).cap()),
            final(self)@.len() <= final(self).cap(),
    {
        proof { use_type_invariant(&*self); }
        if self.capacity == 0 {
            assert(self@ =~= keep_last(self@.push(ch), 0));
            return;
        }
        let ghost old_view = self@;
        let ghost old_self = *self;
        let h = self.head;
        self.buffer[h] = ch;
        self.head = if h + 1 == self.capacity { 0 } else { h + 1 };
        if self.len < self.capacity {
            self.len = self.len + 1;
            assert forall|i: int| 0 <= i < old_self.len implies self.slot(i) == old_self.slot(i) && self.slot(i) != h by {
            }
            assert(self.slot(old_self.len as int) == h);
            assert(self@ =~= old_view.push(ch));
        } else {
            assert forall|i: int| 0 <= i < old_self.len - 1 implies self.slot(i) == old_self.slot(i + 1) && self.slot(i) != h by {
            }
            assert(self.slot(old_self.len - 1) == h);
            assert(self@ =~= keep_last(old_view.push(ch), old_self.cap()));
        }
    }

    /// Removes and returns the most recent character, if any.
    pub fn pop(&mut self) -> (r: Option<char>)
        ensures
            final(self).cap() == old(self).cap(),
            old(self)@.len() == 0 ==> r is None && final(self)@ == old(self)@,
            old(self)@.len() > 0 ==> r == Some(old(self)@.last()) && final(self)@ == old(self)@.drop_last(),
            final(self)@.len() <= final(self).cap(),
    {
        proof { use_type_invariant(&*self); }
        if self.len == 0 {
            return None;
        }
        let ghost old_view = self@;
        let ghost old_self = *self;
        proof { old_self.lemma_slot_in_range(old_self.len - 1); }
        self.head = if self.head == 0 { self.capacity - 1 } else { self.head - 1 };
        self.len = self.len - 1;
        assert(self.head == old_self.slot(old_self.len - 1));
        assert forall|i: int| 0 <= i < self.len implies self.slot(i) == old_self.slot(i) by {
        }
        assert(self@ =~= old_view.drop_last());
        Some(self.buffer[self.head])
    }

    /// Empties the buffer; the capacity is unchanged.
    pub fn clear(&mut self)
        ensures
            final(self).cap() == old(self).cap(),
            final(self)@ == Seq::<char>::empty(),
    {
        proof { use_type_invariant(&*self); }
        self.head = 0;
        self.len = 0;
        assert(self@ =~= Seq::<char>::empty());
    }

    /// The number of characters held, never more than the capacity.
    pub fn len(&self) -> (r: usize)
        ensures
            r == self@.len(),
            r <= self.cap(),
    {
        proof { use_type_invariant(self); }
        self.len
    }

    /// Whether the buffer holds no character.
    pub fn is_empty(&self) -> (r: bool)
        ensures
            r == (self@.len() == 0),
    {
        self.len == 0
    }

    /// The maximum number of characters the buffer keeps; the buffer never
    /// holds more.
    pub fn capacity(&self) -> (r: usize)
        ensures
            r == self.cap(),
            self@.len() <= r,
    {
        proof { use_type_invariant(self); }
        self.capacity
    }

    /// Physical index of the `i`-th oldest character.
    fn phys(&self, i: usize) -> (r: usize)
        requires
            i < self.len,
        ensures
            r == self.slot(i as int),
            r < self.capacity,
            r < self.buffer@.len(),
    {
        proof { use_type_invariant(self); }
        let start = if self.head >= self.len { self.head - self.len } else { self.head + (self.capacity - self.len) };
        if i < self.capacity - start { start + i } else { i - (self.capacity - start) }
    }

    /// Returns true if the buffer content ends with the given trigger.
    /// The empty trigger matches every buffer.
    pub fn ends_with(&self, trigger: &str) -> (r: bool)
        ensures
            r == ends_with_seq(self@, trigger@),
    {
        let mut n: usize = 0;
        for c in it: trigger.chars()
            invariant
                it.seq() == trigger@,
                n == it.index(),
                n <= self.len,
        {
            if n == self.len {
                return false;
            }
            n = n + 1;
        }
        let off = self.len - n;
        let mut k: usize = 0;
        for c in it: trigger.chars()
            invariant
                it.seq() == trigger@,
                k == it.index(),
                n == trigger@.len(),
                off + n == self.len,
                forall|j: int| 0 <= j < k ==> self@[off + j] == trigger@[j],
        {
            if self.buffer[self.phys(off + k)] != c {
                return false;
            }
            k = k + 1;
        }
        assert(self@.subrange(off as int, self@.len() as int) =~= trigger@);
        true
    }

    /// Appends the characters held, oldest first, to `out`.
    fn append_contents(&self, out: &mut String)
        ensures
            final(out)@ == old(out)@ + self@,
    {
        let ghost base = out@;
        let mut i: usize = 0;
        while i < self.len
            invariant
                i <= self.len,
                out@ == base + self@.take(i as int),
            decreases self.len - i,
        {
            push_char(out, self.buffer[self.phys(i)]);
            i = i + 1;
            assert(out@ =~= base + self@.take(i as int));
        }
        assert(self@.take(i as int) =~= self@);
    }

    /// Returns the buffer content, oldest character first.
    pub fn content(&self) -> (r: String)
        ensures
            r@ == self@,
    {
        let mut res = String::new();
        self.append_contents(&mut res);
        assert(res@ =~= self@);
        res
    }

    /// Writes the buffer content into `out`, replacing what it held and
    /// reusing its allocation.
    pub fn write_content_to(&self, out: &mut String)
        ensures
            final(out)@ == self@,
    {
        clear_string(out);
        self.append_contents(out);
        assert(out@ =~= self@);
    }

    /// Resizes the buffer to a new capacity, keeping the most recent
    /// characters that fit.
    pub fn resize(&mut self, new_capacity: usize)
        ensures
            final(self).cap() == new_capacity,
            final(self)@ == keep_last(old(self)@, new_capacity as nat),
            final(self)@.len() <= final(self).cap(),
    {
        proof { use_type_invariant(&*self); }
        if new_capacity == self.capacity {
            assert(self@ =~= keep_last(self@, new_capacity as nat));
            return;
        }
        if new_capacity == 0 {
            *self = KeyBuffer { buffer: Vec::new(), capacity: 0, head: 0, len: 0 };
            assert(self@ =~= keep_last(old(self)@, 0));
            return;
        }
        let ghost old_view = self@;
        let skip: usize = if self.len > new_capacity { self.len - new_capacity } else { 0 };
        let kept: usize = self.len - skip;
        let mut new_buf: Vec<char> = Vec::new();
        let mut i: usize = 0;
        while i < new_capacity
            invariant
                self@ == old_view,
                skip + kept == self.len,
                kept <= new_capacity,
                i <= new_capacity,
                new_buf@.len() == i,
                forall|j: int| 0 <= j < i && j < kept ==> new_buf@[j] == old_view[skip + j],
            decreases new_capacity - i,
        {
            if i < kept {
                new_buf.push(self.buffer[self.phys(skip + i)]);
            } else {
                new_buf.push('\0');
            }
            i = i + 1;
        }
        let head = if kept == new_capacity { 0 } else { kept };
        *self = KeyBuffer { buffer: new_buf, capacity: new_capacity, head, len: kept };
        assert forall|j: int| 0 <= j < kept implies self.slot(j) == j by {}
        assert(self@ =~= keep_last(old_view, new_capacity as nat));
    }
}

impl View for KeyBuffer {
    type V = Seq<char>;

    closed spec fn view(&self) -> Seq<char> {
        self.contents()
    }
}

// ---------------------------------------------------------------------------
// Laws
// ---------------------------------------------------------------------------

/// The buffer content after pushing the characters of `t` one by one onto a
/// buffer of capacity `cap` holding `s`.
pub open spec fn push_all(s: Seq<char>, t: Seq<char>, cap: nat) -> Seq<char>
    decreases t.len(),
{
    if t.len() == 0 {
        s
    } else {
        keep_last(push_all(s, t.drop_last(), cap).push(t.last()), cap)
    }
}

/// Pushing a character onto a buffer that is not full and then popping
/// gives back that character and the content as it was.
pub proof fn lemma_push_then_pop(s: Seq<char>, c: char, cap: nat)
    requires
        s.len() < cap,
    ensures
        keep_last(s.push(c), cap).len() > 0,
        keep_last(s.push(c), cap).last() == c,
        keep_last(s.push(c), cap).drop_last() == s,
{
    assert(s.push(c).drop_last() =~= s);
}

/// Appending the same character to a content and to a suffix of it keeps
/// the suffix relation.
pub proof fn lemma_ends_with_push(b: Seq<char>, t: Seq<char>, c: char)
    requires
        ends_with_seq(b, t),
    ensures
        ends_with_seq(b.push(c), t.push(c)),
{
    let x = b.push(c);
    let y = t.push(c);
    assert(x.subrange(x.len() - y.len(), x.len() as int) =~= y);
}

/// Dropping the oldest characters keeps every suffix that still fits.
pub proof fn lemma_ends_with_keep_last(b: Seq<char>, t: Seq<char>, n: nat)
    requires
        ends_with_seq(b, t),
        t.len() <= n,
    ensures
        ends_with_seq(keep_last(b, n), t),
{
    if b.len() > n {
        let k = keep_last(b, n);
        assert(k.subrange(k.len() - t.len(), k.len() as int) =~= b.subrange(
            b.len() - t.len(),
            b.len() as int,
        ));
    }
}

/// Every buffer ends with the empty trigger.
pub proof fn lemma_empty_trigger_matches(s: Seq<char>)
    ensures
        ends_with_seq(s, Seq::empty()),
{
    assert(s.subrange(s.len() as int, s.len() as int) =~= Seq::<char>::empty());
}

/// Resizing to a capacity that holds the whole content keeps it unchanged.
pub proof fn lemma_resize_keeps_fitting_content(s: Seq<char>, n: nat)
    requires
        s.len() <= n,
    ensures
        keep_last(s, n) == s,
{
}

/// Typing a trigger no longer than the buffer's capacity leaves the buffer
/// ending with that trigger, whatever it held before: every trigger that
/// fits is recognised as it is typed.
pub proof fn lemma_typed_trigger_matches(s: Seq<char>, t: Seq<char>, cap: nat)
    requires
        t.len() <= cap,
    ensures
        ends_with_seq(push_all(s, t, cap), t),
    decreases t.len(),
{
    if t.len() == 0 {
        let b = push_all(s, t, cap);
        assert(b.subrange(b.len() - 0, b.len() as int) =~= t);
    } else {
        let t0 = t.drop_last();
        lemma_typed_trigger_matches(s, t0, cap);
        let b = push_all(s, t0, cap);
        lemma_ends_with_push(b, t0, t.last());
        assert(t0.push(t.last()) =~= t);
        lemma_ends_with_keep_last(b.push(t.last()), t, cap);
    }
}

} // verus!
