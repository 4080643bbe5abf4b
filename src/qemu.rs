//! The QEMU output device: its counter state and the handle that guards it.
use vstd::prelude::*;
use crate::console::{All, Read, Statistics, Write};
use crate::device::{byte_of, count_for, counter_after, device_bytes};

verus! {

/// The state behind the device handle: how many characters were written.
pub struct QEMUOutputInner {
    chars_written: usize,
    /// The texts of the writes completed so far, oldest first.
    completed: Ghost<Seq<Seq<char>>>,
}

impl QEMUOutputInner {
    /// The counter always equals what the completed writes add up to.
    #[verifier::type_invariant]
    spec fn counts_completed(&self) -> bool {
        self.chars_written as nat == count_for(self.completed@)
    }

    /// The texts of the writes completed so far, oldest first.
    pub closed spec fn history(&self) -> Seq<Seq<char>> {
        self.completed@
    }

    /// The counter's value.
    pub open spec fn written(&self) -> nat {
        count_for(self.history())
    }

    /// A state in which nothing has been written yet.
    pub fn new() -> (r: QEMUOutputInner)
        ensures
            r.history() == Seq::<Seq<char>>::empty(),
            r.written() == 0,
    {
        QEMUOutputInner { chars_written: 0, completed: Ghost(Seq::empty()) }
    }

    /// The bytes to store, in order, to send `s` to the device, and the
    /// counter advanced by the number of characters in `s`.
    pub fn write_str(&mut self, s: &str) -> (sent: Vec<u8>)
        ensures
            sent@ == device_bytes(s@),
            final(self).history() == old(self).history().push(s@),
            final(self).written() == counter_after(old(self).written(), s@.len()),
    {
        proof { use_type_invariant(&*self); }
        let n = s.unicode_len();
        let mut sent: Vec<u8> = Vec::new();
        for c in it: s.chars()
            invariant
                it.seq() == s@,
                sent@ == device_bytes(s@.take(it.index())),
        {
            if c == '\n' {
                sent.push(byte_of('\r'));
            }
            sent.push(byte_of(c));
            proof {
                assert(s@.take(it.index() + 1).drop_last() == s@.take(it.index()));
            }
        }
        proof {
            assert(s@.take(s@.len() as int) == s@);
        }
        let count = self.chars_written.saturating_add(n);
        let ghost texts = self.completed@.push(s@);
        proof {
            assert(texts.drop_last() =~= self.completed@);
        }
        *self = QEMUOutputInner { chars_written: count, completed: Ghost(texts) };
        sent
    }

    /// The counter's value.
    pub fn chars_written(&self) -> (r: usize)
        ensures
            r as nat == self.written(),
    {
        proof { use_type_invariant(self); }
        self.chars_written
    }
}

/// The handle to the QEMU output device; the only way to reach its state.
pub struct QEMUOutput {
    inner: QEMUOutputInner,
}

impl QEMUOutput {
    /// A handle whose counter is zero.
    pub fn new() -> (r: QEMUOutput)
        ensures
            r.history() == Seq::<Seq<char>>::empty(),
            r.chars_count() == 0,
    {
        QEMUOutput { inner: QEMUOutputInner::new() }
    }

    /// The texts of the writes completed so far, oldest first.
    pub closed spec fn history(&self) -> Seq<Seq<char>> {
        self.inner.history()
    }
}

impl Statistics for QEMUOutput {
    open spec fn chars_count(&self) -> nat {
        count_for(self.history())
    }

    fn chars_written(&self) -> (r: usize) {
        self.inner.chars_written()
    }
}

impl Write for QEMUOutput {
    fn write_str(&mut self, s: &str) -> (sent: Vec<u8>)
        ensures
            final(self).history() == old(self).history().push(s@),
    {
        self.inner.write_str(s)
    }
}

impl Read for QEMUOutput {
}

impl All for QEMUOutput {
}

} // verus!
