//! What a character sink sends to the hardware, stated over character sequences.
use vstd::prelude::*;

verus! {

/// The byte that the output register receives for `c`: the low eight bits of
/// its scalar value.
pub open spec fn device_byte(c: char) -> u8 {
    c as u8
}

/// The bytes stored to the output register for one character: a newline goes
/// out as a carriage return followed by the newline.
pub open spec fn char_bytes(c: char) -> Seq<u8> {
    if c == '\n' {
        seq![device_byte('\r'), device_byte('\n')]
    } else {
        seq![device_byte(c)]
    }
}

/// The bytes stored to the output register, in order, for the text `s`.
pub open spec fn device_bytes(s: Seq<char>) -> Seq<u8>
    decreases s.len(),
{
    if s.len() == 0 {
        Seq::empty()
    } else {
        device_bytes(s.drop_last()) + char_bytes(s.last())
    }
}

/// The number of newline characters in `s`.
pub open spec fn newline_count(s: Seq<char>) -> nat
    decreases s.len(),
{
    if s.len() == 0 {
        0
    } else {
        newline_count(s.drop_last()) + if s.last() == '\n' { 1nat } else { 0nat }
    }
}

/// Adds `n` to a character counter that stops at the largest `usize`.
pub open spec fn counter_after(count: nat, n: nat) -> nat {
    if count + n > usize::MAX {
        usize::MAX as nat
    } else {
        count + n
    }
}

/// The number of characters in all of `texts` together.
pub open spec fn total_chars(texts: Seq<Seq<char>>) -> nat
    decreases texts.len(),
{
    if texts.len() == 0 {
        0
    } else {
        total_chars(texts.drop_last()) + texts.last().len()
    }
}

/// The value of a character counter that started at zero and was given each
/// text of `texts` in turn.
pub open spec fn count_for(texts: Seq<Seq<char>>) -> nat {
    counter_after(0, total_chars(texts))
}

/// Text without a newline goes out one byte per character, and advances the
/// counter by its length when that stays below the counter's limit.
pub proof fn lemma_plain_text(count: nat, s: Seq<char>)
    requires
        !s.contains('\n'),
        count + s.len() <= usize::MAX,
    ensures
        device_bytes(s).len() == s.len(),
        counter_after(count, s.len()) == count + s.len(),
{
    lemma_no_newline_count(s);
    lemma_newlines_add_returns(count, s);
}

/// Text with `k` newlines goes out as its length plus `k` bytes, one carriage
/// return before each newline, while the counter advances by its length alone
/// when that stays below the counter's limit.
pub proof fn lemma_newlines_add_returns(count: nat, s: Seq<char>)
    requires
        count + s.len() <= usize::MAX,
    ensures
        device_bytes(s).len() == s.len() + newline_count(s),
        counter_after(count, s.len()) == count + s.len(),
    decreases s.len(),
{
    if s.len() > 0 {
        lemma_newlines_add_returns(count, s.drop_last());
    }
}

proof fn lemma_no_newline_count(s: Seq<char>)
    requires
        !s.contains('\n'),
    ensures
        newline_count(s) == 0,
    decreases s.len(),
{
    if s.len() > 0 {
        let t = s.drop_last();
        assert forall|i: int| 0 <= i < t.len() implies t[i] != '\n' by {
            assert(s[i] == t[i]);
        }
        lemma_no_newline_count(t);
        assert(s[s.len() - 1] == s.last());
    }
}

/// Two texts written one after the other send the bytes of the first and then
/// those of the second, which are the bytes of the two texts joined, and leave
/// the counter where one write of the joined text leaves it.
pub proof fn lemma_serialized_writes(count: nat, s1: Seq<char>, s2: Seq<char>)
    requires
        count <= usize::MAX,
    ensures
        device_bytes(s1) + device_bytes(s2) == device_bytes(s1 + s2),
        counter_after(counter_after(count, s1.len()), s2.len()) == counter_after(
            count,
            (s1 + s2).len(),
        ),
    decreases s2.len(),
{
    if s2.len() == 0 {
        assert(s1 + s2 =~= s1);
        assert(device_bytes(s1) + device_bytes(s2) =~= device_bytes(s1));
    } else {
        let t = s2.drop_last();
        lemma_serialized_writes(count, s1, t);
        assert((s1 + s2).drop_last() =~= s1 + t);
        assert((s1 + s2).last() == s2.last());
        assert(device_bytes(s1) + device_bytes(s2) =~= device_bytes(s1) + device_bytes(t)
            + char_bytes(s2.last()));
    }
}

/// Writing empty text sends nothing and leaves the counter as it was.
pub proof fn lemma_empty_write(count: nat)
    requires
        count <= usize::MAX,
    ensures
        device_bytes(Seq::<char>::empty()) == Seq::<u8>::empty(),
        counter_after(count, 0) == count,
{
}

/// Each completed write moves the counter in one step from the value it had
/// before the write to the value after it, and never down: no value in
/// between is ever held.
pub proof fn lemma_counter_steps(texts: Seq<Seq<char>>, s: Seq<char>)
    ensures
        count_for(texts.push(s)) == counter_after(count_for(texts), s.len()),
        count_for(texts) <= count_for(texts.push(s)),
        count_for(texts) <= usize::MAX,
{
    assert(texts.push(s).drop_last() =~= texts);
}

/// The byte sent for `c`, computed on the machine.
pub fn byte_of(c: char) -> (b: u8)
    ensures
        b == device_byte(c),
{
    c as u8
}

} // verus!
