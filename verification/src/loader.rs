//! The image loader: a stream of big-endian words, of which the
//! first is the starting program counter and the rest fill memory
//! from that address on.

use vstd::prelude::*;

use crate::lc3_virtual_machine::LC3VirtualMachine;
use crate::semantics::{initial_state, with_mem, wrap_add, MachineState, MEMORY_SIZE};

verus! {

/// The big-endian word of two bytes.
pub open spec fn be_word(high: u8, low: u8) -> u16 {
    (high * 256 + low) as u16
}

/// Relies on byteorder's BigEndian::read_u16: the big-endian word of
/// the two bytes at `offset`.
#[verifier::external_body]
fn read_u16_be(bytes: &[u8], offset: usize) -> (r: u16)
    requires
        offset + 2 <= bytes@.len(),
    ensures
        r == be_word(bytes@[offset as int], bytes@[offset as int + 1]),
{
    <byteorder::BigEndian as byteorder::ByteOrder>::read_u16(&bytes[offset..])
}

/// The words of an image after its leading address word; a truncated
/// final byte is dropped.
pub open spec fn image_words(bytes: Seq<u8>) -> Seq<u16>
    recommends
        bytes.len() >= 2,
{
    Seq::new(
        (((bytes.len() - 2) as int) / 2) as nat,
        |k: int| be_word(bytes[2 + 2 * k], bytes[3 + 2 * k]),
    )
}

/// The memory after the words are stored at successive addresses,
/// starting at `start` and wrapping past the last address.
pub open spec fn written_words(mem: Seq<u16>, start: u16, words: Seq<u16>) -> Seq<u16>
    decreases words.len(),
{
    if words.len() == 0 {
        mem
    } else {
        written_words(mem.update(start as int, words[0]), wrap_add(start, 1), words.drop_first())
    }
}

/// The machine an image boots into: registers zero but for the
/// program counter at the image's leading word, and the image's
/// remaining words in memory from that address on.
pub open spec fn loaded_state(bytes: Seq<u8>) -> MachineState
    recommends
        bytes.len() >= 2,
{
    let origin = be_word(bytes[0], bytes[1]);
    let base = initial_state(origin);
    with_mem(base, written_words(base.mem, origin, image_words(bytes)))
}

/// Writing words somewhere never changes how many words there are.
pub proof fn lemma_written_words_len(mem: Seq<u16>, start: u16, words: Seq<u16>)
    requires
        mem.len() == MEMORY_SIZE,
    ensures
        written_words(mem, start, words).len() == mem.len(),
    decreases words.len(),
{
    if words.len() != 0 {
        lemma_written_words_len(
            mem.update(start as int, words[0]),
            wrap_add(start, 1),
            words.drop_first(),
        );
    }
}

/// How many addresses lie from `start` up to `addr`, walking forward
/// with wrap-around.
pub open spec fn wrap_distance(start: u16, addr: u16) -> int {
    if addr >= start {
        addr - start
    } else {
        addr + 0x10000 - start
    }
}

/// A run of writes leaves every address beyond its reach unchanged.
proof fn lemma_written_words_untouched(mem: Seq<u16>, start: u16, words: Seq<u16>, addr: u16)
    requires
        mem.len() == MEMORY_SIZE,
        words.len() <= wrap_distance(start, addr),
    ensures
        written_words(mem, start, words)[addr as int] == mem[addr as int],
    decreases words.len(),
{
    if words.len() != 0 {
        lemma_written_words_untouched(
            mem.update(start as int, words[0]),
            wrap_add(start, 1),
            words.drop_first(),
            addr,
        );
    }
}

/// The `k`-th written word lands `k` addresses past `start` and stays
/// there, as long as the words are no more than the memory holds.
pub proof fn lemma_written_words_at(mem: Seq<u16>, start: u16, words: Seq<u16>, k: u16)
    requires
        mem.len() == MEMORY_SIZE,
        (k as int) < words.len() <= 0x10000,
    ensures
        written_words(mem, start, words)[wrap_add(start, k) as int] == words[k as int],
    decreases k,
{
    let rest = words.drop_first();
    let next = mem.update(start as int, words[0]);
    if k == 0 {
        lemma_written_words_untouched(next, wrap_add(start, 1), rest, start);
    } else {
        lemma_written_words_at(next, wrap_add(start, 1), rest, (k - 1) as u16);
        assert(wrap_add(wrap_add(start, 1), (k - 1) as u16) == wrap_add(start, k));
    }
}

/// Build the machine an image describes: the first big-endian word
/// is the starting program counter, each further word fills the next
/// memory address.  An image too short to hold even its leading word
/// is rejected.
pub fn load_program_image(bytes: &[u8]) -> (r: Option<LC3VirtualMachine>)
    ensures
        r is Some <==> bytes@.len() >= 2,
        (match r {
            Some(vm) => vm@ == loaded_state(bytes@),
            None => true,
        }),
{
    if bytes.len() < 2 {
        return None;
    }
    let origin = read_u16_be(bytes, 0);
    let mut virtual_machine = LC3VirtualMachine::new(origin);
    let ghost words = image_words(bytes@);
    let count: usize = (bytes.len() - 2) / 2;
    let mut address: u16 = origin;
    let mut k: usize = 0;
    proof {
        assert(words.skip(0) =~= words);
        assert(2 * (count as int) <= bytes@.len() - 2);
    }
    while k < count
        invariant
            k <= count,
            count == words.len(),
            2 * (count as int) <= bytes@.len() - 2,
            bytes@.len() >= 2,
            bytes@.len() <= usize::MAX,
            words == image_words(bytes@),
            virtual_machine@.regs == initial_state(origin).regs,
            virtual_machine@.halted == initial_state(origin).halted,
            virtual_machine@.mem.len() == MEMORY_SIZE,
            written_words(virtual_machine@.mem, address, words.skip(k as int)) == written_words(
                initial_state(origin).mem,
                origin,
                words,
            ),
        decreases count - k,
    {
        let word = read_u16_be(bytes, 2 + 2 * k);
        let ghost before = virtual_machine@.mem;
        virtual_machine.memory_write(address, word);
        proof {
            assert(words.skip(k as int)[0] == words[k as int]);
            assert(words.skip(k as int).drop_first() =~= words.skip(k as int + 1));
            assert(written_words(before, address, words.skip(k as int)) == written_words(
                virtual_machine@.mem,
                wrap_add(address, 1),
                words.skip(k as int + 1),
            ));
        }
        address = address.wrapping_add(1);
        k = k + 1;
    }
    proof {
        assert(words.skip(count as int) =~= Seq::empty());
        assert(virtual_machine@ =~= loaded_state(bytes@));
    }
    Some(virtual_machine)
}

} // verus!
