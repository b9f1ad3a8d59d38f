//! The search for the trap frame of a marked thread.
//!
//! Memory is looked at as an array of 32-bit words. A word is taken for the
//! flags of the thread if the frame around it bears the five marks, the
//! thread's instruction and stack pointers and the stack selector of user
//! code. A frame starts 376 bytes, or 94 words, before its flags, so the
//! search starts at word 94: no word before it has room for a frame.

use vstd::prelude::*;
use crate::iopl::ktrap_frame::TrapFrame;
use crate::iopl::level::Level;
use crate::iopl::types::ThreadState;

verus! {

/// The index of the first word that is looked at: the first that has
/// room for a frame before it.
pub const FIRST_INDEX: usize = 94;

/// Regions of more than this many bytes are searched by several workers.
pub const MULTITHREADING_SIZE_THRESHOLD: usize = 0x1000_0000;

/// Is the frame that of the thread: does it bear the marks, the thread's
/// instruction and stack pointers and the user stack selector?
pub open spec fn is_frame_of(frame: TrapFrame, state: ThreadState) -> bool {
    &&& frame.rax == 0x1EE7_C0DE
    &&& frame.rcx == 0xC0_FFEE
    &&& frame.rdx == 0xC_ACA0
    &&& frame.r8 == 0x7EA
    &&& frame.r9 == 0xFA_CADE
    &&& frame.rip == state.spec_rip()
    &&& frame.rsp == state.spec_rsp()
    &&& frame.seg_ss == 0x2b
}

/// Is the word at byte `at` the flags word of the thread's frame? The
/// frame starts 376 bytes before it and must lie in the bytes entirely.
pub open spec fn is_desired_eflags(bytes: Seq<u8>, at: int, state: ThreadState) -> bool {
    &&& at >= 376
    &&& at + 24 <= bytes.len()
    &&& is_frame_of(TrapFrame::at(bytes, at - 376), state)
}

/// Is the word with the given index the flags word of the thread's frame?
pub open spec fn is_desired_word(bytes: Seq<u8>, index: int, state: ThreadState) -> bool {
    is_desired_eflags(bytes, 4 * index, state)
}

/// The byte offset of the first word, among those with indices from
/// `from` up to `to`, that is the flags word of the thread's frame.
pub open spec fn first_eflags(bytes: Seq<u8>, from: int, to: int, state: ThreadState) -> Option<
    int,
>
    decreases to - from,
{
    if from >= to {
        None
    } else if is_desired_word(bytes, from, state) {
        Some(4 * from)
    } else {
        first_eflags(bytes, from + 1, to, state)
    }
}

/// The byte offset of the flags word of the thread's frame in a region:
/// that of the first word of the region that is one.
pub open spec fn eflags_in(bytes: Seq<u8>, state: ThreadState) -> Option<int> {
    first_eflags(bytes, 94, bytes.len() as int / 4, state)
}

/// A flags word with the privilege level put into it: the level's two
/// bits are added to those that are set.
pub open spec fn with_iopl(eflags: u32, level: Level) -> u32 {
    eflags | (level.spec_value() << 12)
}

/// What `first_eflags` finds is a flags word of the thread's frame, four
/// bytes wide at a multiple of four, with its whole frame in the region,
/// and no word before it in the range is one.
pub proof fn lemma_first_eflags(bytes: Seq<u8>, from: int, to: int, state: ThreadState)
    ensures
        match first_eflags(bytes, from, to, state) {
            Some(at) => 4 * from <= at < 4 * to && at % 4 == 0 && is_desired_eflags(
                bytes,
                at,
                state,
            ) && forall|i: int|
                from <= i && 4 * i < at ==> !#[trigger] is_desired_word(bytes, i, state),
            None => forall|i: int| from <= i < to ==> !#[trigger] is_desired_word(bytes, i, state),
        },
    decreases to - from,
{
    if from < to && !is_desired_word(bytes, from, state) {
        lemma_first_eflags(bytes, from + 1, to, state);
    }
}

/// The flags word of a frame lies 376 bytes into the frame: the search
/// gives the offset of the first word around which, 376 bytes before it, a
/// frame of the thread starts.
pub proof fn lemma_finds_frame(bytes: Seq<u8>, index: int, state: ThreadState)
    requires
        is_desired_word(bytes, index, state),
        forall|i: int| 0 <= i < index ==> !#[trigger] is_desired_word(bytes, i, state),
    ensures
        eflags_in(bytes, state) == Some(4 * index),
        is_frame_of(TrapFrame::at(bytes, 4 * index - 376), state),
{
    let to = bytes.len() as int / 4;
    assert(94 <= index < to) by {
        assert(4 * index >= 376);
        assert(4 * index + 24 <= bytes.len());
    }
    lemma_first_found(bytes, 94, to, index, state);
}

/// No word of a region is passed over: where the search finds nothing,
/// no word of the region is the flags word of a frame of the thread, and
/// where it finds a word, none before that is one.
pub proof fn lemma_searches_every_word(bytes: Seq<u8>, state: ThreadState)
    ensures
        match eflags_in(bytes, state) {
            Some(at) => at % 4 == 0 && is_desired_eflags(bytes, at, state) && forall|i: int|
                4 * i < at ==> !#[trigger] is_desired_word(bytes, i, state),
            None => forall|i: int| !#[trigger] is_desired_word(bytes, i, state),
        },
{
    let to = bytes.len() as int / 4;
    lemma_first_eflags(bytes, 94, to, state);
    assert forall|i: int| i < 94 || i >= to implies !#[trigger] is_desired_word(
        bytes,
        i,
        state,
    ) by {
        if i >= to {
            assert(4 * i + 4 > bytes.len());
        }
    }
}

proof fn lemma_first_found(bytes: Seq<u8>, from: int, to: int, index: int, state: ThreadState)
    requires
        from <= index < to,
        is_desired_word(bytes, index, state),
        forall|i: int| from <= i < index ==> !#[trigger] is_desired_word(bytes, i, state),
    ensures
        first_eflags(bytes, from, to, state) == Some(4 * index),
    decreases index - from,
{
    if from < index {
        assert(!is_desired_word(bytes, from, state));
        lemma_first_found(bytes, from + 1, to, index, state);
    }
}

/// Is the word at byte `at` the flags word of the thread's frame?
pub fn is_desired(bytes: &[u8], at: usize, state: &ThreadState) -> (r: bool)
    ensures
        r == is_desired_eflags(bytes@, at as int, *state),
{
    let length = bytes.len();
    if at < TrapFrame::OFFSET_EFLAGS || length < 24 || at > length - 24 {
        return false;
    }
    let frame = TrapFrame::read(bytes, at - TrapFrame::OFFSET_EFLAGS);
    frame.rax == crate::iopl::consts::MARK_RAX && frame.rcx == crate::iopl::consts::MARK_RCX
        && frame.rdx == crate::iopl::consts::MARK_RDX && frame.r8 == crate::iopl::consts::MARK_R8
        && frame.r9 == crate::iopl::consts::MARK_R9 && frame.rip == state.rip() && frame.rsp
        == state.rsp() && frame.seg_ss == crate::iopl::consts::USER_STACK_SELECTOR
}

/// Searches the words with indices from `from` up to `to`.
pub fn find_in(bytes: &[u8], state: &ThreadState, from: usize, to: usize) -> (r: Option<usize>)
    requires
        4 * to <= bytes@.len(),
    ensures
        match r {
            Some(at) => first_eflags(bytes@, from as int, to as int, *state) == Some(at as int),
            None => first_eflags(bytes@, from as int, to as int, *state) is None,
        },
{
    let length = bytes.len();
    let mut index: usize = from;
    while index < to
        invariant
            from <= index,
            4 * to <= bytes@.len(),
            length == bytes@.len(),
            first_eflags(bytes@, from as int, to as int, *state) == first_eflags(
                bytes@,
                index as int,
                to as int,
                *state,
            ),
        decreases to - index,
    {
        if is_desired(bytes, 4 * index, state) {
            return Some(4 * index);
        }
        index += 1;
    }
    None
}

/// Searches a region for the flags word of the thread's frame.
pub fn find_eflags(bytes: &[u8], state: &ThreadState) -> (r: Option<usize>)
    ensures
        match r {
            Some(at) => eflags_in(bytes@, *state) == Some(at as int) && at + 4 <= bytes@.len(),
            None => eflags_in(bytes@, *state) is None,
        },
{
    proof {
        lemma_first_eflags(bytes@, 94, bytes@.len() as int / 4, *state);
    }
    find_in(bytes, state, FIRST_INDEX, bytes.len() / 4)
}

/// Is a region of the given size searched by several workers?
pub fn needs_workers(region_size: usize) -> (r: bool)
    ensures
        r == (region_size > 0x1000_0000),
{
    region_size > MULTITHREADING_SIZE_THRESHOLD
}

/// The ranges of word indices that `workers` workers search in a region of
/// `words` words: one for each worker, one after the other from the first
/// word looked at, each of `(words - 94) / workers` words but the last,
/// which goes to the end. With fewer words than workers to look at there
/// is one range for all.
pub fn worker_ranges(words: usize, workers: usize) -> (r: Vec<(usize, usize)>)
    requires
        workers > 0,
    ensures
        words <= 94 ==> r@.len() == 0,
        words > 94 ==> r@.len() > 0 && r@[0].0 == 94 && r@.last().1 == words,
        words >= 94 + workers ==> r@.len() == workers,
        94 < words < 94 + workers ==> r@.len() == 1,
        forall|i: int| 0 <= i < r@.len() ==> (#[trigger] r@[i]).0 < r@[i].1,
        forall|i: int| 0 < i < r@.len() ==> (#[trigger] r@[i]).0 == r@[i - 1].1,
        forall|i: int|
            0 <= i < r@.len() - 1 ==> (#[trigger] r@[i]).1 - r@[i].0 == (words - 94) / (
            workers as int),
{
    let mut out: Vec<(usize, usize)> = Vec::new();
    if words <= FIRST_INDEX {
        return out;
    }
    let room = words - FIRST_INDEX;
    let each = room / workers;
    if each == 0 {
        out.push((FIRST_INDEX, words));
        proof {
            vstd::arithmetic::div_mod::lemma_fundamental_div_mod(room as int, workers as int);
            vstd::arithmetic::div_mod::lemma_mod_bound(room as int, workers as int);
        }
        return out;
    }
    proof {
        vstd::arithmetic::div_mod::lemma_fundamental_div_mod(room as int, workers as int);
        vstd::arithmetic::div_mod::lemma_mod_bound(room as int, workers as int);
        assert(workers * each <= room) by (nonlinear_arith)
            requires
                room == workers * each + room % workers,
                0 <= room % workers,
        ;
        assert(room >= workers) by (nonlinear_arith)
            requires
                workers * each <= room,
                each >= 1,
                workers >= 1,
        ;
    }
    let mut i: usize = 0;
    let mut from: usize = FIRST_INDEX;
    while i < workers
        invariant
            0 <= i <= workers,
            each > 0,
            each == room / workers,
            room == words - 94,
            workers * each <= room,
            i < workers ==> from == 94 + i * each,
            i == workers ==> from == words,
            out@.len() == i,
            i > 0 ==> out@[0].0 == 94 && out@.last().1 == from,
            forall|k: int| 0 <= k < out@.len() ==> (#[trigger] out@[k]).0 < out@[k].1,
            forall|k: int| 0 < k < out@.len() ==> (#[trigger] out@[k]).0 == out@[k - 1].1,
            forall|k: int|
                0 <= k < out@.len() && k < workers - 1 ==> (#[trigger] out@[k]).1 - out@[k].0
                    == each,
        decreases workers - i,
    {
        proof {
            assert((i + 1) * each <= workers * each) by (nonlinear_arith)
                requires
                    i + 1 <= workers,
                    each >= 0,
            ;
            assert((i + 1) * each == i * each + each) by (nonlinear_arith);
        }
        let to = if i + 1 == workers {
            words
        } else {
            from + each
        };
        out.push((from, to));
        from = to;
        i += 1;
    }
    out
}

/// The first find of workers that each searched one of consecutive ranges.
pub fn first_found(finds: &Vec<Option<usize>>) -> (r: Option<usize>)
    ensures
        match r {
            Some(at) => exists|i: int|
                0 <= i < finds@.len() && #[trigger] finds@[i] == Some(at) && forall|k: int|
                    0 <= k < i ==> finds@[k] is None,
            None => forall|i: int| 0 <= i < finds@.len() ==> finds@[i] is None,
        },
{
    let mut i: usize = 0;
    while i < finds.len()
        invariant
            0 <= i <= finds@.len(),
            forall|k: int| 0 <= k < i ==> finds@[k] is None,
        decreases finds@.len() - i,
    {
        match finds[i] {
            Some(at) => {
                return Some(at);
            },
            None => {},
        }
        i += 1;
    }
    None
}

/// Puts a privilege level into a flags word.
pub fn raise(eflags: u32, level: Level) -> (r: u32)
    ensures
        r == with_iopl(eflags, level),
        level == Level::Ring3 ==> r & 0x3000 == 0x3000,
        r & !0x3000u32 == eflags & !0x3000u32,
{
    let value: u32 = level.value();
    let bits: u32 = value << crate::iopl::consts::EFLAGS_IOPL_OFFSET;
    let r = eflags | bits;
    assert(value == 3 ==> (eflags | (value << 12u32)) & 0x3000 == 0x3000) by (bit_vector);
    assert(value <= 3 ==> (eflags | (value << 12u32)) & !0x3000u32 == eflags & !0x3000u32)
        by (bit_vector);
    r
}

} // verus!
