//! What holds of the machine whatever state it is in: laws of the decoder
//! and of the transition function, each proved from their definitions.

use crate::instructions::{Address, Instruction};
use crate::interpreter::{Fault, Status};
use crate::memory::MachineState;
use crate::semantics::{
    advance, apply, assign, awaits_key, bit_of, collides, cycle, decode, drawn, encode, fetch,
    flag, is_key, is_lowest_key, lights, lowest_key, release, sprite_pixel, toggle,
};
use vstd::prelude::*;

verus! {

/// Every word decodes to an operation whose operands are in range.
pub proof fn lemma_decode_well_formed(high_byte: u8, low_byte: u8)
    ensures
        decode(high_byte, low_byte).wf(),
{
}

/// Decoding the word of an operation gives the operation back, operands
/// and all.
pub proof fn lemma_decode_encode(op: Instruction)
    requires
        op.wf(),
    ensures
        decode(encode(op).0, encode(op).1) == op,
{
}

/// Only the random operation looks at the random byte.
pub proof fn lemma_random_byte_ignored(
    s: MachineState,
    op: Instruction,
    keys: Seq<u8>,
    first: u8,
    second: u8,
)
    requires
        !(op is Random),
    ensures
        apply(s, op, keys, first) == apply(s, op, keys, second),
{
}

/// A refused operation leaves the state and the pressed keys as they were.
pub proof fn lemma_refused_changes_nothing(s: MachineState, op: Instruction, keys: Seq<u8>, random: u8)
    ensures
        apply(s, op, keys, random).result is Err ==> apply(s, op, keys, random).state == s && apply(
            s,
            op,
            keys,
            random,
        ).keys == keys,
{
}

/// When an operation is refused, and with which fault: outside memory
/// where the program counter does not name two bytes inside memory, where a
/// sprite, the three digits of a number or a block of registers would reach
/// beyond the last byte of memory, and where the index register would move
/// beyond it; as no operation where it is none; as a stack overflow where a
/// call finds sixteen return addresses on the stack; as a stack underflow
/// where a return finds none. Every other operation works.
pub proof fn lemma_when_refused(s: MachineState, op: Instruction, keys: Seq<u8>, random: u8)
    ensures
        ({
            let fault = match apply(s, op, keys, random).result {
                Ok(_) => None,
                Err(fault) => Some(fault),
            };
            let reaches_outside = match op {
                Instruction::Draw { nibble, .. } => s.index + nibble > 4096,
                Instruction::AddAddressOffset { vx } => s.index + s.registers[vx as int] > 4095,
                Instruction::SetBCD { .. } => s.index + 2 > 4095,
                Instruction::LoadRegisters { vx } => s.index + vx > 4095,
                Instruction::ReadRegisters { vx } => s.index + vx > 4095,
                _ => false,
            };
            &&& fault == Some(Fault::AddressOutOfRange) <==> !s.can_fetch() || reaches_outside
            &&& fault == Some(Fault::DecodeInvalid) <==> s.can_fetch() && op is Invalid
            &&& fault == Some(Fault::StackOverflow) <==> s.can_fetch() && op is Call
                && s.stack.len() >= 16
            &&& fault == Some(Fault::StackUnderflow) <==> s.can_fetch() && op is Return
                && s.stack.len() == 0
        }),
{
}

/// An operation takes a well-formed state to a well-formed state: the
/// call stack never grows beyond sixteen return addresses and every pixel
/// stays one bit.
pub proof fn lemma_apply_preserves_wf(s: MachineState, op: Instruction, keys: Seq<u8>, random: u8)
    requires
        s.wf(),
        op.wf(),
    ensures
        apply(s, op, keys, random).state.wf(),
{
}

/// Every operation but a jump, a call, a return and the key wait goes on
/// to the next instruction, two bytes on, or skips it and goes four bytes
/// on; what an operation is refused for aside.
pub proof fn lemma_program_counter_advances(
    s: MachineState,
    op: Instruction,
    keys: Seq<u8>,
    random: u8,
)
    requires
        op.wf(),
        !(op is JumpTo || op is JumpOffset || op is Call || op is Return || op is LoadKeyPressed),
        apply(s, op, keys, random).result is Ok,
    ensures
        ({
            let next = apply(s, op, keys, random).state.program_counter;
            let skips = op is SkipIfEqualByte || op is SkipIfNotEqualByte || op is SkipIfEqualReg
                || op is SkipIfNotEqualReg || op is SkipIfKeyPressed || op is SkipIfNotKeyPressed;
            next == s.program_counter + 2 || (skips && next == s.program_counter + 4)
        }),
{
}

/// No operation counts a timer down: the delay timer changes only where
/// it is set, and so does the sound timer.
pub proof fn lemma_timers_only_set(s: MachineState, op: Instruction, keys: Seq<u8>, random: u8)
    ensures
        !(op is SetDelay) ==> apply(s, op, keys, random).state.delay == s.delay,
        !(op is SetSound) ==> apply(s, op, keys, random).state.sound == s.sound,
{
}

/// Addition wraps modulo 256 and the flag register holds the carry: the
/// sum of the two operands is the new register plus 256 times the flag.
pub proof fn lemma_add_carries(s: MachineState, vx: usize, byte: u8, keys: Seq<u8>, random: u8)
    requires
        s.wf(),
        s.can_fetch(),
        vx < 15,
    ensures
        ({
            let next = apply(s, Instruction::AddByte { vx, byte }, keys, random).state;
            &&& next.registers[0xF] <= 1
            &&& next.registers[vx as int] + 256 * next.registers[0xF] == s.registers[vx as int]
                + byte
        }),
{
}

/// Subtraction wraps modulo 256 and the flag register is 0 exactly where
/// it borrowed: the minuend is the new register plus the subtrahend, less
/// 256 where the flag is 0.
pub proof fn lemma_subtract_borrows(s: MachineState, vx: usize, vy: usize, keys: Seq<u8>, random: u8)
    requires
        s.wf(),
        s.can_fetch(),
        vx < 15,
        vy < 16,
    ensures
        ({
            let next = apply(s, Instruction::Subtract { vx, vy }, keys, random).state;
            &&& next.registers[0xF] == flag(s.registers[vx as int] >= s.registers[vy as int])
            &&& next.registers[vx as int] - 256 * (1 - next.registers[0xF]) == s.registers[vx as int]
                - s.registers[vy as int]
        }),
{
}

/// A shift puts the bit that it shifts out into the flag register: the
/// old register is twice the new one plus the flag after a shift to the
/// right, and twice the old register is the new one plus 256 times the flag
/// after a shift to the left.
pub proof fn lemma_shift_keeps_lost_bit(s: MachineState, vx: usize, keys: Seq<u8>, random: u8)
    requires
        s.wf(),
        s.can_fetch(),
        vx < 15,
    ensures
        ({
            let right = apply(s, Instruction::ShiftRight { vx }, keys, random).state;
            let left = apply(s, Instruction::ShiftLeft { vx }, keys, random).state;
            &&& right.registers[0xF] <= 1
            &&& left.registers[0xF] <= 1
            &&& s.registers[vx as int] == 2 * right.registers[vx as int] + right.registers[0xF]
            &&& 2 * s.registers[vx as int] == left.registers[vx as int] + 256 * left.registers[0xF]
        }),
{
}

/// Releasing a key consumes every press of it and no press of another
/// key.
pub proof fn lemma_release_consumes(keys: Seq<u8>, key: u8, other: u8)
    ensures
        !release(keys, key).contains(key),
        other != key ==> release(keys, key).contains(other) == keys.contains(other),
    decreases keys.len(),
{
    reveal(Seq::filter);
    if keys.len() > 0 {
        let rest = keys.drop_last();
        lemma_release_consumes(rest, key, other);
        let kept = release(rest, key);
        assert(keys == rest.push(keys.last()));
        if keys.last() != key {
            assert(release(keys, key) == kept.push(keys.last()));
            assert(release(keys, key).last() == keys.last());
            if kept.contains(key) == false && release(keys, key).contains(key) {
                let at = choose|j: int|
                    0 <= j < release(keys, key).len() && release(keys, key)[j] == key;
                assert(kept[at] == key);
            }
            if other != key {
                if release(keys, key).contains(other) {
                    let at = choose|j: int|
                        0 <= j < release(keys, key).len() && release(keys, key)[j] == other;
                    if at < kept.len() {
                        assert(kept[at] == other);
                        assert(kept.contains(other));
                        let from = choose|j: int| 0 <= j < rest.len() && rest[j] == other;
                        assert(keys[from] == other);
                    } else {
                        assert(keys[keys.len() - 1] == other);
                    }
                }
                if keys.contains(other) {
                    let at = choose|j: int| 0 <= j < keys.len() && keys[j] == other;
                    if at < rest.len() {
                        assert(rest[at] == other);
                        assert(rest.contains(other));
                        let to = choose|j: int| 0 <= j < kept.len() && kept[j] == other;
                        assert(release(keys, key)[to] == other);
                    } else {
                        assert(release(keys, key)[kept.len() as int] == other);
                    }
                }
            }
        } else {
            assert(release(keys, key) == kept);
            if other != key {
                if kept.contains(other) {
                    let from = choose|j: int| 0 <= j < rest.len() && rest[j] == other;
                    assert(keys[from] == other);
                }
                if keys.contains(other) {
                    let at = choose|j: int| 0 <= j < keys.len() && keys[j] == other;
                    assert(rest[at] == other);
                }
            }
        }
    }
}

/// A skip on a pressed key consumes the press: once the skip has found the
/// key pressed, a test for the same key finds it not pressed.
pub proof fn lemma_key_press_is_consumed(s: MachineState, vx: usize, keys: Seq<u8>, random: u8)
    requires
        s.wf(),
        s.can_fetch(),
        vx < 16,
        keys.contains(s.registers[vx as int]),
    ensures
        ({
            let next = apply(s, Instruction::SkipIfKeyPressed { vx }, keys, random);
            &&& next.state == advance(s, 4)
            &&& !next.keys.contains(s.registers[vx as int])
        }),
{
    lemma_release_consumes(keys, s.registers[vx as int], 0);
}

/// The lowest pressed key, where there is one, is a pressed key of the
/// keypad that no other pressed key of the keypad is below; there is none
/// exactly where no key of the keypad is pressed.
pub proof fn lemma_lowest_key(keys: Seq<u8>)
    ensures
        match lowest_key(keys) {
            Some(key) => is_lowest_key(keys, key),
            None => forall|j: int| 0 <= j < keys.len() ==> !is_key(#[trigger] keys[j]),
        },
        forall|key: u8| is_lowest_key(keys, key) ==> lowest_key(keys) == Some(key),
    decreases keys.len(),
{
    if lowest_key(keys) is None {
        assert forall|j: int| 0 <= j < keys.len() implies !is_key(#[trigger] keys[j]) by {
            if is_key(keys[j]) {
                lemma_some_key_is_lowest(keys, j);
            }
        }
    }
    assert forall|key: u8| is_lowest_key(keys, key) implies lowest_key(keys) == Some(key) by {
        let chosen = choose|chosen: u8| is_lowest_key(keys, chosen);
        let at = choose|j: int| 0 <= j < keys.len() && keys[j] == key;
        let from = choose|j: int| 0 <= j < keys.len() && keys[j] == chosen;
        assert(keys[at] == key && keys[from] == chosen);
    }
}

/// Where a key of the keypad is pressed, one of the pressed keys is the
/// lowest.
proof fn lemma_some_key_is_lowest(keys: Seq<u8>, at: int)
    requires
        0 <= at < keys.len(),
        is_key(keys[at]),
    ensures
        exists|key: u8| is_lowest_key(keys, key),
    decreases keys.len(),
{
    let rest = keys.drop_last();
    let last = keys.last();
    if exists|j: int| 0 <= j < rest.len() && is_key(#[trigger] rest[j]) {
        let j = choose|j: int| 0 <= j < rest.len() && is_key(#[trigger] rest[j]);
        lemma_some_key_is_lowest(rest, j);
        let best = choose|key: u8| is_lowest_key(rest, key);
        let from = choose|j: int| 0 <= j < rest.len() && rest[j] == best;
        assert(keys[from] == best);
        if is_key(last) && last < best {
            assert(keys[keys.len() - 1] == last);
            assert forall|j: int| 0 <= j < keys.len() && is_key(#[trigger] keys[j]) implies last
                <= keys[j] by {
                if j < rest.len() {
                    assert(rest[j] == keys[j]);
                }
            }
            assert(is_lowest_key(keys, last));
        } else {
            assert forall|j: int| 0 <= j < keys.len() && is_key(#[trigger] keys[j]) implies best
                <= keys[j] by {
                if j < rest.len() {
                    assert(rest[j] == keys[j]);
                }
            }
            assert(is_lowest_key(keys, best));
        }
    } else {
        assert(at == keys.len() - 1) by {
            if at < rest.len() {
                assert(is_key(rest[at]));
            }
        }
        assert forall|j: int| 0 <= j < keys.len() && is_key(#[trigger] keys[j]) implies last
            <= keys[j] by {
            if j < rest.len() {
                assert(is_key(rest[j]));
            }
        }
        assert(keys[at] == last);
        assert(is_lowest_key(keys, last));
    }
}

/// While the machine waits for a key a cycle changes nothing in it and
/// reports that the host may go on: the program counter stays on the key
/// wait, cycle after cycle, for as long as no key of the keypad is pressed.
pub proof fn lemma_key_wait_holds(s: MachineState, keys: Seq<u8>, random: u8)
    requires
        awaits_key(s, keys),
    ensures
        cycle(s, keys, random).state == s,
        cycle(s, keys, random).status == Status::Continue,
{
}

/// The key wait ends in the first cycle that finds a key of the keypad
/// pressed: the lowest pressed key goes to the operation's register, the
/// program counter goes two bytes on and the presses are consumed.
pub proof fn lemma_key_wait_ends(s: MachineState, keys: Seq<u8>, random: u8, at: int)
    requires
        s.wf(),
        s.can_fetch(),
        fetch(s) is LoadKeyPressed,
        0 <= at < keys.len(),
        is_key(keys[at]),
    ensures
        ({
            let next = cycle(s, keys, random);
            let vx = fetch(s)->LoadKeyPressed_vx;
            &&& next.status == Status::Continue
            &&& next.state.program_counter == s.program_counter + 2
            &&& is_lowest_key(keys, next.state.registers[vx as int])
            &&& next.state == assign(s, vx as int, next.state.registers[vx as int])
            &&& next.keys.len() == 0
        }),
{
    lemma_some_key_is_lowest(keys, at);
    lemma_lowest_key(keys);
    lemma_decode_well_formed(s.ram[s.program_counter], s.ram[s.program_counter + 1]);
}

/// A call with room on the stack pushes the address of the instruction
/// after it and jumps to its target.
pub proof fn lemma_call_pushes(s: MachineState, target: Address, keys: Seq<u8>, random: u8)
    requires
        s.can_fetch(),
        s.stack.len() < 16,
    ensures
        ({
            let next = apply(s, Instruction::Call(target), keys, random);
            &&& next.result == Ok::<Option<(usize, usize, u8)>, Fault>(None)
            &&& next.state.stack == s.stack.push((s.program_counter + 2) as u16)
            &&& next.state.program_counter == target.value()
            &&& next.keys == keys
        }),
{
}

/// A call with sixteen return addresses on the stack is refused as a stack
/// overflow and changes nothing.
pub proof fn lemma_call_overflows(s: MachineState, target: Address, keys: Seq<u8>, random: u8)
    requires
        s.can_fetch(),
        s.stack.len() >= 16,
    ensures
        ({
            let next = apply(s, Instruction::Call(target), keys, random);
            &&& next.result == Err::<Option<(usize, usize, u8)>, Fault>(Fault::StackOverflow)
            &&& next.state == s
            &&& next.keys == keys
        }),
{
}

/// A return with nothing on the stack is refused as a stack underflow and
/// changes nothing.
pub proof fn lemma_return_underflows(s: MachineState, keys: Seq<u8>, random: u8)
    requires
        s.can_fetch(),
        s.stack.len() == 0,
    ensures
        ({
            let next = apply(s, Instruction::Return, keys, random);
            &&& next.result == Err::<Option<(usize, usize, u8)>, Fault>(Fault::StackUnderflow)
            &&& next.state == s
            &&& next.keys == keys
        }),
{
}

/// A return undoes a call: it comes back to the instruction after the
/// call, with the stack as it was before the call.
pub proof fn lemma_call_then_return(s: MachineState, target: Address, keys: Seq<u8>, random: u8)
    requires
        s.wf(),
        s.can_fetch(),
        s.stack.len() < 16,
        target.wf(),
        target.value() + 1 < 4096,
    ensures
        ({
            let called = apply(s, Instruction::Call(target), keys, random);
            let returned = apply(called.state, Instruction::Return, called.keys, random);
            &&& returned.result is Ok
            &&& returned.state == advance(s, 2)
        }),
{
    let called = apply(s, Instruction::Call(target), keys, random);
    let returned = apply(called.state, Instruction::Return, called.keys, random);
    assert(returned.state.stack =~= s.stack);
}

/// The state after the calls to each of `targets` in turn, or the fault
/// of the first of them that is refused.
pub open spec fn nested_calls(s: MachineState, targets: Seq<Address>) -> Result<MachineState, Fault>
    decreases targets.len(),
{
    if targets.len() == 0 {
        Ok(s)
    } else {
        match nested_calls(s, targets.drop_last()) {
            Ok(before) => {
                let next = apply(before, Instruction::Call(targets.last()), Seq::empty(), 0);
                match next.result {
                    Ok(_) => Ok(next.state),
                    Err(fault) => Err(fault),
                }
            },
            Err(fault) => Err(fault),
        }
    }
}

/// Nested calls succeed for as long as the stack holds no more than
/// sixteen return addresses, each call adding one above those that were
/// there; the call that would add a seventeenth is refused as a stack
/// overflow. So sixteen calls from an empty stack succeed and the next one
/// fails.
pub proof fn lemma_nested_calls(s: MachineState, targets: Seq<Address>)
    requires
        s.wf(),
        s.can_fetch(),
        forall|k: int|
            0 <= k < targets.len() ==> (#[trigger] targets[k]).wf() && targets[k].value() + 1
                < 4096,
    ensures
        s.stack.len() + targets.len() <= 16 ==> (nested_calls(s, targets) matches Ok(last)
            && last.wf() && last.can_fetch() && last.stack.len() == s.stack.len() + targets.len()
            && last.stack.take(s.stack.len() as int) == s.stack),
        s.stack.len() + targets.len() > 16 ==> nested_calls(s, targets) == Err::<
            MachineState,
            Fault,
        >(Fault::StackOverflow),
    decreases targets.len(),
{
    if targets.len() > 0 {
        let earlier = targets.drop_last();
        lemma_nested_calls(s, earlier);
        if s.stack.len() + earlier.len() <= 16 {
            let before = nested_calls(s, earlier)->Ok_0;
            let next = apply(before, Instruction::Call(targets.last()), Seq::empty(), 0);
            if before.stack.len() < 16 {
                assert(next.state.stack.take(s.stack.len() as int) =~= before.stack.take(
                    s.stack.len() as int,
                ));
            }
        }
    } else {
        assert(s.stack.take(s.stack.len() as int) =~= s.stack);
    }
}

/// On one-bit values a sprite bit is combined with a pixel by exclusive
/// or.
pub proof fn lemma_toggle_is_xor(pixel: u8, bit: u8)
    requires
        pixel <= 1,
        bit <= 1,
    ensures
        toggle(pixel, bit) == pixel ^ bit,
{
    assert(pixel ^ bit == (if bit == 1 {
        (1 - pixel) as u8
    } else {
        pixel
    })) by (bit_vector)
        requires
            pixel <= 1,
            bit <= 1,
    ;
}

/// A sprite wraps round the edges of the frame buffer: bit `offset` of
/// its row `line` goes to row `y + line` modulo 32 and column `x + offset`
/// modulo 64, where it flips the pixel if it is set. A pixel that no bit of
/// the sprite goes to stays as it was.
pub proof fn lemma_draw_wraps(s: MachineState, x: int, y: int, height: int, line: int, offset: int)
    requires
        s.wf(),
        0 <= x,
        0 <= y,
        0 <= height <= 32,
    ensures
        0 <= line < height && 0 <= offset < 8 ==> drawn(s, x, y, height)[(y + line) % 32][(x
            + offset) % 64] == toggle(
            s.display[(y + line) % 32][(x + offset) % 64],
            bit_of(s.ram[s.index + line], offset),
        ),
        forall|row: int, column: int|
            0 <= row < 32 && 0 <= column < 64 && ((row - y) % 32 >= height || (column - x) % 64
                >= 8) ==> #[trigger] drawn(s, x, y, height)[row][column] == s.display[row][column],
{
    if 0 <= line < height && 0 <= offset < 8 {
        let row = (y + line) % 32;
        let column = (x + offset) % 64;
        assert((row - y) % 32 == line);
        assert((column - x) % 64 == offset);
    }
}

/// Drawing the same sprite twice at the same place puts the frame buffer
/// back as it was, and the second draw reports a collision exactly where
/// the first one set a pixel. The coordinates are the same in both draws
/// where neither is read from the flag register, which the first draw
/// writes.
pub proof fn lemma_draw_twice(
    s: MachineState,
    vx: usize,
    vy: usize,
    nibble: u8,
    keys: Seq<u8>,
    random: u8,
)
    requires
        s.wf(),
        vx < 15,
        vy < 15,
        nibble < 16,
        apply(s, Instruction::Draw { vx, vy, nibble }, keys, random).result is Ok,
        apply(
            apply(s, Instruction::Draw { vx, vy, nibble }, keys, random).state,
            Instruction::Draw { vx, vy, nibble },
            keys,
            random,
        ).result is Ok,
    ensures
        ({
            let op = Instruction::Draw { vx, vy, nibble };
            let first = apply(s, op, keys, random);
            let second = apply(first.state, op, keys, random);
            let x = s.registers[vx as int] as int;
            let y = s.registers[vy as int] as int;
            &&& second.state.display == s.display
            &&& first.state.registers[0xF] == flag(collides(s, x, y, nibble as int))
            &&& second.state.registers[0xF] == flag(lights(s, x, y, nibble as int))
        }),
{
    let op = Instruction::Draw { vx, vy, nibble };
    let first = apply(s, op, keys, random);
    let second = apply(first.state, op, keys, random);
    let x = s.registers[vx as int] as int;
    let y = s.registers[vy as int] as int;
    let height = nibble as int;
    assert forall|row: int, column: int| 0 <= row < 32 && 0 <= column < 64 implies sprite_pixel(
        first.state,
        x,
        y,
        height,
        row,
        column,
    ) == #[trigger] sprite_pixel(s, x, y, height, row, column) by {}
    assert(second.state.display =~~= s.display);
    if collides(first.state, x, y, height) {
        let (row, column) = choose|row: int, column: int|
            0 <= row < 32 && 0 <= column < 64 && first.state.display[row][column] == 1
                && #[trigger] sprite_pixel(first.state, x, y, height, row, column) == 1;
        assert(sprite_pixel(s, x, y, height, row, column) == 1);
        assert(s.display[row][column] == 0);
    }
    if lights(s, x, y, height) {
        let (row, column) = choose|row: int, column: int|
            0 <= row < 32 && 0 <= column < 64 && s.display[row][column] == 0
                && #[trigger] sprite_pixel(s, x, y, height, row, column) == 1;
        assert(sprite_pixel(first.state, x, y, height, row, column) == 1);
        assert(first.state.display[row][column] == 1);
    }
}

} // verus!
