//! The ROM image that the assembler hands out: the character table, the
//! GPU command buffer filled with no-operation words, the bootstrap jump
//! into the entry routine, and the routines at their addresses.

use vstd::prelude::*;
use crate::program::{routine_views, Routine, RoutineView};
use crate::memory::{CODE_START, GPU_BUFFER_END, GPU_BUFFER_START, ROM_WORDS};
use crate::opcodes::{GPU_NO_OPERAT, JMP_TO_SR};

verus! {

/// Address of the bootstrap jump.
pub const BOOTSTRAP: u16 = CODE_START;

/// Address of the first routine.
pub const FIRST_ROUTINE: u16 = 0x1002;

/// The word that an image holds at `address` before any program is
/// written to it.
///
/// | addresses | content |
/// |---|---|
/// | `0x0200`–`0x0219` | `A` to `Z` |
/// | `0x021A`–`0x021F` | `!` `"` `#` `$` `[` `]` |
/// | `0x0220`–`0x0239` | `a` to `z` |
/// | `0x023A`–`0x023F` | `/` `<` `>` `=` `-` `~` |
/// | `0x0240`–`0x0249` | `0` to `9` |
/// | `0x024A`–`0x024F` | `:` `_` `|` `&` `?` `@` |
/// | `0x0250`, `0x0251` | space, full stop |
/// | `0x0300`–`0x0FFF` | GPU no-operation |
/// | elsewhere | zero |
pub open spec fn base_word(address: int) -> u16 {
    if 0x0200 <= address <= 0x0219 {
        (0x41 + (address - 0x0200)) as u16
    } else if address == 0x021A {
        0x21
    } else if address == 0x021B {
        0x22
    } else if address == 0x021C {
        0x23
    } else if address == 0x021D {
        0x24
    } else if address == 0x021E {
        0x5B
    } else if address == 0x021F {
        0x5D
    } else if 0x0220 <= address <= 0x0239 {
        (0x61 + (address - 0x0220)) as u16
    } else if address == 0x023A {
        0x2F
    } else if address == 0x023B {
        0x3C
    } else if address == 0x023C {
        0x3E
    } else if address == 0x023D {
        0x3D
    } else if address == 0x023E {
        0x2D
    } else if address == 0x023F {
        0x7E
    } else if 0x0240 <= address <= 0x0249 {
        (0x30 + (address - 0x0240)) as u16
    } else if address == 0x024A {
        0x3A
    } else if address == 0x024B {
        0x5F
    } else if address == 0x024C {
        0x7C
    } else if address == 0x024D {
        0x26
    } else if address == 0x024E {
        0x3F
    } else if address == 0x024F {
        0x40
    } else if address == 0x0250 {
        0x20
    } else if address == 0x0251 {
        0x2E
    } else if GPU_BUFFER_START <= address <= GPU_BUFFER_END {
        GPU_NO_OPERAT
    } else {
        0
    }
}

/// The image before any program is written to it.
pub open spec fn base_image() -> Seq<u16> {
    Seq::new(ROM_WORDS as nat, |address: int| base_word(address))
}

/// The image `rom` with the bootstrap jump to `entry` written to it.
pub open spec fn with_bootstrap(rom: Seq<u16>, entry: u16) -> Seq<u16> {
    rom.update(BOOTSTRAP as int, JMP_TO_SR).update(BOOTSTRAP + 1, entry)
}

/// The image `rom` with the words of `routine` written at its address.
pub open spec fn place(rom: Seq<u16>, routine: RoutineView) -> Seq<u16> {
    Seq::new(
        rom.len(),
        |address: int|
            if routine.address <= address < routine.address + routine.instructions.len() {
                routine.instructions[address - routine.address]
            } else {
                rom[address]
            },
    )
}

/// The image `rom` with all of `routines` written to it, in order.
pub open spec fn place_all(rom: Seq<u16>, routines: Seq<RoutineView>) -> Seq<u16>
    decreases routines.len(),
{
    if routines.len() == 0 {
        rom
    } else {
        place(place_all(rom, routines.drop_last()), routines.last())
    }
}

/// The image of a program: the last routine is the entry routine.
pub open spec fn image(routines: Seq<RoutineView>) -> Seq<u16> {
    place_all(with_bootstrap(base_image(), routines.last().address), routines)
}

/// Every routine of the list lies in the program area behind the
/// bootstrap.
pub open spec fn all_fit(routines: Seq<RoutineView>) -> bool {
    forall|i: int| 0 <= i < routines.len() ==> (#[trigger] routines[i]).fits()
}

/// The address behind a program: that of the word behind the free word
/// behind its last routine.
pub open spec fn program_end(routines: Seq<RoutineView>) -> int {
    if routines.len() == 0 {
        FIRST_ROUTINE as int
    } else {
        routines.last().address + routines.last().instructions.len() + 1
    }
}

/// The routines lie one behind the other from the first routine address
/// on, each followed by one free word, and all inside the program area.
pub open spec fn laid_out(routines: Seq<RoutineView>) -> bool
    decreases routines.len(),
{
    routines.len() > 0 ==> {
        &&& routines.last().fits()
        &&& routines.last().address == program_end(routines.drop_last())
        &&& laid_out(routines.drop_last())
    }
}

/// Routines that are laid out all fit, and each ends before the next
/// begins.
pub proof fn lemma_laid_out_in_order(routines: Seq<RoutineView>)
    requires
        laid_out(routines),
    ensures
        all_fit(routines),
        forall|i: int, j: int|
            0 <= i < j < routines.len() ==> (#[trigger] routines[i]).address
                + routines[i].instructions.len() < (#[trigger] routines[j]).address,
        forall|i: int|
            0 <= i < routines.len() ==> (#[trigger] routines[i]).address
                + routines[i].instructions.len() < program_end(routines),
    decreases routines.len(),
{
    if routines.len() > 0 {
        let front = routines.drop_last();
        lemma_laid_out_in_order(front);
        assert forall|i: int| 0 <= i < routines.len() implies (#[trigger] routines[i]).fits() by {
            if i < front.len() {
                assert(routines[i] == front[i]);
            }
        }
        assert forall|i: int| 0 <= i < routines.len() implies (#[trigger] routines[i]).address
            + routines[i].instructions.len() < program_end(routines) by {
            if i < front.len() {
                assert(routines[i] == front[i]);
            }
        }
        assert forall|i: int, j: int| 0 <= i < j < routines.len() implies (
        #[trigger] routines[i]).address + routines[i].instructions.len() < (
        #[trigger] routines[j]).address by {
            assert(routines[i] == front[i]);
            if j < front.len() {
                assert(routines[j] == front[j]);
            }
        }
    }
}

/// Writing routines changes no word outside them.
pub proof fn lemma_place_all_elsewhere(rom: Seq<u16>, routines: Seq<RoutineView>, address: int)
    requires
        0 <= address < rom.len(),
        forall|i: int|
            0 <= i < routines.len() ==> !((#[trigger] routines[i]).address <= address
                < routines[i].address + routines[i].instructions.len()),
    ensures
        place_all(rom, routines).len() == rom.len(),
        place_all(rom, routines)[address] == rom[address],
    decreases routines.len(),
{
    if routines.len() > 0 {
        let front = routines.drop_last();
        assert forall|i: int| 0 <= i < front.len() implies !((#[trigger] front[i]).address
            <= address < front[i].address + front[i].instructions.len()) by {
            assert(front[i] == routines[i]);
        }
        lemma_place_all_elsewhere(rom, front, address);
        assert(routines.last() == routines[routines.len() - 1]);
    }
}

/// Writing routines keeps the size of the image.
pub proof fn lemma_place_all_len(rom: Seq<u16>, routines: Seq<RoutineView>)
    ensures
        place_all(rom, routines).len() == rom.len(),
    decreases routines.len(),
{
    if routines.len() > 0 {
        lemma_place_all_len(rom, routines.drop_last());
    }
}

/// An image holds the words of every routine that was written to it, at
/// the routine's address, when the routines are laid out.
pub proof fn lemma_place_all_holds(rom: Seq<u16>, routines: Seq<RoutineView>, i: int, k: int)
    requires
        rom.len() == ROM_WORDS,
        laid_out(routines),
        0 <= i < routines.len(),
        0 <= k < routines[i].instructions.len(),
    ensures
        place_all(rom, routines)[routines[i].address + k] == routines[i].instructions[k],
    decreases routines.len(),
{
    let front = routines.drop_last();
    lemma_laid_out_in_order(routines);
    lemma_place_all_len(rom, front);
    assert(routines.last() == routines[routines.len() - 1]);
    if i < front.len() {
        assert(front[i] == routines[i]);
        lemma_place_all_holds(rom, front, i, k);
    }
}

/// The image of a program that is laid out: the bootstrap is a call of the
/// last routine, every routine lies at its address, and the rest of the
/// image is as it was before any program was written; so the GPU command
/// buffer holds nothing but no-operation words.
pub proof fn lemma_image(routines: Seq<RoutineView>)
    requires
        routines.len() > 0,
        laid_out(routines),
    ensures
        image(routines).len() == ROM_WORDS,
        image(routines)[BOOTSTRAP as int] == JMP_TO_SR,
        image(routines)[BOOTSTRAP + 1] == routines.last().address,
        forall|i: int, k: int|
            0 <= i < routines.len() && 0 <= k < routines[i].instructions.len() ==> image(
                routines,
            )[#[trigger] routines[i].address + k] == #[trigger] routines[i].instructions[k],
        forall|address: int|
            0 <= address < BOOTSTRAP || program_end(routines) <= address < ROM_WORDS ==> image(
                routines,
            )[address] == #[trigger] base_word(address),
        forall|address: int|
            GPU_BUFFER_START <= address <= GPU_BUFFER_END ==> #[trigger] image(routines)[address]
                == GPU_NO_OPERAT,
{
    let start = with_bootstrap(base_image(), routines.last().address);
    lemma_laid_out_in_order(routines);
    lemma_place_all_len(start, routines);
    lemma_place_all_elsewhere(start, routines, BOOTSTRAP as int);
    lemma_place_all_elsewhere(start, routines, BOOTSTRAP + 1);
    assert forall|i: int, k: int|
        0 <= i < routines.len() && 0 <= k < routines[i].instructions.len() implies image(
        routines,
    )[#[trigger] routines[i].address + k] == #[trigger] routines[i].instructions[k] by {
        lemma_place_all_holds(start, routines, i, k);
    }
    assert forall|address: int|
        0 <= address < BOOTSTRAP || program_end(routines) <= address
            < ROM_WORDS implies image(routines)[address] == #[trigger] base_word(address) by {
        lemma_place_all_elsewhere(start, routines, address);
    }
    assert forall|address: int|
        GPU_BUFFER_START <= address <= GPU_BUFFER_END implies #[trigger] image(routines)[address]
            == GPU_NO_OPERAT by {
        assert(image(routines)[address] == base_word(address));
    }
}

/// The word that a fresh image holds at `address`.
pub fn base_word_at(address: u16) -> (word: u16)
    ensures
        word == base_word(address as int),
{
    if 0x0200 <= address && address <= 0x0219 {
        0x41 + (address - 0x0200)
    } else if 0x021A <= address && address <= 0x021F {
        if address == 0x021A {
            0x21
        } else if address == 0x021B {
            0x22
        } else if address == 0x021C {
            0x23
        } else if address == 0x021D {
            0x24
        } else if address == 0x021E {
            0x5B
        } else {
            0x5D
        }
    } else if 0x0220 <= address && address <= 0x0239 {
        0x61 + (address - 0x0220)
    } else if 0x023A <= address && address <= 0x023F {
        if address == 0x023A {
            0x2F
        } else if address == 0x023B {
            0x3C
        } else if address == 0x023C {
            0x3E
        } else if address == 0x023D {
            0x3D
        } else if address == 0x023E {
            0x2D
        } else {
            0x7E
        }
    } else if 0x0240 <= address && address <= 0x0249 {
        0x30 + (address - 0x0240)
    } else if 0x024A <= address && address <= 0x0251 {
        if address == 0x024A {
            0x3A
        } else if address == 0x024B {
            0x5F
        } else if address == 0x024C {
            0x7C
        } else if address == 0x024D {
            0x26
        } else if address == 0x024E {
            0x3F
        } else if address == 0x024F {
            0x40
        } else if address == 0x0250 {
            0x20
        } else {
            0x2E
        }
    } else if GPU_BUFFER_START <= address && address <= GPU_BUFFER_END {
        GPU_NO_OPERAT
    } else {
        0
    }
}

/// Builds the image that holds no program yet.
pub fn blank_image() -> (rom: Vec<u16>)
    ensures
        rom@ == base_image(),
{
    let mut rom: Vec<u16> = Vec::with_capacity(ROM_WORDS);
    let mut address: usize = 0;
    while address < ROM_WORDS
        invariant
            address <= ROM_WORDS,
            rom@.len() == address,
            forall|a: int| 0 <= a < address ==> rom@[a] == base_word(a),
        decreases ROM_WORDS - address,
    {
        rom.push(base_word_at(address as u16));
        address += 1;
    }
    assert(rom@ =~= base_image());
    rom
}

/// Writes the words of a routine into the image at the routine's address.
pub fn place_routine(rom: &mut Vec<u16>, routine: &Routine)
    requires
        old(rom)@.len() == ROM_WORDS,
        routine@.fits(),
    ensures
        final(rom)@ == place(old(rom)@, routine@),
{
    let base: usize = routine.address as usize;
    let mut offset: usize = 0;
    while offset < routine.instructions.len()
        invariant
            rom@.len() == ROM_WORDS,
            routine@.fits(),
            base == routine.address,
            offset <= routine.instructions@.len(),
            forall|a: int|
                0 <= a < ROM_WORDS ==> rom@[a] == if base <= a < base + offset {
                    routine.instructions@[a - base]
                } else {
                    old(rom)@[a]
                },
        decreases routine.instructions@.len() - offset,
    {
        rom.set(base + offset, routine.instructions[offset]);
        offset += 1;
    }
    assert(rom@ =~= place(old(rom)@, routine@));
}

/// Builds the image of a program from its routines. The bootstrap jumps
/// to the last of them.
pub fn link(routines: &Vec<Routine>) -> (rom: Vec<u16>)
    requires
        routines@.len() > 0,
        all_fit(routine_views(routines@)),
    ensures
        rom@ == image(routine_views(routines@)),
        rom@.len() == ROM_WORDS,
{
    let ghost views = routine_views(routines@);
    let mut rom: Vec<u16> = blank_image();
    let entry: u16 = routines[routines.len() - 1].address;
    rom.set(BOOTSTRAP as usize, JMP_TO_SR);
    rom.set(BOOTSTRAP as usize + 1, entry);
    let ghost start = rom@;
    assert(start == with_bootstrap(base_image(), views.last().address));
    let mut i: usize = 0;
    while i < routines.len()
        invariant
            i <= routines@.len(),
            views == routine_views(routines@),
            all_fit(views),
            rom@.len() == ROM_WORDS,
            rom@ == place_all(start, views.take(i as int)),
        decreases routines@.len() - i,
    {
        proof {
            let more = views.take(i + 1);
            assert(more.drop_last() =~= views.take(i as int));
            assert(more.last() == routines@[i as int]@);
            assert(views[i as int].fits());
        }
        place_routine(&mut rom, &routines[i]);
        i += 1;
    }
    assert(views.take(i as int) =~= views);
    rom
}

} // verus!
