//! The console's flat memory: kernel code at the bottom, RAM above it,
//! and the reserved top of the address space (operand stack, call stack,
//! video buffer, cursor and video-mode cells) laid out downward from the
//! end of the 16-bit address range.

use vstd::prelude::*;
use vstd::slice::slice_to_vec;

verus! {

/// The whole addressable image: one 16-bit address space.
pub const IMAGE_SIZE: usize = 65536;

pub const VIDEO_BUFFER_WIDTH: u16 = 256;

pub const VIDEO_BUFFER_HEIGHT: u16 = 144;

pub const STACK_START: u16 = 0xff00;

pub const STACK_SIZE: u16 = 256;

pub const CALL_STACK_SIZE: u16 = 256;

pub const CALL_STACK_START: u16 = STACK_START - CALL_STACK_SIZE;

pub const VIDEO_BUFFER_SIZE: u16 = VIDEO_BUFFER_WIDTH * VIDEO_BUFFER_HEIGHT / 2;

pub const VIDEO_BUFFER_START: u16 = CALL_STACK_START - VIDEO_BUFFER_SIZE;

pub const VIDEO_MODE: u16 = VIDEO_BUFFER_START - 1;

pub const CURSOR_POSITION_Y: u16 = VIDEO_MODE - 1;

pub const CURSOR_POSITION_X: u16 = CURSOR_POSITION_Y - 1;

/// Start of the reserved region: kernel code must end below this.
pub const RESERVED_MEMORY_START: u16 = CURSOR_POSITION_X;

pub struct MachineMemory {
    memory: Vec<u8>,
    ram_start_address: u16,
}

impl MachineMemory {
    /// The memory contents.
    pub closed spec fn mem(&self) -> Seq<u8> {
        self.memory@
    }

    /// Below this address the memory is the kernel, read-only.
    pub closed spec fn ram_start(&self) -> u16 {
        self.ram_start_address
    }

    pub closed spec fn inv(&self) -> bool {
        self.memory@.len() == IMAGE_SIZE
    }

    /// Lay the kernel at the bottom of a zeroed 16-bit address space; a
    /// kernel reaching the reserved region is rejected.
    pub fn new(kernel_code: Vec<u8>) -> (r: Result<MachineMemory, String>)
        ensures
            r is Ok <==> kernel_code@.len() < RESERVED_MEMORY_START,
            r is Ok ==> ({
                let m = r->Ok_0;
                &&& m.inv()
                &&& m.ram_start() == kernel_code@.len()
                &&& m.mem() == kernel_code@ + Seq::new(
                    (IMAGE_SIZE - kernel_code@.len()) as nat,
                    |i: int| 0u8,
                )
            }),
    {
        let kernel_size = kernel_code.len();
        if kernel_size >= RESERVED_MEMORY_START as usize {
            return Err(String::from_str("Kernel code exceeds the reserved size limit"));
        }

        let mut memory = kernel_code;
        let ram_start_address = memory.len() as u16;
        memory.resize(IMAGE_SIZE, 0u8);
        proof {
            assert(memory@ =~= kernel_code@ + Seq::new(
                (IMAGE_SIZE - kernel_size) as nat,
                |i: int| 0u8,
            ));
        }
        Ok(MachineMemory { memory, ram_start_address })
    }

    /// Write one byte; writes into the kernel region are refused.
    pub fn write_u8(&mut self, address: u16, value: u8) -> (r: Result<(), String>)
        requires
            old(self).inv(),
        ensures
            final(self).inv(),
            final(self).ram_start() == old(self).ram_start(),
            r is Ok <==> address >= old(self).ram_start(),
            r is Ok ==> final(self).mem() == old(self).mem().update(address as int, value),
            r is Err ==> final(self).mem() == old(self).mem(),
    {
        if address < self.ram_start_address {
            return Err(String::from_str("Attempting to write into read-only memory"));
        }
        self.memory.set(address as usize, value);
        Ok(())
    }

    pub fn read_u8(&self, address: u16) -> (r: Result<u8, String>)
        requires
            self.inv(),
        ensures
            r == Ok::<u8, String>(self.mem()[address as int]),
    {
        Ok(self.memory[address as usize])
    }

    pub fn stack_start_address(&self) -> (r: u16)
        ensures
            r == STACK_START,
    {
        STACK_START
    }

    pub fn call_stack_start_address(&self) -> (r: u16)
        ensures
            r == CALL_STACK_START,
    {
        CALL_STACK_START
    }

    pub fn ram_start_address(&self) -> (r: u16)
        ensures
            r == self.ram_start(),
    {
        self.ram_start_address
    }

    pub fn dump_memory(&self) -> (r: Vec<u8>)
        ensures
            r@ == self.mem(),
    {
        slice_to_vec(self.memory.as_slice())
    }

    /// The bytes from `start` through `end`, inclusive.
    pub fn dump_memory_range(&self, start: u16, end: u16) -> (r: Vec<u8>)
        requires
            self.inv(),
            start <= end,
        ensures
            r@ == self.mem().subrange(start as int, end + 1),
    {
        slice_to_vec(
            vstd::slice::slice_subrange(
                self.memory.as_slice(),
                start as usize,
                end as usize + 1,
            ),
        )
    }
}

} // verus!
