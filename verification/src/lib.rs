//! An LC-3 virtual machine: memory with a memory-mapped keyboard, the processor and its
//! instruction set, and the loading of program images. Reading the keyboard, writing
//! characters and reading image files are left to the caller: the processor asks for a
//! keyboard byte when it needs one and hands back the characters it writes.

use vstd::prelude::*;

pub mod cpu;
pub mod laws;
pub mod memory;

use crate::memory::{Memory, MEMORY_SIZE};

verus! {

broadcast use crate::memory::lemma_memory_len;

/// The process exit codes.
#[derive(Clone, Copy, Debug, PartialEq, Eq, Structural)]
pub enum ErrCode {
    InvalidArgs,
    MissingArgs,
    Halt,
}

impl ErrCode {
    pub open spec fn spec_code(self) -> i32 {
        match self {
            ErrCode::InvalidArgs => 0x1,
            ErrCode::MissingArgs => 0x2,
            ErrCode::Halt => 0x3,
        }
    }

    /// The exit code.
    pub fn code(&self) -> (c: i32)
        ensures
            c == self.spec_code(),
    {
        match self {
            ErrCode::InvalidArgs => 0x1,
            ErrCode::MissingArgs => 0x2,
            ErrCode::Halt => 0x3,
        }
    }
}

/// The command line: the program name followed by at least one image file.
pub struct Cli {
    args: Vec<String>,
}

impl View for Cli {
    type V = Seq<String>;

    closed spec fn view(&self) -> Seq<String> {
        self.args@
    }
}

impl Cli {
    /// Accepts a command line of at least two arguments; a shorter one is refused with
    /// `MissingArgs`.
    pub fn new(args: Vec<String>) -> (r: Result<Self, ErrCode>)
        ensures
            r is Err <==> args@.len() < 2,
            r matches Err(e) ==> e == ErrCode::MissingArgs,
            r matches Ok(c) ==> c@ == args@,
    {
        if args.len() < 2 {
            return Err(ErrCode::MissingArgs);
        }
        Ok(Cli { args })
    }

    /// All the arguments, the program name first.
    pub fn args(&self) -> (r: &[String])
        ensures
            r@ == self@,
    {
        self.args.as_slice()
    }
}

/// Word `i` of an image: two bytes, low byte first.
pub open spec fn image_word(image: Seq<u8>, i: int) -> u16 {
    (image[2 * i] + 256 * image[2 * i + 1]) as u16
}

/// The number of words an image loads: every word after the first, which is the origin.
pub open spec fn image_len(image: Seq<u8>) -> int {
    image.len() / 2 - 1
}

/// The word at address `a` once the first `n` words of `image` have been written into
/// `mem`: words go to consecutive addresses from the origin, wrapping at the end of memory,
/// so where several land on one address the last of them wins.
pub open spec fn loaded_word(mem: Seq<u16>, image: Seq<u8>, n: int, a: int) -> u16 {
    let k = (a - image_word(image, 0)) % 0x10000;
    if k < n {
        image_word(image, 1 + k + ((n - 1 - k) / 0x10000) * 0x10000)
    } else {
        mem[a]
    }
}

/// The memory once `image` has been loaded into `mem`.
pub open spec fn loaded(mem: Seq<u16>, image: Seq<u8>) -> Seq<u16> {
    Seq::new(mem.len(), |a: int| loaded_word(mem, image, image_len(image), a))
}

proof fn lemma_join_bytes(b0: u8, b1: u8)
    ensures
        ((b0 as u16) | ((b1 as u16) << 8u16)) == b0 + 256 * b1,
{
    assert(((b0 as u16) | ((b1 as u16) << 8u16)) == b0 + 256 * b1) by (bit_vector);
}

proof fn lemma_floor_step(x: int)
    requires
        x >= 1,
        x % 0x10000 != 0,
    ensures
        x / 0x10000 == (x - 1) / 0x10000,
{
    assert(x / 0x10000 == (x - 1) / 0x10000) by (nonlinear_arith)
        requires
            x >= 1,
            x % 0x10000 != 0,
    ;
}

proof fn lemma_load_step(mem0: Seq<u16>, image: Seq<u8>, before: Seq<u16>, n: int)
    requires
        0 <= n,
        mem0.len() == MEMORY_SIZE,
        before.len() == MEMORY_SIZE,
        forall|a: int| 0 <= a < MEMORY_SIZE ==> #[trigger] before[a] == loaded_word(mem0, image, n, a),
    ensures
        forall|a: int|
            0 <= a < MEMORY_SIZE ==> #[trigger] before.update(
                (image_word(image, 0) + n) % 0x10000,
                image_word(image, 1 + n),
            )[a] == loaded_word(mem0, image, n + 1, a),
{
    let start = image_word(image, 0);
    let addr = (start + n) % 0x10000;
    let after = before.update(addr, image_word(image, 1 + n));
    assert forall|a: int| 0 <= a < MEMORY_SIZE implies #[trigger] after[a] == loaded_word(mem0, image, n + 1, a) by {
        let k = (a - start) % 0x10000;
        if a == addr {
            assert(k == n % 0x10000) by (nonlinear_arith)
                requires
                    a == (start + n) % 0x10000,
                    k == (a - start) % 0x10000,
                    n >= 0,
            ;
            assert((n - k) / 0x10000 * 0x10000 + k == n) by (nonlinear_arith)
                requires
                    k == n % 0x10000,
                    n >= 0,
            ;
        } else {
            assert(k != n % 0x10000) by (nonlinear_arith)
                requires
                    a != (start + n) % 0x10000,
                    0 <= a < 0x10000,
                    k == (a - start) % 0x10000,
                    n >= 0,
            ;
            assert(before[a] == loaded_word(mem0, image, n, a));
            if k < n {
                lemma_floor_step(n - k);
            }
        }
    }
}

/// Loads a program image into `m`: the image is a sequence of 16-bit words, each stored
/// low byte first; the first word is the origin, and the words after it are written at
/// consecutive addresses from the origin.
pub fn load_image(image: &[u8], m: &mut Memory)
    requires
        image@.len() >= 2,
        image@.len() % 2 == 0,
    ensures
        final(m)@ == loaded(old(m)@, image@),
{
    proof {
        lemma_join_bytes(image@[0], image@[1]);
    }
    let ghost mem0 = m@;
    let ghost start = image_word(image@, 0);
    let mut origin: u16 = (image[0] as u16) | ((image[1] as u16) << 8u16);
    let mut i: usize = 2;
    while i < image.len()
        invariant
            mem0 == old(m)@,
            mem0.len() == MEMORY_SIZE,
            m@.len() == MEMORY_SIZE,
            image@.len() >= 2,
            image@.len() % 2 == 0,
            2 <= i <= image@.len(),
            i % 2 == 0,
            start == image_word(image@, 0),
            origin == ((start + (i / 2 - 1)) % 0x10000) as u16,
            forall|a: int|
                0 <= a < MEMORY_SIZE ==> #[trigger] m@[a] == loaded_word(mem0, image@, i / 2 - 1, a),
        decreases image@.len() - i,
    {
        proof {
            lemma_join_bytes(image@[i as int], image@[i + 1]);
        }
        let word = (image[i] as u16) | ((image[i + 1] as u16) << 8u16);
        proof {
            lemma_load_step(mem0, image@, m@, i / 2 - 1);
        }
        m.memory_write(origin, word);
        origin = origin.wrapping_add(1);
        i = i + 2;
    }
    assert(m@ =~= loaded(mem0, image@));
}

} // verus!
