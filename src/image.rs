use crate::vm::{add16, Register, Vm, VmModel, PC_INDEX};
use vstd::prelude::*;

verus! {

/// Why a program image was refused.
#[derive(Clone, Copy, PartialEq, Eq, Structural, Debug)]
pub enum ImageError {
    /// Fewer than two bytes: the origin address is missing.
    MissingOrigin,
    /// The bytes after the origin end in the middle of a word.
    TruncatedWord,
}

/// The big-endian word made of two bytes.
pub open spec fn be_word(hi: u8, lo: u8) -> u16 {
    (hi as int * 256 + lo as int) as u16
}

/// The origin address that an image starts with.
pub open spec fn image_origin(image: Seq<u8>) -> u16
    recommends
        image.len() >= 2,
{
    be_word(image[0], image[1])
}

/// The words of an image that follow its origin.
pub open spec fn image_words(image: Seq<u8>) -> Seq<u16> {
    Seq::new(
        ((image.len() - 2) / 2) as nat,
        |i: int| be_word(image[2 + 2 * i], image[3 + 2 * i]),
    )
}

/// Memory after storing `words` one after another from `origin`, the address
/// wrapping from 65535 to 0.
pub open spec fn loaded(mem: Seq<u16>, origin: u16, words: Seq<u16>) -> Seq<u16>
    decreases words.len(),
{
    if words.len() == 0 {
        mem
    } else {
        loaded(mem, origin, words.drop_last()).update(
            (origin as int + words.len() - 1) % 65536,
            words.last(),
        )
    }
}

/// The outcome of loading an image into a machine.
pub open spec fn load_model(m: VmModel, image: Seq<u8>) -> Result<VmModel, ImageError> {
    if image.len() < 2 {
        Err(ImageError::MissingOrigin)
    } else if image.len() % 2 == 1 {
        Err(ImageError::TruncatedWord)
    } else {
        let origin = image_origin(image);
        Ok(m.set_reg(PC_INDEX as nat, origin).with_mem(loaded(m.mem, origin, image_words(image))))
    }
}

impl Vm {
    /// Loads a program image: a big-endian origin address, then big-endian
    /// words stored from the origin on. The program counter is set to the
    /// origin. A refused image leaves the machine as it was.
    pub fn read_image_file(&mut self, image: &Vec<u8>) -> (r: Result<(), ImageError>)
        requires
            old(self).wf(),
        ensures
            final(self).wf(),
            match load_model(old(self)@, image@) {
                Ok(m) => r is Ok && final(self)@ == m,
                Err(e) => r == Err::<(), ImageError>(e) && final(self)@ == old(self)@,
            },
    {
        let len = image.len();
        if len < 2 {
            return Err(ImageError::MissingOrigin);
        }
        if len % 2 == 1 {
            return Err(ImageError::TruncatedWord);
        }
        let origin: u16 = image[0] as u16 * 256 + image[1] as u16;
        self.write_register(Register::PC, origin);
        let ghost start = self@;
        let ghost words = image_words(image@);
        let count: usize = (len - 2) / 2;
        let mut addr: u16 = origin;
        let mut i: usize = 0;
        while i < count
            invariant
                self.wf(),
                count == words.len(),
                words == image_words(image@),
                image@.len() == len,
                len >= 2,
                i <= count,
                addr as int == (origin as int + i) % 65536,
                self@ == start.with_mem(loaded(start.mem, origin, words.take(i as int))),
            decreases count - i,
        {
            let word: u16 = image[2 + 2 * i] as u16 * 256 + image[3 + 2 * i] as u16;
            self.write_memory(addr, word);
            proof {
                assert(words.take(i + 1).drop_last() =~= words.take(i as int));
                assert(word == words[i as int]);
            }
            addr = addr.wrapping_add(1);
            i = i + 1;
        }
        proof {
            assert(words.take(count as int) =~= words);
        }
        Ok(())
    }
}

} // verus!
