//! One byte of flag bits for each sprite.
use vstd::prelude::*;

verus! {

/// The flag bytes of the 256 sprites.
pub struct Flags {
    flags: Vec<u8>,
}

impl Flags {
    /// There is one byte for each sprite.
    pub open spec fn wf(&self) -> bool {
        self@.len() == 256
    }

    /// The flag bytes, by sprite.
    pub closed spec fn view(&self) -> Seq<u8> {
        self.flags@
    }

    /// No flag is set.
    pub fn new() -> (f: Flags)
        ensures
            f.wf(),
            f@ == Seq::new(256, |i: int| 0u8),
    {
        let mut flags: Vec<u8> = Vec::new();
        let mut i: usize = 0;
        while i < 256
            invariant
                i <= 256,
                flags@ == Seq::new(i as nat, |j: int| 0u8),
            decreases 256 - i,
        {
            flags.push(0);
            i += 1;
        }
        Flags { flags }
    }

    /// Flags from one byte for each of the 256 sprites; `None` for any other
    /// number of bytes.
    pub fn from_bytes(flags: Vec<u8>) -> (r: Option<Flags>)
        ensures
            flags.len() == 256 <==> r is Some,
            r matches Some(f) ==> f.wf() && f@ == flags@,
    {
        if flags.len() == 256 {
            Some(Flags { flags })
        } else {
            None
        }
    }

    /// The flag bytes, by sprite.
    pub fn bytes(&self) -> (b: &Vec<u8>)
        ensures
            b@ == self@,
    {
        &self.flags
    }

    /// The flag byte of a sprite, `None` where there is no such sprite.
    pub fn get(&self, sprite: usize) -> (r: Option<u8>)
        requires
            self.wf(),
        ensures
            r == if sprite < 256 {
                Some(self@[sprite as int])
            } else {
                None
            },
    {
        if sprite < 256 {
            Some(self.flags[sprite])
        } else {
            None
        }
    }

    /// Sets the flag byte of a sprite; does nothing where there is no such
    /// sprite.
    pub fn set(&mut self, sprite: usize, value: u8)
        requires
            old(self).wf(),
        ensures
            final(self).wf(),
            final(self)@ == if sprite < 256 {
                old(self)@.update(sprite as int, value)
            } else {
                old(self)@
            },
    {
        if sprite < 256 {
            self.flags.set(sprite, value);
        }
    }
}

} // verus!
