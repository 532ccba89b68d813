//! The three classes of users that a file's permission bits speak of.
use vstd::prelude::*;

verus! {

/// Whose permissions are meant.
#[derive(Clone, Copy, Debug, PartialEq, Eq, Structural)]
pub enum Owner {
    User,
    Group,
    Other,
}

impl Owner {
    /// The bits of a file mode that grant this class the rights to read, to
    /// write and to execute, in that order.
    pub open spec fn mask_bits(self) -> Seq<u32> {
        match self {
            Owner::User => seq![0o400u32, 0o200u32, 0o100u32],
            Owner::Group => seq![0o040u32, 0o020u32, 0o010u32],
            Owner::Other => seq![0o004u32, 0o002u32, 0o001u32],
        }
    }

    /// The masks for reading, writing and executing.
    pub fn masks(&self) -> (m: [u32; 3])
        ensures
            m@ == self.mask_bits(),
    {
        let m: [u32; 3] = match self {
            Owner::User => [0o400, 0o200, 0o100],
            Owner::Group => [0o040, 0o020, 0o010],
            Owner::Other => [0o004, 0o002, 0o001],
        };
        assert(m@ =~= self.mask_bits());
        m
    }
}

} // verus!
