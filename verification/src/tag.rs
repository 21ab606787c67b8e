//! Instruction tags: the first byte of every instruction's data.
use vstd::prelude::*;

verus! {

/// The program's instructions.
#[derive(Debug, Clone, Copy, PartialEq, Eq, Structural)]
pub enum Tag {
    InitializeStaging,
    Write,
    Publish,
    Verify,
    CloseStaging,
}

/// The byte that names each instruction.
pub open spec fn tag_byte(tag: Tag) -> u8 {
    match tag {
        Tag::InitializeStaging => 0,
        Tag::Write => 1,
        Tag::Publish => 2,
        Tag::Verify => 3,
        Tag::CloseStaging => 4,
    }
}

impl Tag {
    /// Decodes a tag byte; `None` for a byte that names no instruction.
    pub fn from_u8(byte: u8) -> (r: Option<Tag>)
        ensures
            match r {
                Some(tag) => tag_byte(tag) == byte,
                None => byte > 4,
            },
    {
        match byte {
            0 => Some(Tag::InitializeStaging),
            1 => Some(Tag::Write),
            2 => Some(Tag::Publish),
            3 => Some(Tag::Verify),
            4 => Some(Tag::CloseStaging),
            _ => None,
        }
    }

    /// The tag byte.
    pub fn to_u8(self) -> (byte: u8)
        ensures
            byte == tag_byte(self),
    {
        match self {
            Tag::InitializeStaging => 0,
            Tag::Write => 1,
            Tag::Publish => 2,
            Tag::Verify => 3,
            Tag::CloseStaging => 4,
        }
    }
}

/// Decoding inverts encoding.
pub proof fn lemma_tag_round_trip(tag: Tag)
    ensures
        forall|t: Tag| tag_byte(t) == tag_byte(tag) ==> t == tag,
        tag_byte(tag) <= 4,
{
}

} // verus!
