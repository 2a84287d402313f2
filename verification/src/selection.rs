//! The choice of a type tag from what the user typed.

use vstd::prelude::*;

verus! {

/// The categories of file that can be asked for.
#[derive(Clone, Copy, Debug, PartialEq, Eq, Structural)]
pub enum TypeTag {
    IotRewardShare,
    AnotherFileType,
}

impl TypeTag {
    /// The text that a file name of this category holds.
    pub open spec fn text(self) -> Seq<char> {
        match self {
            TypeTag::IotRewardShare => "iot_reward_share"@,
            TypeTag::AnotherFileType => "another_file_type"@,
        }
    }

    /// The text of this category, to look for in file names.
    pub fn as_str(&self) -> (r: &'static str)
        ensures
            r@ == self.text(),
    {
        match self {
            TypeTag::IotRewardShare => "iot_reward_share",
            TypeTag::AnotherFileType => "another_file_type",
        }
    }
}

/// A type tag, and whether it was taken for want of a valid choice.
#[derive(Clone, Copy, Debug, PartialEq, Eq, Structural)]
pub struct Selection {
    pub tag: TypeTag,
    pub defaulted: bool,
}

/// The selection that an answer stands for: `1` and `2` name the two
/// categories, and every other answer falls back to the first.
pub open spec fn selection_for(choice: Seq<char>) -> Selection {
    if choice.len() == 1 && choice[0] == '1' {
        (Selection { tag: TypeTag::IotRewardShare, defaulted: false })
    } else if choice.len() == 1 && choice[0] == '2' {
        (Selection { tag: TypeTag::AnotherFileType, defaulted: false })
    } else {
        (Selection { tag: TypeTag::IotRewardShare, defaulted: true })
    }
}

/// Chooses the type tag for the answer `choice`, which the caller has
/// trimmed. An answer that names no category is not an error: the first
/// category is taken, and `defaulted` says so.
pub fn select_type_tag(choice: &str) -> (r: Selection)
    ensures
        r == selection_for(choice@),
{
    if choice.unicode_len() == 1 {
        let c: char = choice.get_char(0);
        if c == '1' {
            return Selection { tag: TypeTag::IotRewardShare, defaulted: false };
        }
        if c == '2' {
            return Selection { tag: TypeTag::AnotherFileType, defaulted: false };
        }
    }
    Selection { tag: TypeTag::IotRewardShare, defaulted: true }
}

} // verus!
