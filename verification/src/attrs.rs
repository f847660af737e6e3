//! Classification of a file's cloud-placeholder state from its platform
//! attribute bitmask.
//!
//! Four attribute bits decide whether a file is a genuine local copy worth
//! scanning or a cloud-only placeholder: `Pinned`, `Unpinned`,
//! `RecallOnDataAccess` and `Hidden`, with the bit values the host platform
//! assigns to its cloud-placeholder attribute extension.

use vstd::prelude::*;

verus! {

/// Attribute bit marking a hidden file.
pub const ATTR_HIDDEN: u32 = 0x2;

/// Attribute bit marking a file pinned for guaranteed local availability.
pub const ATTR_PINNED: u32 = 0x80000;

/// Attribute bit marking a file as cloud-only, explicitly unpinned.
pub const ATTR_UNPINNED: u32 = 0x100000;

/// Attribute bit marking a file whose content is recalled on first access.
pub const ATTR_RECALL_ON_DATA_ACCESS: u32 = 0x400000;

/// True when the given bit (or any of the given bits) is set in `attributes`.
pub open spec fn spec_bit_set(attributes: u32, bit: u32) -> bool {
    attributes & bit != 0
}

/// The inclusion rule: a file is a genuine local copy when it is pinned and
/// not hidden, or when it carries none of the three placeholder-state bits
/// and is not hidden.
pub open spec fn spec_classify(attributes: u32) -> bool {
    ||| (spec_bit_set(attributes, ATTR_PINNED) && !spec_bit_set(attributes, ATTR_HIDDEN))
    ||| (!spec_bit_set(attributes, ATTR_PINNED) && !spec_bit_set(attributes, ATTR_UNPINNED)
        && !spec_bit_set(attributes, ATTR_RECALL_ON_DATA_ACCESS)
        && !spec_bit_set(attributes, ATTR_HIDDEN))
}

/// True when the given bit is set in `attributes`.
pub fn bit_set(attributes: u32, bit: u32) -> (r: bool)
    ensures
        r == spec_bit_set(attributes, bit),
{
    attributes & bit != 0
}

/// Decides whether a file with the given attribute bitmask is included in
/// the scan result: true means "a genuine local copy", false means "a
/// cloud-only placeholder or hidden file".
pub fn classify(attributes: u32) -> (r: bool)
    ensures
        r == spec_classify(attributes),
{
    (bit_set(attributes, ATTR_PINNED) && !bit_set(attributes, ATTR_HIDDEN))
        || (!bit_set(attributes, ATTR_PINNED) && !bit_set(attributes, ATTR_UNPINNED)
            && !bit_set(attributes, ATTR_RECALL_ON_DATA_ACCESS)
            && !bit_set(attributes, ATTR_HIDDEN))
}

/// A hidden file is never included, whatever its other bits.
pub proof fn lemma_hidden_excluded(attributes: u32)
    requires
        spec_bit_set(attributes, ATTR_HIDDEN),
    ensures
        !spec_classify(attributes),
{
}

/// A file marked `Unpinned` or `RecallOnDataAccess` is excluded unless it
/// also carries the `Pinned` bit.
pub proof fn lemma_stub_excluded(attributes: u32)
    requires
        spec_bit_set(attributes, ATTR_UNPINNED) || spec_bit_set(
            attributes,
            ATTR_RECALL_ON_DATA_ACCESS,
        ),
        !spec_bit_set(attributes, ATTR_PINNED),
    ensures
        !spec_classify(attributes),
{
}

/// A file with none of the four bits set is always included.
pub proof fn lemma_plain_file_included(attributes: u32)
    requires
        !spec_bit_set(attributes, ATTR_PINNED),
        !spec_bit_set(attributes, ATTR_UNPINNED),
        !spec_bit_set(attributes, ATTR_RECALL_ON_DATA_ACCESS),
        !spec_bit_set(attributes, ATTR_HIDDEN),
    ensures
        spec_classify(attributes),
{
}

} // verus!
