//! The change-detection policy: whether a source item must be transferred to
//! the destination or can be skipped.
//!
//! The policy is two-staged, so a caller never reads content it does not
//! need: a size comparison first, and a checksum comparison only when the
//! sizes already agree. Forcing an overwrite bypasses both stages, and a
//! destination that cannot be read is treated as absent, so the item is
//! transferred.

use vstd::prelude::*;

verus! {

/// Size and content checksum of one file or object.
#[derive(Debug, Clone, Copy, PartialEq, Eq, Structural)]
pub struct ObjectMeta {
    pub size: u64,
    pub crc32c: u32,
}

/// The outcome of the size stage.
#[derive(Debug, Clone, Copy, PartialEq, Eq, Structural)]
pub enum SizeCheck {
    /// The item must be transferred; no checksum is needed.
    Transfer,
    /// The sizes agree; only a checksum comparison can decide.
    CompareChecksum,
}

/// The size stage: transfer when forced, when the destination is absent, or
/// when the sizes differ; otherwise defer to the checksum stage.
pub open spec fn size_check_spec(force: bool, src_size: u64, dst_size: Option<u64>) -> SizeCheck {
    if force {
        SizeCheck::Transfer
    } else {
        match dst_size {
            None => SizeCheck::Transfer,
            Some(d) => if d != src_size {
                SizeCheck::Transfer
            } else {
                SizeCheck::CompareChecksum
            },
        }
    }
}

/// Decides from sizes alone whether the content must be read at all.
pub fn check_size(force: bool, src_size: u64, dst_size: Option<u64>) -> (r: SizeCheck)
    ensures
        r == size_check_spec(force, src_size, dst_size),
{
    if force {
        SizeCheck::Transfer
    } else {
        match dst_size {
            None => SizeCheck::Transfer,
            Some(d) => if d != src_size {
                SizeCheck::Transfer
            } else {
                SizeCheck::CompareChecksum
            },
        }
    }
}

/// The checksum stage: transfer exactly when the checksums differ.
pub fn check_checksum(src_crc: u32, dst_crc: u32) -> (r: bool)
    ensures
        r == (src_crc != dst_crc),
{
    src_crc != dst_crc
}

/// The whole policy: transfer when forced, when the destination is absent,
/// or when size or checksum differs; skip only a destination equal in both.
pub open spec fn needs_transfer_spec(force: bool, src: ObjectMeta, dst: Option<ObjectMeta>) -> bool {
    force || match dst {
        None => true,
        Some(d) => d.size != src.size || d.crc32c != src.crc32c,
    }
}

/// Decides transfer-needed against a destination whose metadata was read in
/// full. Callers that can defer the checksum read use `check_size` first.
pub fn needs_transfer(force: bool, src: ObjectMeta, dst: Option<ObjectMeta>) -> (r: bool)
    ensures
        r == needs_transfer_spec(force, src, dst),
{
    match check_size(force, src.size, match dst {
        Some(d) => Some(d.size),
        None => None,
    }) {
        SizeCheck::Transfer => true,
        SizeCheck::CompareChecksum => check_checksum(src.crc32c, dst.unwrap().crc32c),
    }
}

/// The two stages together decide exactly what the whole policy decides:
/// an item is transferred iff the size stage asks for a transfer outright,
/// or defers and the checksums differ.
pub proof fn lemma_policy_stages_agree(force: bool, src: ObjectMeta, dst: Option<ObjectMeta>)
    ensures
        needs_transfer_spec(force, src, dst) == (size_check_spec(
            force,
            src.size,
            match dst {
                Some(d) => Some(d.size),
                None => None,
            },
        ) == SizeCheck::Transfer || (dst matches Some(d) && d.crc32c != src.crc32c)),
{
}

/// Content changes behind an unchanged size are caught: a destination of
/// equal size but different checksum is transferred.
pub proof fn lemma_checksum_mismatch_transfers(force: bool, src: ObjectMeta, dst: ObjectMeta)
    requires
        dst.size == src.size,
        dst.crc32c != src.crc32c,
    ensures
        needs_transfer_spec(force, src, Some(dst)),
{
}

/// Differing sizes short-circuit: the size stage alone already orders the
/// transfer, and the whole policy agrees whatever either checksum is.
pub proof fn lemma_size_mismatch_short_circuits(force: bool, src_size: u64, dst_size: u64)
    requires
        src_size != dst_size,
    ensures
        size_check_spec(force, src_size, Some(dst_size)) == SizeCheck::Transfer,
        forall|src_crc: u32, dst_crc: u32|
            needs_transfer_spec(
                force,
                ObjectMeta { size: src_size, crc32c: src_crc },
                Some(ObjectMeta { size: dst_size, crc32c: dst_crc }),
            ),
{
}

/// A forced overwrite transfers every item, whatever the destination holds —
/// even one identical in size and checksum.
pub proof fn lemma_force_always_transfers(src: ObjectMeta, dst: Option<ObjectMeta>)
    ensures
        needs_transfer_spec(true, src, dst),
        size_check_spec(
            true,
            src.size,
            match dst {
                Some(d) => Some(d.size),
                None => None,
            },
        ) == SizeCheck::Transfer,
{
}

/// Skipping happens only on an exact match: with no forcing, an item is kept
/// as is iff the destination exists with equal size and equal checksum.
pub proof fn lemma_skip_means_equal(src: ObjectMeta, dst: Option<ObjectMeta>)
    ensures
        !needs_transfer_spec(false, src, dst) <==> (dst matches Some(d) && d == src),
{
}

} // verus!
