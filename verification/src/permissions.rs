//! Permission normalization: widening a Unix file mode so that whatever the
//! owner can do (read/write/execute), group and others can do too.
use vstd::prelude::*;

verus! {

/// The widened mode: the owner permission bits, copied down onto the group
/// and other positions, OR'd over the original mode.
pub open spec fn spec_expand_mode(mode: u32) -> u32 {
    mode | ((0o700u32 & mode) >> 3u32) | ((0o700u32 & mode) >> 6u32)
}

/// Widen `mode` so group and others gain every permission the owner has.
/// No bit of the original mode is ever cleared.
pub fn expand_mode_to_all_users(mode: u32) -> (r: u32)
    ensures
        r == spec_expand_mode(mode),
        r & mode == mode,
{
    let lit: u32 = 0o700u32 & mode;
    let r: u32 = mode | (lit >> 3u32) | (lit >> 6u32);
    proof {
        assert((mode | ((0o700u32 & mode) >> 3u32) | ((0o700u32 & mode) >> 6u32)) & mode
            == mode) by (bit_vector);
    }
    r
}

/// Owner permission bits always propagate: after widening, each of the three
/// owner bits that was set is also set in the group and other positions, and
/// every bit of the original mode survives.
pub proof fn lemma_expand_mode_propagates(mode: u32)
    ensures
        spec_expand_mode(mode) & mode == mode,
        mode & 0o400u32 != 0 ==> spec_expand_mode(mode) & 0o044u32 == 0o044u32,
        mode & 0o200u32 != 0 ==> spec_expand_mode(mode) & 0o022u32 == 0o022u32,
        mode & 0o100u32 != 0 ==> spec_expand_mode(mode) & 0o011u32 == 0o011u32,
{
    assert((mode | ((0o700u32 & mode) >> 3u32) | ((0o700u32 & mode) >> 6u32)) & mode == mode)
        by (bit_vector);
    assert(mode & 0o400u32 != 0 ==> (mode | ((0o700u32 & mode) >> 3u32) | ((0o700u32 & mode)
        >> 6u32)) & 0o044u32 == 0o044u32) by (bit_vector);
    assert(mode & 0o200u32 != 0 ==> (mode | ((0o700u32 & mode) >> 3u32) | ((0o700u32 & mode)
        >> 6u32)) & 0o022u32 == 0o022u32) by (bit_vector);
    assert(mode & 0o100u32 != 0 ==> (mode | ((0o700u32 & mode) >> 3u32) | ((0o700u32 & mode)
        >> 6u32)) & 0o011u32 == 0o011u32) by (bit_vector);
}

} // verus!
