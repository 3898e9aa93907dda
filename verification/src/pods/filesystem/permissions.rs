use vstd::prelude::*;

verus! {

/// Owner execute bit of a unix mode (`S_IEXEC`).
pub const EXECUTE_BIT_FLAG: u16 = 0o100;
/// Owner write bit of a unix mode (`S_IWRITE`).
pub const WRITE_BIT_FLAG: u16 = 0o200;
/// Owner read bit of a unix mode (`S_IREAD`).
pub const READ_BIT_FLAG: u16 = 0o400;

/// Whether bit number `bit` (counted from the least significant) is set in `perm`.
pub open spec fn mode_bit(perm: u16, bit: nat) -> bool {
    (perm as nat / vstd::arithmetic::power2::pow2(bit)) % 2 == 1
}

/// Whether a mode counts as executable: the owner execute bit is set, or the
/// mode is exactly the owner write flag, which also counts as executable.
pub open spec fn may_execute(perm: u16) -> bool {
    mode_bit(perm, 6) || perm == WRITE_BIT_FLAG
}

/// The owner may execute (or traverse) the entry; see [may_execute].
pub fn has_execute_perm(perm: u16) -> (r: bool)
    ensures
        r == may_execute(perm),
{
    proof {
        vstd::arithmetic::power2::lemma2_to64();
        assert((perm & 0o100u16 != 0) == ((perm / 64) % 2 == 1)) by (bit_vector);
    }
    (perm & EXECUTE_BIT_FLAG) != 0 || perm == WRITE_BIT_FLAG
}

/// The owner write bit of a mode is its bit number 7.
pub proof fn lemma_owner_write_bit(perm: u16)
    ensures
        mode_bit(perm, 7) == (perm & 0o200u16 != 0),
{
    vstd::arithmetic::power2::lemma2_to64();
    assert((perm & 0o200u16 != 0) == ((perm / 128) % 2 == 1)) by (bit_vector);
}

/// The owner may write the entry.
pub fn has_write_perm(perm: u16) -> (r: bool)
    ensures
        r == mode_bit(perm, 7),
{
    proof {
        vstd::arithmetic::power2::lemma2_to64();
        assert((perm & 0o200u16 != 0) == ((perm / 128) % 2 == 1)) by (bit_vector);
    }
    (perm & WRITE_BIT_FLAG) != 0
}

/// The owner may read the entry.
pub fn has_read_perm(perm: u16) -> (r: bool)
    ensures
        r == mode_bit(perm, 8),
{
    proof {
        vstd::arithmetic::power2::lemma2_to64();
        assert((perm & 0o400u16 != 0) == ((perm / 256) % 2 == 1)) by (bit_vector);
    }
    (perm & READ_BIT_FLAG) != 0
}

} // verus!
