use wormhole::pods::filesystem::permissions::{
    has_execute_perm, has_read_perm, has_write_perm, EXECUTE_BIT_FLAG, READ_BIT_FLAG, WRITE_BIT_FLAG,
};
use wormhole::pods::itree::inode::WINDOWS_DEFAULT_PERMS_MODE;

#[test]
fn test_r_bit() {
    assert!(
        has_read_perm(WINDOWS_DEFAULT_PERMS_MODE),
        "WINDOWS_DEFAULT_PERMS_MODE is read"
    );
    assert!(has_read_perm(READ_BIT_FLAG), "READ_BIT_FLAG is correct");
    assert!(has_read_perm(0o400), "has_read_perm is correct");
    assert!(has_read_perm(0o777), "has_read_perm is correct");
}

#[test]
fn test_w_bit() {
    assert!(
        has_write_perm(WINDOWS_DEFAULT_PERMS_MODE),
        "WINDOWS_DEFAULT_PERMS_MODE is write"
    );
    assert!(has_write_perm(WRITE_BIT_FLAG), "WRITE_BIT_FLAG is correct");
    assert!(has_write_perm(0o200), "has_write_perm is correct");
    assert!(has_write_perm(0o777), "has_write_perm is correct");
}

#[test]
fn test_x_bit() {
    assert!(
        !has_execute_perm(WINDOWS_DEFAULT_PERMS_MODE),
        "WINDOWS_DEFAULT_PERMS_MODE is not exec"
    );
    assert!(
        has_execute_perm(WRITE_BIT_FLAG),
        "WRITE_BIT_FLAG is correct"
    );
    assert!(has_execute_perm(0o100), "has_execute_perm is correct");
    assert!(has_execute_perm(0o777), "has_execute_perm is correct");
}

#[test]
fn permission_bits_are_the_owner_bits() {
    assert!(!has_read_perm(0o044));
    assert!(!has_write_perm(0o022));
    assert!(!has_execute_perm(0o011));
    assert!(has_execute_perm(EXECUTE_BIT_FLAG));
    assert!(!has_execute_perm(WRITE_BIT_FLAG | 0o044));
    assert!(!has_read_perm(0));
}
