use endoros::infrastructure::auth::LocalAuthAdapter;
use endoros::infrastructure::crypto::XorCryptoAdapter;
use endoros::infrastructure::fs::RamdiskAdapter;
use endoros::infrastructure::packages::LocalPkgManager;
use endoros::infrastructure::process::SchedulerAdapter;
use endoros::ports::auth::{AuthError, AuthPort};
use endoros::ports::encryption::{CryptoError, EncryptionPort};
use endoros::ports::filesystem::{FileSystemPort, FsError};
use endoros::ports::package_mgr::{PackageManagerPort, PkgError};
use endoros::ports::process_mgr::{ProcessError, ProcessManagerPort};

#[test]
fn ramdisk_starts_with_root_only() {
    let fs = RamdiskAdapter::new();
    assert!(fs.path_exists("/"));
    assert!(!fs.path_exists("/etc"));
    assert_eq!(fs.list("/").unwrap(), Vec::<String>::new());
    assert_eq!(fs.read("/").unwrap(), Vec::<u8>::new());
}

#[test]
fn ramdisk_read_after_write() {
    let mut fs = RamdiskAdapter::new();
    fs.write("/etc/hostname", b"endoros-node-1").unwrap();
    assert_eq!(fs.read("/etc/hostname").unwrap(), b"endoros-node-1".to_vec());
    // overwrite
    fs.write("/etc/hostname", b"other").unwrap();
    assert_eq!(fs.read("/etc/hostname").unwrap(), b"other".to_vec());
}

#[test]
fn ramdisk_write_creates_missing_parent() {
    let mut fs = RamdiskAdapter::new();
    fs.write("/home/admin", b"x").unwrap();
    assert!(fs.path_exists("/home"));
    assert_eq!(fs.read("/home").unwrap(), Vec::<u8>::new());
    // only the direct parent is created
    fs.write("/a/b/c", b"deep").unwrap();
    assert!(fs.path_exists("/a/b"));
    assert!(!fs.path_exists("/a"));
    assert_eq!(fs.list("/a"), Err(FsError::NotFound));
}

#[test]
fn ramdisk_write_keeps_existing_parent_content() {
    let mut fs = RamdiskAdapter::new();
    fs.write("/notes", b"text").unwrap();
    fs.write("/notes/child", b"c").unwrap();
    assert_eq!(fs.read("/notes").unwrap(), b"text".to_vec());
}

#[test]
fn ramdisk_list_is_sorted_direct_children() {
    let mut fs = RamdiskAdapter::new();
    fs.write("/var", b"").unwrap();
    fs.write("/bin", b"").unwrap();
    fs.write("/etc", b"").unwrap();
    fs.write("/etc/motd", b"hi").unwrap();
    fs.write("/etc/hosts", b"h").unwrap();
    assert_eq!(fs.list("/").unwrap(), vec!["/bin".to_string(), "/etc".to_string(), "/var".to_string()]);
    assert_eq!(fs.list("/etc").unwrap(), vec!["/etc/hosts".to_string(), "/etc/motd".to_string()]);
    assert_eq!(fs.list("/bin").unwrap(), Vec::<String>::new());
}

#[test]
fn ramdisk_list_missing_is_not_found() {
    let fs = RamdiskAdapter::new();
    assert_eq!(fs.list("/nope"), Err(FsError::NotFound));
}

#[test]
fn ramdisk_read_missing_is_not_found() {
    let fs = RamdiskAdapter::new();
    assert_eq!(fs.read("/nope"), Err(FsError::NotFound));
}

#[test]
fn ramdisk_delete_removes_and_then_fails() {
    let mut fs = RamdiskAdapter::new();
    fs.write("/tmp", b"").unwrap();
    fs.write("/tmp/x", b"1").unwrap();
    assert_eq!(fs.delete("/tmp/x"), Ok(()));
    assert!(!fs.path_exists("/tmp/x"));
    assert_eq!(fs.read("/tmp/x"), Err(FsError::NotFound));
    assert_eq!(fs.delete("/tmp/x"), Err(FsError::NotFound));
    assert!(fs.path_exists("/tmp"));
}

#[test]
fn ramdisk_delete_undoes_write_of_new_path() {
    let mut fs = RamdiskAdapter::new();
    fs.write("/etc", b"").unwrap();
    let before = fs.list("/etc").unwrap();
    fs.write("/etc/new", b"data").unwrap();
    fs.delete("/etc/new").unwrap();
    assert_eq!(fs.list("/etc").unwrap(), before);
    assert!(!fs.path_exists("/etc/new"));
}

#[test]
fn ramdisk_write_keeps_other_paths() {
    let mut fs = RamdiskAdapter::new();
    fs.write("/a", b"1").unwrap();
    fs.write("/b", b"2").unwrap();
    assert_eq!(fs.read("/a").unwrap(), b"1".to_vec());
}

#[test]
fn auth_accepts_known_users() {
    let auth = LocalAuthAdapter::new();
    assert_eq!(auth.authenticate("admin", "admin123"), Ok(0));
    assert_eq!(auth.authenticate("user", "user123"), Ok(1));
    assert_eq!(auth.authenticate("guest", "guest"), Ok(2));
}

#[test]
fn auth_wrong_password_is_invalid_credentials() {
    let auth = LocalAuthAdapter::new();
    assert_eq!(auth.authenticate("admin", "wrong"), Err(AuthError::InvalidCredentials));
    assert_eq!(auth.authenticate("guest", ""), Err(AuthError::InvalidCredentials));
}

#[test]
fn auth_unknown_user_is_not_found() {
    let auth = LocalAuthAdapter::new();
    assert_eq!(auth.authenticate("root", "admin123"), Err(AuthError::UserNotFound));
    assert_eq!(auth.authenticate("", ""), Err(AuthError::UserNotFound));
}

#[test]
fn auth_logout_and_admin_flags() {
    let mut auth = LocalAuthAdapter::new();
    assert_eq!(auth.logout(0), Ok(()));
    assert_eq!(auth.logout(2), Ok(()));
    assert_eq!(auth.logout(7), Err(AuthError::UserNotFound));
    assert!(auth.is_admin(0));
    assert!(!auth.is_admin(1));
    assert!(!auth.is_admin(2));
    assert!(!auth.is_admin(99));
}

#[test]
fn auth_error_names() {
    assert_eq!(AuthError::InvalidCredentials.debug_name(), "InvalidCredentials");
    assert_eq!(AuthError::UserNotFound.debug_name(), "UserNotFound");
    assert_eq!(AuthError::SessionExpired.debug_name(), "SessionExpired");
}

#[test]
fn xor_encrypt_exact_bytes() {
    let c = XorCryptoAdapter::new();
    let out = c.encrypt(b"abc", b"k").unwrap();
    assert_eq!(out, vec![0x61 ^ 0x6b, 0x62 ^ 0x6b, 0x63 ^ 0x6b]);
    let out2 = c.encrypt(b"abcd", b"xy").unwrap();
    assert_eq!(out2, vec![b'a' ^ b'x', b'b' ^ b'y', b'c' ^ b'x', b'd' ^ b'y']);
    assert_eq!(c.encrypt(b"", b"key").unwrap(), Vec::<u8>::new());
}

#[test]
fn xor_round_trip() {
    let c = XorCryptoAdapter::new();
    let data = b"EndorOS secret data";
    let key = b"endoros-key-2024";
    let enc = c.encrypt(data, key).unwrap();
    assert_ne!(enc, data.to_vec());
    assert_eq!(c.decrypt(&enc, key).unwrap(), data.to_vec());
}

#[test]
fn xor_empty_key_is_invalid() {
    let c = XorCryptoAdapter::new();
    assert_eq!(c.encrypt(b"abc", b""), Err(CryptoError::InvalidKey));
    assert_eq!(c.decrypt(b"abc", b""), Err(CryptoError::InvalidKey));
    assert_eq!(CryptoError::InvalidKey.debug_name(), "InvalidKey");
    assert_eq!(CryptoError::EncryptionFailed.debug_name(), "EncryptionFailed");
    assert_eq!(CryptoError::DecryptionFailed.debug_name(), "DecryptionFailed");
}

#[test]
fn pkg_install_list_remove() {
    let mut p = LocalPkgManager::new();
    assert_eq!(p.list_installed(), Vec::<String>::new());
    assert_eq!(p.install("vim"), Ok(()));
    assert_eq!(p.install("git"), Ok(()));
    assert_eq!(p.list_installed(), vec!["vim (1.0.0)".to_string(), "git (1.0.0)".to_string()]);
    assert_eq!(p.remove("vim"), Ok(()));
    assert_eq!(p.list_installed(), vec!["git (1.0.0)".to_string()]);
    assert_eq!(p.remove("vim"), Err(PkgError::NotFound));
}

#[test]
fn pkg_install_is_idempotent() {
    let mut p = LocalPkgManager::new();
    p.install("htop").unwrap();
    p.install("htop").unwrap();
    assert_eq!(p.list_installed(), vec!["htop (1.0.0)".to_string()]);
}

#[test]
fn pkg_unknown_is_not_found() {
    let mut p = LocalPkgManager::new();
    assert_eq!(p.install("rustc"), Err(PkgError::NotFound));
    assert_eq!(p.remove("rustc"), Err(PkgError::NotFound));
    assert_eq!(p.list_installed(), Vec::<String>::new());
}

#[test]
fn pkg_update_bumps_versions() {
    let mut p = LocalPkgManager::new();
    p.install("bash").unwrap();
    p.install("net-tools").unwrap();
    assert_eq!(p.update_all(), Ok(()));
    assert_eq!(p.list_installed(), vec!["bash (1.0.1)".to_string(), "net-tools (1.0.1)".to_string()]);
    // a second update keeps them
    assert_eq!(p.update_all(), Ok(()));
    assert_eq!(p.list_installed(), vec!["bash (1.0.1)".to_string(), "net-tools (1.0.1)".to_string()]);
}

#[test]
fn pkg_remove_undoes_install() {
    let mut p = LocalPkgManager::new();
    p.install("curl").unwrap();
    let before = p.list_installed();
    p.install("make").unwrap();
    p.remove("make").unwrap();
    assert_eq!(p.list_installed(), before);
}

#[test]
fn pkg_error_names() {
    assert_eq!(PkgError::NotFound.debug_name(), "NotFound");
    assert_eq!(PkgError::SignatureInvalid.debug_name(), "SignatureInvalid");
    assert_eq!(PkgError::DependencyConflict.debug_name(), "DependencyConflict");
    assert_eq!(PkgError::RollbackFailed.debug_name(), "RollbackFailed");
}

#[test]
fn scheduler_spawn_assigns_increasing_pids() {
    let mut s = SchedulerAdapter::new();
    assert!(s.can_spawn());
    assert_eq!(s.spawn("init", 255), Ok(1));
    assert_eq!(s.spawn("sh", 5), Ok(2));
    assert_eq!(s.list_processes(), vec![(1, "init".to_string()), (2, "sh".to_string())]);
    assert_eq!(s.processes().len(), 2);
    assert_eq!(s.processes()[0].priority, 255);
}

#[test]
fn scheduler_kill_removes_and_pids_are_not_reused() {
    let mut s = SchedulerAdapter::new();
    s.spawn("a", 1).unwrap();
    s.spawn("b", 1).unwrap();
    assert_eq!(s.kill(1), Ok(()));
    assert_eq!(s.kill(1), Err(ProcessError::NotFound));
    assert_eq!(s.list_processes(), vec![(2, "b".to_string())]);
    assert_eq!(s.spawn("c", 1), Ok(3));
}

#[test]
fn scheduler_truncates_long_names() {
    let mut s = SchedulerAdapter::new();
    let long = "x".repeat(80);
    s.spawn(&long, 1).unwrap();
    assert_eq!(s.list_processes()[0].1, "x".repeat(63));
}

#[test]
fn scheduler_limit_is_resource_exhausted() {
    let mut s = SchedulerAdapter::new();
    for i in 0..1024u32 {
        assert_eq!(s.spawn("p", 1), Ok(i + 1));
    }
    assert_eq!(s.spawn("p", 1), Err(ProcessError::ResourceExhausted));
    assert_eq!(s.list_processes().len(), 1024);
    assert_eq!(ProcessError::ResourceExhausted.debug_name(), "ResourceExhausted");
    assert_eq!(ProcessError::NotFound.debug_name(), "NotFound");
    assert_eq!(ProcessError::PermissionDenied.debug_name(), "PermissionDenied");
}

#[test]
fn fs_error_names() {
    assert_eq!(FsError::NotFound.debug_name(), "NotFound");
    assert_eq!(FsError::PermissionDenied.debug_name(), "PermissionDenied");
    assert_eq!(FsError::IoError.debug_name(), "IoError");
}

#[test]
fn auth_login_then_logout_keeps_credentials() {
    let mut auth = LocalAuthAdapter::new();
    let uid = auth.authenticate("user", "user123").unwrap();
    assert_eq!(auth.logout(uid), Ok(()));
    assert_eq!(auth.authenticate("user", "user123"), Ok(1));
    assert_eq!(auth.authenticate("admin", "admin123"), Ok(0));
    assert!(auth.is_admin(0));
}

#[test]
fn scheduler_kill_undoes_spawn() {
    let mut s = SchedulerAdapter::new();
    s.spawn("init", 255).unwrap();
    let before = s.list_processes();
    let pid = s.spawn("tmp", 1).unwrap();
    assert_eq!(pid, 2);
    s.kill(pid).unwrap();
    assert_eq!(s.list_processes(), before);
    assert_eq!(s.spawn("next", 1), Ok(3));
}

#[test]
fn pkg_remove_drops_only_that_label() {
    let mut p = LocalPkgManager::new();
    p.install("bash").unwrap();
    p.install("vim").unwrap();
    p.install("git").unwrap();
    p.remove("vim").unwrap();
    assert_eq!(p.list_installed(), vec!["bash (1.0.0)".to_string(), "git (1.0.0)".to_string()]);
}
