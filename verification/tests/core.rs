use endoros::domain::file::FileEntry;
use endoros::domain::package::{InstallState, Package};
use endoros::domain::policy::SecurityPolicy;
use endoros::domain::process::{Process, ProcessState};
use endoros::domain::session::{Role, Session, User};
use endoros::fmt::{decimal_string, pad_to, parse_u32, push_decimal2, push_hex_byte, split_n, text_lines, trim};
use endoros::infrastructure::auth::LocalAuthAdapter;
use endoros::infrastructure::crypto::XorCryptoAdapter;
use endoros::infrastructure::fs::RamdiskAdapter;
use endoros::infrastructure::packages::LocalPkgManager;
use endoros::infrastructure::process::SchedulerAdapter;
use endoros::kernel::allocator::{BumpAllocator, HEAP_SIZE};
use endoros::kernel::boot::init;
use endoros::ports::auth::AuthError;
use endoros::ports::encryption::CryptoError;
use endoros::ports::filesystem::FileSystemPort;
use endoros::ports::package_mgr::{PackageManagerPort, PkgError};
use endoros::ports::process_mgr::ProcessManagerPort;
use endoros::text::{buffer_text, bytes_eq, compare_bytes, name_buffer, str_eq, text_end, utf8_lossy};
use endoros::ui::window_manager::layout::{apply_snap, compute_snap_geometry};
use endoros::ui::window_manager::wm::{SnapZone, Window, WindowManager};
use endoros::use_cases::authenticate_user::AuthenticateUser;
use endoros::use_cases::encrypt_volume::EncryptVolume;
use endoros::use_cases::install_package::InstallPackage;
use endoros::use_cases::launch_process::LaunchProcess;
use endoros::use_cases::mount_filesystem::MountFilesystem;

#[test]
fn snap_geometry_full_hd() {
    assert_eq!(compute_snap_geometry(&SnapZone::Left, 1920, 1080), (0, 0, 960, 1080));
    assert_eq!(compute_snap_geometry(&SnapZone::Right, 1920, 1080), (960, 0, 960, 1080));
    assert_eq!(compute_snap_geometry(&SnapZone::TopLeft, 1920, 1080), (0, 0, 960, 540));
    assert_eq!(compute_snap_geometry(&SnapZone::TopRight, 1920, 1080), (960, 0, 960, 540));
    assert_eq!(compute_snap_geometry(&SnapZone::BottomLeft, 1920, 1080), (0, 540, 960, 540));
    assert_eq!(compute_snap_geometry(&SnapZone::BottomRight, 1920, 1080), (960, 540, 960, 540));
    assert_eq!(compute_snap_geometry(&SnapZone::Fullscreen, 1920, 1080), (0, 0, 1920, 1080));
}

#[test]
fn snap_geometry_odd_screen_tiles_exactly() {
    // the right half takes the odd pixel
    assert_eq!(compute_snap_geometry(&SnapZone::Left, 1001, 601), (0, 0, 500, 601));
    assert_eq!(compute_snap_geometry(&SnapZone::Right, 1001, 601), (500, 0, 501, 601));
    assert_eq!(compute_snap_geometry(&SnapZone::BottomRight, 1001, 601), (500, 300, 501, 301));
    assert_eq!(compute_snap_geometry(&SnapZone::Left, 0, 0), (0, 0, 0, 0));
    assert_eq!(compute_snap_geometry(&SnapZone::Right, 1, 1), (0, 0, 1, 1));
}

#[test]
fn apply_snap_moves_window() {
    let mut w = Window { id: 7, title: "Editor".to_string(), x: 0, y: 0, width: 640, height: 480 };
    apply_snap(&mut w, &SnapZone::BottomLeft, 800, 600);
    assert_eq!((w.x, w.y, w.width, w.height), (0, 300, 400, 300));
    assert_eq!(w.id, 7);
    assert_eq!(w.title, "Editor");
}

#[test]
fn window_manager_open_snap_close() {
    let mut wm = WindowManager::new(1920, 1080);
    assert_eq!(wm.layout_lines(), vec!["  (no open windows)".to_string()]);
    let t = wm.open_window("Terminal");
    let e = wm.open_window("Code Editor");
    assert_eq!((t, e), (1, 2));
    assert_eq!(wm.list_windows().len(), 2);
    assert_eq!(
        (wm.list_windows()[0].x, wm.list_windows()[0].y, wm.list_windows()[0].width, wm.list_windows()[0].height),
        (0, 0, 640, 480)
    );
    wm.snap(t, SnapZone::Left);
    wm.snap(e, SnapZone::Right);
    wm.snap(99, SnapZone::Fullscreen);
    assert_eq!(
        wm.layout_lines(),
        vec![
            "  [1] \"Terminal\"  pos=(0,0)  size=960x1080".to_string(),
            "  [2] \"Code Editor\"  pos=(960,0)  size=960x1080".to_string(),
        ]
    );
    assert!(wm.close_window(t));
    assert!(!wm.close_window(t));
    assert_eq!(wm.list_windows().len(), 1);
    assert_eq!(wm.list_windows()[0].id, 2);
    let n = wm.open_window("Third");
    assert_eq!(n, 3);
}

#[test]
fn allocator_bumps_and_aligns() {
    let mut a = BumpAllocator::new();
    let base: usize = 0x10_0000;
    assert_eq!(a.allocate(base, 100, 16), Some(base));
    assert_eq!(a.allocate(base, 8, 64), Some(base + 128));
    assert_eq!(a.allocate(base, 1, 1), Some(base + 136));
    a.deallocate(base, 100, 16);
    assert_eq!(a.allocate(base, 4, 4), Some(base + 140));
}

#[test]
fn allocator_refuses_when_full() {
    let mut a = BumpAllocator::new();
    let base: usize = 0x20_0000;
    assert_eq!(a.allocate(base, HEAP_SIZE + 1, 1), None);
    assert_eq!(a.allocate(base, HEAP_SIZE, 1), Some(base));
    assert_eq!(a.allocate(base, 1, 1), None);
    assert_eq!(HEAP_SIZE, 2 * 1024 * 1024);
}

#[test]
fn allocator_unaligned_base() {
    let mut a = BumpAllocator::new();
    let base: usize = 0x1003;
    assert_eq!(a.allocate(base, 10, 8), Some(0x1008));
    assert_eq!(a.allocate(base, 10, 8), Some(0x1018));
}

#[test]
fn boot_init_runs() {
    init();
}

#[test]
fn name_buffers_truncate_and_terminate() {
    let buf: [u8; 8] = name_buffer("hello world");
    assert_eq!(&buf, b"hello w\0");
    assert_eq!(text_end(&buf), 7);
    assert_eq!(buffer_text(&buf), "hello w");
    let small: [u8; 8] = name_buffer("hi");
    assert_eq!(&small, b"hi\0\0\0\0\0\0");
    assert_eq!(buffer_text(&small), "hi");
    let bad: [u8; 4] = [0xff, b'a', 0, 0];
    assert_eq!(buffer_text(&bad), "<invalid>");
    let full: [u8; 3] = [b'a', b'b', b'c'];
    assert_eq!(text_end(&full), 3);
    assert_eq!(buffer_text(&full), "abc");
}

#[test]
fn byte_and_string_comparisons() {
    assert!(bytes_eq(b"abc", b"abc"));
    assert!(!bytes_eq(b"abc", b"ab"));
    assert!(str_eq("vim", "vim"));
    assert!(!str_eq("vim", "Vim"));
    assert!(compare_bytes(b"abc", b"abd") < 0);
    assert!(compare_bytes(b"ab", b"abc") < 0);
    assert!(compare_bytes(b"b", b"abc") > 0);
    assert_eq!(compare_bytes(b"same", b"same"), 0);
    assert_eq!(utf8_lossy(b"plain"), "plain");
    assert_eq!(utf8_lossy(&[b'a', 0xff, b'b']), "a\u{fffd}b");
}

#[test]
fn number_formatting() {
    assert_eq!(decimal_string(0), "0");
    assert_eq!(decimal_string(1234567), "1234567");
    assert_eq!(decimal_string(u64::MAX), "18446744073709551615");
    let mut s = String::from("t=");
    push_decimal2(&mut s, 5);
    push_decimal2(&mut s, 42);
    push_decimal2(&mut s, 123);
    assert_eq!(s, "t=0542123");
    let mut h = String::new();
    push_hex_byte(&mut h, 0x0a);
    push_hex_byte(&mut h, 0xff);
    push_hex_byte(&mut h, 0x00);
    assert_eq!(h, "0aff00");
    let mut p = String::from("ps");
    pad_to(&mut p, 5);
    assert_eq!(p, "ps   ");
    let mut q = String::from("toolong");
    pad_to(&mut q, 3);
    assert_eq!(q, "toolong");
}

#[test]
fn parsing_helpers() {
    assert_eq!(trim("  a b \n"), "a b");
    assert_eq!(trim("\t\r\n "), "");
    assert_eq!(split_n("a b c d e", 4), vec!["a", "b", "c", "d e"]);
    assert_eq!(split_n("a  b", 4), vec!["a", "", "b"]);
    assert_eq!(split_n("one", 4), vec!["one"]);
    assert_eq!(parse_u32("42"), Some(42));
    assert_eq!(parse_u32("+7"), Some(7));
    assert_eq!(parse_u32(""), None);
    assert_eq!(parse_u32("-1"), None);
    assert_eq!(parse_u32("12a"), None);
    assert_eq!(parse_u32("4294967295"), Some(u32::MAX));
    assert_eq!(parse_u32("4294967296"), None);
    assert_eq!(text_lines("a\nb\r\n\nc"), vec!["a", "b", "", "c"]);
    assert_eq!(text_lines("x\n"), vec!["x"]);
    assert_eq!(text_lines(""), Vec::<&str>::new());
}

#[test]
fn domain_entities() {
    let f = FileEntry::new("readme.txt", 42, false);
    assert_eq!(f.name_str(), "readme.txt");
    assert_eq!((f.size, f.is_dir), (42, false));
    let long = "n".repeat(200);
    assert_eq!(FileEntry::new(&long, 0, true).name_str(), "n".repeat(127));
    let p = Process::new(3, "sh", 5);
    assert_eq!((p.pid, p.priority, p.state), (3, 5, ProcessState::Running));
    assert_eq!(p.name_str(), "sh");
    let c = p.clone_process();
    assert_eq!((c.pid, c.name_str()), (3, "sh"));
    let pk = Package::new("vim", "1.0.0", true);
    assert_eq!((pk.name_str(), pk.version_str(), pk.signed, pk.state), ("vim", "1.0.0", true, InstallState::Pending));
    assert_eq!(pk.clone_package().version_str(), "1.0.0");
    let u = User::new(0, "admin", Role::Admin);
    assert_eq!((u.uid, u.name_str(), u.role), (0, "admin", Role::Admin));
    let mut s = Session::new(u, 3600);
    assert!(s.active);
    assert_eq!(s.timeout_secs, 3600);
    s.invalidate();
    assert!(!s.active);
    assert_eq!(s.user.name_str(), "admin");
    let mut bad = FileEntry::new("x", 0, false);
    bad.name[0] = 0xff;
    assert_eq!(bad.name_str(), "<invalid>");
}

#[test]
fn security_policies() {
    let h = SecurityPolicy::default_hardened();
    assert!(!h.can_exec());
    assert!(!h.allow_network);
    assert!(h.audit_enabled);
    let p = SecurityPolicy::permissive();
    assert!(p.can_exec());
    assert!(p.allow_network);
    assert!(!p.audit_enabled);
}

#[test]
fn use_case_authenticate() {
    let uc = AuthenticateUser::new(LocalAuthAdapter::new());
    assert_eq!(uc.execute("user", "user123"), Ok(1));
    assert_eq!(uc.execute("user", "x"), Err(AuthError::InvalidCredentials));
    assert_eq!(uc.execute("nobody", "x"), Err(AuthError::UserNotFound));
}

#[test]
fn use_case_encrypt_volume() {
    let uc = EncryptVolume::new(XorCryptoAdapter::new());
    let c = uc.execute(b"volume", b"k3y").unwrap();
    assert_eq!(uc.decrypt(&c, b"k3y").unwrap(), b"volume".to_vec());
    assert_eq!(uc.execute(b"volume", b""), Err(CryptoError::InvalidKey));
}

#[test]
fn use_case_install_package() {
    let mut uc = InstallPackage::new(LocalPkgManager::new());
    assert_eq!(uc.execute("openssl"), Ok(()));
    assert_eq!(uc.execute("nginx"), Err(PkgError::NotFound));
    assert_eq!(uc.manager().list_installed(), vec!["openssl (1.0.0)".to_string()]);
    uc.manager_mut().remove("openssl").unwrap();
    assert!(uc.manager().list_installed().is_empty());
}

#[test]
fn use_case_launch_process() {
    let mut uc = LaunchProcess::new(SchedulerAdapter::new());
    assert_eq!(uc.execute("init", 255), Ok(1));
    assert_eq!(uc.execute("sh", 5), Ok(2));
    assert_eq!(uc.manager().list_processes().len(), 2);
    uc.manager_mut().kill(1).unwrap();
    assert_eq!(uc.manager().list_processes(), vec![(2, "sh".to_string())]);
}

#[test]
fn use_case_mount_filesystem() {
    let mut fs = RamdiskAdapter::new();
    fs.write("/etc", b"keep").unwrap();
    let mut uc = MountFilesystem::new(fs);
    let dirs = uc.execute().unwrap();
    // only the directories that were missing are reported
    assert_eq!(dirs, vec!["/bin", "/home", "/tmp", "/var"]);
    assert_eq!(
        uc.fs().list("/").unwrap(),
        vec!["/bin", "/etc", "/home", "/tmp", "/var"].iter().map(|s| s.to_string()).collect::<Vec<_>>()
    );
    // an existing directory is left as it was
    assert_eq!(uc.fs().read("/etc").unwrap(), b"keep".to_vec());
    uc.fs_mut().write("/tmp/x", b"1").unwrap();
    // mounting again changes nothing
    let again = uc.execute().unwrap();
    assert!(again.is_empty());
    assert_eq!(uc.fs().read("/tmp/x").unwrap(), b"1".to_vec());
}

#[test]
fn window_close_undoes_open() {
    let mut wm = WindowManager::new(800, 600);
    wm.open_window("A");
    let before = wm.layout_lines();
    assert!(wm.can_open());
    let id = wm.open_window("B");
    assert!(wm.close_window(id));
    assert_eq!(wm.layout_lines(), before);
}

#[test]
fn use_case_mount_fresh_ramdisk_reports_created() {
    let mut uc = MountFilesystem::new(RamdiskAdapter::new());
    assert_eq!(uc.execute().unwrap(), vec!["/bin", "/etc", "/home", "/tmp", "/var"]);
    for d in ["/", "/bin", "/etc", "/home", "/tmp", "/var"] {
        assert!(uc.fs().path_exists(d));
    }
}
