use endoros::infrastructure::auth::LocalAuthAdapter;
use endoros::infrastructure::crypto::XorCryptoAdapter;
use endoros::infrastructure::fs::RamdiskAdapter;
use endoros::infrastructure::packages::LocalPkgManager;
use endoros::infrastructure::process::SchedulerAdapter;
use endoros::ports::filesystem::FileSystemPort;
use endoros::ui::shell::Shell;

type TestShell = Shell<RamdiskAdapter, LocalAuthAdapter, SchedulerAdapter, XorCryptoAdapter, LocalPkgManager>;

fn shell() -> TestShell {
    let mut fs = RamdiskAdapter::new();
    fs.write("/etc", b"").unwrap();
    fs.write("/etc/hostname", b"endoros-node-1").unwrap();
    Shell::new(
        fs,
        LocalAuthAdapter::new(),
        SchedulerAdapter::new(),
        XorCryptoAdapter::new(),
        LocalPkgManager::new(),
    )
}

fn run(sh: &mut TestShell, line: &str) -> Vec<String> {
    assert!(sh.ready_for(line));
    let (keep, out) = sh.dispatch(line);
    assert!(keep);
    out
}

#[test]
fn shell_prompt_follows_login() {
    let mut sh = shell();
    assert_eq!(sh.prompt(), "endoros@anonymous> ");
    run(&mut sh, "login user user123");
    assert_eq!(sh.prompt(), "endoros@user> ");
    run(&mut sh, "logout");
    assert_eq!(sh.prompt(), "endoros@anonymous> ");
}

#[test]
fn shell_blank_line_does_nothing() {
    let mut sh = shell();
    let (keep, out) = sh.dispatch("   \n");
    assert!(keep);
    assert!(out.is_empty());
}

#[test]
fn shell_exit_and_quit_stop() {
    let mut sh = shell();
    let (keep, out) = sh.dispatch("exit\n");
    assert!(!keep);
    assert_eq!(out, vec!["Goodbye.".to_string()]);
    let (keep2, out2) = sh.dispatch("  quit ");
    assert!(!keep2);
    assert_eq!(out2, vec!["Goodbye.".to_string()]);
}

#[test]
fn shell_unknown_command() {
    let mut sh = shell();
    assert_eq!(run(&mut sh, "dance now"), vec!["Unknown command: 'dance'. Type 'help' for a list.".to_string()]);
}

#[test]
fn shell_help_lists_commands() {
    let mut sh = shell();
    let out = run(&mut sh, "help");
    assert_eq!(out.len(), 21);
    assert_eq!(out[0], "EndorOS Shell \u{2014} available commands:");
    assert_eq!(out[1], "  ps                        List running processes");
    assert_eq!(out[20], "  exit / quit               Exit the shell");
}

#[test]
fn shell_login_whoami_logout() {
    let mut sh = shell();
    assert_eq!(run(&mut sh, "whoami"), vec!["Not logged in.".to_string()]);
    assert_eq!(run(&mut sh, "logout"), vec!["No active session.".to_string()]);
    assert_eq!(run(&mut sh, "login admin admin123"), vec!["Login successful. Welcome, admin! (uid=0)".to_string()]);
    assert_eq!(run(&mut sh, "whoami"), vec!["User: admin (admin)".to_string()]);
    assert_eq!(run(&mut sh, "logout"), vec!["Logged out admin.".to_string()]);
    assert_eq!(run(&mut sh, "login guest guest"), vec!["Login successful. Welcome, guest! (uid=2)".to_string()]);
    assert_eq!(run(&mut sh, "whoami"), vec!["User: guest".to_string()]);
}

#[test]
fn shell_login_failures() {
    let mut sh = shell();
    assert_eq!(run(&mut sh, "login admin nope"), vec!["Authentication failed: InvalidCredentials".to_string()]);
    assert_eq!(run(&mut sh, "login bob pw"), vec!["Authentication failed: UserNotFound".to_string()]);
    assert_eq!(run(&mut sh, "login admin"), vec!["Usage: login <username> <password>".to_string()]);
    assert_eq!(sh.prompt(), "endoros@anonymous> ");
}

#[test]
fn shell_processes() {
    let mut sh = shell();
    assert_eq!(run(&mut sh, "ps"), vec!["  No processes running.".to_string()]);
    assert_eq!(run(&mut sh, "run editor"), vec!["Launched 'editor' with PID 1.".to_string()]);
    assert_eq!(run(&mut sh, "run daemon"), vec!["Launched 'daemon' with PID 2.".to_string()]);
    assert_eq!(
        run(&mut sh, "ps"),
        vec!["  PID   NAME".to_string(), "  1     editor".to_string(), "  2     daemon".to_string()]
    );
    assert_eq!(run(&mut sh, "kill 1"), vec!["Process 1 terminated.".to_string()]);
    assert_eq!(run(&mut sh, "kill 1"), vec!["Error: NotFound".to_string()]);
    assert_eq!(run(&mut sh, "kill abc"), vec!["Invalid PID: 'abc'".to_string()]);
    assert_eq!(run(&mut sh, "kill"), vec!["Usage: kill <pid>".to_string()]);
    assert_eq!(run(&mut sh, "run"), vec!["Usage: run <name>".to_string()]);
    assert_eq!(run(&mut sh, "ps"), vec!["  PID   NAME".to_string(), "  2     daemon".to_string()]);
}

#[test]
fn shell_files() {
    let mut sh = shell();
    assert_eq!(run(&mut sh, "ls"), vec!["  /etc".to_string()]);
    assert_eq!(run(&mut sh, "ls /etc"), vec!["  /etc/hostname".to_string()]);
    assert_eq!(run(&mut sh, "cat /etc/hostname"), vec!["endoros-node-1".to_string()]);
    assert_eq!(run(&mut sh, "cat /etc"), vec!["  (empty file)".to_string()]);
    assert_eq!(run(&mut sh, "cat /nope"), vec!["Error: NotFound".to_string()]);
    assert_eq!(run(&mut sh, "ls /nope"), vec!["Error: NotFound".to_string()]);
    assert_eq!(run(&mut sh, "cat"), vec!["Usage: cat <path>".to_string()]);
    // the content is the rest of the line after the path
    assert_eq!(run(&mut sh, "write /tmp/a hello world"), vec!["Written 11 bytes to '/tmp/a'.".to_string()]);
    assert_eq!(run(&mut sh, "cat /tmp/a"), vec!["hello world".to_string()]);
    assert_eq!(run(&mut sh, "write /tmp/a hello  big world"), vec!["Written 16 bytes to '/tmp/a'.".to_string()]);
    assert_eq!(run(&mut sh, "cat /tmp/a"), vec!["hello  big world".to_string()]);
    assert_eq!(run(&mut sh, "ls /tmp"), vec!["  /tmp/a".to_string()]);
    assert_eq!(run(&mut sh, "write /tmp/b"), vec!["Usage: write <path> <content>".to_string()]);
    run(&mut sh, "write /empty x");
    assert_eq!(run(&mut sh, "ls /etc/hostname"), vec!["  (empty)".to_string()]);
}

#[test]
fn shell_packages() {
    let mut sh = shell();
    assert_eq!(run(&mut sh, "pkg list"), vec!["  No packages installed.".to_string()]);
    assert_eq!(run(&mut sh, "pkg install vim"), vec!["Package 'vim' installed successfully.".to_string()]);
    assert_eq!(run(&mut sh, "pkg install rustc"), vec!["Install error: NotFound".to_string()]);
    assert_eq!(run(&mut sh, "pkg list"), vec!["  vim (1.0.0)".to_string()]);
    assert_eq!(run(&mut sh, "pkg update"), vec!["All packages updated.".to_string()]);
    assert_eq!(run(&mut sh, "pkg list"), vec!["  vim (1.0.1)".to_string()]);
    assert_eq!(run(&mut sh, "pkg remove vim"), vec!["Package 'vim' removed.".to_string()]);
    assert_eq!(run(&mut sh, "pkg remove vim"), vec!["Remove error: NotFound".to_string()]);
    assert_eq!(run(&mut sh, "pkg"), vec!["Usage: pkg <install|remove|list|update> [name]".to_string()]);
    assert_eq!(run(&mut sh, "pkg install"), vec!["Usage: pkg install <name>".to_string()]);
    assert_eq!(run(&mut sh, "pkg remove"), vec!["Usage: pkg remove <name>".to_string()]);
    assert_eq!(run(&mut sh, "pkg frob"), vec!["Unknown pkg sub-command: 'frob'".to_string()]);
}

#[test]
fn shell_encrypt_shows_hex_and_round_trip() {
    let mut sh = shell();
    assert_eq!(
        run(&mut sh, "encrypt hi"),
        vec!["Ciphertext (hex): 0d07".to_string(), "Round-trip check: hi".to_string()]
    );
    let out = run(&mut sh, "encrypt a b c d");
    assert_eq!(out[1], "Round-trip check: a b c d");
    assert_eq!(run(&mut sh, "encrypt"), vec!["Usage: encrypt <text>".to_string()]);
}

#[test]
fn shell_wm_prints_note() {
    let mut sh = shell();
    let out = run(&mut sh, "wm list");
    assert_eq!(out.len(), 3);
    assert_eq!(out[0], "Window manager commands must be issued from within the WM context.");
}
