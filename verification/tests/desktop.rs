use endoros::infrastructure::auth::LocalAuthAdapter;
use endoros::infrastructure::crypto::XorCryptoAdapter;
use endoros::infrastructure::fs::RamdiskAdapter;
use endoros::infrastructure::packages::LocalPkgManager;
use endoros::infrastructure::process::SchedulerAdapter;
use endoros::ports::auth::AuthPort;
use endoros::ports::filesystem::FileSystemPort;
use endoros::ports::package_mgr::PackageManagerPort;
use endoros::ports::process_mgr::ProcessManagerPort;
use endoros::ui::desktop::app::{icon_panel, panel_icon, status_ok, toggle_panel, uptime_text, ActivePanel, Desktop};
use endoros::ui::desktop::file_explorer::{entry_name, replace_backslashes, FileExplorer};
use endoros::ui::desktop::process_monitor::ProcessMonitor;
use endoros::ui::desktop::taskbar::{AppIcon, Taskbar};
use endoros::ui::desktop::terminal::Terminal;
use endoros::ui::desktop::theme::{with_alpha, Tone};

fn terminal_with(fs: RamdiskAdapter) -> Terminal {
    Terminal::new(fs, LocalAuthAdapter::new(), SchedulerAdapter::new(), XorCryptoAdapter::new(), LocalPkgManager::new())
}

fn lines_after(t: &Terminal, n: usize) -> Vec<(String, Tone)> {
    t.history[n..].to_vec()
}

fn exec(t: &mut Terminal, line: &str) -> Vec<(String, Tone)> {
    let n = t.history.len();
    t.execute(line.to_string());
    lines_after(t, n)
}

#[test]
fn terminal_banner() {
    let t = terminal_with(RamdiskAdapter::new());
    assert_eq!(
        t.history,
        vec![
            ("EndorOS Shell v0.1.0".to_string(), Tone::TermGreen),
            ("Type 'help' for available commands.".to_string(), Tone::TextDim),
            ("".to_string(), Tone::TextDim),
        ]
    );
    assert_eq!(t.prompt_str(), "endoros@anonymous> ");
}

#[test]
fn terminal_echoes_and_answers() {
    let mut t = terminal_with(RamdiskAdapter::new());
    assert_eq!(
        exec(&mut t, "whoami"),
        vec![
            ("endoros@anonymous> whoami".to_string(), Tone::GreenGlow),
            ("Not logged in.".to_string(), Tone::Sand),
        ]
    );
    assert_eq!(t.cmd_history, vec!["whoami".to_string()]);
}

#[test]
fn terminal_blank_line_is_only_echoed() {
    let mut t = terminal_with(RamdiskAdapter::new());
    assert_eq!(exec(&mut t, "   "), vec![("endoros@anonymous>    ".to_string(), Tone::GreenGlow)]);
    assert!(t.cmd_history.is_empty());
}

#[test]
fn terminal_clear_empties_output() {
    let mut t = terminal_with(RamdiskAdapter::new());
    t.execute("help".to_string());
    t.execute("clear".to_string());
    assert!(t.history.is_empty());
    assert_eq!(t.cmd_history, vec!["help".to_string(), "clear".to_string()]);
}

#[test]
fn terminal_help_lines() {
    let mut t = terminal_with(RamdiskAdapter::new());
    let out = exec(&mut t, "help");
    assert_eq!(out.len(), 14);
    assert_eq!(out[1], ("Available commands:".to_string(), Tone::Sand));
    assert_eq!(out[2], (format!("  {:35} {}", "ps", "List running processes"), Tone::TextDim));
    assert_eq!(out[13], (format!("  {:35} {}", "clear", "Clear terminal"), Tone::TextDim));
}

#[test]
fn terminal_exit_hint_and_unknown() {
    let mut t = terminal_with(RamdiskAdapter::new());
    assert_eq!(exec(&mut t, "exit")[1], ("Use the window close button to exit.".to_string(), Tone::Sand));
    assert_eq!(exec(&mut t, "foo bar")[1], ("Unknown command: 'foo'. Type 'help'.".to_string(), Tone::Error));
}

#[test]
fn terminal_login_and_roles() {
    let mut t = terminal_with(RamdiskAdapter::new());
    assert_eq!(exec(&mut t, "login admin admin123")[1], ("Welcome, admin! (uid=0)".to_string(), Tone::TermGreen));
    assert_eq!(t.prompt_str(), "endoros@admin> ");
    assert_eq!(exec(&mut t, "whoami")[1], ("admin [admin]".to_string(), Tone::Text));
    assert_eq!(exec(&mut t, "logout")[1], ("Logged out admin.".to_string(), Tone::TermGreen));
    assert_eq!(exec(&mut t, "logout")[1], ("No active session.".to_string(), Tone::Sand));
    assert_eq!(exec(&mut t, "login user user123")[1], ("Welcome, user! (uid=1)".to_string(), Tone::TermGreen));
    assert_eq!(exec(&mut t, "whoami")[1], ("user [user]".to_string(), Tone::Text));
    assert_eq!(exec(&mut t, "login user bad")[1], ("Auth failed: InvalidCredentials".to_string(), Tone::Error));
    assert_eq!(t.current_username, Some("user".to_string()));
}

#[test]
fn terminal_cat_splits_lines_and_flags_binary() {
    let mut fs = RamdiskAdapter::new();
    fs.write("/etc", b"").unwrap();
    fs.write("/etc/motd", b"line1\nline2\r\nline3\n").unwrap();
    fs.write("/bin", b"").unwrap();
    fs.write("/bin/x", &[0xff, 0xfe]).unwrap();
    let mut t = terminal_with(fs);
    assert_eq!(
        exec(&mut t, "cat /etc/motd")[1..].to_vec(),
        vec![
            ("line1".to_string(), Tone::TermText),
            ("line2".to_string(), Tone::TermText),
            ("line3".to_string(), Tone::TermText),
        ]
    );
    assert_eq!(exec(&mut t, "cat /bin/x")[1], ("<binary data, 2 bytes>".to_string(), Tone::TextMuted));
    assert_eq!(exec(&mut t, "cat /etc")[1], ("  (empty file)".to_string(), Tone::TextMuted));
    assert_eq!(exec(&mut t, "cat /x")[1], ("Error: NotFound".to_string(), Tone::Error));
    assert_eq!(exec(&mut t, "ls")[1..].to_vec(), vec![("  /bin".to_string(), Tone::Text), ("  /etc".to_string(), Tone::Text)]);
    assert_eq!(exec(&mut t, "ls /bin/x")[1], ("  (empty)".to_string(), Tone::TextMuted));
}

#[test]
fn terminal_processes_and_packages() {
    let mut t = terminal_with(RamdiskAdapter::new());
    assert_eq!(exec(&mut t, "ps")[1], ("  No processes running.".to_string(), Tone::TextDim));
    assert_eq!(exec(&mut t, "run top")[1], ("Launched 'top' with PID 1.".to_string(), Tone::TermGreen));
    assert_eq!(
        exec(&mut t, "ps")[1..].to_vec(),
        vec![("  PID   NAME".to_string(), Tone::Sand), ("  1     top".to_string(), Tone::Text)]
    );
    assert_eq!(exec(&mut t, "kill 1")[1], ("Process 1 terminated.".to_string(), Tone::TermGreen));
    assert_eq!(exec(&mut t, "kill x")[1], ("Invalid PID: 'x'".to_string(), Tone::Error));
    assert_eq!(exec(&mut t, "pkg list")[1], ("  No packages installed.".to_string(), Tone::TextDim));
    assert_eq!(exec(&mut t, "pkg install git")[1], ("Package 'git' installed.".to_string(), Tone::TermGreen));
    assert_eq!(
        exec(&mut t, "pkg list")[1..].to_vec(),
        vec![
            ("  Installed packages:".to_string(), Tone::Sand),
            ("  \u{e2}\u{20ac}\u{a2} git (1.0.0)".to_string(), Tone::Text),
        ]
    );
    assert_eq!(exec(&mut t, "pkg remove zsh")[1], ("Error: NotFound".to_string(), Tone::Error));
    assert_eq!(exec(&mut t, "write /f abc")[1], ("Written 3 bytes to '/f'.".to_string(), Tone::TermGreen));
    assert_eq!(t.fs.read("/f").unwrap(), b"abc".to_vec());
}

#[test]
fn terminal_encrypt() {
    let mut t = terminal_with(RamdiskAdapter::new());
    assert_eq!(
        exec(&mut t, "encrypt hi")[1..].to_vec(),
        vec![("Cipher: 0d07".to_string(), Tone::TermGreen), ("Verify: hi".to_string(), Tone::TextDim)]
    );
}

#[test]
fn terminal_history_navigation() {
    let mut t = terminal_with(RamdiskAdapter::new());
    t.history_up();
    assert_eq!(t.input, "");
    assert_eq!(t.cmd_history_idx, None);
    t.execute("ps".to_string());
    t.execute("whoami".to_string());
    t.history_up();
    assert_eq!((t.input.as_str(), t.cmd_history_idx), ("whoami", Some(1)));
    t.history_up();
    assert_eq!((t.input.as_str(), t.cmd_history_idx), ("ps", Some(0)));
    t.history_up();
    assert_eq!((t.input.as_str(), t.cmd_history_idx), ("ps", Some(0)));
    t.history_down();
    assert_eq!((t.input.as_str(), t.cmd_history_idx), ("whoami", Some(1)));
    t.history_down();
    assert_eq!((t.input.as_str(), t.cmd_history_idx), ("", None));
    t.history_down();
    assert_eq!((t.input.as_str(), t.cmd_history_idx), ("", None));
}

#[test]
fn terminal_submit_runs_input() {
    let mut t = terminal_with(RamdiskAdapter::new());
    t.input = "run editor".to_string();
    assert!(t.proc_mgr.can_spawn());
    t.submit();
    assert_eq!(t.input, "");
    assert_eq!(t.proc_mgr.list_processes(), vec![(1, "editor".to_string())]);
    assert_eq!(t.history.last().unwrap().0, "Launched 'editor' with PID 1.");
}

#[test]
fn desktop_starts_with_demo_state() {
    let d = Desktop::new();
    assert_eq!(d.active, ActivePanel::Dashboard);
    assert_eq!(
        d.terminal.fs.list("/").unwrap(),
        vec!["/bin", "/etc", "/home", "/tmp", "/usr", "/var"].iter().map(|s| s.to_string()).collect::<Vec<_>>()
    );
    assert_eq!(d.terminal.fs.read("/etc/hostname").unwrap(), b"endoros-node-1".to_vec());
    assert_eq!(
        d.terminal.proc_mgr.list_processes(),
        vec![
            (1, "init".to_string()),
            (2, "kernel-sched".to_string()),
            (3, "vfs-daemon".to_string()),
            (4, "auth-daemon".to_string()),
            (5, "endoros-desktop".to_string()),
        ]
    );
    assert_eq!(d.terminal.current_username, None);
    assert_eq!(d.pkg_status, "");
    assert!(d.pkg_mgr.list_installed().is_empty());
    assert!(d.terminal.pkg_mgr.list_installed().is_empty());
    assert_eq!(d.terminal.auth.authenticate("admin", "admin123"), Ok(0));
    assert_eq!(d.taskbar.username, "anonymous");
    assert_eq!(d.file_explorer.current_path, "/");
    assert_eq!(d.process_monitor.new_proc_priority, 5);
}

#[test]
fn desktop_panels_toggle() {
    let mut d = Desktop::new();
    d.panel_clicked(ActivePanel::Files);
    assert_eq!(d.active, ActivePanel::Files);
    d.refresh_taskbar();
    assert_eq!(d.taskbar.open_apps, vec![AppIcon::Files]);
    assert_eq!(d.taskbar.username, "anonymous");
    d.panel_clicked(ActivePanel::Files);
    assert_eq!(d.active, ActivePanel::Dashboard);
    d.refresh_taskbar();
    assert!(d.taskbar.open_apps.is_empty());
    d.icon_clicked(AppIcon::Terminal);
    assert_eq!(d.active, ActivePanel::Terminal);
    d.pkg_input = "vim".to_string();
    d.icon_clicked(AppIcon::Packages);
    assert_eq!(d.active, ActivePanel::Packages);
    assert_eq!(d.pkg_input, "vim");
}

#[test]
fn desktop_taskbar_shows_user_and_clock() {
    let mut d = Desktop::new();
    d.terminal.execute("login admin admin123".to_string());
    d.refresh_taskbar();
    assert_eq!(d.taskbar.username, "admin");
    assert!(d.taskbar.is_logged_in());
    let c: Vec<char> = d.taskbar.clock.chars().collect();
    assert_eq!(c.len(), 12);
    assert_eq!(c[2], ':');
    assert_eq!(&c[5..7], &[' ', ' ']);
    assert_eq!(c[9], '/');
    for i in [0usize, 1, 3, 4, 7, 8, 10, 11] {
        assert!(c[i].is_ascii_digit());
    }
}

#[test]
fn desktop_package_panel() {
    let mut d = Desktop::new();
    d.install_clicked();
    assert_eq!(d.pkg_status, "");
    d.pkg_input = "vim".to_string();
    d.install_clicked();
    assert_eq!(d.pkg_status, "OK Installed 'vim'");
    assert_eq!(d.pkg_input, "");
    d.pkg_input = "emacs".to_string();
    d.install_clicked();
    assert_eq!(d.pkg_status, "ERR NotFound");
    d.update_clicked();
    assert_eq!(d.pkg_status, "OK All updated");
    d.pkg_input = "vim".to_string();
    d.remove_clicked();
    assert_eq!(d.pkg_status, "OK Removed 'vim'");
    d.pkg_input = "vim".to_string();
    d.remove_clicked();
    assert_eq!(d.pkg_status, "ERR NotFound");
    assert!(status_ok("OK All updated"));
    assert!(!status_ok("ERR NotFound"));
    assert!(!status_ok("O"));
}

#[test]
fn desktop_helpers() {
    assert_eq!(uptime_text(0), "0:00");
    assert_eq!(uptime_text(125), "2:05");
    assert_eq!(uptime_text(3600), "60:00");
    assert_eq!(panel_icon(ActivePanel::Settings), Some(AppIcon::Settings));
    assert_eq!(panel_icon(ActivePanel::Dashboard), None);
    assert_eq!(icon_panel(AppIcon::Processes), ActivePanel::Processes);
    assert_eq!(toggle_panel(ActivePanel::Files, ActivePanel::Files), ActivePanel::Dashboard);
    assert_eq!(toggle_panel(ActivePanel::Files, ActivePanel::Settings), ActivePanel::Settings);
    assert_eq!(with_alpha((82, 160, 100), 60), (19, 37, 23, 60));
    assert_eq!(with_alpha((255, 0, 10), 255), (255, 0, 10, 255));
    assert_eq!(with_alpha((255, 255, 255), 0), (0, 0, 0, 0));
}

#[test]
fn taskbar_defaults() {
    let t = Taskbar::new();
    assert_eq!(t.apps.len(), 5);
    assert_eq!(t.apps[0].label(), "Terminal");
    assert_eq!(t.apps[4].glyph(), "==");
    assert_eq!(AppIcon::Files.label(), "Files");
    assert_eq!(AppIcon::Packages.glyph(), "<>");
    assert!(!t.is_logged_in());
    assert!(!t.is_open(&AppIcon::Terminal));
}

#[test]
fn process_monitor_run_and_kill() {
    let mut pm = ProcessMonitor::new();
    let mut s = SchedulerAdapter::new();
    pm.run_process(&mut s);
    assert_eq!(pm.status, "");
    pm.new_proc_name = "worker".to_string();
    pm.new_proc_priority = 9;
    pm.run_process(&mut s);
    assert_eq!(pm.status, "Launched 'worker' -> PID 1");
    assert_eq!(pm.new_proc_name, "");
    assert_eq!(s.processes()[0].priority, 9);
    pm.kill_input = " 1 ".to_string();
    pm.kill_process(&mut s);
    assert_eq!(pm.status, "Killed PID 1");
    assert_eq!(pm.kill_input, "");
    pm.kill_input = "1".to_string();
    pm.kill_process(&mut s);
    assert_eq!(pm.status, "Error: NotFound");
    pm.kill_input = "abc".to_string();
    pm.kill_process(&mut s);
    assert_eq!(pm.status, "Invalid PID");
}

#[test]
fn file_explorer_create_and_open() {
    let mut fs = RamdiskAdapter::new();
    fs.write("/home", b"").unwrap();
    let mut fe = FileExplorer::new();
    fe.toggle_new_file();
    assert!(fe.show_new_file);
    fe.new_file_name = "a.txt".to_string();
    fe.new_file_content = "hola".to_string();
    fe.create_file(&mut fs);
    assert_eq!(fe.status, "Created '/a.txt'");
    assert!(!fe.show_new_file);
    assert_eq!(fs.read("/a.txt").unwrap(), b"hola".to_vec());
    fe.open_entry(&fs, "/home");
    assert_eq!(fe.current_path, "/home");
    fe.new_file_name = "b".to_string();
    fe.create_file(&mut fs);
    assert_eq!(fe.status, "Created '/home/b'");
    // every listed entry exists, so listing it succeeds: it opens as a directory
    fe.open_entry(&fs, "/home/b");
    assert_eq!(fe.current_path, "/home/b");
    assert_eq!(fe.selected, None);
    fe.go_parent();
    assert_eq!(fe.current_path, "/home");
    fe.go_parent();
    assert_eq!(fe.current_path, "/");
    fe.go_parent();
    assert_eq!(fe.current_path, "/");
    // a path that is gone is selected and shows the read error
    fe.open_entry(&fs, "/gone");
    assert!(fe.is_selected("/gone"));
    assert!(!fe.is_selected("/home"));
    assert_eq!(fe.file_content, Some("<Error: NotFound>".to_string()));
    assert_eq!(fe.current_path, "/");
}

#[test]
fn file_explorer_directories_and_parents() {
    let mut fs = RamdiskAdapter::new();
    fs.write("/bin", &[]).unwrap();
    fs.write("/bin/raw", &[b'a', 0xff, b'b']).unwrap();
    let mut fe = FileExplorer::new();
    assert!(FileExplorer::entry_is_dir(&fs, "/bin"));
    assert!(FileExplorer::entry_is_dir(&fs, "/bin/raw"));
    assert!(!FileExplorer::entry_is_dir(&fs, "/nope"));
    fe.open_entry(&fs, "/bin/raw");
    assert_eq!(fe.current_path, "/bin/raw");
    let mut fe2 = FileExplorer::new();
    fe2.enter_parent(None);
    assert_eq!(fe2.current_path, "/");
    fe2.enter_parent(Some("".to_string()));
    assert_eq!(fe2.current_path, "/");
    fe2.enter_parent(Some("\\home\\admin".to_string()));
    assert_eq!(fe2.current_path, "/home/admin");
}

#[test]
fn file_explorer_names() {
    assert_eq!(entry_name("/home/admin/readme.txt"), "readme.txt");
    assert_eq!(entry_name("plain"), "plain");
    assert_eq!(entry_name("/dir/"), "");
    assert_eq!(replace_backslashes("a\\b\\c"), "a/b/c");
    let mut fe = FileExplorer::new();
    fe.cancel_new_file();
    assert!(!fe.show_new_file);
}
