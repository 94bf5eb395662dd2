use std::collections::HashSet;
use vstd::prelude::*;
use vstd::string::*;
use vstd::utf8::*;
use crate::fmt::{
    decimal, pad_right, pad_to, parse_u32, parse_u32_spec, push_decimal, push_hex_byte,
    split_n, split_spaces, text_lines, text_lines_spec, trim, trimmed,
};
use crate::infrastructure::auth::{LocalAuthAdapter, UserRecord};
use crate::infrastructure::crypto::XorCryptoAdapter;
use crate::infrastructure::fs::{law_read_after_write, RamdiskAdapter};
use crate::infrastructure::packages::{law_bumped_version_reads, law_update_keeps_packages, LocalPkgManager, PkgView};
use crate::domain::package::InstallState;
use crate::infrastructure::process::{ProcView, SchedulerAdapter};
use crate::ports::auth::AuthPort;
use crate::ports::encryption::EncryptionPort;
use crate::ports::filesystem::{names_view, FileSystemPort, FsError};
use crate::ports::package_mgr::PackageManagerPort;
use crate::ports::process_mgr::ProcessManagerPort;
use crate::text::{buffer_text_chars, lossy_utf8, str_eq, utf8_lossy, utf8_str};
use crate::ui::desktop::theme::Tone;
use crate::ui::shell::{default_key, hex_string, indented, join_words, reveal_command_names, words, ShellModel};

verus! {

/// A line of terminal output and the tone it is painted in.
pub type ToneLine = (Seq<char>, Tone);

/// The state a terminal works on: its adapters' states and the session.
pub type TermModel = ShellModel<
    Map<Seq<u8>, Seq<u8>>,
    (Seq<UserRecord>, Set<u32>),
    (Seq<ProcView>, u32),
    (Seq<PkgView>, Seq<Seq<char>>),
>;

/// Lines all painted in tone `t`.
pub open spec fn toned(ls: Seq<Seq<char>>, t: Tone) -> Seq<ToneLine> {
    ls.map_values(|l: Seq<char>| (l, t))
}

/// The history as text and tones.
pub open spec fn history_view(h: Seq<(String, Tone)>) -> Seq<ToneLine> {
    h.map_values(|e: (String, Tone)| (e.0@, e.1))
}

/// The prompt for a user: `endoros@<user>> `, `anonymous` when nobody is
/// logged in.
pub open spec fn prompt_of(user: Option<Seq<char>>) -> Seq<char> {
    "endoros@"@ + (match user {
        Some(u) => u,
        None => "anonymous"@,
    }) + "> "@
}

pub open spec fn term_help() -> Seq<ToneLine> {
    seq![("Available commands:"@, Tone::Sand)] + toned(
        seq![
            "  ps                                  List running processes"@,
            "  kill <pid>                          Terminate process"@,
            "  run <name>                          Launch a process"@,
            "  ls [path]                           List directory"@,
            "  cat <path>                          Read file"@,
            "  write <path> <content>              Write file"@,
            "  login <user> <pass>                 Authenticate"@,
            "  logout                              Close session"@,
            "  pkg install|remove|list|update [name] Package manager"@,
            "  encrypt <text>                      XOR encrypt text"@,
            "  whoami                              Current user"@,
            "  clear                               Clear terminal"@,
        ],
        Tone::TextDim,
    )
}

pub open spec fn term_whoami(
    auth: (Seq<UserRecord>, Set<u32>),
    uid: Option<u32>,
    user: Option<Seq<char>>,
) -> Seq<ToneLine> {
    match user {
        Some(u) => {
            let admin = match uid {
                Some(id) => LocalAuthAdapter::is_admin_spec(auth, id),
                None => false,
            };
            seq![(u + (if admin { " [admin]"@ } else { " [user]"@ }), Tone::Text)]
        },
        None => seq![("Not logged in."@, Tone::Sand)],
    }
}

pub open spec fn term_ps(procs: (Seq<ProcView>, u32)) -> Seq<ToneLine> {
    let l = SchedulerAdapter::list_processes_spec(procs);
    if l.len() == 0 {
        seq![("  No processes running."@, Tone::TextDim)]
    } else {
        seq![("  PID   NAME"@, Tone::Sand)] + l.map_values(
            |e: (u32, Seq<char>)|
                ("  "@ + pad_right(decimal(e.0 as nat), 5) + " "@ + e.1, Tone::Text),
        )
    }
}

pub open spec fn term_kill(procs: (Seq<ProcView>, u32), parts: Seq<Seq<char>>) -> (
    (Seq<ProcView>, u32),
    Seq<ToneLine>,
) {
    if parts.len() < 2 {
        (procs, seq![("Usage: kill <pid>"@, Tone::Sand)])
    } else {
        match parse_u32_spec(parts[1]) {
            Some(pid) => {
                let k = SchedulerAdapter::kill_spec(procs, pid);
                match k.1 {
                    Ok(_) => (
                        k.0,
                        seq![("Process "@ + decimal(pid as nat) + " terminated."@, Tone::TermGreen)],
                    ),
                    Err(e) => (k.0, seq![("Error: "@ + e.spec_debug_name(), Tone::Error)]),
                }
            },
            None => (procs, seq![("Invalid PID: '"@ + parts[1] + "'"@, Tone::Error)]),
        }
    }
}

pub open spec fn term_run(procs: (Seq<ProcView>, u32), parts: Seq<Seq<char>>) -> (
    (Seq<ProcView>, u32),
    Seq<ToneLine>,
) {
    if parts.len() < 2 {
        (procs, seq![("Usage: run <name>"@, Tone::Sand)])
    } else {
        let k = SchedulerAdapter::spawn_spec(procs, parts[1], 5);
        match k.1 {
            Ok(pid) => (
                k.0,
                seq![
                    (
                        "Launched '"@ + parts[1] + "' with PID "@ + decimal(pid as nat) + "."@,
                        Tone::TermGreen,
                    ),
                ],
            ),
            Err(e) => (k.0, seq![("Error: "@ + e.spec_debug_name(), Tone::Error)]),
        }
    }
}

pub open spec fn term_ls(fs: Map<Seq<u8>, Seq<u8>>, parts: Seq<Seq<char>>) -> Seq<ToneLine> {
    let path = if parts.len() >= 2 {
        parts[1]
    } else {
        "/"@
    };
    match RamdiskAdapter::list_spec(fs, path) {
        Ok(es) => if es.len() == 0 {
            seq![("  (empty)"@, Tone::TextMuted)]
        } else {
            toned(indented(es), Tone::Text)
        },
        Err(e) => seq![("Error: "@ + e.spec_debug_name(), Tone::Error)],
    }
}

pub open spec fn term_cat(fs: Map<Seq<u8>, Seq<u8>>, parts: Seq<Seq<char>>) -> Seq<ToneLine> {
    if parts.len() < 2 {
        seq![("Usage: cat <path>"@, Tone::Sand)]
    } else {
        match RamdiskAdapter::read_spec(fs, parts[1]) {
            Ok(d) => if d.len() == 0 {
                seq![("  (empty file)"@, Tone::TextMuted)]
            } else if valid_utf8(d) {
                toned(text_lines_spec(decode_utf8(d)), Tone::TermText)
            } else {
                seq![("<binary data, "@ + decimal(d.len()) + " bytes>"@, Tone::TextMuted)]
            },
            Err(e) => seq![("Error: "@ + e.spec_debug_name(), Tone::Error)],
        }
    }
}

pub open spec fn term_write(fs: Map<Seq<u8>, Seq<u8>>, parts: Seq<Seq<char>>) -> (
    Map<Seq<u8>, Seq<u8>>,
    Seq<ToneLine>,
) {
    if parts.len() < 3 {
        (fs, seq![("Usage: write <path> <content>"@, Tone::Sand)])
    } else {
        let content = encode_utf8(parts[2]);
        let w = RamdiskAdapter::write_spec(fs, parts[1], content);
        match w.1 {
            Ok(_) => (
                w.0,
                seq![
                    (
                        "Written "@ + decimal(content.len()) + " bytes to '"@ + parts[1] + "'."@,
                        Tone::TermGreen,
                    ),
                ],
            ),
            Err(e) => (w.0, seq![("Error: "@ + e.spec_debug_name(), Tone::Error)]),
        }
    }
}

pub open spec fn term_login(
    auth: (Seq<UserRecord>, Set<u32>),
    uid: Option<u32>,
    user: Option<Seq<char>>,
    parts: Seq<Seq<char>>,
) -> (Option<u32>, Option<Seq<char>>, Seq<ToneLine>) {
    if parts.len() < 3 {
        (uid, user, seq![("Usage: login <username> <password>"@, Tone::Sand)])
    } else {
        match LocalAuthAdapter::authenticate_spec(auth, parts[1], parts[2]) {
            Ok(id) => (
                Some(id),
                Some(parts[1]),
                seq![
                    (
                        "Welcome, "@ + parts[1] + "! (uid="@ + decimal(id as nat) + ")"@,
                        Tone::TermGreen,
                    ),
                ],
            ),
            Err(e) => (uid, user, seq![("Auth failed: "@ + e.spec_debug_name(), Tone::Error)]),
        }
    }
}

pub open spec fn term_logout(
    auth: (Seq<UserRecord>, Set<u32>),
    uid: Option<u32>,
    user: Option<Seq<char>>,
) -> ((Seq<UserRecord>, Set<u32>), Option<u32>, Option<Seq<char>>, Seq<ToneLine>) {
    match uid {
        Some(id) => {
            let l = LocalAuthAdapter::logout_spec(auth, id);
            match l.1 {
                Ok(_) => (
                    l.0,
                    None,
                    None,
                    seq![
                        (
                            "Logged out "@ + (match user {
                                Some(u) => u,
                                None => Seq::<char>::empty(),
                            }) + "."@,
                            Tone::TermGreen,
                        ),
                    ],
                ),
                Err(e) => (l.0, uid, user, seq![("Error: "@ + e.spec_debug_name(), Tone::Error)]),
            }
        },
        None => (auth, uid, user, seq![("No active session."@, Tone::Sand)]),
    }
}

/// The bullet the package list puts before each package.
pub open spec fn bullet() -> Seq<char> {
    "  \u{e2}\u{20ac}\u{a2} "@
}

pub open spec fn term_pkg(pkgs: (Seq<PkgView>, Seq<Seq<char>>), parts: Seq<Seq<char>>) -> (
    (Seq<PkgView>, Seq<Seq<char>>),
    Seq<ToneLine>,
) {
    if parts.len() < 2 {
        (pkgs, seq![("Usage: pkg <install|remove|list|update> [name]"@, Tone::Sand)])
    } else if parts[1] == "install"@ {
        if parts.len() < 3 {
            (pkgs, seq![("Usage: pkg install <name>"@, Tone::Sand)])
        } else {
            let k = LocalPkgManager::install_spec(pkgs, parts[2]);
            match k.1 {
                Ok(_) => (k.0, seq![("Package '"@ + parts[2] + "' installed."@, Tone::TermGreen)]),
                Err(e) => (k.0, seq![("Error: "@ + e.spec_debug_name(), Tone::Error)]),
            }
        }
    } else if parts[1] == "remove"@ {
        if parts.len() < 3 {
            (pkgs, seq![("Usage: pkg remove <name>"@, Tone::Sand)])
        } else {
            let k = LocalPkgManager::remove_spec(pkgs, parts[2]);
            match k.1 {
                Ok(_) => (k.0, seq![("Package '"@ + parts[2] + "' removed."@, Tone::TermGreen)]),
                Err(e) => (k.0, seq![("Error: "@ + e.spec_debug_name(), Tone::Error)]),
            }
        }
    } else if parts[1] == "list"@ {
        let l = LocalPkgManager::list_installed_spec(pkgs);
        if l.len() == 0 {
            (pkgs, seq![("  No packages installed."@, Tone::TextDim)])
        } else {
            (
                pkgs,
                seq![("  Installed packages:"@, Tone::Sand)] + l.map_values(
                    |p: Seq<char>| (bullet() + p, Tone::Text),
                ),
            )
        }
    } else if parts[1] == "update"@ {
        let k = LocalPkgManager::update_all_spec(pkgs);
        match k.1 {
            Ok(_) => (k.0, seq![("All packages updated."@, Tone::TermGreen)]),
            Err(e) => (k.0, seq![("Error: "@ + e.spec_debug_name(), Tone::Error)]),
        }
    } else {
        (pkgs, seq![("Unknown pkg sub-command: '"@ + parts[1] + "'"@, Tone::Error)])
    }
}

pub open spec fn term_encrypt(parts: Seq<Seq<char>>) -> Seq<ToneLine> {
    if parts.len() < 2 {
        seq![("Usage: encrypt <text>"@, Tone::Sand)]
    } else {
        let c = XorCryptoAdapter;
        let text = join_words(parts.skip(1));
        match c.encrypt_spec(encode_utf8(text), default_key()) {
            Ok(cipher) => seq![("Cipher: "@ + hex_string(cipher), Tone::TermGreen)] + match c.decrypt_spec(
                cipher,
                default_key(),
            ) {
                Ok(p) => seq![("Verify: "@ + lossy_utf8(p), Tone::TextDim)],
                Err(_) => Seq::empty(),
            },
            Err(e) => seq![("Error: "@ + e.spec_debug_name(), Tone::Error)],
        }
    }
}

/// What a non-empty command (already trimmed) does: the state after it, the
/// lines it adds, and whether it clears the history instead.
pub open spec fn term_step(m: TermModel, t: Seq<char>) -> (TermModel, Seq<ToneLine>, bool) {
    let parts = split_spaces(t, 4);
    let cmd = parts[0];
    if cmd == "help"@ {
        (m, term_help(), false)
    } else if cmd == "exit"@ || cmd == "quit"@ {
        (m, seq![("Use the window close button to exit."@, Tone::Sand)], false)
    } else if cmd == "whoami"@ {
        (m, term_whoami(m.auth, m.uid, m.user), false)
    } else if cmd == "ps"@ {
        (m, term_ps(m.procs), false)
    } else if cmd == "kill"@ {
        let k = term_kill(m.procs, parts);
        (ShellModel { procs: k.0, ..m }, k.1, false)
    } else if cmd == "run"@ {
        let k = term_run(m.procs, parts);
        (ShellModel { procs: k.0, ..m }, k.1, false)
    } else if cmd == "ls"@ {
        (m, term_ls(m.fs, parts), false)
    } else if cmd == "cat"@ {
        (m, term_cat(m.fs, parts), false)
    } else if cmd == "write"@ {
        let k = term_write(m.fs, parts);
        (ShellModel { fs: k.0, ..m }, k.1, false)
    } else if cmd == "login"@ {
        let k = term_login(m.auth, m.uid, m.user, parts);
        (ShellModel { uid: k.0, user: k.1, ..m }, k.2, false)
    } else if cmd == "logout"@ {
        let k = term_logout(m.auth, m.uid, m.user);
        (ShellModel { auth: k.0, uid: k.1, user: k.2, ..m }, k.3, false)
    } else if cmd == "pkg"@ {
        let k = term_pkg(m.pkgs, parts);
        (ShellModel { pkgs: k.0, ..m }, k.1, false)
    } else if cmd == "encrypt"@ {
        (m, term_encrypt(parts), false)
    } else if cmd == "clear"@ {
        (m, Seq::empty(), true)
    } else {
        (m, seq![("Unknown command: '"@ + cmd + "'. Type 'help'."@, Tone::Error)], false)
    }
}

/// Whether running command `line` spawns a process.
pub open spec fn term_spawns(line: Seq<char>) -> bool {
    let t = trimmed(line);
    &&& t.len() > 0
    &&& split_spaces(t, 4)[0] == "run"@
    &&& split_spaces(t, 4).len() >= 2
}

/// Whether the command-history cursor points into the history.
pub open spec fn cursor_ok(idx: Option<usize>, len: nat) -> bool {
    idx matches Some(i) ==> i < len
}

/// What running the command line `line` does to a terminal: the line is
/// echoed after the prompt; a blank line changes nothing else; any other is
/// remembered, resets the history cursor, and updates the state and the
/// output as `term_step` says (`clear` empties the output).
pub open spec fn executed(before: Terminal, after: Terminal, line: Seq<char>) -> bool {
    let echo = (prompt_of(before.model().user) + line, Tone::GreenGlow);
    let t = trimmed(line);
    let step = term_step(before.model(), t);
    if t.len() == 0 {
        &&& history_view(after.history@) == history_view(before.history@).push(echo)
        &&& after.model() == before.model()
        &&& after.cmd_history == before.cmd_history
        &&& after.cmd_history_idx == before.cmd_history_idx
    } else {
        &&& after.model() == step.0
        &&& history_view(after.history@) == if step.2 {
            Seq::<ToneLine>::empty()
        } else {
            history_view(before.history@).push(echo) + step.1
        }
        &&& names_view(after.cmd_history) == names_view(before.cmd_history).push(t)
        &&& after.cmd_history_idx is None
    }
}

/// The terminal of the desktop: its output history, the input line and the
/// command history, and the adapters its commands drive.
pub struct Terminal {
    pub history: Vec<(String, Tone)>,
    pub input: String,
    /// Command history for arrow-up navigation.
    pub cmd_history: Vec<String>,
    pub cmd_history_idx: Option<usize>,
    pub fs: RamdiskAdapter,
    pub auth: LocalAuthAdapter,
    pub proc_mgr: SchedulerAdapter,
    pub crypto: XorCryptoAdapter,
    pub pkg_mgr: LocalPkgManager,
    pub current_uid: Option<u32>,
    pub current_username: Option<String>,
}

impl Terminal {
    /// The state the terminal's commands work on.
    pub open spec fn model(&self) -> TermModel {
        ShellModel {
            fs: self.fs@,
            auth: self.auth@,
            procs: self.proc_mgr@,
            pkgs: self.pkg_mgr@,
            uid: self.current_uid,
            user: match self.current_username {
                Some(u) => Some(u@),
                None => None,
            },
        }
    }

    pub fn new(
        fs: RamdiskAdapter,
        auth: LocalAuthAdapter,
        proc_mgr: SchedulerAdapter,
        crypto: XorCryptoAdapter,
        pkg_mgr: LocalPkgManager,
    ) -> (r: Self)
        ensures
            r.model() == (ShellModel {
                fs: fs@,
                auth: auth@,
                procs: proc_mgr@,
                pkgs: pkg_mgr@,
                uid: None,
                user: None,
            }),
            history_view(r.history@) == seq![
                ("EndorOS Shell v0.1.0"@, Tone::TermGreen),
                ("Type 'help' for available commands."@, Tone::TextDim),
                (""@, Tone::TextDim),
            ],
            r.input@ == Seq::<char>::empty(),
            r.cmd_history@ == Seq::<String>::empty(),
            r.cmd_history_idx is None,
    {
        let mut t = Terminal {
            history: Vec::new(),
            input: String::new(),
            cmd_history: Vec::new(),
            cmd_history_idx: None,
            fs,
            auth,
            proc_mgr,
            crypto,
            pkg_mgr,
            current_uid: None,
            current_username: None,
        };
        t.push_output("EndorOS Shell v0.1.0", Tone::TermGreen);
        t.push_output("Type 'help' for available commands.", Tone::TextDim);
        t.push_output("", Tone::TextDim);
        assert(history_view(t.history@) =~= seq![
            ("EndorOS Shell v0.1.0"@, Tone::TermGreen),
            ("Type 'help' for available commands."@, Tone::TextDim),
            (""@, Tone::TextDim),
        ]);
        t
    }

    pub fn push_output(&mut self, line: &str, tone: Tone)
        ensures
            history_view(final(self).history@) == history_view(old(self).history@).push(
                (line@, tone),
            ),
            final(self).model() == old(self).model(),
            final(self).input == old(self).input,
            final(self).cmd_history == old(self).cmd_history,
            final(self).cmd_history_idx == old(self).cmd_history_idx,
    {
        let ghost before = self.history@;
        self.history.push((String::from_str(line), tone));
        assert(history_view(self.history@) =~= history_view(before).push((line@, tone)));
    }

    pub fn prompt_str(&self) -> (r: String)
        ensures
            r@ == prompt_of(self.model().user),
    {
        let mut s = String::from_str("endoros@");
        match &self.current_username {
            Some(u) => s.append(u.as_str()),
            None => s.append("anonymous"),
        }
        s.append("> ");
        s
    }

    /// Run a command line: echo it after the prompt, remember it, and add
    /// the lines it answers (or clear the history).
    pub fn execute(&mut self, line: String)
        requires
            term_spawns(line@) ==> SchedulerAdapter::spawn_ready(old(self).proc_mgr@),
        ensures
            ({
                let echo = (prompt_of(old(self).model().user) + line@, Tone::GreenGlow);
                let t = trimmed(line@);
                let step = term_step(old(self).model(), t);
                if t.len() == 0 {
                    &&& history_view(final(self).history@) == history_view(old(self).history@).push(
                        echo,
                    )
                    &&& final(self).model() == old(self).model()
                    &&& final(self).cmd_history == old(self).cmd_history
                    &&& final(self).cmd_history_idx == old(self).cmd_history_idx
                } else {
                    &&& final(self).model() == step.0
                    &&& history_view(final(self).history@) == if step.2 {
                        Seq::<ToneLine>::empty()
                    } else {
                        history_view(old(self).history@).push(echo) + step.1
                    }
                    &&& names_view(final(self).cmd_history) == names_view(old(self).cmd_history).push(t)
                    &&& final(self).cmd_history_idx is None
                }
            }),
            final(self).input == old(self).input,
    {
        let prompt = self.prompt_str();
        let mut echo = prompt;
        echo.append(line.as_str());
        self.push_output(echo.as_str(), Tone::GreenGlow);

        let trimmed_line = trim(line.as_str());
        if trimmed_line.is_empty() {
            return;
        }

        // Save to command history
        let ghost before_cmds = self.cmd_history@;
        self.cmd_history.push(String::from_str(trimmed_line));
        assert(names_view(self.cmd_history) =~= names_view_seq(before_cmds).push(trimmed_line@));
        self.cmd_history_idx = None;

        let parts = split_n(trimmed_line, 4);
        proof {
            lemma_split_len_term(trimmed_line@, 4);
        }
        let cmd = parts[0];
        if str_eq(cmd, "help") {
            self.cmd_help();
        } else if str_eq(cmd, "exit") || str_eq(cmd, "quit") {
            self.push_output("Use the window close button to exit.", Tone::Sand);
        } else if str_eq(cmd, "whoami") {
            self.cmd_whoami();
        } else if str_eq(cmd, "ps") {
            self.cmd_ps();
        } else if str_eq(cmd, "kill") {
            self.cmd_kill(&parts);
        } else if str_eq(cmd, "run") {
            self.cmd_run(&parts);
        } else if str_eq(cmd, "ls") {
            self.cmd_ls(&parts);
        } else if str_eq(cmd, "cat") {
            self.cmd_cat(&parts);
        } else if str_eq(cmd, "write") {
            self.cmd_write(&parts);
        } else if str_eq(cmd, "login") {
            self.cmd_login(&parts);
        } else if str_eq(cmd, "logout") {
            self.cmd_logout();
        } else if str_eq(cmd, "pkg") {
            self.cmd_pkg(&parts);
        } else if str_eq(cmd, "encrypt") {
            self.cmd_encrypt(&parts);
        } else if str_eq(cmd, "clear") {
            self.history = Vec::new();
            assert(history_view(self.history@) =~= Seq::<ToneLine>::empty());
        } else {
            let mut l = String::from_str("Unknown command: '");
            l.append(cmd);
            l.append("'. Type 'help'.");
            self.push_output(l.as_str(), Tone::Error);
        }
    }

    fn cmd_help(&mut self)
        ensures
            history_view(final(self).history@) == history_view(old(self).history@) + term_help(),
            final(self).model() == old(self).model(),
            final(self).input == old(self).input,
            final(self).cmd_history == old(self).cmd_history,
            final(self).cmd_history_idx == old(self).cmd_history_idx,
    {
        let ghost h0 = history_view(self.history@);
        self.push_output("Available commands:", Tone::Sand);
        self.push_output("  ps                                  List running processes", Tone::TextDim);
        self.push_output("  kill <pid>                          Terminate process", Tone::TextDim);
        self.push_output("  run <name>                          Launch a process", Tone::TextDim);
        self.push_output("  ls [path]                           List directory", Tone::TextDim);
        self.push_output("  cat <path>                          Read file", Tone::TextDim);
        self.push_output("  write <path> <content>              Write file", Tone::TextDim);
        self.push_output("  login <user> <pass>                 Authenticate", Tone::TextDim);
        self.push_output("  logout                              Close session", Tone::TextDim);
        self.push_output("  pkg install|remove|list|update [name] Package manager", Tone::TextDim);
        self.push_output("  encrypt <text>                      XOR encrypt text", Tone::TextDim);
        self.push_output("  whoami                              Current user", Tone::TextDim);
        self.push_output("  clear                               Clear terminal", Tone::TextDim);
        assert(history_view(self.history@) =~= h0 + term_help());
    }

    fn cmd_whoami(&mut self)
        ensures
            history_view(final(self).history@) == history_view(old(self).history@) + term_whoami(
                old(self).model().auth,
                old(self).model().uid,
                old(self).model().user,
            ),
            final(self).model() == old(self).model(),
            final(self).input == old(self).input,
            final(self).cmd_history == old(self).cmd_history,
            final(self).cmd_history_idx == old(self).cmd_history_idx,
    {
        let ghost h0 = history_view(self.history@);
        match &self.current_username {
            Some(u) => {
                let is_admin = match self.current_uid {
                    Some(uid) => self.auth.is_admin(uid),
                    None => false,
                };
                let mut l = String::from_str(u.as_str());
                if is_admin {
                    l.append(" [admin]");
                } else {
                    l.append(" [user]");
                }
                self.push_output(l.as_str(), Tone::Text);
            },
            None => self.push_output("Not logged in.", Tone::Sand),
        }
        assert(history_view(self.history@) =~= h0 + term_whoami(
            old(self).model().auth,
            old(self).model().uid,
            old(self).model().user,
        ));
    }

    fn cmd_ps(&mut self)
        ensures
            history_view(final(self).history@) == history_view(old(self).history@) + term_ps(
                old(self).model().procs,
            ),
            final(self).model() == old(self).model(),
            final(self).input == old(self).input,
            final(self).cmd_history == old(self).cmd_history,
            final(self).cmd_history_idx == old(self).cmd_history_idx,
    {
        let ghost h0 = history_view(self.history@);
        let procs = self.proc_mgr.list_processes();
        let ghost l = SchedulerAdapter::list_processes_spec(self.proc_mgr@);
        if procs.len() == 0 {
            self.push_output("  No processes running.", Tone::TextDim);
            assert(history_view(self.history@) =~= h0 + term_ps(old(self).model().procs));
        } else {
            self.push_output("  PID   NAME", Tone::Sand);
            let mut i: usize = 0;
            while i < procs.len()
                invariant
                    i <= procs@.len(),
                    l == crate::ports::process_mgr::process_list_view(procs),
                    self.model() == old(self).model(),
                    self.input == old(self).input,
                    self.cmd_history == old(self).cmd_history,
                    self.cmd_history_idx == old(self).cmd_history_idx,
                    history_view(self.history@) =~= h0 + seq![("  PID   NAME"@, Tone::Sand)]
                        + l.take(i as int).map_values(
                        |e: (u32, Seq<char>)|
                            ("  "@ + pad_right(decimal(e.0 as nat), 5) + " "@ + e.1, Tone::Text),
                    ),
                decreases procs@.len() - i,
            {
                let (pid, name) = (procs[i].0, &procs[i].1);
                let mut row = String::from_str("  ");
                let mut num = String::new();
                push_decimal(&mut num, pid as u64);
                pad_to(&mut num, 5);
                row.append(num.as_str());
                row.append(" ");
                row.append(name.as_str());
                self.push_output(row.as_str(), Tone::Text);
                proof {
                    assert(l[i as int] == (pid, name@));
                    assert(l.take(i + 1) =~= l.take(i as int).push(l[i as int]));
                }
                i = i + 1;
            }
            assert(l.take(l.len() as int) =~= l);
        }
    }

    fn cmd_kill(&mut self, parts: &Vec<&str>)
        ensures
            ({
                let k = term_kill(old(self).model().procs, words(parts@));
                &&& history_view(final(self).history@) == history_view(old(self).history@) + k.1
                &&& final(self).model() == (ShellModel { procs: k.0, ..old(self).model() })
            }),
            final(self).input == old(self).input,
            final(self).cmd_history == old(self).cmd_history,
            final(self).cmd_history_idx == old(self).cmd_history_idx,
    {
        let ghost h0 = history_view(self.history@);
        if parts.len() < 2 {
            self.push_output("Usage: kill <pid>", Tone::Sand);
            assert(history_view(self.history@) =~= h0 + seq![("Usage: kill <pid>"@, Tone::Sand)]);
            return;
        }
        assert(words(parts@)[1] == parts@[1]@);
        match parse_u32(parts[1]) {
            Some(pid) => match self.proc_mgr.kill(pid) {
                Ok(()) => {
                    let mut l = String::from_str("Process ");
                    push_decimal(&mut l, pid as u64);
                    l.append(" terminated.");
                    self.push_output(l.as_str(), Tone::TermGreen);
                },
                Err(e) => {
                    let mut l = String::from_str("Error: ");
                    l.append(e.debug_name());
                    self.push_output(l.as_str(), Tone::Error);
                },
            },
            None => {
                let mut l = String::from_str("Invalid PID: '");
                l.append(parts[1]);
                l.append("'");
                self.push_output(l.as_str(), Tone::Error);
            },
        }
        assert(history_view(self.history@) =~= h0 + term_kill(
            old(self).model().procs,
            words(parts@),
        ).1);
    }

    fn cmd_run(&mut self, parts: &Vec<&str>)
        requires
            parts@.len() >= 2 ==> SchedulerAdapter::spawn_ready(old(self).proc_mgr@),
        ensures
            ({
                let k = term_run(old(self).model().procs, words(parts@));
                &&& history_view(final(self).history@) == history_view(old(self).history@) + k.1
                &&& final(self).model() == (ShellModel { procs: k.0, ..old(self).model() })
            }),
            final(self).input == old(self).input,
            final(self).cmd_history == old(self).cmd_history,
            final(self).cmd_history_idx == old(self).cmd_history_idx,
    {
        let ghost h0 = history_view(self.history@);
        if parts.len() < 2 {
            self.push_output("Usage: run <name>", Tone::Sand);
            assert(history_view(self.history@) =~= h0 + seq![("Usage: run <name>"@, Tone::Sand)]);
            return;
        }
        assert(words(parts@)[1] == parts@[1]@);
        match self.proc_mgr.spawn(parts[1], 5) {
            Ok(pid) => {
                let mut l = String::from_str("Launched '");
                l.append(parts[1]);
                l.append("' with PID ");
                push_decimal(&mut l, pid as u64);
                l.append(".");
                self.push_output(l.as_str(), Tone::TermGreen);
            },
            Err(e) => {
                let mut l = String::from_str("Error: ");
                l.append(e.debug_name());
                self.push_output(l.as_str(), Tone::Error);
            },
        }
        assert(history_view(self.history@) =~= h0 + term_run(
            old(self).model().procs,
            words(parts@),
        ).1);
    }

    fn cmd_ls(&mut self, parts: &Vec<&str>)
        ensures
            history_view(final(self).history@) == history_view(old(self).history@) + term_ls(
                old(self).model().fs,
                words(parts@),
            ),
            final(self).model() == old(self).model(),
            final(self).input == old(self).input,
            final(self).cmd_history == old(self).cmd_history,
            final(self).cmd_history_idx == old(self).cmd_history_idx,
    {
        let ghost h0 = history_view(self.history@);
        let path = if parts.len() >= 2 {
            parts[1]
        } else {
            "/"
        };
        assert(path@ == (if words(parts@).len() >= 2 {
            words(parts@)[1]
        } else {
            "/"@
        }));
        match self.fs.list(path) {
            Ok(entries) => {
                if entries.len() == 0 {
                    self.push_output("  (empty)", Tone::TextMuted);
                    assert(history_view(self.history@) =~= h0 + seq![("  (empty)"@, Tone::TextMuted)]);
                } else {
                    let ghost es = names_view(entries);
                    let mut i: usize = 0;
                    while i < entries.len()
                        invariant
                            i <= entries@.len(),
                            es == names_view(entries),
                            self.model() == old(self).model(),
                            self.input == old(self).input,
                            self.cmd_history == old(self).cmd_history,
                            self.cmd_history_idx == old(self).cmd_history_idx,
                            history_view(self.history@) =~= h0 + toned(
                                indented(es.take(i as int)),
                                Tone::Text,
                            ),
                        decreases entries@.len() - i,
                    {
                        let mut l = String::from_str("  ");
                        l.append(entries[i].as_str());
                        self.push_output(l.as_str(), Tone::Text);
                        proof {
                            assert(es.take(i + 1) =~= es.take(i as int).push(es[i as int]));
                            assert(toned(indented(es.take(i + 1)), Tone::Text) =~= toned(
                                indented(es.take(i as int)),
                                Tone::Text,
                            ).push((l@, Tone::Text)));
                        }
                        i = i + 1;
                    }
                    assert(es.take(es.len() as int) =~= es);
                }
            },
            Err(e) => {
                let mut l = String::from_str("Error: ");
                l.append(e.debug_name());
                self.push_output(l.as_str(), Tone::Error);
                assert(history_view(self.history@) =~= h0 + seq![
                    ("Error: "@ + e.spec_debug_name(), Tone::Error),
                ]);
            },
        }
    }

    fn cmd_cat(&mut self, parts: &Vec<&str>)
        ensures
            history_view(final(self).history@) == history_view(old(self).history@) + term_cat(
                old(self).model().fs,
                words(parts@),
            ),
            final(self).model() == old(self).model(),
            final(self).input == old(self).input,
            final(self).cmd_history == old(self).cmd_history,
            final(self).cmd_history_idx == old(self).cmd_history_idx,
    {
        let ghost h0 = history_view(self.history@);
        if parts.len() < 2 {
            self.push_output("Usage: cat <path>", Tone::Sand);
            assert(history_view(self.history@) =~= h0 + seq![("Usage: cat <path>"@, Tone::Sand)]);
            return;
        }
        assert(words(parts@)[1] == parts@[1]@);
        match self.fs.read(parts[1]) {
            Ok(data) => {
                if data.len() == 0 {
                    self.push_output("  (empty file)", Tone::TextMuted);
                    assert(history_view(self.history@) =~= h0 + seq![
                        ("  (empty file)"@, Tone::TextMuted),
                    ]);
                } else {
                    match utf8_str(data.as_slice()) {
                        Some(s) => {
                            proof {
                                encode_utf8_decode_utf8(s@);
                            }
                            let lines = text_lines(s);
                            let ghost ls = lines@.map_values(|p: &str| p@);
                            let mut i: usize = 0;
                            while i < lines.len()
                                invariant
                                    i <= lines@.len(),
                                    ls == lines@.map_values(|p: &str| p@),
                                    self.model() == old(self).model(),
                                    self.input == old(self).input,
                                    self.cmd_history == old(self).cmd_history,
                                    self.cmd_history_idx == old(self).cmd_history_idx,
                                    history_view(self.history@) =~= h0 + toned(
                                        ls.take(i as int),
                                        Tone::TermText,
                                    ),
                                decreases lines@.len() - i,
                            {
                                self.push_output(lines[i], Tone::TermText);
                                proof {
                                    assert(ls.take(i + 1) =~= ls.take(i as int).push(ls[i as int]));
                                    assert(toned(ls.take(i + 1), Tone::TermText) =~= toned(
                                        ls.take(i as int),
                                        Tone::TermText,
                                    ).push((ls[i as int], Tone::TermText)));
                                }
                                i = i + 1;
                            }
                            assert(ls.take(ls.len() as int) =~= ls);
                        },
                        None => {
                            let mut l = String::from_str("<binary data, ");
                            push_decimal(&mut l, data.len() as u64);
                            l.append(" bytes>");
                            self.push_output(l.as_str(), Tone::TextMuted);
                            assert(history_view(self.history@) =~= h0 + seq![
                                (l@, Tone::TextMuted),
                            ]);
                        },
                    }
                }
            },
            Err(e) => {
                let mut l = String::from_str("Error: ");
                l.append(e.debug_name());
                self.push_output(l.as_str(), Tone::Error);
                assert(history_view(self.history@) =~= h0 + seq![(l@, Tone::Error)]);
            },
        }
    }

    fn cmd_write(&mut self, parts: &Vec<&str>)
        ensures
            ({
                let k = term_write(old(self).model().fs, words(parts@));
                &&& history_view(final(self).history@) == history_view(old(self).history@) + k.1
                &&& final(self).model() == (ShellModel { fs: k.0, ..old(self).model() })
            }),
            final(self).input == old(self).input,
            final(self).cmd_history == old(self).cmd_history,
            final(self).cmd_history_idx == old(self).cmd_history_idx,
    {
        let ghost h0 = history_view(self.history@);
        if parts.len() < 3 {
            self.push_output("Usage: write <path> <content>", Tone::Sand);
            assert(history_view(self.history@) =~= h0 + seq![
                ("Usage: write <path> <content>"@, Tone::Sand),
            ]);
            return;
        }
        let path = parts[1];
        let content = parts[2];
        assert(words(parts@)[1] == path@ && words(parts@)[2] == content@);
        let bytes = content.as_bytes();
        let n = bytes.len();
        match self.fs.write(path, bytes) {
            Ok(()) => {
                let mut l = String::from_str("Written ");
                push_decimal(&mut l, n as u64);
                l.append(" bytes to '");
                l.append(path);
                l.append("'.");
                self.push_output(l.as_str(), Tone::TermGreen);
            },
            Err(e) => {
                let mut l = String::from_str("Error: ");
                l.append(e.debug_name());
                self.push_output(l.as_str(), Tone::Error);
            },
        }
        assert(history_view(self.history@) =~= h0 + term_write(
            old(self).model().fs,
            words(parts@),
        ).1);
    }

    fn cmd_login(&mut self, parts: &Vec<&str>)
        ensures
            ({
                let k = term_login(
                    old(self).model().auth,
                    old(self).model().uid,
                    old(self).model().user,
                    words(parts@),
                );
                &&& history_view(final(self).history@) == history_view(old(self).history@) + k.2
                &&& final(self).model() == (ShellModel { uid: k.0, user: k.1, ..old(self).model() })
            }),
            final(self).input == old(self).input,
            final(self).cmd_history == old(self).cmd_history,
            final(self).cmd_history_idx == old(self).cmd_history_idx,
    {
        let ghost h0 = history_view(self.history@);
        if parts.len() < 3 {
            self.push_output("Usage: login <username> <password>", Tone::Sand);
            assert(history_view(self.history@) =~= h0 + seq![
                ("Usage: login <username> <password>"@, Tone::Sand),
            ]);
            return;
        }
        assert(words(parts@)[1] == parts@[1]@ && words(parts@)[2] == parts@[2]@);
        match self.auth.authenticate(parts[1], parts[2]) {
            Ok(uid) => {
                self.current_uid = Some(uid);
                self.current_username = Some(String::from_str(parts[1]));
                let mut l = String::from_str("Welcome, ");
                l.append(parts[1]);
                l.append("! (uid=");
                push_decimal(&mut l, uid as u64);
                l.append(")");
                self.push_output(l.as_str(), Tone::TermGreen);
            },
            Err(e) => {
                let mut l = String::from_str("Auth failed: ");
                l.append(e.debug_name());
                self.push_output(l.as_str(), Tone::Error);
            },
        }
        assert(history_view(self.history@) =~= h0 + term_login(
            old(self).model().auth,
            old(self).model().uid,
            old(self).model().user,
            words(parts@),
        ).2);
    }

    fn cmd_logout(&mut self)
        ensures
            ({
                let k = term_logout(
                    old(self).model().auth,
                    old(self).model().uid,
                    old(self).model().user,
                );
                &&& history_view(final(self).history@) == history_view(old(self).history@) + k.3
                &&& final(self).model() == (ShellModel {
                    auth: k.0,
                    uid: k.1,
                    user: k.2,
                    ..old(self).model()
                })
            }),
            final(self).input == old(self).input,
            final(self).cmd_history == old(self).cmd_history,
            final(self).cmd_history_idx == old(self).cmd_history_idx,
    {
        let ghost h0 = history_view(self.history@);
        match self.current_uid {
            Some(uid) => {
                let name = match &self.current_username {
                    Some(u) => String::from_str(u.as_str()),
                    None => String::new(),
                };
                match self.auth.logout(uid) {
                    Ok(()) => {
                        let mut l = String::from_str("Logged out ");
                        l.append(name.as_str());
                        l.append(".");
                        self.push_output(l.as_str(), Tone::TermGreen);
                        self.current_uid = None;
                        self.current_username = None;
                    },
                    Err(e) => {
                        let mut l = String::from_str("Error: ");
                        l.append(e.debug_name());
                        self.push_output(l.as_str(), Tone::Error);
                    },
                }
            },
            None => self.push_output("No active session.", Tone::Sand),
        }
        assert(history_view(self.history@) =~= h0 + term_logout(
            old(self).model().auth,
            old(self).model().uid,
            old(self).model().user,
        ).3);
    }

    fn cmd_pkg(&mut self, parts: &Vec<&str>)
        ensures
            ({
                let k = term_pkg(old(self).model().pkgs, words(parts@));
                &&& history_view(final(self).history@) == history_view(old(self).history@) + k.1
                &&& final(self).model() == (ShellModel { pkgs: k.0, ..old(self).model() })
            }),
            final(self).input == old(self).input,
            final(self).cmd_history == old(self).cmd_history,
            final(self).cmd_history_idx == old(self).cmd_history_idx,
    {
        let ghost h0 = history_view(self.history@);
        let ghost ws = words(parts@);
        if parts.len() < 2 {
            self.push_output("Usage: pkg <install|remove|list|update> [name]", Tone::Sand);
            assert(history_view(self.history@) =~= h0 + seq![
                ("Usage: pkg <install|remove|list|update> [name]"@, Tone::Sand),
            ]);
            return;
        }
        assert(ws[1] == parts@[1]@);
        let sub = parts[1];
        if str_eq(sub, "install") {
            if parts.len() < 3 {
                self.push_output("Usage: pkg install <name>", Tone::Sand);
            } else {
                assert(ws[2] == parts@[2]@);
                match self.pkg_mgr.install(parts[2]) {
                    Ok(()) => {
                        let mut l = String::from_str("Package '");
                        l.append(parts[2]);
                        l.append("' installed.");
                        self.push_output(l.as_str(), Tone::TermGreen);
                    },
                    Err(e) => {
                        let mut l = String::from_str("Error: ");
                        l.append(e.debug_name());
                        self.push_output(l.as_str(), Tone::Error);
                    },
                }
            }
            assert(history_view(self.history@) =~= h0 + term_pkg(old(self).model().pkgs, ws).1);
        } else if str_eq(sub, "remove") {
            if parts.len() < 3 {
                self.push_output("Usage: pkg remove <name>", Tone::Sand);
            } else {
                assert(ws[2] == parts@[2]@);
                match self.pkg_mgr.remove(parts[2]) {
                    Ok(()) => {
                        let mut l = String::from_str("Package '");
                        l.append(parts[2]);
                        l.append("' removed.");
                        self.push_output(l.as_str(), Tone::TermGreen);
                    },
                    Err(e) => {
                        let mut l = String::from_str("Error: ");
                        l.append(e.debug_name());
                        self.push_output(l.as_str(), Tone::Error);
                    },
                }
            }
            assert(history_view(self.history@) =~= h0 + term_pkg(old(self).model().pkgs, ws).1);
        } else if str_eq(sub, "list") {
            let pkgs = self.pkg_mgr.list_installed();
            if pkgs.len() == 0 {
                self.push_output("  No packages installed.", Tone::TextDim);
                assert(history_view(self.history@) =~= h0 + term_pkg(old(self).model().pkgs, ws).1);
            } else {
                self.push_output("  Installed packages:", Tone::Sand);
                let ghost l = names_view(pkgs);
                let mut i: usize = 0;
                while i < pkgs.len()
                    invariant
                        i <= pkgs@.len(),
                        l == names_view(pkgs),
                        self.model() == old(self).model(),
                        self.input == old(self).input,
                        self.cmd_history == old(self).cmd_history,
                        self.cmd_history_idx == old(self).cmd_history_idx,
                        history_view(self.history@) =~= h0 + seq![
                            ("  Installed packages:"@, Tone::Sand),
                        ] + l.take(i as int).map_values(|p: Seq<char>| (bullet() + p, Tone::Text)),
                    decreases pkgs@.len() - i,
                {
                    let mut row = String::from_str("  \u{e2}\u{20ac}\u{a2} ");
                    row.append(pkgs[i].as_str());
                    self.push_output(row.as_str(), Tone::Text);
                    proof {
                        assert(l.take(i + 1) =~= l.take(i as int).push(l[i as int]));
                    }
                    i = i + 1;
                }
                assert(l.take(l.len() as int) =~= l);
                assert(history_view(self.history@) =~= h0 + term_pkg(old(self).model().pkgs, ws).1);
            }
        } else if str_eq(sub, "update") {
            match self.pkg_mgr.update_all() {
                Ok(()) => self.push_output("All packages updated.", Tone::TermGreen),
                Err(e) => {
                    let mut l = String::from_str("Error: ");
                    l.append(e.debug_name());
                    self.push_output(l.as_str(), Tone::Error);
                },
            }
            assert(history_view(self.history@) =~= h0 + term_pkg(old(self).model().pkgs, ws).1);
        } else {
            let mut l = String::from_str("Unknown pkg sub-command: '");
            l.append(sub);
            l.append("'");
            self.push_output(l.as_str(), Tone::Error);
            assert(history_view(self.history@) =~= h0 + term_pkg(old(self).model().pkgs, ws).1);
        }
    }

    fn cmd_encrypt(&mut self, parts: &Vec<&str>)
        ensures
            history_view(final(self).history@) == history_view(old(self).history@) + term_encrypt(
                words(parts@),
            ),
            final(self).model() == old(self).model(),
            final(self).input == old(self).input,
            final(self).cmd_history == old(self).cmd_history,
            final(self).cmd_history_idx == old(self).cmd_history_idx,
    {
        let ghost h0 = history_view(self.history@);
        if parts.len() < 2 {
            self.push_output("Usage: encrypt <text>", Tone::Sand);
            assert(history_view(self.history@) =~= h0 + seq![("Usage: encrypt <text>"@, Tone::Sand)]);
            return;
        }
        let ghost ws = words(parts@);
        let mut text = String::new();
        let mut i: usize = 1;
        while i < parts.len()
            invariant
                1 <= i <= parts@.len(),
                ws == words(parts@),
                text@ == join_words(ws.subrange(1, i as int)),
            decreases parts@.len() - i,
        {
            if i > 1 {
                text.append(" ");
            }
            text.append(parts[i]);
            proof {
                let a = ws.subrange(1, i + 1);
                assert(a.drop_last() =~= ws.subrange(1, i as int));
                assert(a.last() == parts@[i as int]@);
                if i == 1 {
                    assert(ws.subrange(1, 1) =~= Seq::<Seq<char>>::empty());
                }
            }
            i = i + 1;
        }
        assert(ws.subrange(1, parts@.len() as int) =~= ws.skip(1));
        let key = "endoros-key-2024".as_bytes();
        match self.crypto.encrypt(text.as_str().as_bytes(), key) {
            Ok(cipher) => {
                let mut l = String::from_str("Cipher: ");
                let mut j: usize = 0;
                let ghost head = l@;
                while j < cipher.len()
                    invariant
                        j <= cipher@.len(),
                        l@ == head + hex_string(cipher@.take(j as int)),
                    decreases cipher@.len() - j,
                {
                    push_hex_byte(&mut l, cipher[j]);
                    assert(cipher@.take(j + 1).drop_last() =~= cipher@.take(j as int));
                    j = j + 1;
                }
                assert(cipher@.take(cipher@.len() as int) =~= cipher@);
                self.push_output(l.as_str(), Tone::TermGreen);
                match self.crypto.decrypt(cipher.as_slice(), key) {
                    Ok(plain) => {
                        let mut r = String::from_str("Verify: ");
                        let lossy = utf8_lossy(plain.as_slice());
                        r.append(lossy.as_str());
                        self.push_output(r.as_str(), Tone::TextDim);
                    },
                    Err(_) => {},
                }
            },
            Err(e) => {
                let mut l = String::from_str("Error: ");
                l.append(e.debug_name());
                self.push_output(l.as_str(), Tone::Error);
            },
        }
        assert(history_view(self.history@) =~= h0 + term_encrypt(words(parts@)));
    }

    /// Arrow up: step back through the command history into the input line.
    pub fn history_up(&mut self)
        requires
            cursor_ok(old(self).cmd_history_idx, old(self).cmd_history@.len()),
        ensures
            old(self).cmd_history@.len() == 0 ==> *final(self) == *old(self),
            old(self).cmd_history@.len() > 0 ==> {
                let i = match old(self).cmd_history_idx {
                    None => old(self).cmd_history@.len() - 1,
                    Some(j) => if j == 0 {
                        0
                    } else {
                        j - 1
                    },
                };
                &&& final(self).cmd_history_idx == Some(i as usize)
                &&& final(self).input@ == old(self).cmd_history@[i]@
                &&& final(self).history == old(self).history
                &&& final(self).cmd_history == old(self).cmd_history
                &&& final(self).model() == old(self).model()
            },
            cursor_ok(final(self).cmd_history_idx, final(self).cmd_history@.len()),
    {
        if self.cmd_history.len() == 0 {
            return;
        }
        let new_idx = match self.cmd_history_idx {
            None => self.cmd_history.len() - 1,
            Some(i) => if i == 0 {
                0
            } else {
                i - 1
            },
        };
        self.cmd_history_idx = Some(new_idx);
        self.input = String::from_str(self.cmd_history[new_idx].as_str());
    }

    /// Arrow down: step forward through the command history; past its end the
    /// input line is cleared.
    pub fn history_down(&mut self)
        requires
            cursor_ok(old(self).cmd_history_idx, old(self).cmd_history@.len()),
        ensures
            match old(self).cmd_history_idx {
                None => *final(self) == *old(self),
                Some(i) => if i + 1 >= old(self).cmd_history@.len() {
                    final(self).cmd_history_idx is None && final(self).input@ == Seq::<char>::empty()
                } else {
                    final(self).cmd_history_idx == Some((i + 1) as usize) && final(self).input@
                        == old(self).cmd_history@[i + 1]@
                },
            },
            final(self).history == old(self).history,
            final(self).cmd_history == old(self).cmd_history,
            final(self).model() == old(self).model(),
            cursor_ok(final(self).cmd_history_idx, final(self).cmd_history@.len()),
    {
        match self.cmd_history_idx {
            None => {},
            Some(i) => {
                let n = self.cmd_history.len();
                assert(i < n);
                if i + 1 >= n {
                    self.cmd_history_idx = None;
                    self.input = String::new();
                } else {
                    self.cmd_history_idx = Some(i + 1);
                    self.input = String::from_str(self.cmd_history[i + 1].as_str());
                }
            },
        }
    }

    /// Whether `execute` may run `line` now: a `run` command needs the
    /// scheduler to be able to spawn.
    pub fn ready_for(&self, line: &str) -> (r: bool)
        ensures
            r == (term_spawns(line@) ==> SchedulerAdapter::spawn_ready(self.proc_mgr@)),
    {
        let t = trim(line);
        if t.is_empty() {
            return true;
        }
        let parts = split_n(t, 4);
        proof {
            lemma_split_len_term(t@, 4);
        }
        if str_eq(parts[0], "run") && parts.len() >= 2 {
            self.proc_mgr.can_spawn()
        } else {
            true
        }
    }

    /// Enter: run the input line and empty it.
    pub fn submit(&mut self)
        requires
            term_spawns(old(self).input@) ==> SchedulerAdapter::spawn_ready(old(self).proc_mgr@),
        ensures
            executed(*old(self), *final(self), old(self).input@),
            final(self).input@ == Seq::<char>::empty(),
    {
        let mut cmd = String::new();
        std::mem::swap(&mut cmd, &mut self.input);
        self.execute(cmd);
    }
}

/// The characters of each string.
pub open spec fn names_view_seq(v: Seq<String>) -> Seq<Seq<char>> {
    v.map_values(|s: String| s@)
}

proof fn lemma_split_len_term(s: Seq<char>, n: nat)
    requires
        n >= 1,
    ensures
        1 <= split_spaces(s, n).len() <= n,
    decreases n,
{
    let i = crate::fmt::first_space_from(s, 0);
    if n > 1 && i >= 0 {
        lemma_split_len_term(s.skip(i + 1), (n - 1) as nat);
    }
}

/// A `login` that the user table refuses answers one error line and changes
/// nothing: whoever was logged in stays logged in. One that it accepts logs
/// in the named user under the uid it gives, and changes nothing else.
pub proof fn law_term_login_session(m: TermModel, t: Seq<char>)
    requires
        split_spaces(t, 4)[0] == "login"@,
        split_spaces(t, 4).len() >= 3,
    ensures
        LocalAuthAdapter::authenticate_spec(m.auth, split_spaces(t, 4)[1], split_spaces(t, 4)[2]) is Err
            ==> {
            &&& term_step(m, t).0 == m
            &&& !term_step(m, t).2
            &&& term_step(m, t).1.len() == 1
            &&& term_step(m, t).1[0].1 == Tone::Error
        },
        LocalAuthAdapter::authenticate_spec(m.auth, split_spaces(t, 4)[1], split_spaces(t, 4)[2])
            matches Ok(id) ==> term_step(m, t).0 == (ShellModel {
            uid: Some(id),
            user: Some(split_spaces(t, 4)[1]),
            ..m
        }),
{
    reveal_command_names();
}

/// `ls` on a directory that lists entries adds exactly one line per entry,
/// the entry indented by two spaces, in the listing's order, and changes
/// nothing.
pub proof fn law_term_ls_prints_every_entry(m: TermModel, t: Seq<char>, es: Seq<Seq<char>>)
    requires
        split_spaces(t, 4)[0] == "ls"@,
        RamdiskAdapter::list_spec(
            m.fs,
            if split_spaces(t, 4).len() >= 2 {
                split_spaces(t, 4)[1]
            } else {
                "/"@
            },
        ) == Ok::<Seq<Seq<char>>, FsError>(es),
        es.len() > 0,
    ensures
        term_step(m, t).0 == m,
        !term_step(m, t).2,
        term_step(m, t).1.len() == es.len(),
        forall|i: int| 0 <= i < es.len() ==> #[trigger] term_step(m, t).1[i] == ("  "@ + es[i], Tone::Text),
{
    reveal_command_names();
}

/// `pkg update` runs the package manager's update: every package keeps its
/// name and state, every installed one now reads version `1.0.1`, and
/// nothing else changes.
pub proof fn law_term_pkg_update(m: TermModel, t: Seq<char>)
    requires
        split_spaces(t, 4)[0] == "pkg"@,
        split_spaces(t, 4).len() >= 2,
        split_spaces(t, 4)[1] == "update"@,
        forall|i: int| 0 <= i < m.pkgs.0.len() ==> (#[trigger] m.pkgs.0[i]).1.len() == 16,
    ensures
        term_step(m, t).0 == (ShellModel { pkgs: LocalPkgManager::update_all_spec(m.pkgs).0, ..m }),
        term_step(m, t).1 == seq![("All packages updated."@, Tone::TermGreen)],
        term_step(m, t).0.pkgs.0.len() == m.pkgs.0.len(),
        forall|i: int|
            0 <= i < m.pkgs.0.len() ==> {
                let p = #[trigger] term_step(m, t).0.pkgs.0[i];
                &&& p.0 == m.pkgs.0[i].0
                &&& p.3 == m.pkgs.0[i].3
                &&& p.3 == InstallState::Installed ==> buffer_text_chars(p.1) == "1.0.1"@
            },
{
    reveal_command_names();
    law_update_keeps_packages(m.pkgs);
    assert forall|i: int| 0 <= i < m.pkgs.0.len() implies {
        let p = #[trigger] term_step(m, t).0.pkgs.0[i];
        &&& p.0 == m.pkgs.0[i].0
        &&& p.3 == m.pkgs.0[i].3
        &&& p.3 == InstallState::Installed ==> buffer_text_chars(p.1) == "1.0.1"@
    } by {
        let p = LocalPkgManager::update_all_spec(m.pkgs).0.0[i];
        if p.3 == InstallState::Installed {
            law_bumped_version_reads(m.pkgs.0[i].1);
        }
    }
}

/// Only `clear` empties the output; the commands that only report (`help`,
/// `exit`, `quit`, `whoami`, `ps`, `ls`, `cat`, `encrypt`, `clear`, and
/// unknown words) change nothing.
pub proof fn law_term_report_commands(m: TermModel, t: Seq<char>)
    ensures
        term_step(m, t).2 <==> split_spaces(t, 4)[0] == "clear"@,
        ({
            let c = split_spaces(t, 4)[0];
            c != "kill"@ && c != "run"@ && c != "write"@ && c != "login"@ && c != "logout"@ && c
                != "pkg"@
        }) ==> term_step(m, t).0 == m,
{
    reveal_command_names();
}

/// `logout` with someone logged in ends the session in the user table and
/// leaves nobody logged in; with nobody logged in it changes nothing.
pub proof fn law_term_logout_session(m: TermModel, t: Seq<char>)
    requires
        split_spaces(t, 4)[0] == "logout"@,
    ensures
        m.uid is None ==> term_step(m, t).0 == m,
        forall|id: u32|
            m.uid == Some(id) && #[trigger] LocalAuthAdapter::logout_spec(m.auth, id).1 is Ok
                ==> term_step(m, t).0 == (ShellModel {
                auth: LocalAuthAdapter::logout_spec(m.auth, id).0,
                uid: None,
                user: None,
                ..m
            }),
{
    reveal_command_names();
}

/// `write <path> <word>` stores the word after the path at that path, and
/// changes nothing else; reading the path then gives the word's bytes.
pub proof fn law_term_write(m: TermModel, t: Seq<char>)
    requires
        split_spaces(t, 4)[0] == "write"@,
        split_spaces(t, 4).len() >= 3,
    ensures
        term_step(m, t).0 == (ShellModel {
            fs: RamdiskAdapter::write_spec(
                m.fs,
                split_spaces(t, 4)[1],
                encode_utf8(split_spaces(t, 4)[2]),
            ).0,
            ..m
        }),
        RamdiskAdapter::read_spec(term_step(m, t).0.fs, split_spaces(t, 4)[1]) == Ok::<
            Seq<u8>,
            FsError,
        >(encode_utf8(split_spaces(t, 4)[2])),
{
    reveal_command_names();
    law_read_after_write(m.fs, split_spaces(t, 4)[1], encode_utf8(split_spaces(t, 4)[2]));
}

} // verus!
