use vstd::prelude::*;
use vstd::string::*;
use vstd::utf8::*;
use crate::fmt::{
    decimal, pad_right, pad_to, parse_u32, parse_u32_spec, push_decimal, push_hex_byte, hex_byte,
    split_n, split_spaces, trim, trimmed,
};
use crate::ports::auth::AuthPort;
use crate::ports::encryption::EncryptionPort;
use crate::ports::filesystem::{names_view, FileSystemPort, FsError};
use crate::ports::package_mgr::PackageManagerPort;
use crate::ports::process_mgr::ProcessManagerPort;
use crate::text::{lossy_utf8, str_eq, utf8_lossy, utf8_str};

verus! {

/// The state a shell works on: its adapters' states and the session.
pub struct ShellModel<FV, AV, PV, MV> {
    pub fs: FV,
    pub auth: AV,
    pub procs: PV,
    pub pkgs: MV,
    /// UID of the logged-in user.
    pub uid: Option<u32>,
    /// Name the user logged in with.
    pub user: Option<Seq<char>>,
}

/// The words of a command line, as characters.
pub open spec fn words(parts: Seq<&str>) -> Seq<Seq<char>> {
    parts.map_values(|p: &str| p@)
}

/// The bytes of the key the `encrypt` command uses (a demo key).
pub open spec fn default_key() -> Seq<u8> {
    encode_utf8("endoros-key-2024"@)
}

/// The bytes in lowercase hexadecimal, two digits each.
pub open spec fn hex_string(b: Seq<u8>) -> Seq<char>
    decreases b.len(),
{
    if b.len() == 0 {
        Seq::empty()
    } else {
        hex_string(b.drop_last()) + hex_byte(b.last())
    }
}

/// The words joined with single spaces.
pub open spec fn join_words(ws: Seq<Seq<char>>) -> Seq<char>
    decreases ws.len(),
{
    if ws.len() == 0 {
        Seq::empty()
    } else if ws.len() == 1 {
        ws[0]
    } else {
        join_words(ws.drop_last()) + " "@ + ws.last()
    }
}

/// Each line indented by two spaces.
pub open spec fn indented(ls: Seq<Seq<char>>) -> Seq<Seq<char>> {
    ls.map_values(|l: Seq<char>| "  "@ + l)
}

pub open spec fn help_lines() -> Seq<Seq<char>> {
    seq![
        "EndorOS Shell — available commands:"@,
        "  ps                        List running processes"@,
        "  kill <pid>                Terminate process by PID"@,
        "  run <name>                Launch process (priority 5)"@,
        "  ls <path>                 List directory contents"@,
        "  cat <path>                Print file contents"@,
        "  write <path> <content>    Write content to file"@,
        "  login <user> <pass>       Authenticate user"@,
        "  logout                    Close current session"@,
        "  pkg install <name>        Install a package"@,
        "  pkg remove <name>         Remove a package"@,
        "  pkg list                  List installed packages"@,
        "  pkg update                Update all packages"@,
        "  encrypt <text>            XOR-encrypt text (demo key)"@,
        "  whoami                    Show current user"@,
        "  wm open <title>           Open a window"@,
        "  wm close <id>             Close a window"@,
        "  wm snap <id> <zone>       Snap window (left/right/top-left/top-right/bottom-left/bottom-right/fullscreen)"@,
        "  wm list                   List open windows"@,
        "  help                      Show this help"@,
        "  exit / quit               Exit the shell"@,
    ]
}

pub open spec fn wm_lines() -> Seq<Seq<char>> {
    seq![
        "Window manager commands must be issued from within the WM context."@,
        "Available sub-commands: open <title> | close <id> | snap <id> <zone> | list"@,
        "(Hint: the WM is accessible via the 'wm' module in main.rs)"@,
    ]
}

pub open spec fn whoami_lines<A: AuthPort>(auth: A::V, uid: Option<u32>, user: Option<Seq<char>>) -> Seq<
    Seq<char>,
> {
    match user {
        Some(u) => {
            let admin = match uid {
                Some(id) => A::is_admin_spec(auth, id),
                None => false,
            };
            seq!["User: "@ + u + (if admin { " (admin)"@ } else { ""@ })]
        },
        None => seq!["Not logged in."@],
    }
}

pub open spec fn ps_lines<P: ProcessManagerPort>(procs: P::V) -> Seq<Seq<char>> {
    let l = P::list_processes_spec(procs);
    if l.len() == 0 {
        seq!["  No processes running."@]
    } else {
        seq!["  PID   NAME"@] + l.map_values(
            |e: (u32, Seq<char>)| "  "@ + pad_right(decimal(e.0 as nat), 5) + " "@ + e.1,
        )
    }
}

pub open spec fn kill_step<P: ProcessManagerPort>(procs: P::V, parts: Seq<Seq<char>>) -> (P::V, Seq<
    Seq<char>,
>) {
    if parts.len() < 2 {
        (procs, seq!["Usage: kill <pid>"@])
    } else {
        match parse_u32_spec(parts[1]) {
            Some(pid) => {
                let k = P::kill_spec(procs, pid);
                match k.1 {
                    Ok(_) => (k.0, seq!["Process "@ + decimal(pid as nat) + " terminated."@]),
                    Err(e) => (k.0, seq!["Error: "@ + e.spec_debug_name()]),
                }
            },
            None => (procs, seq!["Invalid PID: '"@ + parts[1] + "'"@]),
        }
    }
}

pub open spec fn run_step<P: ProcessManagerPort>(procs: P::V, parts: Seq<Seq<char>>) -> (P::V, Seq<
    Seq<char>,
>) {
    if parts.len() < 2 {
        (procs, seq!["Usage: run <name>"@])
    } else {
        let k = P::spawn_spec(procs, parts[1], 5);
        match k.1 {
            Ok(pid) => (
                k.0,
                seq!["Launched '"@ + parts[1] + "' with PID "@ + decimal(pid as nat) + "."@],
            ),
            Err(e) => (k.0, seq!["Error: "@ + e.spec_debug_name()]),
        }
    }
}

pub open spec fn ls_lines<F: FileSystemPort>(fs: F::V, parts: Seq<Seq<char>>) -> Seq<Seq<char>> {
    let path = if parts.len() >= 2 {
        parts[1]
    } else {
        "/"@
    };
    match F::list_spec(fs, path) {
        Ok(es) => if es.len() == 0 {
            seq!["  (empty)"@]
        } else {
            indented(es)
        },
        Err(e) => seq!["Error: "@ + e.spec_debug_name()],
    }
}

pub open spec fn cat_lines<F: FileSystemPort>(fs: F::V, parts: Seq<Seq<char>>) -> Seq<Seq<char>> {
    if parts.len() < 2 {
        seq!["Usage: cat <path>"@]
    } else {
        match F::read_spec(fs, parts[1]) {
            Ok(d) => if d.len() == 0 {
                seq!["  (empty file)"@]
            } else if valid_utf8(d) {
                seq![decode_utf8(d)]
            } else {
                seq!["  <binary data, "@ + decimal(d.len()) + " bytes>"@]
            },
            Err(e) => seq!["Error: "@ + e.spec_debug_name()],
        }
    }
}

pub open spec fn write_step<F: FileSystemPort>(fs: F::V, parts: Seq<Seq<char>>) -> (F::V, Seq<
    Seq<char>,
>) {
    if parts.len() < 3 {
        (fs, seq!["Usage: write <path> <content>"@])
    } else {
        let content = encode_utf8(join_words(parts.skip(2)));
        let w = F::write_spec(fs, parts[1], content);
        match w.1 {
            Ok(_) => (
                w.0,
                seq![
                    "Written "@ + decimal(content.len()) + " bytes to '"@ + parts[1] + "'."@,
                ],
            ),
            Err(e) => (w.0, seq!["Error: "@ + e.spec_debug_name()]),
        }
    }
}

pub open spec fn login_step<A: AuthPort>(
    auth: A::V,
    uid: Option<u32>,
    user: Option<Seq<char>>,
    parts: Seq<Seq<char>>,
) -> (Option<u32>, Option<Seq<char>>, Seq<Seq<char>>) {
    if parts.len() < 3 {
        (uid, user, seq!["Usage: login <username> <password>"@])
    } else {
        match A::authenticate_spec(auth, parts[1], parts[2]) {
            Ok(id) => (
                Some(id),
                Some(parts[1]),
                seq![
                    "Login successful. Welcome, "@ + parts[1] + "! (uid="@ + decimal(id as nat)
                        + ")"@,
                ],
            ),
            Err(e) => (uid, user, seq!["Authentication failed: "@ + e.spec_debug_name()]),
        }
    }
}

pub open spec fn logout_step<A: AuthPort>(auth: A::V, uid: Option<u32>, user: Option<Seq<char>>) -> (
    A::V,
    Option<u32>,
    Option<Seq<char>>,
    Seq<Seq<char>>,
) {
    match uid {
        Some(id) => {
            let l = A::logout_spec(auth, id);
            match l.1 {
                Ok(_) => (
                    l.0,
                    None,
                    None,
                    seq![
                        "Logged out "@ + (match user {
                            Some(u) => u,
                            None => ""@,
                        }) + "."@,
                    ],
                ),
                Err(e) => (l.0, uid, user, seq!["Logout error: "@ + e.spec_debug_name()]),
            }
        },
        None => (auth, uid, user, seq!["No active session."@]),
    }
}

pub open spec fn pkg_step<M: PackageManagerPort>(pkgs: M::V, parts: Seq<Seq<char>>) -> (M::V, Seq<
    Seq<char>,
>) {
    if parts.len() < 2 {
        (pkgs, seq!["Usage: pkg <install|remove|list|update> [name]"@])
    } else if parts[1] == "install"@ {
        if parts.len() < 3 {
            (pkgs, seq!["Usage: pkg install <name>"@])
        } else {
            let k = M::install_spec(pkgs, parts[2]);
            match k.1 {
                Ok(_) => (k.0, seq!["Package '"@ + parts[2] + "' installed successfully."@]),
                Err(e) => (k.0, seq!["Install error: "@ + e.spec_debug_name()]),
            }
        }
    } else if parts[1] == "remove"@ {
        if parts.len() < 3 {
            (pkgs, seq!["Usage: pkg remove <name>"@])
        } else {
            let k = M::remove_spec(pkgs, parts[2]);
            match k.1 {
                Ok(_) => (k.0, seq!["Package '"@ + parts[2] + "' removed."@]),
                Err(e) => (k.0, seq!["Remove error: "@ + e.spec_debug_name()]),
            }
        }
    } else if parts[1] == "list"@ {
        let l = M::list_installed_spec(pkgs);
        if l.len() == 0 {
            (pkgs, seq!["  No packages installed."@])
        } else {
            (pkgs, indented(l))
        }
    } else if parts[1] == "update"@ {
        let k = M::update_all_spec(pkgs);
        match k.1 {
            Ok(_) => (k.0, seq!["All packages updated."@]),
            Err(e) => (k.0, seq!["Update error: "@ + e.spec_debug_name()]),
        }
    } else {
        (pkgs, seq!["Unknown pkg sub-command: '"@ + parts[1] + "'"@])
    }
}

pub open spec fn encrypt_lines<E: EncryptionPort>(crypto: E, parts: Seq<Seq<char>>) -> Seq<Seq<char>> {
    if parts.len() < 2 {
        seq!["Usage: encrypt <text>"@]
    } else {
        let text = join_words(parts.skip(1));
        match crypto.encrypt_spec(encode_utf8(text), default_key()) {
            Ok(c) => seq!["Ciphertext (hex): "@ + hex_string(c)] + match crypto.decrypt_spec(
                c,
                default_key(),
            ) {
                Ok(p) => seq!["Round-trip check: "@ + lossy_utf8(p)],
                Err(_) => Seq::empty(),
            },
            Err(e) => seq!["Encryption error: "@ + e.spec_debug_name()],
        }
    }
}

/// One step of the shell on input `line`: the state after it, whether the
/// shell keeps running, and the lines it prints.
pub open spec fn shell_step<
    F: FileSystemPort,
    A: AuthPort,
    P: ProcessManagerPort,
    E: EncryptionPort,
    M: PackageManagerPort,
>(s: ShellModel<F::V, A::V, P::V, M::V>, crypto: E, line: Seq<char>) -> (
    ShellModel<F::V, A::V, P::V, M::V>,
    bool,
    Seq<Seq<char>>,
) {
    let t = trimmed(line);
    let parts = split_spaces(t, 4);
    let cmd = parts[0];
    if t.len() == 0 {
        (s, true, Seq::empty())
    } else if cmd == "help"@ {
        (s, true, help_lines())
    } else if cmd == "exit"@ || cmd == "quit"@ {
        (s, false, seq!["Goodbye."@])
    } else if cmd == "whoami"@ {
        (s, true, whoami_lines::<A>(s.auth, s.uid, s.user))
    } else if cmd == "ps"@ {
        (s, true, ps_lines::<P>(s.procs))
    } else if cmd == "kill"@ {
        let k = kill_step::<P>(s.procs, parts);
        (ShellModel { procs: k.0, ..s }, true, k.1)
    } else if cmd == "run"@ {
        let k = run_step::<P>(s.procs, parts);
        (ShellModel { procs: k.0, ..s }, true, k.1)
    } else if cmd == "ls"@ {
        (s, true, ls_lines::<F>(s.fs, parts))
    } else if cmd == "cat"@ {
        (s, true, cat_lines::<F>(s.fs, parts))
    } else if cmd == "write"@ {
        let k = write_step::<F>(s.fs, parts);
        (ShellModel { fs: k.0, ..s }, true, k.1)
    } else if cmd == "login"@ {
        let k = login_step::<A>(s.auth, s.uid, s.user, parts);
        (ShellModel { uid: k.0, user: k.1, ..s }, true, k.2)
    } else if cmd == "logout"@ {
        let k = logout_step::<A>(s.auth, s.uid, s.user);
        (ShellModel { auth: k.0, uid: k.1, user: k.2, ..s }, true, k.3)
    } else if cmd == "pkg"@ {
        let k = pkg_step::<M>(s.pkgs, parts);
        (ShellModel { pkgs: k.0, ..s }, true, k.1)
    } else if cmd == "encrypt"@ {
        (s, true, encrypt_lines::<E>(crypto, parts))
    } else if cmd == "wm"@ {
        (s, true, wm_lines())
    } else {
        (s, true, seq!["Unknown command: '"@ + cmd + "'. Type 'help' for a list."@])
    }
}

/// Whether input `line` is a `run` command that spawns a process.
pub open spec fn spawns(line: Seq<char>) -> bool {
    let t = trimmed(line);
    &&& t.len() > 0
    &&& split_spaces(t, 4)[0] == "run"@
    &&& split_spaces(t, 4).len() >= 2
}

proof fn lemma_split_len(s: Seq<char>, n: nat)
    requires
        n >= 1,
    ensures
        1 <= split_spaces(s, n).len() <= n,
    decreases n,
{
    let i = crate::fmt::first_space_from(s, 0);
    if n > 1 && i >= 0 {
        lemma_split_len(s.skip(i + 1), (n - 1) as nat);
    }
}

/// Interactive shell: parses command lines and answers them with the lines
/// to print.
pub struct Shell<F, A, P, E, M> where
    F: FileSystemPort,
    A: AuthPort,
    P: ProcessManagerPort,
    E: EncryptionPort,
    M: PackageManagerPort,
 {
    fs: F,
    auth: A,
    proc_mgr: P,
    crypto: E,
    pkg_mgr: M,
    /// UID of the currently logged-in user (None = not logged in).
    current_uid: Option<u32>,
    current_username: Option<String>,
}

impl<F, A, P, E, M> Shell<F, A, P, E, M> where
    F: FileSystemPort,
    A: AuthPort,
    P: ProcessManagerPort,
    E: EncryptionPort,
    M: PackageManagerPort,
 {
    /// The state the shell works on.
    pub closed spec fn model(&self) -> ShellModel<F::V, A::V, P::V, M::V> {
        ShellModel {
            fs: self.fs@,
            auth: self.auth@,
            procs: self.proc_mgr@,
            pkgs: self.pkg_mgr@,
            uid: self.current_uid,
            user: match self.current_username {
                Some(u) => Some(u@),
                None => None,
            },
        }
    }

    /// The encryption adapter of the shell.
    pub closed spec fn crypto_port(&self) -> E {
        self.crypto
    }

    pub fn new(fs: F, auth: A, proc_mgr: P, crypto: E, pkg_mgr: M) -> (r: Self)
        ensures
            r.model() == (ShellModel {
                fs: fs@,
                auth: auth@,
                procs: proc_mgr@,
                pkgs: pkg_mgr@,
                uid: None,
                user: None,
            }),
            r.crypto_port() == crypto,
    {
        Shell {
            fs,
            auth,
            proc_mgr,
            crypto,
            pkg_mgr,
            current_uid: None,
            current_username: None,
        }
    }

    /// The shell prompt: `endoros@<user>> `, `anonymous` when nobody is
    /// logged in.
    pub fn prompt(&self) -> (r: String)
        ensures
            r@ == "endoros@"@ + (match self.model().user {
                Some(u) => u,
                None => "anonymous"@,
            }) + "> "@,
    {
        let mut s = String::from_str("endoros@");
        match &self.current_username {
            Some(u) => s.append(u.as_str()),
            None => s.append("anonymous"),
        }
        s.append("> ");
        s
    }

    /// Whether `dispatch` may run on `line` now: a `run` command needs the
    /// process manager to be able to spawn.
    pub fn ready_for(&self, line: &str) -> (r: bool)
        ensures
            r == (spawns(line@) ==> P::spawn_ready(self.model().procs)),
    {
        let t = trim(line);
        if t.is_empty() {
            return true;
        }
        let parts = split_n(t, 4);
        proof {
            lemma_split_len(t@, 4);
        }
        if str_eq(parts[0], "run") && parts.len() >= 2 {
            self.proc_mgr.can_spawn()
        } else {
            true
        }
    }

    /// Parse and dispatch a single line of input. Returns whether the shell
    /// keeps running, and the lines to print.
    pub fn dispatch(&mut self, line: &str) -> (r: (bool, Vec<String>))
        requires
            spawns(line@) ==> P::spawn_ready(old(self).model().procs),
        ensures
            (final(self).model(), r.0, names_view(r.1)) == shell_step::<F, A, P, E, M>(
                old(self).model(),
                old(self).crypto_port(),
                line@,
            ),
            final(self).crypto_port() == old(self).crypto_port(),
    {
        let trimmed_line = trim(line);
        if trimmed_line.is_empty() {
            let out: Vec<String> = Vec::new();
            assert(names_view(out) =~= Seq::<Seq<char>>::empty());
            return (true, out);
        }
        let parts = split_n(trimmed_line, 4);
        proof {
            lemma_split_len(trimmed_line@, 4);
        }
        let ghost ws = words(parts@);
        let cmd = parts[0];
        let mut out: Vec<String> = Vec::new();
        if str_eq(cmd, "help") {
            out = self.cmd_help();
        } else if str_eq(cmd, "exit") || str_eq(cmd, "quit") {
            out.push(String::from_str("Goodbye."));
            assert(names_view(out) =~= seq!["Goodbye."@]);
            return (false, out);
        } else if str_eq(cmd, "whoami") {
            out = self.cmd_whoami();
        } else if str_eq(cmd, "ps") {
            out = self.cmd_ps();
        } else if str_eq(cmd, "kill") {
            out = self.cmd_kill(&parts);
        } else if str_eq(cmd, "run") {
            out = self.cmd_run(&parts);
        } else if str_eq(cmd, "ls") {
            out = self.cmd_ls(&parts);
        } else if str_eq(cmd, "cat") {
            out = self.cmd_cat(&parts);
        } else if str_eq(cmd, "write") {
            out = self.cmd_write(&parts);
        } else if str_eq(cmd, "login") {
            out = self.cmd_login(&parts);
        } else if str_eq(cmd, "logout") {
            out = self.cmd_logout();
        } else if str_eq(cmd, "pkg") {
            out = self.cmd_pkg(&parts);
        } else if str_eq(cmd, "encrypt") {
            out = self.cmd_encrypt(&parts);
        } else if str_eq(cmd, "wm") {
            out = self.cmd_wm(&parts);
        } else {
            let mut l = String::from_str("Unknown command: '");
            l.append(cmd);
            l.append("'. Type 'help' for a list.");
            out.push(l);
            assert(names_view(out) =~= seq![
                "Unknown command: '"@ + cmd@ + "'. Type 'help' for a list."@,
            ]);
        }
        (true, out)
    }

    fn cmd_help(&self) -> (out: Vec<String>)
        ensures
            names_view(out) == help_lines(),
    {
        let mut out: Vec<String> = Vec::new();
        out.push(String::from_str("EndorOS Shell — available commands:"));
        out.push(String::from_str("  ps                        List running processes"));
        out.push(String::from_str("  kill <pid>                Terminate process by PID"));
        out.push(String::from_str("  run <name>                Launch process (priority 5)"));
        out.push(String::from_str("  ls <path>                 List directory contents"));
        out.push(String::from_str("  cat <path>                Print file contents"));
        out.push(String::from_str("  write <path> <content>    Write content to file"));
        out.push(String::from_str("  login <user> <pass>       Authenticate user"));
        out.push(String::from_str("  logout                    Close current session"));
        out.push(String::from_str("  pkg install <name>        Install a package"));
        out.push(String::from_str("  pkg remove <name>         Remove a package"));
        out.push(String::from_str("  pkg list                  List installed packages"));
        out.push(String::from_str("  pkg update                Update all packages"));
        out.push(String::from_str("  encrypt <text>            XOR-encrypt text (demo key)"));
        out.push(String::from_str("  whoami                    Show current user"));
        out.push(String::from_str("  wm open <title>           Open a window"));
        out.push(String::from_str("  wm close <id>             Close a window"));
        out.push(
            String::from_str(
                "  wm snap <id> <zone>       Snap window (left/right/top-left/top-right/bottom-left/bottom-right/fullscreen)",
            ),
        );
        out.push(String::from_str("  wm list                   List open windows"));
        out.push(String::from_str("  help                      Show this help"));
        out.push(String::from_str("  exit / quit               Exit the shell"));
        assert(names_view(out) =~= help_lines());
        out
    }

    fn cmd_whoami(&self) -> (out: Vec<String>)
        ensures
            names_view(out) == whoami_lines::<A>(self.model().auth, self.model().uid, self.model().user),
    {
        let mut out: Vec<String> = Vec::new();
        match &self.current_username {
            Some(u) => {
                let admin = match self.current_uid {
                    Some(uid) => self.auth.is_admin(uid),
                    None => false,
                };
                let mut l = String::from_str("User: ");
                l.append(u.as_str());
                if admin {
                    l.append(" (admin)");
                } else {
                    l.append("");
                }
                out.push(l);
            },
            None => {
                out.push(String::from_str("Not logged in."));
            },
        }
        assert(names_view(out) =~= whoami_lines::<A>(
            self.model().auth,
            self.model().uid,
            self.model().user,
        ));
        out
    }

    fn cmd_ps(&self) -> (out: Vec<String>)
        ensures
            names_view(out) == ps_lines::<P>(self.model().procs),
    {
        let procs = self.proc_mgr.list_processes();
        let ghost l = P::list_processes_spec(self.model().procs);
        let mut out: Vec<String> = Vec::new();
        if procs.len() == 0 {
            out.push(String::from_str("  No processes running."));
            assert(names_view(out) =~= ps_lines::<P>(self.model().procs));
        } else {
            out.push(String::from_str("  PID   NAME"));
            let mut i: usize = 0;
            while i < procs.len()
                invariant
                    i <= procs@.len(),
                    l == crate::ports::process_mgr::process_list_view(procs),
                    names_view(out) =~= seq!["  PID   NAME"@] + l.take(i as int).map_values(
                        |e: (u32, Seq<char>)| "  "@ + pad_right(decimal(e.0 as nat), 5) + " "@ + e.1,
                    ),
                decreases procs@.len() - i,
            {
                let (pid, name) = (procs[i].0, &procs[i].1);
                let mut row = String::from_str("  ");
                let mut num = String::new();
                push_decimal(&mut num, pid as u64);
                pad_to(&mut num, 5);
                row.append(num.as_str());
                row.append(" ");
                row.append(name.as_str());
                let ghost before = names_view(out);
                out.push(row);
                proof {
                    assert(l[i as int] == (pid, name@));
                    assert(l.take(i + 1) =~= l.take(i as int).push(l[i as int]));
                    assert(names_view(out) =~= before.push(row@));
                }
                i = i + 1;
            }
            assert(l.take(l.len() as int) =~= l);
        }
        out
    }

    fn cmd_kill(&mut self, parts: &Vec<&str>) -> (out: Vec<String>)
        ensures
            (final(self).model().procs, names_view(out)) == kill_step::<P>(
                old(self).model().procs,
                words(parts@),
            ),
            final(self).model() == (ShellModel { procs: final(self).model().procs, ..old(self).model() }),
            final(self).crypto_port() == old(self).crypto_port(),
    {
        let mut out: Vec<String> = Vec::new();
        if parts.len() < 2 {
            out.push(String::from_str("Usage: kill <pid>"));
            assert(names_view(out) =~= seq!["Usage: kill <pid>"@]);
            return out;
        }
        assert(words(parts@)[1] == parts@[1]@);
        match parse_u32(parts[1]) {
            Some(pid) => match self.proc_mgr.kill(pid) {
                Ok(()) => {
                    let mut l = String::from_str("Process ");
                    push_decimal(&mut l, pid as u64);
                    l.append(" terminated.");
                    out.push(l);
                },
                Err(e) => {
                    let mut l = String::from_str("Error: ");
                    l.append(e.debug_name());
                    out.push(l);
                },
            },
            None => {
                let mut l = String::from_str("Invalid PID: '");
                l.append(parts[1]);
                l.append("'");
                out.push(l);
            },
        }
        assert(names_view(out) =~= kill_step::<P>(old(self).model().procs, words(parts@)).1);
        out
    }

    fn cmd_run(&mut self, parts: &Vec<&str>) -> (out: Vec<String>)
        requires
            parts@.len() >= 2 ==> P::spawn_ready(old(self).model().procs),
        ensures
            (final(self).model().procs, names_view(out)) == run_step::<P>(
                old(self).model().procs,
                words(parts@),
            ),
            final(self).model() == (ShellModel { procs: final(self).model().procs, ..old(self).model() }),
            final(self).crypto_port() == old(self).crypto_port(),
    {
        let mut out: Vec<String> = Vec::new();
        if parts.len() < 2 {
            out.push(String::from_str("Usage: run <name>"));
            assert(names_view(out) =~= seq!["Usage: run <name>"@]);
            return out;
        }
        assert(words(parts@)[1] == parts@[1]@);
        match self.proc_mgr.spawn(parts[1], 5) {
            Ok(pid) => {
                let mut l = String::from_str("Launched '");
                l.append(parts[1]);
                l.append("' with PID ");
                push_decimal(&mut l, pid as u64);
                l.append(".");
                out.push(l);
            },
            Err(e) => {
                let mut l = String::from_str("Error: ");
                l.append(e.debug_name());
                out.push(l);
            },
        }
        assert(names_view(out) =~= run_step::<P>(old(self).model().procs, words(parts@)).1);
        out
    }

    fn cmd_ls(&self, parts: &Vec<&str>) -> (out: Vec<String>)
        ensures
            names_view(out) == ls_lines::<F>(self.model().fs, words(parts@)),
    {
        let path = if parts.len() >= 2 {
            parts[1]
        } else {
            "/"
        };
        assert(path@ == (if words(parts@).len() >= 2 {
            words(parts@)[1]
        } else {
            "/"@
        }));
        let mut out: Vec<String> = Vec::new();
        match self.fs.list(path) {
            Ok(entries) => {
                if entries.len() == 0 {
                    out.push(String::from_str("  (empty)"));
                    assert(names_view(out) =~= seq!["  (empty)"@]);
                } else {
                    let ghost es = names_view(entries);
                    let mut i: usize = 0;
                    while i < entries.len()
                        invariant
                            i <= entries@.len(),
                            es == names_view(entries),
                            names_view(out) =~= indented(es.take(i as int)),
                        decreases entries@.len() - i,
                    {
                        let mut l = String::from_str("  ");
                        l.append(entries[i].as_str());
                        let ghost before = names_view(out);
                        out.push(l);
                        proof {
                            assert(es.take(i + 1) =~= es.take(i as int).push(es[i as int]));
                            assert(names_view(out) =~= before.push(l@));
                        }
                        i = i + 1;
                    }
                    assert(es.take(es.len() as int) =~= es);
                }
            },
            Err(e) => {
                let mut l = String::from_str("Error: ");
                l.append(e.debug_name());
                out.push(l);
                assert(names_view(out) =~= seq!["Error: "@ + e.spec_debug_name()]);
            },
        }
        out
    }

    fn cmd_cat(&self, parts: &Vec<&str>) -> (out: Vec<String>)
        ensures
            names_view(out) == cat_lines::<F>(self.model().fs, words(parts@)),
    {
        let mut out: Vec<String> = Vec::new();
        if parts.len() < 2 {
            out.push(String::from_str("Usage: cat <path>"));
            assert(names_view(out) =~= seq!["Usage: cat <path>"@]);
            return out;
        }
        assert(words(parts@)[1] == parts@[1]@);
        match self.fs.read(parts[1]) {
            Ok(data) => {
                if data.len() == 0 {
                    out.push(String::from_str("  (empty file)"));
                } else {
                    match utf8_str(data.as_slice()) {
                        Some(s) => {
                            proof {
                                encode_utf8_decode_utf8(s@);
                            }
                            out.push(String::from_str(s));
                        },
                        None => {
                            let mut l = String::from_str("  <binary data, ");
                            push_decimal(&mut l, data.len() as u64);
                            l.append(" bytes>");
                            out.push(l);
                        },
                    }
                }
            },
            Err(e) => {
                let mut l = String::from_str("Error: ");
                l.append(e.debug_name());
                out.push(l);
            },
        }
        assert(names_view(out) =~= cat_lines::<F>(self.model().fs, words(parts@)));
        out
    }

    fn cmd_write(&mut self, parts: &Vec<&str>) -> (out: Vec<String>)
        ensures
            (final(self).model().fs, names_view(out)) == write_step::<F>(
                old(self).model().fs,
                words(parts@),
            ),
            final(self).model() == (ShellModel { fs: final(self).model().fs, ..old(self).model() }),
            final(self).crypto_port() == old(self).crypto_port(),
    {
        // Usage: write <path> <content...>; the content is the rest of the
        // line, the words after the path joined again by single spaces.
        let mut out: Vec<String> = Vec::new();
        if parts.len() < 3 {
            out.push(String::from_str("Usage: write <path> <content>"));
            assert(names_view(out) =~= seq!["Usage: write <path> <content>"@]);
            return out;
        }
        let path = parts[1];
        let ghost ws = words(parts@);
        let mut content = String::new();
        let mut i: usize = 2;
        while i < parts.len()
            invariant
                2 <= i <= parts@.len(),
                ws == words(parts@),
                content@ == join_words(ws.subrange(2, i as int)),
            decreases parts@.len() - i,
        {
            if i > 2 {
                content.append(" ");
            }
            content.append(parts[i]);
            proof {
                let a = ws.subrange(2, i + 1);
                assert(a.drop_last() =~= ws.subrange(2, i as int));
                assert(a.last() == parts@[i as int]@);
                if i == 2 {
                    assert(ws.subrange(2, 2) =~= Seq::<Seq<char>>::empty());
                }
            }
            i = i + 1;
        }
        assert(ws.subrange(2, parts@.len() as int) =~= ws.skip(2));
        assert(words(parts@)[1] == path@);
        let bytes = content.as_str().as_bytes();
        assert(bytes@ == encode_utf8(join_words(words(parts@).skip(2))));
        let n = bytes.len();
        match self.fs.write(path, bytes) {
            Ok(()) => {
                let mut l = String::from_str("Written ");
                push_decimal(&mut l, n as u64);
                l.append(" bytes to '");
                l.append(path);
                l.append("'.");
                out.push(l);
            },
            Err(e) => {
                let mut l = String::from_str("Error: ");
                l.append(e.debug_name());
                out.push(l);
            },
        }
        assert(names_view(out) =~= write_step::<F>(old(self).model().fs, words(parts@)).1);
        out
    }

    fn cmd_login(&mut self, parts: &Vec<&str>) -> (out: Vec<String>)
        ensures
            (final(self).model().uid, final(self).model().user, names_view(out)) == login_step::<A>(
                old(self).model().auth,
                old(self).model().uid,
                old(self).model().user,
                words(parts@),
            ),
            final(self).model() == (ShellModel {
                uid: final(self).model().uid,
                user: final(self).model().user,
                ..old(self).model()
            }),
            final(self).crypto_port() == old(self).crypto_port(),
    {
        let mut out: Vec<String> = Vec::new();
        if parts.len() < 3 {
            out.push(String::from_str("Usage: login <username> <password>"));
            assert(names_view(out) =~= seq!["Usage: login <username> <password>"@]);
            return out;
        }
        assert(words(parts@)[1] == parts@[1]@ && words(parts@)[2] == parts@[2]@);
        match self.auth.authenticate(parts[1], parts[2]) {
            Ok(uid) => {
                self.current_uid = Some(uid);
                self.current_username = Some(String::from_str(parts[1]));
                let mut l = String::from_str("Login successful. Welcome, ");
                l.append(parts[1]);
                l.append("! (uid=");
                push_decimal(&mut l, uid as u64);
                l.append(")");
                out.push(l);
            },
            Err(e) => {
                let mut l = String::from_str("Authentication failed: ");
                l.append(e.debug_name());
                out.push(l);
            },
        }
        assert(names_view(out) =~= login_step::<A>(
            old(self).model().auth,
            old(self).model().uid,
            old(self).model().user,
            words(parts@),
        ).2);
        out
    }

    fn cmd_logout(&mut self) -> (out: Vec<String>)
        ensures
            (final(self).model().auth, final(self).model().uid, final(self).model().user, names_view(out))
                == logout_step::<A>(old(self).model().auth, old(self).model().uid, old(self).model().user),
            final(self).model() == (ShellModel {
                auth: final(self).model().auth,
                uid: final(self).model().uid,
                user: final(self).model().user,
                ..old(self).model()
            }),
            final(self).crypto_port() == old(self).crypto_port(),
    {
        let mut out: Vec<String> = Vec::new();
        match self.current_uid {
            Some(uid) => {
                match self.auth.logout(uid) {
                    Ok(()) => {
                        let mut l = String::from_str("Logged out ");
                        match &self.current_username {
                            Some(u) => l.append(u.as_str()),
                            None => l.append(""),
                        }
                        l.append(".");
                        out.push(l);
                        self.current_uid = None;
                        self.current_username = None;
                    },
                    Err(e) => {
                        let mut l = String::from_str("Logout error: ");
                        l.append(e.debug_name());
                        out.push(l);
                    },
                }
            },
            None => {
                out.push(String::from_str("No active session."));
            },
        }
        assert(names_view(out) =~= logout_step::<A>(
            old(self).model().auth,
            old(self).model().uid,
            old(self).model().user,
        ).3);
        out
    }

    fn cmd_pkg(&mut self, parts: &Vec<&str>) -> (out: Vec<String>)
        ensures
            (final(self).model().pkgs, names_view(out)) == pkg_step::<M>(
                old(self).model().pkgs,
                words(parts@),
            ),
            final(self).model() == (ShellModel { pkgs: final(self).model().pkgs, ..old(self).model() }),
            final(self).crypto_port() == old(self).crypto_port(),
    {
        let ghost ws = words(parts@);
        let mut out: Vec<String> = Vec::new();
        if parts.len() < 2 {
            out.push(String::from_str("Usage: pkg <install|remove|list|update> [name]"));
            assert(names_view(out) =~= seq!["Usage: pkg <install|remove|list|update> [name]"@]);
            return out;
        }
        assert(ws[1] == parts@[1]@);
        let sub = parts[1];
        if str_eq(sub, "install") {
            if parts.len() < 3 {
                out.push(String::from_str("Usage: pkg install <name>"));
            } else {
                assert(ws[2] == parts@[2]@);
                match self.pkg_mgr.install(parts[2]) {
                    Ok(()) => {
                        let mut l = String::from_str("Package '");
                        l.append(parts[2]);
                        l.append("' installed successfully.");
                        out.push(l);
                    },
                    Err(e) => {
                        let mut l = String::from_str("Install error: ");
                        l.append(e.debug_name());
                        out.push(l);
                    },
                }
            }
        } else if str_eq(sub, "remove") {
            if parts.len() < 3 {
                out.push(String::from_str("Usage: pkg remove <name>"));
            } else {
                assert(ws[2] == parts@[2]@);
                match self.pkg_mgr.remove(parts[2]) {
                    Ok(()) => {
                        let mut l = String::from_str("Package '");
                        l.append(parts[2]);
                        l.append("' removed.");
                        out.push(l);
                    },
                    Err(e) => {
                        let mut l = String::from_str("Remove error: ");
                        l.append(e.debug_name());
                        out.push(l);
                    },
                }
            }
        } else if str_eq(sub, "list") {
            let pkgs = self.pkg_mgr.list_installed();
            if pkgs.len() == 0 {
                out.push(String::from_str("  No packages installed."));
            } else {
                let ghost l = names_view(pkgs);
                let mut i: usize = 0;
                while i < pkgs.len()
                    invariant
                        i <= pkgs@.len(),
                        l == names_view(pkgs),
                        names_view(out) =~= indented(l.take(i as int)),
                    decreases pkgs@.len() - i,
                {
                    let mut row = String::from_str("  ");
                    row.append(pkgs[i].as_str());
                    let ghost before = names_view(out);
                    out.push(row);
                    proof {
                        assert(l.take(i + 1) =~= l.take(i as int).push(l[i as int]));
                        assert(names_view(out) =~= before.push(row@));
                    }
                    i = i + 1;
                }
                assert(l.take(l.len() as int) =~= l);
            }
        } else if str_eq(sub, "update") {
            match self.pkg_mgr.update_all() {
                Ok(()) => out.push(String::from_str("All packages updated.")),
                Err(e) => {
                    let mut l = String::from_str("Update error: ");
                    l.append(e.debug_name());
                    out.push(l);
                },
            }
        } else {
            let mut l = String::from_str("Unknown pkg sub-command: '");
            l.append(sub);
            l.append("'");
            out.push(l);
        }
        assert(names_view(out) =~= pkg_step::<M>(old(self).model().pkgs, ws).1);
        out
    }

    fn cmd_encrypt(&self, parts: &Vec<&str>) -> (out: Vec<String>)
        ensures
            names_view(out) == encrypt_lines::<E>(self.crypto_port(), words(parts@)),
    {
        let mut out: Vec<String> = Vec::new();
        if parts.len() < 2 {
            out.push(String::from_str("Usage: encrypt <text>"));
            assert(names_view(out) =~= seq!["Usage: encrypt <text>"@]);
            return out;
        }
        let ghost ws = words(parts@);
        let mut text = String::new();
        let mut i: usize = 1;
        while i < parts.len()
            invariant
                1 <= i <= parts@.len(),
                ws == words(parts@),
                text@ == join_words(ws.subrange(1, i as int)),
            decreases parts@.len() - i,
        {
            if i > 1 {
                text.append(" ");
            }
            text.append(parts[i]);
            proof {
                let a = ws.subrange(1, i + 1);
                assert(a.drop_last() =~= ws.subrange(1, i as int));
                assert(a.last() == parts@[i as int]@);
                if i == 1 {
                    assert(ws.subrange(1, 1) =~= Seq::<Seq<char>>::empty());
                }
            }
            i = i + 1;
        }
        assert(ws.subrange(1, parts@.len() as int) =~= ws.skip(1));
        let key = "endoros-key-2024".as_bytes();
        match self.crypto.encrypt(text.as_str().as_bytes(), key) {
            Ok(cipher) => {
                let mut l = String::from_str("Ciphertext (hex): ");
                let mut j: usize = 0;
                let ghost head = l@;
                while j < cipher.len()
                    invariant
                        j <= cipher@.len(),
                        l@ == head + hex_string(cipher@.take(j as int)),
                    decreases cipher@.len() - j,
                {
                    push_hex_byte(&mut l, cipher[j]);
                    assert(cipher@.take(j + 1).drop_last() =~= cipher@.take(j as int));
                    j = j + 1;
                }
                assert(cipher@.take(cipher@.len() as int) =~= cipher@);
                out.push(l);
                // Also decrypt to demonstrate round-trip.
                match self.crypto.decrypt(cipher.as_slice(), key) {
                    Ok(plain) => {
                        let mut r = String::from_str("Round-trip check: ");
                        let lossy = utf8_lossy(plain.as_slice());
                        r.append(lossy.as_str());
                        out.push(r);
                    },
                    Err(_) => {},
                }
            },
            Err(e) => {
                let mut l = String::from_str("Encryption error: ");
                l.append(e.debug_name());
                out.push(l);
            },
        }
        assert(names_view(out) =~= encrypt_lines::<E>(self.crypto_port(), words(parts@)));
        out
    }

    fn cmd_wm(&self, parts: &Vec<&str>) -> (out: Vec<String>)
        ensures
            names_view(out) == wm_lines(),
    {
        // Window manager commands are handled where the window manager is
        // owned; the shell only explains how to reach it.
        let mut out: Vec<String> = Vec::new();
        out.push(
            String::from_str("Window manager commands must be issued from within the WM context."),
        );
        out.push(
            String::from_str(
                "Available sub-commands: open <title> | close <id> | snap <id> <zone> | list",
            ),
        );
        out.push(String::from_str("(Hint: the WM is accessible via the 'wm' module in main.rs)"));
        assert(names_view(out) =~= wm_lines());
        out
    }
}

/// The command names' lengths and first letters, which tell them apart.
pub proof fn reveal_command_names()
    ensures
        "help"@.len() == 4,
        "help"@[0] == 'h',
        "exit"@.len() == 4,
        "exit"@[0] == 'e',
        "quit"@.len() == 4,
        "quit"@[0] == 'q',
        "whoami"@.len() == 6,
        "whoami"@[0] == 'w',
        "ps"@.len() == 2,
        "ps"@[0] == 'p',
        "kill"@.len() == 4,
        "kill"@[0] == 'k',
        "run"@.len() == 3,
        "run"@[0] == 'r',
        "ls"@.len() == 2,
        "ls"@[0] == 'l',
        "cat"@.len() == 3,
        "cat"@[0] == 'c',
        "write"@.len() == 5,
        "write"@[0] == 'w',
        "login"@.len() == 5,
        "login"@[0] == 'l',
        "logout"@.len() == 6,
        "logout"@[0] == 'l',
        "pkg"@.len() == 3,
        "pkg"@[0] == 'p',
        "encrypt"@.len() == 7,
        "encrypt"@[0] == 'e',
        "wm"@.len() == 2,
        "wm"@[0] == 'w',
        "install"@.len() == 7,
        "install"@[0] == 'i',
        "remove"@.len() == 6,
        "remove"@[0] == 'r',
        "list"@.len() == 4,
        "list"@[0] == 'l',
        "update"@.len() == 6,
        "update"@[0] == 'u',
        "clear"@.len() == 5,
        "clear"@[0] == 'c',
{
    reveal_strlit("help");
    reveal_strlit("exit");
    reveal_strlit("quit");
    reveal_strlit("whoami");
    reveal_strlit("ps");
    reveal_strlit("kill");
    reveal_strlit("run");
    reveal_strlit("ls");
    reveal_strlit("cat");
    reveal_strlit("write");
    reveal_strlit("login");
    reveal_strlit("logout");
    reveal_strlit("pkg");
    reveal_strlit("encrypt");
    reveal_strlit("wm");
    reveal_strlit("install");
    reveal_strlit("remove");
    reveal_strlit("list");
    reveal_strlit("update");
    reveal_strlit("clear");
}

/// The words of a command line: split at single spaces into at most four.
pub open spec fn command_words(line: Seq<char>) -> Seq<Seq<char>> {
    split_spaces(trimmed(line), 4)
}

/// A `login` whose credentials the authentication port refuses prints one
/// line and changes nothing: whoever was logged in stays logged in. One that
/// the port accepts logs in the user it names under the uid it gives, and
/// changes nothing else.
pub proof fn law_shell_login_session<
    F: FileSystemPort,
    A: AuthPort,
    P: ProcessManagerPort,
    E: EncryptionPort,
    M: PackageManagerPort,
>(s: ShellModel<F::V, A::V, P::V, M::V>, crypto: E, line: Seq<char>)
    requires
        trimmed(line).len() > 0,
        command_words(line)[0] == "login"@,
        command_words(line).len() >= 3,
    ensures
        A::authenticate_spec(s.auth, command_words(line)[1], command_words(line)[2]) is Err ==> {
            &&& shell_step::<F, A, P, E, M>(s, crypto, line).0 == s
            &&& shell_step::<F, A, P, E, M>(s, crypto, line).1
            &&& shell_step::<F, A, P, E, M>(s, crypto, line).2.len() == 1
        },
        A::authenticate_spec(s.auth, command_words(line)[1], command_words(line)[2]) matches Ok(
            id,
        ) ==> shell_step::<F, A, P, E, M>(s, crypto, line).0 == (ShellModel {
            uid: Some(id),
            user: Some(command_words(line)[1]),
            ..s
        }),
{
    reveal_command_names();
}

/// `ls` on a directory that lists entries prints exactly one line per entry,
/// the entry indented by two spaces, in the listing's order, and changes
/// nothing.
pub proof fn law_shell_ls_prints_every_entry<
    F: FileSystemPort,
    A: AuthPort,
    P: ProcessManagerPort,
    E: EncryptionPort,
    M: PackageManagerPort,
>(s: ShellModel<F::V, A::V, P::V, M::V>, crypto: E, line: Seq<char>, es: Seq<Seq<char>>)
    requires
        trimmed(line).len() > 0,
        command_words(line)[0] == "ls"@,
        F::list_spec(
            s.fs,
            if command_words(line).len() >= 2 {
                command_words(line)[1]
            } else {
                "/"@
            },
        ) == Ok::<Seq<Seq<char>>, FsError>(es),
        es.len() > 0,
    ensures
        shell_step::<F, A, P, E, M>(s, crypto, line).0 == s,
        shell_step::<F, A, P, E, M>(s, crypto, line).2.len() == es.len(),
        forall|i: int|
            0 <= i < es.len() ==> #[trigger] shell_step::<F, A, P, E, M>(s, crypto, line).2[i]
                == "  "@ + es[i],
{
    reveal_command_names();
}

/// `pkg update` runs the package manager's update on its state, and changes
/// nothing else.
pub proof fn law_shell_pkg_update<
    F: FileSystemPort,
    A: AuthPort,
    P: ProcessManagerPort,
    E: EncryptionPort,
    M: PackageManagerPort,
>(s: ShellModel<F::V, A::V, P::V, M::V>, crypto: E, line: Seq<char>)
    requires
        trimmed(line).len() > 0,
        command_words(line)[0] == "pkg"@,
        command_words(line).len() >= 2,
        command_words(line)[1] == "update"@,
    ensures
        shell_step::<F, A, P, E, M>(s, crypto, line).0 == (ShellModel {
            pkgs: M::update_all_spec(s.pkgs).0,
            ..s
        }),
{
    reveal_command_names();
}

/// Only `exit` and `quit` stop the shell; a blank line prints nothing and
/// changes nothing; and the commands that only report (`help`, `whoami`,
/// `ps`, `ls`, `cat`, `encrypt`, `wm`, and unknown words) change nothing.
pub proof fn law_shell_stops_only_on_exit<
    F: FileSystemPort,
    A: AuthPort,
    P: ProcessManagerPort,
    E: EncryptionPort,
    M: PackageManagerPort,
>(s: ShellModel<F::V, A::V, P::V, M::V>, crypto: E, line: Seq<char>)
    ensures
        !shell_step::<F, A, P, E, M>(s, crypto, line).1 <==> (trimmed(line).len() > 0 && (
        command_words(line)[0] == "exit"@ || command_words(line)[0] == "quit"@)),
        trimmed(line).len() == 0 ==> shell_step::<F, A, P, E, M>(s, crypto, line) == (
            s,
            true,
            Seq::<Seq<char>>::empty(),
        ),
        ({
            let c = command_words(line)[0];
            c != "kill"@ && c != "run"@ && c != "write"@ && c != "login"@ && c != "logout"@ && c
                != "pkg"@
        }) ==> shell_step::<F, A, P, E, M>(s, crypto, line).0 == s,
{
    reveal_command_names();
}

/// `logout` with someone logged in asks the authentication port to end the
/// session; when it agrees, nobody is logged in afterwards. With nobody
/// logged in it changes nothing.
pub proof fn law_shell_logout_session<
    F: FileSystemPort,
    A: AuthPort,
    P: ProcessManagerPort,
    E: EncryptionPort,
    M: PackageManagerPort,
>(s: ShellModel<F::V, A::V, P::V, M::V>, crypto: E, line: Seq<char>)
    requires
        trimmed(line).len() > 0,
        command_words(line)[0] == "logout"@,
    ensures
        s.uid is None ==> shell_step::<F, A, P, E, M>(s, crypto, line).0 == s,
        forall|id: u32|
            s.uid == Some(id) && #[trigger] A::logout_spec(s.auth, id).1 is Ok ==> shell_step::<
                F,
                A,
                P,
                E,
                M,
            >(s, crypto, line).0 == (ShellModel {
                auth: A::logout_spec(s.auth, id).0,
                uid: None,
                user: None,
                ..s
            }),
{
    reveal_command_names();
}

/// `write <path> <content...>` writes the rest of the line after the path
/// (its words joined by single spaces) to the path, and changes nothing else.
pub proof fn law_shell_write_rest_of_line<
    F: FileSystemPort,
    A: AuthPort,
    P: ProcessManagerPort,
    E: EncryptionPort,
    M: PackageManagerPort,
>(s: ShellModel<F::V, A::V, P::V, M::V>, crypto: E, line: Seq<char>)
    requires
        trimmed(line).len() > 0,
        command_words(line)[0] == "write"@,
        command_words(line).len() >= 3,
    ensures
        shell_step::<F, A, P, E, M>(s, crypto, line).0 == (ShellModel {
            fs: F::write_spec(
                s.fs,
                command_words(line)[1],
                encode_utf8(join_words(command_words(line).skip(2))),
            ).0,
            ..s
        }),
{
    reveal_command_names();
}

} // verus!
