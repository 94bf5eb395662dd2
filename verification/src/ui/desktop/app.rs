use vstd::prelude::*;
use vstd::string::*;
use vstd::utf8::*;
use crate::fmt::{decimal, decimal2, push_decimal, push_decimal2};
use crate::infrastructure::auth::LocalAuthAdapter;
use crate::infrastructure::crypto::XorCryptoAdapter;
use crate::infrastructure::fs::{root_path, RamdiskAdapter};
use crate::infrastructure::packages::{catalogue, LocalPkgManager, PkgView};
use crate::infrastructure::process::{ProcView, SchedulerAdapter};
use crate::ports::filesystem::FileSystemPort;
use crate::ports::package_mgr::PackageManagerPort;
use crate::ports::process_mgr::ProcessManagerPort;
use crate::ui::desktop::file_explorer::FileExplorer;
use crate::ui::desktop::process_monitor::ProcessMonitor;
use crate::ui::desktop::taskbar::{is_clock_text, AppIcon, Taskbar};
use crate::ui::desktop::terminal::{history_view, Terminal};
use crate::ui::desktop::theme::Tone;

verus! {

/// The panel the desktop shows in its main area.
#[derive(Debug, Clone, Copy, PartialEq, Eq, Structural)]
pub enum ActivePanel {
    Dashboard,
    Terminal,
    Files,
    Processes,
    Packages,
    Settings,
}

pub open spec fn spec_panel_icon(p: ActivePanel) -> Option<AppIcon> {
    match p {
        ActivePanel::Terminal => Some(AppIcon::Terminal),
        ActivePanel::Files => Some(AppIcon::Files),
        ActivePanel::Processes => Some(AppIcon::Processes),
        ActivePanel::Packages => Some(AppIcon::Packages),
        ActivePanel::Settings => Some(AppIcon::Settings),
        ActivePanel::Dashboard => None,
    }
}

pub open spec fn spec_icon_panel(i: AppIcon) -> ActivePanel {
    match i {
        AppIcon::Terminal => ActivePanel::Terminal,
        AppIcon::Files => ActivePanel::Files,
        AppIcon::Processes => ActivePanel::Processes,
        AppIcon::Packages => ActivePanel::Packages,
        AppIcon::Settings => ActivePanel::Settings,
    }
}

/// The taskbar icon marked open while panel `p` is shown.
pub fn panel_icon(p: ActivePanel) -> (r: Option<AppIcon>)
    ensures
        r == spec_panel_icon(p),
{
    match p {
        ActivePanel::Terminal => Some(AppIcon::Terminal),
        ActivePanel::Files => Some(AppIcon::Files),
        ActivePanel::Processes => Some(AppIcon::Processes),
        ActivePanel::Packages => Some(AppIcon::Packages),
        ActivePanel::Settings => Some(AppIcon::Settings),
        ActivePanel::Dashboard => None,
    }
}

/// The panel a taskbar icon opens.
pub fn icon_panel(i: AppIcon) -> (r: ActivePanel)
    ensures
        r == spec_icon_panel(i),
{
    match i {
        AppIcon::Terminal => ActivePanel::Terminal,
        AppIcon::Files => ActivePanel::Files,
        AppIcon::Processes => ActivePanel::Processes,
        AppIcon::Packages => ActivePanel::Packages,
        AppIcon::Settings => ActivePanel::Settings,
    }
}

/// Clicking a panel's button: it closes (back to the dashboard) when shown,
/// and opens otherwise.
pub fn toggle_panel(active: ActivePanel, target: ActivePanel) -> (r: ActivePanel)
    ensures
        r == (if active == target {
            ActivePanel::Dashboard
        } else {
            target
        }),
{
    if active == target {
        ActivePanel::Dashboard
    } else {
        target
    }
}

/// The uptime as the dashboard shows it: minutes, a colon, and seconds in two
/// digits.
pub fn uptime_text(secs: u64) -> (r: String)
    ensures
        r@ == decimal((secs / 60) as nat) + ":"@ + decimal2((secs % 60) as nat),
{
    let mut s = String::new();
    push_decimal(&mut s, secs / 60);
    s.append(":");
    push_decimal2(&mut s, secs % 60);
    s
}

/// Whether a package-panel status line reports a success (starts with `OK`).
pub fn status_ok(status: &str) -> (r: bool)
    ensures
        r == (status@.len() >= 2 && status@[0] == 'O' && status@[1] == 'K'),
{
    status.unicode_len() >= 2 && status.get_char(0) == 'O' && status.get_char(1) == 'K'
}

/// The files and directories the desktop's ramdisk starts with, in the
/// order they are written: (path, contents).
pub open spec fn desktop_files() -> Seq<(Seq<char>, Seq<char>)> {
    seq![
        ("/"@, ""@),
        ("/bin"@, ""@),
        ("/etc"@, ""@),
        ("/home"@, ""@),
        ("/home/admin"@, ""@),
        ("/home/admin/docs"@, ""@),
        ("/tmp"@, ""@),
        ("/var"@, ""@),
        ("/var/log"@, ""@),
        ("/usr"@, ""@),
        ("/usr/lib"@, ""@),
        ("/usr/bin"@, ""@),
        ("/etc/hostname"@, "endoros-node-1"@),
        ("/etc/motd"@, "Welcome to EndorOS 0.1 - the forest moon OS."@),
        ("/etc/os-release"@, "NAME=EndorOS\nVERSION=0.1.0\nARCH=x86_64\nAUTHOR=Leonardo Correa\nINSTITUTION=UJAP"@),
        ("/etc/hosts"@, "127.0.0.1   localhost\n127.0.1.1   endoros-node-1\n::1         localhost"@),
        ("/etc/fstab"@, "# <device>   <mountpoint>   <type>\nramdisk  /    ramfs  defaults\ntmpfs    /tmp tmpfs  nosuid"@),
        ("/etc/security.conf"@, "[policy]\ndefault=hardened\naudit=enabled\nprocess_isolation=true\nsign_packages=true\nsession_timeout=3600"@),
        ("/home/admin/readme.txt"@, "# Bienvenido a EndorOS\n\nEste es tu directorio home.\n\nComandos utiles:\n  login admin admin123   - iniciar sesion\n  ls /                   - listar raiz\n  ps                     - ver procesos\n  pkg install rustc      - instalar paquete\n  help                   - ver todos los comandos"@),
        ("/home/admin/notas.txt"@, "Notas de diseno EndorOS:\n\n1. Arquitectura hexagonal (Ports & Adapters)\n2. Kernel no_std con bump allocator 2MiB\n3. VFS en ramdisk para prototipo\n4. Auth local hardcoded para demo\n5. Cifrado XOR - reemplazar con AES-256-XTS en produccion\n\nTODO:\n- [ ] Driver real de disco\n- [ ] Networking stack\n- [ ] Proceso de arranque completo"@),
        ("/home/admin/docs/arquitectura.md"@, "# Arquitectura EndorOS\n\n## Capas\n\nUI (egui)         <- esta aplicacion\n  |\nApplication       <- casos de uso + ports (traits)\n  |\nDomain            <- entidades puras (no_std)\n  |\nInfrastructure    <- adaptadores concretos (std)\n\n## Ports implementados\n- FileSystemPort  -> RamdiskAdapter\n- AuthPort        -> LocalAuthAdapter\n- ProcessMgrPort  -> SchedulerAdapter\n- EncryptionPort  -> XorCryptoAdapter\n- PackageMgrPort  -> LocalPkgManager"@),
        ("/home/admin/docs/seguridad.md"@, "# Modelo de Seguridad EndorOS\n\nBasado en el principio de minimo privilegio.\n\n## Roles\n- admin (uid=0): acceso total\n- user  (uid=1): acceso estandar\n- guest (uid=2): solo lectura\n\n## Politicas\n- Aislamiento de procesos activado por defecto\n- Paquetes requieren firma criptografica\n- Audit log habilitado\n- Session timeout: 3600s"@),
        ("/tmp/boot.log"@, "[0.001] Kernel init - EndorOS 0.1.0\n[0.012] Bump allocator OK (2 MiB)\n[0.015] GDT/IDT loaded\n[0.020] CPU: SSE4.2 AVX2\n[0.031] VFS mounted - RamdiskFS\n[0.035] Auth adapter init\n[0.038] Crypto adapter init\n[0.041] Package manager ready\n[0.045] Scheduler started\n[0.060] Desktop loaded\n[0.065] EndorOS ready"@),
        ("/var/log/system.log"@, "[INFO]  EndorOS desktop started\n[INFO]  User session initialized\n[INFO]  VFS mounted at /\n[INFO]  5 system processes spawned\n[AUDIT] Login attempt: none\n[INFO]  GUI: egui 0.29"@),
        ("/var/log/auth.log"@, "[AUTH] System boot - auth daemon ready\n[AUTH] Users loaded: admin, user, guest\n[AUTH] Session store initialized"@),
        ("/usr/lib/libendor.so"@, "ELF64 shared library - EndorOS runtime"@),
        ("/usr/bin/endoros-sh"@, "#!/usr/bin/endoros-sh\n# EndorOS Shell v0.1"@),
        ("/bin/ls"@, "#!/usr/bin/endoros-sh\n# list directory contents"@),
        ("/bin/cat"@, "#!/usr/bin/endoros-sh\n# concatenate and print files"@),
        ("/bin/ps"@, "#!/usr/bin/endoros-sh\n# report process status"@),
        ("/bin/kill"@, "#!/usr/bin/endoros-sh\n# send signal to process"@),
    ]
}

fn desktop_file_list() -> (v: Vec<(&'static str, &'static str)>)
    ensures
        v@.map_values(|e: (&str, &str)| (e.0@, e.1@)) == desktop_files(),
{
    let mut v: Vec<(&'static str, &'static str)> = Vec::new();
    v.push(("/", ""));
    v.push(("/bin", ""));
    v.push(("/etc", ""));
    v.push(("/home", ""));
    v.push(("/home/admin", ""));
    v.push(("/home/admin/docs", ""));
    v.push(("/tmp", ""));
    v.push(("/var", ""));
    v.push(("/var/log", ""));
    v.push(("/usr", ""));
    v.push(("/usr/lib", ""));
    v.push(("/usr/bin", ""));
    v.push(("/etc/hostname", "endoros-node-1"));
    v.push(("/etc/motd", "Welcome to EndorOS 0.1 - the forest moon OS."));
    v.push(("/etc/os-release", "NAME=EndorOS\nVERSION=0.1.0\nARCH=x86_64\nAUTHOR=Leonardo Correa\nINSTITUTION=UJAP"));
    v.push(("/etc/hosts", "127.0.0.1   localhost\n127.0.1.1   endoros-node-1\n::1         localhost"));
    v.push(("/etc/fstab", "# <device>   <mountpoint>   <type>\nramdisk  /    ramfs  defaults\ntmpfs    /tmp tmpfs  nosuid"));
    v.push(("/etc/security.conf", "[policy]\ndefault=hardened\naudit=enabled\nprocess_isolation=true\nsign_packages=true\nsession_timeout=3600"));
    v.push(("/home/admin/readme.txt", "# Bienvenido a EndorOS\n\nEste es tu directorio home.\n\nComandos utiles:\n  login admin admin123   - iniciar sesion\n  ls /                   - listar raiz\n  ps                     - ver procesos\n  pkg install rustc      - instalar paquete\n  help                   - ver todos los comandos"));
    v.push(("/home/admin/notas.txt", "Notas de diseno EndorOS:\n\n1. Arquitectura hexagonal (Ports & Adapters)\n2. Kernel no_std con bump allocator 2MiB\n3. VFS en ramdisk para prototipo\n4. Auth local hardcoded para demo\n5. Cifrado XOR - reemplazar con AES-256-XTS en produccion\n\nTODO:\n- [ ] Driver real de disco\n- [ ] Networking stack\n- [ ] Proceso de arranque completo"));
    v.push(("/home/admin/docs/arquitectura.md", "# Arquitectura EndorOS\n\n## Capas\n\nUI (egui)         <- esta aplicacion\n  |\nApplication       <- casos de uso + ports (traits)\n  |\nDomain            <- entidades puras (no_std)\n  |\nInfrastructure    <- adaptadores concretos (std)\n\n## Ports implementados\n- FileSystemPort  -> RamdiskAdapter\n- AuthPort        -> LocalAuthAdapter\n- ProcessMgrPort  -> SchedulerAdapter\n- EncryptionPort  -> XorCryptoAdapter\n- PackageMgrPort  -> LocalPkgManager"));
    v.push(("/home/admin/docs/seguridad.md", "# Modelo de Seguridad EndorOS\n\nBasado en el principio de minimo privilegio.\n\n## Roles\n- admin (uid=0): acceso total\n- user  (uid=1): acceso estandar\n- guest (uid=2): solo lectura\n\n## Politicas\n- Aislamiento de procesos activado por defecto\n- Paquetes requieren firma criptografica\n- Audit log habilitado\n- Session timeout: 3600s"));
    v.push(("/tmp/boot.log", "[0.001] Kernel init - EndorOS 0.1.0\n[0.012] Bump allocator OK (2 MiB)\n[0.015] GDT/IDT loaded\n[0.020] CPU: SSE4.2 AVX2\n[0.031] VFS mounted - RamdiskFS\n[0.035] Auth adapter init\n[0.038] Crypto adapter init\n[0.041] Package manager ready\n[0.045] Scheduler started\n[0.060] Desktop loaded\n[0.065] EndorOS ready"));
    v.push(("/var/log/system.log", "[INFO]  EndorOS desktop started\n[INFO]  User session initialized\n[INFO]  VFS mounted at /\n[INFO]  5 system processes spawned\n[AUDIT] Login attempt: none\n[INFO]  GUI: egui 0.29"));
    v.push(("/var/log/auth.log", "[AUTH] System boot - auth daemon ready\n[AUTH] Users loaded: admin, user, guest\n[AUTH] Session store initialized"));
    v.push(("/usr/lib/libendor.so", "ELF64 shared library - EndorOS runtime"));
    v.push(("/usr/bin/endoros-sh", "#!/usr/bin/endoros-sh\n# EndorOS Shell v0.1"));
    v.push(("/bin/ls", "#!/usr/bin/endoros-sh\n# list directory contents"));
    v.push(("/bin/cat", "#!/usr/bin/endoros-sh\n# concatenate and print files"));
    v.push(("/bin/ps", "#!/usr/bin/endoros-sh\n# report process status"));
    v.push(("/bin/kill", "#!/usr/bin/endoros-sh\n# send signal to process"));
    assert(v@.map_values(|e: (&str, &str)| (e.0@, e.1@)) =~= desktop_files());
    v
}

/// The files after writing each item in order.
pub open spec fn write_all(m: Map<Seq<u8>, Seq<u8>>, items: Seq<(Seq<char>, Seq<char>)>) -> Map<
    Seq<u8>,
    Seq<u8>,
>
    decreases items.len(),
{
    if items.len() == 0 {
        m
    } else {
        write_all(
            RamdiskAdapter::write_spec(m, items[0].0, encode_utf8(items[0].1)).0,
            items.drop_first(),
        )
    }
}

/// The processes the desktop starts, in order: (name, priority).
pub open spec fn desktop_processes() -> Seq<(Seq<char>, u8)> {
    seq![
        ("init"@, 255u8),
        ("kernel-sched"@, 200u8),
        ("vfs-daemon"@, 150u8),
        ("auth-daemon"@, 140u8),
        ("endoros-desktop"@, 100u8),
    ]
}

/// The scheduler state after spawning each process in order.
pub open spec fn spawn_all(m: (Seq<ProcView>, u32), items: Seq<(Seq<char>, u8)>) -> (
    Seq<ProcView>,
    u32,
)
    decreases items.len(),
{
    if items.len() == 0 {
        m
    } else {
        spawn_all(SchedulerAdapter::spawn_spec(m, items[0].0, items[0].1).0, items.drop_first())
    }
}

/// The state of the desktop apart from the clock it started at: the
/// taskbar, the terminal (which owns the adapters), the panels, and the
/// package panel's own manager and form.
pub struct Desktop {
    pub taskbar: Taskbar,
    pub terminal: Terminal,
    pub file_explorer: FileExplorer,
    pub process_monitor: ProcessMonitor,
    pub active: ActivePanel,
    pub pkg_mgr: LocalPkgManager,
    pub pkg_status: String,
    pub pkg_input: String,
    pub settings_tab: usize,
}

impl Desktop {
    /// The desktop at start: the ramdisk holds the demo files, the demo
    /// processes run, nobody is logged in and the dashboard is shown.
    pub fn new() -> (r: Self)
        ensures
            r.terminal.fs@ == write_all(
                Map::<Seq<u8>, Seq<u8>>::empty().insert(root_path(), Seq::empty()),
                desktop_files(),
            ),
            r.terminal.proc_mgr@ == spawn_all((Seq::<ProcView>::empty(), 1u32), desktop_processes()),
            r.terminal.auth@.0 == seq![
                ("admin"@, "admin123"@, 0u32, true),
                ("user"@, "user123"@, 1u32, false),
                ("guest"@, "guest"@, 2u32, false),
            ],
            r.terminal.auth@.1 == Set::<u32>::empty(),
            r.terminal.pkg_mgr@ == (Seq::<PkgView>::empty(), catalogue()),
            r.terminal.current_uid is None,
            r.terminal.current_username is None,
            history_view(r.terminal.history@) == seq![
                ("EndorOS Shell v0.1.0"@, Tone::TermGreen),
                ("Type 'help' for available commands."@, Tone::TextDim),
                (""@, Tone::TextDim),
            ],
            r.terminal.input@ == Seq::<char>::empty(),
            r.terminal.cmd_history@ == Seq::<String>::empty(),
            r.terminal.cmd_history_idx is None,
            r.taskbar.apps@ == seq![
                AppIcon::Terminal,
                AppIcon::Files,
                AppIcon::Processes,
                AppIcon::Packages,
                AppIcon::Settings,
            ],
            r.taskbar.open_apps@ == Seq::<AppIcon>::empty(),
            r.taskbar.clock@ == Seq::<char>::empty(),
            r.taskbar.username@ == "anonymous"@,
            r.file_explorer.current_path@ == "/"@,
            r.file_explorer.selected is None,
            r.file_explorer.file_content is None,
            r.file_explorer.new_file_name@ == Seq::<char>::empty(),
            r.file_explorer.new_file_content@ == Seq::<char>::empty(),
            !r.file_explorer.show_new_file,
            r.file_explorer.status@ == Seq::<char>::empty(),
            r.process_monitor.new_proc_name@ == Seq::<char>::empty(),
            r.process_monitor.new_proc_priority == 5,
            r.process_monitor.status@ == Seq::<char>::empty(),
            r.process_monitor.kill_input@ == Seq::<char>::empty(),
            r.active == ActivePanel::Dashboard,
            r.pkg_mgr@ == (Seq::<PkgView>::empty(), catalogue()),
            r.pkg_status@ == Seq::<char>::empty(),
            r.pkg_input@ == Seq::<char>::empty(),
            r.settings_tab == 0,
    {
        let mut fs = RamdiskAdapter::new();
        let auth = LocalAuthAdapter::new();
        let mut proc_mgr = SchedulerAdapter::new();
        let crypto = XorCryptoAdapter::new();
        let pkg_mgr_terminal = LocalPkgManager::new();
        let pkg_mgr_panel = LocalPkgManager::new();

        let files = desktop_file_list();
        let ghost m0 = fs@;
        let mut i: usize = 0;
        assert(desktop_files().skip(0) =~= desktop_files());
        while i < files.len()
            invariant
                i <= files@.len(),
                files@.map_values(|e: (&str, &str)| (e.0@, e.1@)) == desktop_files(),
                write_all(m0, desktop_files()) == write_all(fs@, desktop_files().skip(i as int)),
            decreases files@.len() - i,
        {
            let (path, contents) = files[i];
            proof {
                assert(desktop_files()[i as int] == (path@, contents@));
                assert(desktop_files().skip(i as int).drop_first() =~= desktop_files().skip(i + 1));
            }
            let _ = fs.write(path, contents.as_bytes());
            i = i + 1;
        }
        assert(desktop_files().skip(files@.len() as int) =~= Seq::<(Seq<char>, Seq<char>)>::empty());

        // Demo processes
        let ghost p0 = proc_mgr@;
        let names: [(&'static str, u8); 5] = [
            ("init", 255),
            ("kernel-sched", 200),
            ("vfs-daemon", 150),
            ("auth-daemon", 140),
            ("endoros-desktop", 100),
        ];
        assert(names@.map_values(|e: (&str, u8)| (e.0@, e.1)) =~= desktop_processes());
        let mut j: usize = 0;
        assert(desktop_processes().skip(0) =~= desktop_processes());
        while j < 5
            invariant
                j <= 5,
                names@.map_values(|e: (&str, u8)| (e.0@, e.1)) == desktop_processes(),
                spawn_all(p0, desktop_processes()) == spawn_all(
                    proc_mgr@,
                    desktop_processes().skip(j as int),
                ),
                proc_mgr@.1 == j + 1,
                proc_mgr@.0.len() == j,
            decreases 5 - j,
        {
            let (name, priority) = names[j];
            proof {
                assert(desktop_processes()[j as int] == (name@, priority));
                assert(desktop_processes().skip(j as int).drop_first() =~= desktop_processes().skip(
                    j + 1,
                ));
            }
            let _ = proc_mgr.spawn(name, priority);
            j = j + 1;
        }
        assert(desktop_processes().skip(5) =~= Seq::<(Seq<char>, u8)>::empty());

        let terminal = Terminal::new(fs, auth, proc_mgr, crypto, pkg_mgr_terminal);

        Desktop {
            taskbar: Taskbar::new(),
            terminal,
            file_explorer: FileExplorer::new(),
            process_monitor: ProcessMonitor::new(),
            active: ActivePanel::Dashboard,
            pkg_mgr: pkg_mgr_panel,
            pkg_status: String::new(),
            pkg_input: String::new(),
            settings_tab: 0,
        }
    }

    /// Each frame: the taskbar's clock, user and open icon follow the
    /// terminal's session and the shown panel.
    pub fn refresh_taskbar(&mut self)
        ensures
            is_clock_text(final(self).taskbar.clock@),
            final(self).taskbar.username@ == match old(self).terminal.current_username {
                Some(u) => u@,
                None => "anonymous"@,
            },
            final(self).taskbar.open_apps@ == match spec_panel_icon(old(self).active) {
                Some(i) => seq![i],
                None => Seq::<AppIcon>::empty(),
            },
            final(self).taskbar.apps == old(self).taskbar.apps,
            *final(self) == (Desktop { taskbar: final(self).taskbar, ..*old(self) }),
    {
        self.taskbar.update_clock();
        self.taskbar.username = match &self.terminal.current_username {
            Some(u) => String::from_str(u.as_str()),
            None => String::from_str("anonymous"),
        };
        let mut open: Vec<AppIcon> = Vec::new();
        match panel_icon(self.active) {
            Some(icon) => open.push(icon),
            None => {},
        }
        self.taskbar.open_apps = open;
        assert(self.taskbar.open_apps@ =~= match spec_panel_icon(old(self).active) {
            Some(i) => seq![i],
            None => Seq::<AppIcon>::empty(),
        });
    }

    /// A taskbar icon was clicked: toggle its panel.
    pub fn icon_clicked(&mut self, icon: AppIcon)
        ensures
            *final(self) == (Desktop {
                active: if old(self).active == spec_icon_panel(icon) {
                    ActivePanel::Dashboard
                } else {
                    spec_icon_panel(icon)
                },
                ..*old(self)
            }),
    {
        let target = icon_panel(icon);
        self.active = toggle_panel(self.active, target);
    }

    /// A sidebar button was clicked: toggle its panel.
    pub fn panel_clicked(&mut self, panel: ActivePanel)
        ensures
            *final(self) == (Desktop {
                active: if old(self).active == panel {
                    ActivePanel::Dashboard
                } else {
                    panel
                },
                ..*old(self)
            }),
    {
        self.active = toggle_panel(self.active, panel);
    }

    /// The Install button of the package panel: install the typed package,
    /// report it and clear the input. Nothing happens while it is empty.
    pub fn install_clicked(&mut self)
        ensures
            old(self).pkg_input@.len() == 0 ==> final(self).pkg_mgr@ == old(self).pkg_mgr@
                && final(self).pkg_status == old(self).pkg_status && final(self).pkg_input
                == old(self).pkg_input,
            old(self).pkg_input@.len() > 0 ==> {
                let k = LocalPkgManager::install_spec(old(self).pkg_mgr@, old(self).pkg_input@);
                &&& final(self).pkg_mgr@ == k.0
                &&& final(self).pkg_status@ == match k.1 {
                    Ok(_) => "OK Installed '"@ + old(self).pkg_input@ + "'"@,
                    Err(e) => "ERR "@ + e.spec_debug_name(),
                }
                &&& final(self).pkg_input@ == Seq::<char>::empty()
            },
    {
        if self.pkg_input.as_str().is_empty() {
            return;
        }
        let n = String::from_str(self.pkg_input.as_str());
        self.pkg_status = match self.pkg_mgr.install(n.as_str()) {
            Ok(()) => {
                let mut s = String::from_str("OK Installed '");
                s.append(n.as_str());
                s.append("'");
                s
            },
            Err(e) => {
                let mut s = String::from_str("ERR ");
                s.append(e.debug_name());
                s
            },
        };
        self.pkg_input = String::new();
    }

    /// The Remove button of the package panel: remove the typed package,
    /// report it and clear the input. Nothing happens while it is empty.
    pub fn remove_clicked(&mut self)
        ensures
            old(self).pkg_input@.len() == 0 ==> final(self).pkg_mgr@ == old(self).pkg_mgr@
                && final(self).pkg_status == old(self).pkg_status && final(self).pkg_input
                == old(self).pkg_input,
            old(self).pkg_input@.len() > 0 ==> {
                let k = LocalPkgManager::remove_spec(old(self).pkg_mgr@, old(self).pkg_input@);
                &&& final(self).pkg_mgr@ == k.0
                &&& final(self).pkg_status@ == match k.1 {
                    Ok(_) => "OK Removed '"@ + old(self).pkg_input@ + "'"@,
                    Err(e) => "ERR "@ + e.spec_debug_name(),
                }
                &&& final(self).pkg_input@ == Seq::<char>::empty()
            },
    {
        if self.pkg_input.as_str().is_empty() {
            return;
        }
        let n = String::from_str(self.pkg_input.as_str());
        self.pkg_status = match self.pkg_mgr.remove(n.as_str()) {
            Ok(()) => {
                let mut s = String::from_str("OK Removed '");
                s.append(n.as_str());
                s.append("'");
                s
            },
            Err(e) => {
                let mut s = String::from_str("ERR ");
                s.append(e.debug_name());
                s
            },
        };
        self.pkg_input = String::new();
    }

    /// The Update All button of the package panel.
    pub fn update_clicked(&mut self)
        ensures
            ({
                let k = LocalPkgManager::update_all_spec(old(self).pkg_mgr@);
                &&& final(self).pkg_mgr@ == k.0
                &&& final(self).pkg_status@ == match k.1 {
                    Ok(_) => "OK All updated"@,
                    Err(e) => "ERR "@ + e.spec_debug_name(),
                }
            }),
            final(self).pkg_input == old(self).pkg_input,
    {
        self.pkg_status = match self.pkg_mgr.update_all() {
            Ok(()) => String::from_str("OK All updated"),
            Err(e) => {
                let mut s = String::from_str("ERR ");
                s.append(e.debug_name());
                s
            },
        };
    }
}

} // verus!
