use vstd::prelude::*;
use vstd::string::*;

verus! {

/// The applications the taskbar can launch.
#[derive(Debug, Clone, Copy, PartialEq, Eq, Structural)]
pub enum AppIcon {
    Terminal,
    Files,
    Processes,
    Packages,
    Settings,
}

impl AppIcon {
    pub open spec fn spec_label(self) -> Seq<char> {
        match self {
            AppIcon::Terminal => "Terminal"@,
            AppIcon::Files => "Files"@,
            AppIcon::Processes => "Processes"@,
            AppIcon::Packages => "Packages"@,
            AppIcon::Settings => "Settings"@,
        }
    }

    pub open spec fn spec_glyph(self) -> Seq<char> {
        match self {
            AppIcon::Terminal => ">_"@,
            AppIcon::Files => "[]"@,
            AppIcon::Processes => "##"@,
            AppIcon::Packages => "<>"@,
            AppIcon::Settings => "=="@,
        }
    }

    pub fn label(&self) -> (r: &str)
        ensures
            r@ == self.spec_label(),
    {
        match self {
            AppIcon::Terminal => "Terminal",
            AppIcon::Files => "Files",
            AppIcon::Processes => "Processes",
            AppIcon::Packages => "Packages",
            AppIcon::Settings => "Settings",
        }
    }

    pub fn glyph(&self) -> (r: &str)
        ensures
            r@ == self.spec_glyph(),
    {
        match self {
            AppIcon::Terminal => ">_",
            AppIcon::Files => "[]",
            AppIcon::Processes => "##",
            AppIcon::Packages => "<>",
            AppIcon::Settings => "==",
        }
    }
}

/// Whether `c` is an ASCII decimal digit.
pub open spec fn is_digit(c: char) -> bool {
    '0' <= c && c <= '9'
}

/// A clock reading as the taskbar shows it, `HH:MM  DD/MM`: two digits,
/// a colon, two digits, two spaces, two digits, a slash, two digits.
pub open spec fn is_clock_text(s: Seq<char>) -> bool {
    &&& s.len() == 12
    &&& is_digit(s[0]) && is_digit(s[1])
    &&& s[2] == ':'
    &&& is_digit(s[3]) && is_digit(s[4])
    &&& s[5] == ' ' && s[6] == ' '
    &&& is_digit(s[7]) && is_digit(s[8])
    &&& s[9] == '/'
    &&& is_digit(s[10]) && is_digit(s[11])
}

/// The local time, formatted by chrono as `%H:%M  %d/%m`. Which time it
/// shows depends on the clock and the time zone; chrono's format table pads
/// each of these four numbers with zeros to two digits.
#[verifier::external_body]
fn local_clock_text() -> (s: String)
    ensures
        is_clock_text(s@),
{
    chrono::Local::now().format("%H:%M  %d/%m").to_string()
}

pub struct Taskbar {
    pub apps: Vec<AppIcon>,
    pub open_apps: Vec<AppIcon>,
    pub clock: String,
    pub username: String,
}

impl Taskbar {
    pub fn new() -> (r: Self)
        ensures
            r.apps@ == seq![
                AppIcon::Terminal,
                AppIcon::Files,
                AppIcon::Processes,
                AppIcon::Packages,
                AppIcon::Settings,
            ],
            r.open_apps@ == Seq::<AppIcon>::empty(),
            r.clock@ == Seq::<char>::empty(),
            r.username@ == "anonymous"@,
    {
        let mut apps: Vec<AppIcon> = Vec::new();
        apps.push(AppIcon::Terminal);
        apps.push(AppIcon::Files);
        apps.push(AppIcon::Processes);
        apps.push(AppIcon::Packages);
        apps.push(AppIcon::Settings);
        let r = Taskbar {
            apps,
            open_apps: Vec::new(),
            clock: String::new(),
            username: String::from_str("anonymous"),
        };
        assert(r.apps@ =~= seq![
            AppIcon::Terminal,
            AppIcon::Files,
            AppIcon::Processes,
            AppIcon::Packages,
            AppIcon::Settings,
        ]);
        r
    }

    /// Set the clock to the current local time.
    pub fn update_clock(&mut self)
        ensures
            is_clock_text(final(self).clock@),
            final(self).apps == old(self).apps,
            final(self).open_apps == old(self).open_apps,
            final(self).username == old(self).username,
    {
        self.clock = local_clock_text();
    }

    /// Whether `app` is marked open.
    pub fn is_open(&self, app: &AppIcon) -> (r: bool)
        ensures
            r == self.open_apps@.contains(*app),
    {
        let mut i: usize = 0;
        while i < self.open_apps.len()
            invariant
                i <= self.open_apps@.len(),
                forall|j: int| 0 <= j < i ==> self.open_apps@[j] != *app,
            decreases self.open_apps@.len() - i,
        {
            if self.open_apps[i] == *app {
                assert(self.open_apps@[i as int] == *app);
                return true;
            }
            i = i + 1;
        }
        false
    }

    /// Whether someone is logged in (the user is not `anonymous`).
    pub fn is_logged_in(&self) -> (r: bool)
        ensures
            r == (self.username@ != "anonymous"@),
    {
        !crate::text::str_eq(self.username.as_str(), "anonymous")
    }
}

} // verus!
