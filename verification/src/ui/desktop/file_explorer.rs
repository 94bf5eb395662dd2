use vstd::prelude::*;
use vstd::string::*;
use vstd::utf8::*;
use crate::infrastructure::fs::RamdiskAdapter;
use crate::ports::filesystem::{read_result, FileSystemPort, FsError};
use crate::text::{lossy_utf8, utf8_lossy};

verus! {

/// The path of a new file named `name` in directory `dir`: joined with a
/// `/` unless the directory already ends with one.
pub open spec fn join_path(dir: Seq<char>, name: Seq<char>) -> Seq<char> {
    if dir.len() > 0 && dir.last() == '/' {
        dir + name
    } else {
        dir + "/"@ + name
    }
}

/// `s` with every backslash turned into a slash.
pub open spec fn slashes(s: Seq<char>) -> Seq<char> {
    s.map_values(|c: char| if c == '\\' { '/' } else { c })
}

/// The directory to move to, given the parent that the platform's path rules
/// found for the current one: `/` when there is none or it is empty.
pub open spec fn parent_dir(parent: Option<Seq<char>>) -> Seq<char> {
    match parent {
        Some(p) => if slashes(p).len() == 0 {
            "/"@
        } else {
            slashes(p)
        },
        None => "/"@,
    }
}

/// Index of the last `/` in `s`, or -1.
pub open spec fn last_slash_char(s: Seq<char>) -> int
    decreases s.len(),
{
    if s.len() == 0 {
        -1
    } else if s.last() == '/' {
        s.len() - 1
    } else {
        last_slash_char(s.drop_last())
    }
}

proof fn lemma_last_slash_char(s: Seq<char>)
    ensures
        -1 <= last_slash_char(s) < s.len(),
    decreases s.len(),
{
    if s.len() > 0 && s.last() != '/' {
        lemma_last_slash_char(s.drop_last());
    }
}

/// The last component of a path: what follows its last `/`.
pub open spec fn entry_name_spec(entry: Seq<char>) -> Seq<char> {
    entry.skip(last_slash_char(entry) + 1)
}

/// What the viewer shows for a file: its bytes as text, or the read error.
pub open spec fn content_text(r: Result<Seq<u8>, FsError>) -> Seq<char> {
    match r {
        Ok(d) => lossy_utf8(d),
        Err(e) => "<Error: "@ + e.spec_debug_name() + ">"@,
    }
}

/// Whether `q` is `p` with something taken off its end: a shorter prefix.
pub open spec fn proper_prefix(q: Seq<char>, p: Seq<char>) -> bool {
    q.len() < p.len() && q == p.take(q.len() as int)
}

/// Whether `p` is an absolute path of plain names: it starts with `/`, has
/// at least one name, and has no empty name (no `//`, no trailing `/`), no
/// name `.`, and no `\\`.
pub open spec fn plain_abs_path(p: Seq<char>) -> bool {
    &&& p.len() >= 2
    &&& p[0] == '/'
    &&& p.last() != '/'
    &&& forall|i: int| 0 <= i < p.len() ==> #[trigger] p[i] != '\\'
    &&& forall|i: int|
        0 <= i < p.len() - 1 && #[trigger] p[i] == '/' ==> p[i + 1] != '/'
    &&& forall|i: int|
        1 <= i < p.len() && #[trigger] p[i] == '.' && p[i - 1] == '/' ==> (i + 1 < p.len()
            && p[i + 1] != '/')
}

/// The path without its final name: the part before the last `/`, or `/`
/// when that is the only one.
pub open spec fn plain_parent(p: Seq<char>) -> Seq<char> {
    let k = last_slash_char(p);
    if k <= 0 {
        seq!['/']
    } else {
        p.take(k)
    }
}

/// The parent directory of `p` by the platform's path rules
/// (`std::path::Path::parent`, read back as text). Its documentation says it
/// returns the path without its final component (`/foo/bar` gives `/foo`,
/// `/foo` gives `/`), so a parent, when there is one, is a shorter prefix of
/// `p`, and for an absolute path of plain names it is the part before the
/// last `/`. Where other paths are cut depends on the platform (Windows also
/// takes `\\` as a separator and reads drive prefixes), and is left unsaid.
#[verifier::external_body]
fn path_parent(p: &str) -> (r: Option<String>)
    ensures
        r matches Some(q) ==> proper_prefix(q@, p@),
        plain_abs_path(p@) ==> r is Some && r->0@ == plain_parent(p@),
{
    std::path::Path::new(p).parent().map(|q| q.to_string_lossy().into_owned())
}

/// The file explorer panel: the directory shown, the selected file and its
/// text, the new-file form and the status line.
pub struct FileExplorer {
    pub current_path: String,
    pub selected: Option<String>,
    pub file_content: Option<String>,
    pub new_file_name: String,
    pub new_file_content: String,
    pub show_new_file: bool,
    pub status: String,
}

impl FileExplorer {
    pub fn new() -> (r: Self)
        ensures
            r.current_path@ == "/"@,
            r.selected is None,
            r.file_content is None,
            r.new_file_name@ == Seq::<char>::empty(),
            r.new_file_content@ == Seq::<char>::empty(),
            !r.show_new_file,
            r.status@ == Seq::<char>::empty(),
    {
        FileExplorer {
            current_path: String::from_str("/"),
            selected: None,
            file_content: None,
            new_file_name: String::new(),
            new_file_content: String::new(),
            show_new_file: false,
            status: String::new(),
        }
    }

    /// The "+ New File" button: show or hide the new-file form.
    pub fn toggle_new_file(&mut self)
        ensures
            final(self).show_new_file == !old(self).show_new_file,
            final(self).current_path == old(self).current_path,
            final(self).new_file_name == old(self).new_file_name,
            final(self).new_file_content == old(self).new_file_content,
            final(self).status == old(self).status,
    {
        self.show_new_file = !self.show_new_file;
    }

    /// The Cancel button: hide the new-file form.
    pub fn cancel_new_file(&mut self)
        ensures
            !final(self).show_new_file,
            final(self).current_path == old(self).current_path,
            final(self).new_file_name == old(self).new_file_name,
            final(self).new_file_content == old(self).new_file_content,
            final(self).status == old(self).status,
    {
        self.show_new_file = false;
    }

    /// The Create button: write the form's content to a file of the typed
    /// name in the current directory, report it in the status line and clear
    /// and hide the form. Nothing happens while the name is empty.
    pub fn create_file(&mut self, fs: &mut RamdiskAdapter)
        ensures
            old(self).new_file_name@.len() == 0 ==> *final(self) == *old(self) && final(fs)@
                == old(fs)@,
            old(self).new_file_name@.len() > 0 ==> {
                let path = join_path(old(self).current_path@, old(self).new_file_name@);
                let w = RamdiskAdapter::write_spec(
                    old(fs)@,
                    path,
                    encode_utf8(old(self).new_file_content@),
                );
                &&& final(fs)@ == w.0
                &&& w.1 is Ok ==> {
                    &&& final(self).status@ == "Created '"@ + path + "'"@
                    &&& final(self).new_file_name@ == Seq::<char>::empty()
                    &&& final(self).new_file_content@ == Seq::<char>::empty()
                    &&& !final(self).show_new_file
                }
                &&& w.1 matches Err(e) ==> {
                    &&& final(self).status@ == "Error: "@ + e.spec_debug_name()
                    &&& final(self).new_file_name == old(self).new_file_name
                    &&& final(self).new_file_content == old(self).new_file_content
                    &&& final(self).show_new_file == old(self).show_new_file
                }
                &&& final(self).current_path == old(self).current_path
                &&& final(self).selected == old(self).selected
                &&& final(self).file_content == old(self).file_content
            },
    {
        if self.new_file_name.as_str().is_empty() {
            return;
        }
        let dir = self.current_path.as_str();
        let n = dir.unicode_len();
        let mut path = String::from_str(dir);
        if !(n > 0 && dir.get_char(n - 1) == '/') {
            path.append("/");
        }
        path.append(self.new_file_name.as_str());
        match fs.write(path.as_str(), self.new_file_content.as_str().as_bytes()) {
            Ok(()) => {
                let mut s = String::from_str("Created '");
                s.append(path.as_str());
                s.append("'");
                self.status = s;
                self.new_file_name = String::new();
                self.new_file_content = String::new();
                self.show_new_file = false;
            },
            Err(e) => {
                let mut s = String::from_str("Error: ");
                s.append(e.debug_name());
                self.status = s;
            },
        }
    }

    /// Move to the directory `parent` names (as the platform's path rules
    /// found it for the current directory), and clear the selection.
    pub fn enter_parent(&mut self, parent: Option<String>)
        ensures
            final(self).current_path@ == parent_dir(
                match parent {
                    Some(p) => Some(p@),
                    None => None,
                },
            ),
            final(self).selected is None,
            final(self).file_content is None,
            final(self).new_file_name == old(self).new_file_name,
            final(self).new_file_content == old(self).new_file_content,
            final(self).show_new_file == old(self).show_new_file,
            final(self).status == old(self).status,
    {
        let next = match parent {
            Some(p) => {
                let q = replace_backslashes(p.as_str());
                if q.as_str().is_empty() {
                    String::from_str("/")
                } else {
                    q
                }
            },
            None => String::from_str("/"),
        };
        self.current_path = next;
        self.selected = None;
        self.file_content = None;
    }

    /// The ".." entry: move to the parent of the current directory (not
    /// shown at the root).
    pub fn go_parent(&mut self)
        ensures
            old(self).current_path@ == "/"@ ==> *final(self) == *old(self),
            old(self).current_path@ != "/"@ ==> {
                &&& final(self).selected is None
                &&& final(self).file_content is None
                &&& (final(self).current_path@ == "/"@ || proper_prefix(
                    final(self).current_path@,
                    slashes(old(self).current_path@),
                ))
            },
            plain_abs_path(old(self).current_path@) ==> final(self).current_path@ == plain_parent(
                old(self).current_path@,
            ),
            final(self).new_file_name == old(self).new_file_name,
            final(self).new_file_content == old(self).new_file_content,
            final(self).show_new_file == old(self).show_new_file,
            final(self).status == old(self).status,
    {
        if crate::text::str_eq(self.current_path.as_str(), "/") {
            proof {
                reveal_strlit("/");
            }
            return;
        }
        let ghost p = self.current_path@;
        let parent = path_parent(self.current_path.as_str());
        proof {
            if parent is Some {
                let q = parent->0;
                assert(slashes(q@) =~= slashes(p).take(q@.len() as int));
                if plain_abs_path(p) {
                    lemma_last_slash_char(p);
                    assert(slashes(q@) =~= q@);
                }
            }
        }
        self.enter_parent(parent);
    }

    /// Whether `entry` names a directory: listing it succeeds.
    pub fn entry_is_dir(fs: &RamdiskAdapter, entry: &str) -> (r: bool)
        ensures
            r == RamdiskAdapter::list_spec(fs@, entry@) is Ok,
    {
        fs.list(entry).is_ok()
    }

    /// Clicking an entry of the listing: a directory becomes the current
    /// one; a file is selected and its text (or the read error) shown.
    pub fn open_entry(&mut self, fs: &RamdiskAdapter, entry: &str)
        ensures
            RamdiskAdapter::list_spec(fs@, entry@) is Ok ==> {
                &&& final(self).current_path@ == entry@
                &&& final(self).selected is None
                &&& final(self).file_content is None
            },
            RamdiskAdapter::list_spec(fs@, entry@) is Err ==> {
                &&& final(self).current_path == old(self).current_path
                &&& final(self).selected matches Some(s) && s@ == entry@
                &&& final(self).file_content matches Some(c) && c@ == content_text(
                    RamdiskAdapter::read_spec(fs@, entry@),
                )
            },
            final(self).new_file_name == old(self).new_file_name,
            final(self).new_file_content == old(self).new_file_content,
            final(self).show_new_file == old(self).show_new_file,
            final(self).status == old(self).status,
    {
        if Self::entry_is_dir(fs, entry) {
            self.current_path = String::from_str(entry);
            self.selected = None;
            self.file_content = None;
        } else {
            self.selected = Some(String::from_str(entry));
            match fs.read(entry) {
                Ok(data) => {
                    self.file_content = Some(utf8_lossy(data.as_slice()));
                },
                Err(e) => {
                    let mut s = String::from_str("<Error: ");
                    s.append(e.debug_name());
                    s.append(">");
                    self.file_content = Some(s);
                },
            }
        }
    }

    /// Whether `entry` is the selected file.
    pub fn is_selected(&self, entry: &str) -> (r: bool)
        ensures
            r == (self.selected matches Some(s) && s@ == entry@),
    {
        match &self.selected {
            Some(s) => crate::text::str_eq(s.as_str(), entry),
            None => false,
        }
    }
}

/// `s` with every backslash turned into a slash.
pub fn replace_backslashes(s: &str) -> (r: String)
    ensures
        r@ == slashes(s@),
{
    let n = s.unicode_len();
    let mut out = String::new();
    let mut i: usize = 0;
    while i < n
        invariant
            n == s@.len(),
            i <= n,
            out@ == slashes(s@).take(i as int),
        decreases n - i,
    {
        let c = s.get_char(i);
        let piece = if c == '\\' {
            "/"
        } else {
            s.substring_char(i, i + 1)
        };
        proof {
            reveal_strlit("/");
            assert(s@.subrange(i as int, i + 1) =~= seq![c]);
        }
        out.append(piece);
        assert(slashes(s@).take(i + 1) =~= slashes(s@).take(i as int).push(
            if c == '\\' {
                '/'
            } else {
                c
            },
        ));
        i = i + 1;
    }
    assert(slashes(s@).take(n as int) =~= slashes(s@));
    out
}

/// The name an entry is listed under: the last component of its path.
pub fn entry_name(entry: &str) -> (r: &str)
    ensures
        r@ == entry_name_spec(entry@),
{
    let n = entry.unicode_len();
    let mut i: usize = n;
    assert(entry@.take(n as int) =~= entry@);
    while i > 0 && entry.get_char(i - 1) != '/'
        invariant
            n == entry@.len(),
            i <= n,
            last_slash_char(entry@) == last_slash_char(entry@.take(i as int)),
        decreases i,
    {
        assert(entry@.take(i as int).drop_last() =~= entry@.take(i - 1));
        i = i - 1;
    }
    proof {
        if i > 0 {
            assert(entry@.take(i as int).last() == '/');
        }
    }
    entry.substring_char(i, n)
}

} // verus!
