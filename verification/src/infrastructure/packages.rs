use vstd::prelude::*;
use vstd::string::*;
use vstd::utf8::*;
use crate::domain::package::{InstallState, Package};
use crate::ports::filesystem::names_view;
use crate::ports::package_mgr::{PackageManagerPort, PkgError};
use crate::text::{buffer_text_bytes, buffer_text_chars, law_name_buffer_round_trip, nul_from, padded_prefix, str_eq};

verus! {

/// A package as the manager sees it: (name buffer, version buffer, signed, state).
pub type PkgView = (Seq<u8>, Seq<u8>, bool, InstallState);

pub open spec fn pkg_view(p: Package) -> PkgView {
    (p.name@, p.version@, p.signed, p.state)
}

/// Whether `p` is an installed package named `name`.
pub open spec fn installed_as(p: PkgView, name: Seq<char>) -> bool {
    buffer_text_chars(p.0) == name && p.3 == InstallState::Installed
}

/// Whether some package of `ps` is installed under `name`.
pub open spec fn is_installed_in(ps: Seq<PkgView>, name: Seq<char>) -> bool {
    exists|i: int| 0 <= i < ps.len() && installed_as(#[trigger] ps[i], name)
}

/// Index of the first package from index `i` on that is installed under
/// `name`, or -1.
pub open spec fn first_installed_from(ps: Seq<PkgView>, name: Seq<char>, i: int) -> int
    decreases ps.len() - i,
{
    if i < 0 || i >= ps.len() {
        -1
    } else if installed_as(ps[i], name) {
        i
    } else {
        first_installed_from(ps, name, i + 1)
    }
}

/// The version buffer after an update: `1.0.1` and a terminating zero over
/// its first six bytes.
pub open spec fn bumped_version(v: Seq<u8>) -> Seq<u8> {
    Seq::new(
        v.len(),
        |i: int|
            if i < 5 {
                seq![49u8, 46u8, 48u8, 46u8, 49u8][i]
            } else if i == 5 {
                0u8
            } else {
                v[i]
            },
    )
}

/// The label of an installed package: `name (version)`.
pub open spec fn package_label(p: PkgView) -> Seq<char> {
    buffer_text_chars(p.0) + " ("@ + buffer_text_chars(p.1) + ")"@
}

/// The labels of the installed packages of `ps`, in their order.
pub open spec fn installed_labels(ps: Seq<PkgView>) -> Seq<Seq<char>>
    decreases ps.len(),
{
    if ps.len() == 0 {
        Seq::empty()
    } else if ps.last().3 == InstallState::Installed {
        installed_labels(ps.drop_last()).push(package_label(ps.last()))
    } else {
        installed_labels(ps.drop_last())
    }
}

/// The package that `install` adds for `name`.
pub open spec fn fresh_package(name: Seq<char>) -> PkgView {
    (
        padded_prefix(encode_utf8(name), 63, 64),
        padded_prefix(encode_utf8("1.0.0"@), 15, 16),
        true,
        InstallState::Installed,
    )
}

/// Local package manager with a hardcoded catalogue and install tracking.
pub struct LocalPkgManager {
    installed: Vec<Package>,
    /// Names of packages available in the (simulated) remote catalogue.
    available: Vec<String>,
}

impl View for LocalPkgManager {
    /// The tracked packages, and the names of the catalogue.
    type V = (Seq<PkgView>, Seq<Seq<char>>);

    closed spec fn view(&self) -> (Seq<PkgView>, Seq<Seq<char>>) {
        (
            self.installed@.map_values(|p: Package| pkg_view(p)),
            self.available@.map_values(|s: String| s@),
        )
    }
}

/// The simulated catalogue.
pub open spec fn catalogue() -> Seq<Seq<char>> {
    seq![
        "bash"@,
        "curl"@,
        "vim"@,
        "git"@,
        "python3"@,
        "gcc"@,
        "make"@,
        "openssl"@,
        "net-tools"@,
        "htop"@,
    ]
}

impl LocalPkgManager {
    pub fn new() -> (r: Self)
        ensures
            r@ == (Seq::<PkgView>::empty(), catalogue()),
    {
        let mut available: Vec<String> = Vec::new();
        available.push(String::from_str("bash"));
        available.push(String::from_str("curl"));
        available.push(String::from_str("vim"));
        available.push(String::from_str("git"));
        available.push(String::from_str("python3"));
        available.push(String::from_str("gcc"));
        available.push(String::from_str("make"));
        available.push(String::from_str("openssl"));
        available.push(String::from_str("net-tools"));
        available.push(String::from_str("htop"));
        let r = LocalPkgManager { installed: Vec::new(), available };
        assert(r@.0 =~= Seq::<PkgView>::empty());
        assert(r@.1 =~= catalogue());
        r
    }

    /// The installed package named `name`, to change it in place.
    #[allow(dead_code)]
    fn find_installed_mut(&mut self, name: &str) -> (r: Option<&mut Package>)
        ensures
            r matches Some(p) ==> {
                let i = first_named(old(self)@.0, name@, 0);
                &&& 0 <= i < old(self)@.0.len()
                &&& pkg_view(*p) == old(self)@.0[i]
                &&& final(self)@.0 == old(self)@.0.update(i, pkg_view(*final(p)))
                &&& final(self)@.1 == old(self)@.1
            },
            r is None ==> first_named(old(self)@.0, name@, 0) == -1 && final(self)@ == old(self)@,
    {
        let mut i: usize = 0;
        while i < self.installed.len()
            invariant
                i <= self.installed@.len(),
                *self == *old(self),
                first_named(self@.0, name@, 0) == first_named(self@.0, name@, i as int),
            decreases self.installed@.len() - i,
        {
            if str_eq(self.installed[i].name_str(), name) {
                proof {
                    assert(first_named(self@.0, name@, i as int) == i);
                    assert forall|x: Package|
                        (#[trigger] self.installed@.update(i as int, x)).map_values(
                            |p: Package| pkg_view(p),
                        ) == self@.0.update(i as int, pkg_view(x)) by {
                        assert(self.installed@.update(i as int, x).map_values(
                            |p: Package| pkg_view(p),
                        ) =~= self@.0.update(i as int, pkg_view(x)));
                    }
                }
                return Some(&mut self.installed[i]);
            }
            i = i + 1;
        }
        None
    }

    fn is_installed(&self, name: &str) -> (r: bool)
        ensures
            r == is_installed_in(self@.0, name@),
    {
        match self.installed_index(name) {
            Some(_) => true,
            None => false,
        }
    }

    /// Index of the first installed package named `name`.
    fn installed_index(&self, name: &str) -> (r: Option<usize>)
        ensures
            r matches Some(i) ==> i as int == first_installed_from(self@.0, name@, 0) && i
                < self@.0.len(),
            r is None ==> first_installed_from(self@.0, name@, 0) == -1,
            r is Some == is_installed_in(self@.0, name@),
    {
        let mut i: usize = 0;
        while i < self.installed.len()
            invariant
                i <= self.installed@.len(),
                first_installed_from(self@.0, name@, 0) == first_installed_from(
                    self@.0,
                    name@,
                    i as int,
                ),
                forall|j: int| 0 <= j < i ==> !installed_as(#[trigger] self@.0[j], name@),
            decreases self.installed@.len() - i,
        {
            let p = &self.installed[i];
            if str_eq(p.name_str(), name) && p.state == InstallState::Installed {
                assert(installed_as(self@.0[i as int], name@));
                return Some(i);
            }
            i = i + 1;
        }
        None
    }

    /// Whether `pkg` is in the catalogue.
    fn is_available(&self, pkg: &str) -> (r: bool)
        ensures
            r == self@.1.contains(pkg@),
    {
        let mut i: usize = 0;
        while i < self.available.len()
            invariant
                i <= self.available@.len(),
                forall|j: int| 0 <= j < i ==> self@.1[j] != pkg@,
            decreases self.available@.len() - i,
        {
            if str_eq(self.available[i].as_str(), pkg) {
                assert(self@.1[i as int] == pkg@);
                return true;
            }
            i = i + 1;
        }
        false
    }
}

/// Index of the first package from index `i` on named `name`, or -1.
pub open spec fn first_named(ps: Seq<PkgView>, name: Seq<char>, i: int) -> int
    decreases ps.len() - i,
{
    if i < 0 || i >= ps.len() {
        -1
    } else if buffer_text_chars(ps[i].0) == name {
        i
    } else {
        first_named(ps, name, i + 1)
    }
}

impl Default for LocalPkgManager {
    fn default() -> (r: Self)
        ensures
            r@ == (Seq::<PkgView>::empty(), catalogue()),
    {
        Self::new()
    }
}

impl PackageManagerPort for LocalPkgManager {
    open spec fn install_spec(m: Self::V, pkg: Seq<char>) -> (Self::V, Result<(), PkgError>) {
        if !m.1.contains(pkg) {
            (m, Err(PkgError::NotFound))
        } else if is_installed_in(m.0, pkg) {
            (m, Ok(()))
        } else {
            ((m.0.push(fresh_package(pkg)), m.1), Ok(()))
        }
    }

    open spec fn remove_spec(m: Self::V, pkg: Seq<char>) -> (Self::V, Result<(), PkgError>) {
        let i = first_installed_from(m.0, pkg, 0);
        if i >= 0 {
            ((m.0.remove(i), m.1), Ok(()))
        } else {
            (m, Err(PkgError::NotFound))
        }
    }

    open spec fn list_installed_spec(m: Self::V) -> Seq<Seq<char>> {
        installed_labels(m.0)
    }

    open spec fn update_all_spec(m: Self::V) -> (Self::V, Result<(), PkgError>) {
        (
            (
                m.0.map_values(
                    |p: PkgView|
                        if p.3 == InstallState::Installed {
                            (p.0, bumped_version(p.1), p.2, p.3)
                        } else {
                            p
                        },
                ),
                m.1,
            ),
            Ok(()),
        )
    }

    fn install(&mut self, pkg: &str) -> (r: Result<(), PkgError>) {
        if !self.is_available(pkg) {
            return Err(PkgError::NotFound);
        }
        if self.is_installed(pkg) {
            // Already installed — idempotent success.
            return Ok(());
        }
        let mut package = Package::new(pkg, "1.0.0", true);
        package.state = InstallState::Installing;
        // Simulate successful installation.
        package.state = InstallState::Installed;
        let ghost before = self.installed@;
        self.installed.push(package);
        assert(self@.0 =~= before.map_values(|p: Package| pkg_view(p)).push(fresh_package(pkg@)));
        Ok(())
    }

    fn remove(&mut self, pkg: &str) -> (r: Result<(), PkgError>) {
        match self.installed_index(pkg) {
            Some(i) => {
                let ghost before = self.installed@;
                self.installed.remove(i);
                assert(self@.0 =~= before.map_values(|p: Package| pkg_view(p)).remove(i as int));
                Ok(())
            },
            None => Err(PkgError::NotFound),
        }
    }

    fn list_installed(&self) -> (r: Vec<String>) {
        let ghost ps = self@.0;
        let mut out: Vec<String> = Vec::new();
        let mut i: usize = 0;
        while i < self.installed.len()
            invariant
                ps == self@.0,
                i <= ps.len(),
                names_view(out) =~= installed_labels(ps.take(i as int)),
            decreases ps.len() - i,
        {
            let p = &self.installed[i];
            assert(ps.take(i + 1).drop_last() =~= ps.take(i as int));
            if p.state == InstallState::Installed {
                let ghost before = out@;
                let mut label = String::from_str(p.name_str());
                label.append(" (");
                label.append(p.version_str());
                label.append(")");
                out.push(label);
                assert(out@ =~= before.push(out@[i as int - 0 - (i as int - before.len())]));
            }
            i = i + 1;
        }
        assert(ps.take(ps.len() as int) =~= ps);
        out
    }

    fn update_all(&mut self) -> (r: Result<(), PkgError>) {
        let ghost ps = self@.0;
        let mut i: usize = 0;
        while i < self.installed.len()
            invariant
                ps.len() == self@.0.len(),
                i <= ps.len(),
                forall|j: int|
                    0 <= j < i ==> #[trigger] self@.0[j] == (if ps[j].3 == InstallState::Installed {
                        (ps[j].0, bumped_version(ps[j].1), ps[j].2, ps[j].3)
                    } else {
                        ps[j]
                    }),
                forall|j: int| i <= j < ps.len() ==> #[trigger] self@.0[j] == ps[j],
                self@.1 == old(self)@.1,
                ps == old(self)@.0,
            decreases ps.len() - i,
        {
            if self.installed[i].state == InstallState::Installed {
                let mut p = self.installed[i].clone_package();
                assert(self@.0[i as int] == pkg_view(self.installed@[i as int]));
                assert(p.version@ == ps[i as int].1);
                p.version[0] = 49;
                p.version[1] = 46;
                p.version[2] = 48;
                p.version[3] = 46;
                p.version[4] = 49;
                p.version[5] = 0;
                assert(p.version@ =~= bumped_version(ps[i as int].1));
                let ghost before = self.installed@;
                let ghost before_view = self@.0;
                self.installed.set(i, p);
                assert(self.installed@ =~= before.update(i as int, p));
                assert forall|j: int| 0 <= j < ps.len() && j != i implies #[trigger] self@.0[j]
                    == before_view[j] by {
                    assert(self.installed@[j] == before[j]);
                    assert(self@.0[j] == pkg_view(self.installed@[j]));
                    assert(before_view[j] == pkg_view(before[j]));
                }
                assert(self@.0[i as int] == pkg_view(p));
            }
            i = i + 1;
        }
        assert(self@.0 =~= ps.map_values(
            |p: PkgView|
                if p.3 == InstallState::Installed {
                    (p.0, bumped_version(p.1), p.2, p.3)
                } else {
                    p
                },
        ));
        Ok(())
    }
}


/// A package name that a name buffer holds whole: at most 63 UTF-8 bytes,
/// none of them zero.
pub open spec fn fits_name_buffer(name: Seq<char>) -> bool {
    &&& encode_utf8(name).len() <= 63
    &&& forall|i: int| 0 <= i < encode_utf8(name).len() ==> encode_utf8(name)[i] != 0
}

proof fn lemma_fresh_installed(name: Seq<char>)
    requires
        fits_name_buffer(name),
    ensures
        installed_as(fresh_package(name), name),
{
    law_name_buffer_round_trip(name, 63, 64);
    encode_utf8_decode_utf8(name);
}

proof fn lemma_first_installed_last(s: Seq<PkgView>, name: Seq<char>, i: int)
    requires
        0 <= i < s.len(),
        installed_as(s.last(), name),
        forall|j: int| i <= j < s.len() - 1 ==> !installed_as(#[trigger] s[j], name),
    ensures
        first_installed_from(s, name, i) == s.len() - 1,
    decreases s.len() - i,
{
    if i < s.len() - 1 {
        lemma_first_installed_last(s, name, i + 1);
    }
}

/// Installing is idempotent: installing a package a second time succeeds
/// and changes nothing (for names that a name buffer holds whole).
pub proof fn law_install_idempotent(m: (Seq<PkgView>, Seq<Seq<char>>), pkg: Seq<char>)
    requires
        fits_name_buffer(pkg),
    ensures
        LocalPkgManager::install_spec(m, pkg).1 is Ok ==> LocalPkgManager::install_spec(
            LocalPkgManager::install_spec(m, pkg).0,
            pkg,
        ) == (LocalPkgManager::install_spec(m, pkg).0, Ok::<(), PkgError>(())),
{
    if m.1.contains(pkg) && !is_installed_in(m.0, pkg) {
        let s1 = m.0.push(fresh_package(pkg));
        lemma_fresh_installed(pkg);
        assert(installed_as(s1[s1.len() - 1], pkg));
    }
}

/// Removing a package that was just installed gives back the packages from
/// before the install, and so the same list of installed packages.
pub proof fn law_remove_undoes_install(m: (Seq<PkgView>, Seq<Seq<char>>), pkg: Seq<char>)
    requires
        fits_name_buffer(pkg),
        m.1.contains(pkg),
        !is_installed_in(m.0, pkg),
    ensures
        LocalPkgManager::remove_spec(LocalPkgManager::install_spec(m, pkg).0, pkg) == (
            m,
            Ok::<(), PkgError>(()),
        ),
        LocalPkgManager::install_spec(m, pkg).1 == Ok::<(), PkgError>(()),
        LocalPkgManager::list_installed_spec(
            LocalPkgManager::remove_spec(LocalPkgManager::install_spec(m, pkg).0, pkg).0,
        ) == LocalPkgManager::list_installed_spec(m),
{
    let s1 = m.0.push(fresh_package(pkg));
    lemma_fresh_installed(pkg);
    assert forall|j: int| 0 <= j < s1.len() - 1 implies !installed_as(#[trigger] s1[j], pkg) by {
        assert(s1[j] == m.0[j]);
    }
    lemma_first_installed_last(s1, pkg, 0);
    assert(s1.remove(m.0.len() as int) =~= m.0);
}

/// Updating keeps every package, its name, signature flag and state, and
/// the catalogue; installed packages get version `1.0.1`.
pub proof fn law_update_keeps_packages(m: (Seq<PkgView>, Seq<Seq<char>>))
    ensures
        LocalPkgManager::update_all_spec(m).0.0.len() == m.0.len(),
        LocalPkgManager::update_all_spec(m).0.1 == m.1,
        forall|i: int|
            0 <= i < m.0.len() ==> {
                let p = #[trigger] LocalPkgManager::update_all_spec(m).0.0[i];
                &&& p.0 == m.0[i].0
                &&& p.2 == m.0[i].2
                &&& p.3 == m.0[i].3
                &&& p.3 == InstallState::Installed ==> p.1 == bumped_version(m.0[i].1)
            },
{
}

proof fn lemma_labels_concat(a: Seq<PkgView>, b: Seq<PkgView>)
    ensures
        installed_labels(a + b) == installed_labels(a) + installed_labels(b),
    decreases b.len(),
{
    if b.len() == 0 {
        assert(a + b =~= a);
        assert(installed_labels(a) + installed_labels(b) =~= installed_labels(a));
    } else {
        assert((a + b).drop_last() =~= a + b.drop_last());
        assert((a + b).last() == b.last());
        lemma_labels_concat(a, b.drop_last());
        if b.last().3 == InstallState::Installed {
            assert(installed_labels(a) + installed_labels(b) =~= (installed_labels(a)
                + installed_labels(b.drop_last())).push(package_label(b.last())));
        }
    }
}

proof fn lemma_first_installed_from(ps: Seq<PkgView>, name: Seq<char>, i: int)
    requires
        0 <= i,
    ensures
        first_installed_from(ps, name, i) == -1 || (i <= first_installed_from(ps, name, i) < ps.len()
            && installed_as(ps[first_installed_from(ps, name, i)], name)),
        first_installed_from(ps, name, i) == -1 ==> forall|j: int|
            i <= j < ps.len() ==> !installed_as(#[trigger] ps[j], name),
    decreases ps.len() - i,
{
    if i < ps.len() && !installed_as(ps[i], name) {
        lemma_first_installed_from(ps, name, i + 1);
        assert forall|j: int| i <= j < ps.len() && first_installed_from(ps, name, i) == -1
            implies !installed_as(#[trigger] ps[j], name) by {
            if j > i {
            }
        }
    }
}

/// Removing succeeds exactly when a package of that name is installed. On
/// success the list of installed packages loses exactly the label of the
/// first such package (`name (version)`), the others keeping their order;
/// on failure nothing changes.
pub proof fn law_remove_drops_label(m: (Seq<PkgView>, Seq<Seq<char>>), pkg: Seq<char>)
    ensures
        LocalPkgManager::remove_spec(m, pkg).1 is Ok <==> is_installed_in(m.0, pkg),
        LocalPkgManager::remove_spec(m, pkg).1 is Err ==> LocalPkgManager::remove_spec(m, pkg).0
            == m,
        ({
            let i = first_installed_from(m.0, pkg, 0);
            let l = LocalPkgManager::list_installed_spec(m);
            let c = installed_labels(m.0.take(i)).len() as int;
            LocalPkgManager::remove_spec(m, pkg).1 is Ok ==> {
                &&& 0 <= c < l.len()
                &&& l[c] == package_label(m.0[i])
                &&& buffer_text_chars(m.0[i].0) == pkg
                &&& LocalPkgManager::list_installed_spec(LocalPkgManager::remove_spec(m, pkg).0)
                    == l.remove(c)
            }
        }),
{
    let ps = m.0;
    let i = first_installed_from(ps, pkg, 0);
    lemma_first_installed_from(ps, pkg, 0);
    if i >= 0 {
        let a = ps.take(i);
        let b = ps.skip(i + 1);
        let x = seq![ps[i]];
        assert(ps =~= a + x + b);
        assert(ps.remove(i) =~= a + b);
        lemma_labels_concat(a + x, b);
        lemma_labels_concat(a, x);
        lemma_labels_concat(a, b);
        assert(x.drop_last() =~= Seq::<PkgView>::empty());
        assert(x.last() == ps[i]);
        assert(ps[i].3 == InstallState::Installed);
        assert(installed_labels(x.drop_last()) == Seq::<Seq<char>>::empty());
        assert(installed_labels(x) =~= seq![package_label(ps[i])]);
        let la = installed_labels(a);
        let lb = installed_labels(b);
        assert((la + seq![package_label(ps[i])] + lb).remove(la.len() as int) =~= la + lb);
    } else {
        assert(!is_installed_in(ps, pkg));
    }
}

/// A version buffer after an update reads as `1.0.1`.
pub proof fn law_bumped_version_reads(v: Seq<u8>)
    requires
        v.len() >= 6,
    ensures
        buffer_text_chars(bumped_version(v)) == "1.0.1"@,
{
    let b = bumped_version(v);
    reveal_strlit("1.0.1");
    assert(b[0] == 49u8 && b[1] == 46u8 && b[2] == 48u8 && b[3] == 46u8 && b[4] == 49u8
        && b[5] == 0u8);
    assert(nul_from(b, 0) == 5) by {
        reveal_with_fuel(nul_from, 7);
    }
    let t = "1.0.1"@;
    assert(is_ascii_chars(t));
    is_ascii_chars_encode_utf8(t);
    assert(t[0] == '1' && t[1] == '.' && t[2] == '0' && t[3] == '.' && t[4] == '1');
    assert(buffer_text_bytes(b) =~= encode_utf8(t));
    encode_utf8_valid_utf8(t);
    encode_utf8_decode_utf8(t);
}

} // verus!
