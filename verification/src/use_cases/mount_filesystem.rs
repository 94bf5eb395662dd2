use vstd::prelude::*;
use vstd::utf8::*;
use crate::infrastructure::fs::{law_read_after_write, law_write_keeps_other_paths, RamdiskAdapter};
use crate::ports::filesystem::{FileSystemPort, FsError};

verus! {

/// The root-level sentinel directories that mounting creates.
pub open spec fn mount_dirs() -> Seq<Seq<char>> {
    seq!["/"@, "/bin"@, "/etc"@, "/home"@, "/tmp"@, "/var"@]
}

/// Mounting `dirs` in order on state `m`: each missing directory is written
/// empty; the first failing write stops the run with its error.
pub open spec fn mount_run<F: FileSystemPort>(m: F::V, dirs: Seq<Seq<char>>) -> (F::V, Result<
    (),
    FsError,
>)
    decreases dirs.len(),
{
    if dirs.len() == 0 {
        (m, Ok(()))
    } else if F::exists_spec(m, dirs[0]) {
        mount_run::<F>(m, dirs.drop_first())
    } else {
        let w = F::write_spec(m, dirs[0], Seq::empty());
        if w.1 is Err {
            w
        } else {
            mount_run::<F>(w.0, dirs.drop_first())
        }
    }
}

/// The directories among `dirs` that mounting them in order on state `m`
/// writes: those missing when their turn comes.
pub open spec fn mount_created<F: FileSystemPort>(m: F::V, dirs: Seq<Seq<char>>) -> Seq<Seq<char>>
    decreases dirs.len(),
{
    if dirs.len() == 0 {
        Seq::empty()
    } else if F::exists_spec(m, dirs[0]) {
        mount_created::<F>(m, dirs.drop_first())
    } else {
        seq![dirs[0]] + mount_created::<F>(F::write_spec(m, dirs[0], Seq::empty()).0, dirs.drop_first())
    }
}

/// Use-case: mount (initialise) a filesystem by writing sentinel entries.
pub struct MountFilesystem<F: FileSystemPort> {
    fs: F,
}

impl<F: FileSystemPort> MountFilesystem<F> {
    /// The filesystem adapter this use-case drives.
    pub closed spec fn port(&self) -> F {
        self.fs
    }

    pub fn new(fs: F) -> (r: Self)
        ensures
            r.port() == fs,
    {
        MountFilesystem { fs }
    }

    /// Initialise the filesystem with root-level sentinel directories.
    /// Returns the list of paths that were created.
    pub fn execute(&mut self) -> (r: Result<Vec<&'static str>, FsError>)
        ensures
            final(self).port()@ == mount_run::<F>(old(self).port()@, mount_dirs()).0,
            r is Ok == mount_run::<F>(old(self).port()@, mount_dirs()).1 is Ok,
            r matches Err(e) ==> mount_run::<F>(old(self).port()@, mount_dirs()).1 == Err::<
                (),
                FsError,
            >(e),
            r matches Ok(v) ==> v@.map_values(|s: &str| s@) == mount_created::<F>(
                old(self).port()@,
                mount_dirs(),
            ),
    {
        let dirs: [&'static str; 6] = ["/", "/bin", "/etc", "/home", "/tmp", "/var"];
        let empty: Vec<u8> = Vec::new();
        let ghost target = mount_run::<F>(old(self).fs@, mount_dirs());
        let ghost created = mount_created::<F>(old(self).fs@, mount_dirs());
        assert(dirs@.map_values(|s: &str| s@) =~= mount_dirs());
        let mut out: Vec<&'static str> = Vec::new();
        let mut i: usize = 0;
        assert(mount_dirs().skip(0) =~= mount_dirs());
        assert(out@.map_values(|s: &str| s@) + created =~= created);
        while i < 6
            invariant
                i <= 6,
                dirs@.map_values(|s: &str| s@) == mount_dirs(),
                empty@ == Seq::<u8>::empty(),
                target == mount_run::<F>(old(self).fs@, mount_dirs()),
                target == mount_run::<F>(self.fs@, mount_dirs().skip(i as int)),
                created == mount_created::<F>(old(self).fs@, mount_dirs()),
                created == out@.map_values(|s: &str| s@) + mount_created::<F>(
                    self.fs@,
                    mount_dirs().skip(i as int),
                ),
            decreases 6 - i,
        {
            let dir = dirs[i];
            assert(mount_dirs()[i as int] == dir@);
            assert(mount_dirs().skip(i as int).drop_first() =~= mount_dirs().skip(i + 1));
            if !self.fs.path_exists(dir) {
                // Write an empty marker so the directory is visible via list().
                let ghost before = out@;
                let ghost m = self.fs@;
                match self.fs.write(dir, empty.as_slice()) {
                    Ok(()) => {
                        out.push(dir);
                        assert(out@.map_values(|s: &str| s@) =~= before.map_values(|s: &str| s@).push(
                            dir@,
                        ));
                        assert(out@.map_values(|s: &str| s@) + mount_created::<F>(
                            self.fs@,
                            mount_dirs().skip(i + 1),
                        ) =~= before.map_values(|s: &str| s@) + (seq![dir@] + mount_created::<F>(
                            self.fs@,
                            mount_dirs().skip(i + 1),
                        )));
                    },
                    Err(e) => {
                        return Err(e);
                    },
                }
            }
            i = i + 1;
        }
        Ok(out)
    }

    pub fn fs(&self) -> (r: &F)
        ensures
            *r == self.port(),
    {
        &self.fs
    }

    pub fn fs_mut(&mut self) -> (r: &mut F)
        ensures
            *r == old(self).port(),
            final(self).port() == *final(r),
    {
        &mut self.fs
    }
}

/// On the ramdisk, mounting the directories `dirs` in order succeeds, makes
/// each of them exist, and keeps every stored path with its contents.
proof fn lemma_mount_ramdisk(m: Map<Seq<u8>, Seq<u8>>, dirs: Seq<Seq<char>>)
    ensures
        mount_run::<RamdiskAdapter>(m, dirs).1 is Ok,
        forall|i: int|
            0 <= i < dirs.len() ==> RamdiskAdapter::exists_spec(
                mount_run::<RamdiskAdapter>(m, dirs).0,
                #[trigger] dirs[i],
            ),
        forall|k: Seq<u8>|
            #[trigger] m.contains_key(k) ==> mount_run::<RamdiskAdapter>(m, dirs).0.contains_key(k)
                && mount_run::<RamdiskAdapter>(m, dirs).0[k] == m[k],
    decreases dirs.len(),
{
    if dirs.len() > 0 {
        let rest = dirs.drop_first();
        if RamdiskAdapter::exists_spec(m, dirs[0]) {
            lemma_mount_ramdisk(m, rest);
            assert forall|i: int| 0 <= i < dirs.len() implies RamdiskAdapter::exists_spec(
                mount_run::<RamdiskAdapter>(m, dirs).0,
                #[trigger] dirs[i],
            ) by {
                if i > 0 {
                    assert(dirs[i] == rest[i - 1]);
                }
            }
        } else {
            let w = RamdiskAdapter::write_spec(m, dirs[0], Seq::empty());
            lemma_mount_ramdisk(w.0, rest);
            law_read_after_write(m, dirs[0], Seq::empty());
            assert forall|k: Seq<u8>| #[trigger] m.contains_key(k) implies w.0.contains_key(k)
                && w.0[k] == m[k] by {
                law_write_keeps_other_paths(m, dirs[0], Seq::empty(), k);
            }
            assert forall|i: int| 0 <= i < dirs.len() implies RamdiskAdapter::exists_spec(
                mount_run::<RamdiskAdapter>(m, dirs).0,
                #[trigger] dirs[i],
            ) by {
                if i > 0 {
                    assert(dirs[i] == rest[i - 1]);
                } else {
                    assert(w.0.contains_key(encode_utf8(dirs[0])));
                }
            }
        }
    }
}

/// Mounting directories that all exist already changes nothing.
proof fn lemma_mount_present(m: Map<Seq<u8>, Seq<u8>>, dirs: Seq<Seq<char>>)
    requires
        forall|i: int| 0 <= i < dirs.len() ==> RamdiskAdapter::exists_spec(m, #[trigger] dirs[i]),
    ensures
        mount_run::<RamdiskAdapter>(m, dirs) == (m, Ok::<(), FsError>(())),
    decreases dirs.len(),
{
    if dirs.len() > 0 {
        let rest = dirs.drop_first();
        assert(RamdiskAdapter::exists_spec(m, dirs[0]));
        assert forall|i: int| 0 <= i < rest.len() implies RamdiskAdapter::exists_spec(
            m,
            #[trigger] rest[i],
        ) by {
            assert(rest[i] == dirs[i + 1]);
        }
        lemma_mount_present(m, rest);
    }
}

/// Mounting the ramdisk succeeds; afterwards each sentinel directory exists,
/// every path stored before keeps its contents, and mounting again changes
/// nothing.
pub proof fn law_mount_creates_dirs(m: Map<Seq<u8>, Seq<u8>>)
    ensures
        mount_run::<RamdiskAdapter>(m, mount_dirs()).1 is Ok,
        forall|i: int|
            0 <= i < mount_dirs().len() ==> RamdiskAdapter::exists_spec(
                mount_run::<RamdiskAdapter>(m, mount_dirs()).0,
                #[trigger] mount_dirs()[i],
            ),
        forall|k: Seq<u8>|
            #[trigger] m.contains_key(k) ==> mount_run::<RamdiskAdapter>(m, mount_dirs()).0.contains_key(
                k,
            ) && mount_run::<RamdiskAdapter>(m, mount_dirs()).0[k] == m[k],
        mount_run::<RamdiskAdapter>(mount_run::<RamdiskAdapter>(m, mount_dirs()).0, mount_dirs())
            == (mount_run::<RamdiskAdapter>(m, mount_dirs()).0, Ok::<(), FsError>(())),
{
    lemma_mount_ramdisk(m, mount_dirs());
    lemma_mount_present(mount_run::<RamdiskAdapter>(m, mount_dirs()).0, mount_dirs());
}

proof fn lemma_mount_created_empty(m: Map<Seq<u8>, Seq<u8>>, dirs: Seq<Seq<char>>)
    ensures
        forall|i: int|
            0 <= i < mount_created::<RamdiskAdapter>(m, dirs).len() ==> RamdiskAdapter::read_spec(
                mount_run::<RamdiskAdapter>(m, dirs).0,
                #[trigger] mount_created::<RamdiskAdapter>(m, dirs)[i],
            ) == Ok::<Seq<u8>, FsError>(Seq::empty()),
    decreases dirs.len(),
{
    if dirs.len() > 0 {
        let rest = dirs.drop_first();
        if RamdiskAdapter::exists_spec(m, dirs[0]) {
            lemma_mount_created_empty(m, rest);
        } else {
            let w = RamdiskAdapter::write_spec(m, dirs[0], Seq::empty());
            lemma_mount_created_empty(w.0, rest);
            lemma_mount_ramdisk(w.0, rest);
            law_read_after_write(m, dirs[0], Seq::empty());
            let c = mount_created::<RamdiskAdapter>(m, dirs);
            let c1 = mount_created::<RamdiskAdapter>(w.0, rest);
            assert(c == seq![dirs[0]] + c1);
            assert forall|i: int| 0 <= i < c.len() implies RamdiskAdapter::read_spec(
                mount_run::<RamdiskAdapter>(m, dirs).0,
                #[trigger] c[i],
            ) == Ok::<Seq<u8>, FsError>(Seq::empty()) by {
                if i == 0 {
                    assert(w.0.contains_key(encode_utf8(dirs[0])));
                } else {
                    assert(c[i] == c1[i - 1]);
                }
            }
        }
    }
}

/// Every directory that mounting the ramdisk creates is stored as an empty
/// marker: reading it gives no bytes.
pub proof fn law_mount_creates_empty_markers(m: Map<Seq<u8>, Seq<u8>>)
    ensures
        forall|d: Seq<char>|
            #[trigger] mount_created::<RamdiskAdapter>(m, mount_dirs()).contains(d)
                ==> RamdiskAdapter::read_spec(mount_run::<RamdiskAdapter>(m, mount_dirs()).0, d)
                == Ok::<Seq<u8>, FsError>(Seq::empty()),
{
    lemma_mount_created_empty(m, mount_dirs());
}

} // verus!
