//! The table of file descriptors.

use dashmap::DashMap;
use vstd::prelude::*;

use crate::api::rights::{HandleRights, OpenFile};
use crate::api::types::Errno;

verus! {

/// A file that is open under a descriptor.
#[derive(Clone, Copy, PartialEq, Eq, Structural, Debug)]
pub struct Descriptor {
    pub fd: i32,
    /// The root that the descriptor was opened for from the start.
    pub preopen: Option<usize>,
    pub file: OpenFile,
    /// The rights of the descriptor, which may be fewer than the file gives.
    pub rights: HandleRights,
}

/// A directory that is open from the start, under its path.
pub struct Root {
    pub path: String,
    pub file: OpenFile,
}

#[derive(Clone, Copy, PartialEq, Eq, Structural, Debug)]
pub enum InitError {
    /// There are more roots than file descriptors.
    TooManyRoots,
}

#[derive(Clone, Copy, PartialEq, Eq, Structural, Debug)]
pub enum InjectFdError {
    /// The supplied file descriptor already exists.
    AlreadyExists,
    /// There are no file descriptors left.
    TooManyFiles,
}

/// The concurrent map of the `dashmap` crate.
#[verifier::external_type_specification]
#[verifier::external_body]
#[verifier::reject_recursive_types(K)]
#[verifier::reject_recursive_types(V)]
#[verifier::reject_recursive_types(S)]
pub struct ExDashMap<K, V, S>(DashMap<K, V, S>);

/// The descriptors that a map holds.
pub uninterp spec fn descriptors_in(table: DashMap<i32, Descriptor>) -> Map<i32, Descriptor>;

/// `DashMap::new` gives a map that holds nothing.
#[verifier::external_body]
fn table_new() -> (r: DashMap<i32, Descriptor>)
    ensures
        forall|fd: i32| !descriptors_in(r).contains_key(fd),
{
    DashMap::new()
}

/// `DashMap::get` gives what the map holds under a key.
#[verifier::external_body]
fn table_get(table: &DashMap<i32, Descriptor>, fd: i32) -> (r: Option<Descriptor>)
    ensures
        r == if descriptors_in(*table).contains_key(fd) {
            Some(descriptors_in(*table)[fd])
        } else {
            None
        },
{
    table.get(&fd).map(|d| *d)
}

/// `DashMap::insert` puts a value under a key, in place of what was there.
#[verifier::external_body]
fn table_insert(table: &mut DashMap<i32, Descriptor>, fd: i32, d: Descriptor)
    ensures
        descriptors_in(*final(table)) == descriptors_in(*old(table)).insert(fd, d),
{
    table.insert(fd, d);
}

/// `DashMap::remove` takes out what is under a key, and gives it.
#[verifier::external_body]
fn table_remove(table: &mut DashMap<i32, Descriptor>, fd: i32) -> (r: Option<Descriptor>)
    ensures
        descriptors_in(*final(table)) == descriptors_in(*old(table)).remove(fd),
        r == if descriptors_in(*old(table)).contains_key(fd) {
            Some(descriptors_in(*old(table))[fd])
        } else {
            None
        },
{
    table.remove(&fd).map(|(_, d)| d)
}

/// The open files of a process.
pub struct SubSystem {
    roots: Vec<Root>,
    fds: DashMap<i32, Descriptor>,
    highest_fd: i32,
}

/// The descriptor of a root.
pub open spec fn root_descriptor(roots: Seq<Root>, i: int) -> Descriptor {
    Descriptor {
        fd: (3 + i) as i32,
        preopen: Some(i as usize),
        file: roots[i].file,
        rights: roots[i].file.rights,
    }
}

/// The descriptors of the first `n` roots, from three on.
pub open spec fn root_descriptors(roots: Seq<Root>, n: nat) -> Map<i32, Descriptor> {
    Map::new(|fd: i32| 3 <= fd < 3 + n, |fd: i32| root_descriptor(roots, fd - 3))
}

impl SubSystem {
    /// The descriptors in use.
    pub closed spec fn fds(self) -> Map<i32, Descriptor> {
        descriptors_in(self.fds)
    }

    /// The descriptor that was given out last.
    pub closed spec fn highest_fd(self) -> i32 {
        self.highest_fd
    }

    pub closed spec fn roots(self) -> Seq<Root> {
        self.roots@
    }

    /// Every descriptor is kept under its own number, and its root exists.
    pub open spec fn wf(self) -> bool {
        forall|fd: i32| #[trigger]
            self.fds().contains_key(fd) ==> self.fds()[fd].fd == fd && match self.fds()[fd].preopen {
                Some(i) => i < self.roots().len(),
                None => true,
            }
    }

    /// Opens a descriptor for each root, from three on.
    pub fn new(roots: Vec<Root>) -> (r: Result<SubSystem, InitError>)
        ensures
            match r {
                Ok(s) => {
                    &&& roots@.len() <= i32::MAX - 2
                    &&& s.wf()
                    &&& s.roots() == roots@
                    &&& s.fds() == root_descriptors(roots@, roots@.len())
                    &&& s.highest_fd() == 2 + roots@.len()
                },
                Err(InitError::TooManyRoots) => roots@.len() > i32::MAX - 2,
            },
    {
        let mut s = SubSystem { roots, fds: table_new(), highest_fd: 2 };
        assert(s.fds() =~= root_descriptors(s.roots@, 0));
        let mut i: usize = 0;
        while i < s.roots.len()
            invariant
                s.roots@ == roots@,
                i <= roots@.len(),
                s.highest_fd == 2 + i,
                s.fds() == root_descriptors(roots@, i as nat),
            decreases roots@.len() - i,
        {
            let fd: i32 = match s.acquire_fd() {
                Some(fd) => fd,
                None => {
                    return Err(InitError::TooManyRoots);
                },
            };
            let file = s.roots[i].file;
            let d = Descriptor { fd, preopen: Some(i), file, rights: file.rights };
            let ghost before = s.fds();
            table_insert(&mut s.fds, fd, d);
            i += 1;
            assert(s.fds() =~= before.insert(fd, d));
            assert(before.insert(fd, d) =~= root_descriptors(roots@, i as nat));
        }
        Ok(s)
    }

    /// The descriptor with a number.
    pub fn get_descriptor(&self, fd: i32) -> (r: Option<Descriptor>)
        ensures
            r == if self.fds().contains_key(fd) {
                Some(self.fds()[fd])
            } else {
                None
            },
    {
        table_get(&self.fds, fd)
    }

    /// The path of a root.
    pub fn root_path(&self, i: usize) -> (r: String)
        requires
            i < self.roots().len(),
        ensures
            r@ == self.roots()[i as int].path@,
    {
        self.roots[i].path.clone()
    }

    /// Gives out the next number. Numbers are never given out again.
    fn acquire_fd(&mut self) -> (r: Option<i32>)
        ensures
            final(self).fds == old(self).fds,
            final(self).roots == old(self).roots,
            match r {
                Some(fd) => fd == old(self).highest_fd + 1 && final(self).highest_fd == fd,
                None => old(self).highest_fd == i32::MAX && final(self).highest_fd == i32::MAX,
            },
    {
        if self.highest_fd == i32::MAX {
            None
        } else {
            self.highest_fd = self.highest_fd + 1;
            Some(self.highest_fd)
        }
    }

    /// Opens a descriptor for a file, with the rights that the file gives, or those of them that
    /// are asked for.
    pub fn new_descriptor(&mut self, file: OpenFile, restricted_rights: Option<HandleRights>) -> (r:
        Result<i32, Errno>)
        requires
            old(self).wf(),
        ensures
            final(self).wf(),
            final(self).roots() == old(self).roots(),
            match r {
                Ok(fd) => {
                    &&& fd == old(self).highest_fd() + 1
                    &&& final(self).highest_fd() == fd
                    &&& final(self).fds() == old(self).fds().insert(
                        fd,
                        Descriptor {
                            fd,
                            preopen: None,
                            file,
                            rights: match restricted_rights {
                                Some(rights) => rights.common(file.rights),
                                None => file.rights,
                            },
                        },
                    )
                },
                Err(e) => {
                    &&& e == Errno::Mfile
                    &&& old(self).highest_fd() == i32::MAX
                    &&& final(self).highest_fd() == i32::MAX
                    &&& final(self).fds() == old(self).fds()
                },
            },
    {
        let fd: i32 = match self.acquire_fd() {
            Some(fd) => fd,
            None => {
                return Err(Errno::Mfile);
            },
        };
        let rights = match restricted_rights {
            Some(rights) => rights.bitand(&file.rights),
            None => file.rights,
        };
        table_insert(&mut self.fds, fd, Descriptor { fd, preopen: None, file, rights });
        Ok(fd)
    }

    /// Closes a descriptor. Whether there was one.
    #[must_use]
    pub fn close(&mut self, fd: i32) -> (r: bool)
        requires
            old(self).wf(),
        ensures
            final(self).wf(),
            final(self).roots() == old(self).roots(),
            final(self).highest_fd() == old(self).highest_fd(),
            r == old(self).fds().contains_key(fd),
            final(self).fds() == old(self).fds().remove(fd),
    {
        table_remove(&mut self.fds, fd).is_some()
    }

    /// Opens a descriptor for a file under the number `fd`, or under the next one.
    pub fn inject_fd(&mut self, file: OpenFile, fd: Option<i32>) -> (r: Result<i32, InjectFdError>)
        requires
            old(self).wf(),
        ensures
            final(self).wf(),
            final(self).roots() == old(self).roots(),
            final(self).highest_fd() == if fd is None && old(self).highest_fd() < i32::MAX {
                old(self).highest_fd() + 1
            } else {
                old(self).highest_fd() as int
            },
            ({
                let wanted = match fd {
                    Some(fd) => fd as int,
                    None => old(self).highest_fd() + 1,
                };
                match r {
                    Ok(n) => {
                        &&& n == wanted
                        &&& !old(self).fds().contains_key(n)
                        &&& final(self).fds() == old(self).fds().insert(
                            n,
                            Descriptor { fd: n, preopen: None, file, rights: file.rights },
                        )
                    },
                    Err(e) => {
                        &&& final(self).fds() == old(self).fds()
                        &&& e == if wanted > i32::MAX {
                            InjectFdError::TooManyFiles
                        } else {
                            InjectFdError::AlreadyExists
                        }
                        &&& wanted <= i32::MAX ==> old(self).fds().contains_key(wanted as i32)
                    },
                }
            }),
    {
        let fd: i32 = match fd {
            Some(fd) => fd,
            None => match self.acquire_fd() {
                Some(fd) => fd,
                None => {
                    return Err(InjectFdError::TooManyFiles);
                },
            },
        };
        match table_get(&self.fds, fd) {
            Some(_) => Err(InjectFdError::AlreadyExists),
            None => {
                table_insert(
                    &mut self.fds,
                    fd,
                    Descriptor { fd, preopen: None, file, rights: file.rights },
                );
                Ok(fd)
            },
        }
    }

    /// Opens a second descriptor for the file of another one.
    pub fn dup(&mut self, fd: i32) -> (r: Result<i32, Errno>)
        requires
            old(self).wf(),
        ensures
            final(self).wf(),
            final(self).roots() == old(self).roots(),
            match r {
                Ok(new_fd) => {
                    &&& old(self).fds().contains_key(fd)
                    &&& new_fd == old(self).highest_fd() + 1
                    &&& final(self).highest_fd() == new_fd
                    &&& final(self).fds() == old(self).fds().insert(
                        new_fd,
                        Descriptor { fd: new_fd, ..old(self).fds()[fd] },
                    )
                },
                Err(e) => {
                    &&& final(self).fds() == old(self).fds()
                    &&& final(self).highest_fd() == old(self).highest_fd()
                    &&& e == if old(self).fds().contains_key(fd) {
                        Errno::Mfile
                    } else {
                        Errno::Badf
                    }
                    &&& old(self).fds().contains_key(fd) ==> old(self).highest_fd() == i32::MAX
                },
            },
    {
        let d = match table_get(&self.fds, fd) {
            Some(d) => d,
            None => {
                return Err(Errno::Badf);
            },
        };
        let new_fd: i32 = match self.acquire_fd() {
            Some(fd) => fd,
            None => {
                return Err(Errno::Mfile);
            },
        };
        table_insert(
            &mut self.fds,
            new_fd,
            Descriptor { fd: new_fd, preopen: d.preopen, file: d.file, rights: d.rights },
        );
        Ok(new_fd)
    }
}

/// Each root has the descriptor three numbers behind its place, with its file and all rights of the file.
/// There are no other descriptors at the start.
pub proof fn roots_are_open_from_three_on(roots: Seq<Root>, fd: i32)
    requires
        roots.len() <= i32::MAX - 2,
    ensures
        root_descriptors(roots, roots.len()).contains_key(fd) <==> 3 <= fd && fd - 3 < roots.len(),
        3 <= fd && fd - 3 < roots.len() ==> {
            let d = root_descriptors(roots, roots.len())[fd];
            &&& d.fd == fd
            &&& d.preopen == Some((fd - 3) as usize)
            &&& d.file == roots[fd - 3].file
            &&& d.rights == roots[fd - 3].file.rights
        },
{
}

} // verus!
