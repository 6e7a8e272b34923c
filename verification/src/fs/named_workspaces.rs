//! A directory that holds workspaces under their names.

use vstd::prelude::*;

use crate::api::rights::{HandleRights, OpenFile};
use crate::api::types::{
    self, Dirent, Errno, Fdflags, Filestat, Filetype, FD_FILESTAT_GET, FD_READ, FD_READDIR, FD_SEEK, FD_TELL,
    PATH_FILESTAT_GET, PATH_OPEN,
};
use crate::base::name_set::{self, stable_order};
use crate::base::text;

verus! {

/// A workspace under its name.
pub struct Mapping {
    pub name: String,
    pub file: OpenFile,
}

/// The names of workspaces.
pub open spec fn mapping_names(mappings: Seq<Mapping>) -> Seq<Seq<char>> {
    mappings.map_values(|m: Mapping| m.name@)
}

/// The directory of workspaces, sorted by name.
pub struct NamedWorkspaces {
    pub mappings: Vec<Mapping>,
}

/// The directory entry of a workspace.
pub open spec fn workspace_dirent(name: Seq<char>, i: int) -> Dirent {
    Dirent {
        d_next: (i + 1) as u64,
        d_ino: 0,
        d_namlen: vstd::utf8::encode_utf8(name).len() as u32,
        d_type: Filetype::Directory,
    }
}

impl NamedWorkspaces {
    /// The workspaces sorted by name. Those with the same name stay in the order in which they were
    /// added.
    pub fn build(workspaces: Vec<Mapping>) -> (r: NamedWorkspaces)
        ensures
            exists|order: Seq<usize>|
                {
                    &&& #[trigger] name_set::is_stable_order(mapping_names(workspaces@), order)
                    &&& r.mappings@.len() == order.len()
                    &&& forall|k: int|
                        0 <= k < order.len() ==> {
                            &&& (#[trigger] r.mappings@[k]).name@ == workspaces@[order[k] as int].name@
                            &&& r.mappings@[k].file == workspaces@[order[k] as int].file
                        }
                },
    {
        let mut names: Vec<String> = Vec::new();
        let mut i: usize = 0;
        while i < workspaces.len()
            invariant
                i <= workspaces@.len(),
                names@.len() == i,
                forall|k: int| 0 <= k < i ==> (#[trigger] names@[k])@ == workspaces@[k].name@,
            decreases workspaces@.len() - i,
        {
            names.push(workspaces[i].name.clone());
            i += 1;
        }
        assert(name_set::texts(names@) =~= mapping_names(workspaces@));
        let order = stable_order(&names);
        let mut mappings: Vec<Mapping> = Vec::new();
        let mut k: usize = 0;
        while k < order.len()
            invariant
                k <= order@.len(),
                name_set::is_stable_order(mapping_names(workspaces@), order@),
                mappings@.len() == k,
                forall|j: int|
                    0 <= j < k ==> {
                        &&& (#[trigger] mappings@[j]).name@ == workspaces@[order@[j] as int].name@
                        &&& mappings@[j].file == workspaces@[order@[j] as int].file
                    },
            decreases order@.len() - k,
        {
            let at: usize = order[k];
            mappings.push(Mapping { name: workspaces[at].name.clone(), file: workspaces[at].file });
            k += 1;
        }
        assert(name_set::is_stable_order(mapping_names(workspaces@), order@));
        NamedWorkspaces { mappings }
    }

    fn find(&self, name: &str) -> (r: Option<usize>)
        ensures
            match r {
                Some(i) => name_set::first_with_name(mapping_names(self.mappings@), name@, i as int),
                None => !mapping_names(self.mappings@).contains(name@),
            },
    {
        let ghost names = mapping_names(self.mappings@);
        let mut i: usize = 0;
        while i < self.mappings.len()
            invariant
                names == mapping_names(self.mappings@),
                i <= self.mappings@.len(),
                forall|j: int| 0 <= j < i ==> names[j] != name@,
            decreases self.mappings@.len() - i,
        {
            if text::equal(self.mappings[i].name.as_str(), name) {
                return Some(i);
            }
            i += 1;
        }
        None
    }

    pub fn file_type(&self) -> (r: Filetype)
        ensures
            r == Filetype::Directory,
    {
        Filetype::Directory
    }

    pub fn rights(&self) -> (r: HandleRights)
        ensures
            r.base == PATH_OPEN | FD_READDIR | PATH_FILESTAT_GET | FD_FILESTAT_GET,
            r.inheriting == r.base | (FD_READ | FD_SEEK | FD_TELL | FD_FILESTAT_GET),
    {
        let file_rights: u64 = FD_READ | FD_SEEK | FD_TELL | FD_FILESTAT_GET;
        let directory_rights: u64 = PATH_OPEN | FD_READDIR | PATH_FILESTAT_GET | FD_FILESTAT_GET;
        HandleRights::new(directory_rights, directory_rights | file_rights)
    }

    /// There is nothing to read, write, tell or seek in a directory.
    pub fn stream_error(&self) -> (r: Errno)
        ensures
            r == Errno::Isdir,
    {
        Errno::Isdir
    }

    /// The workspace with a name.
    pub fn openat_child(&self, path_segment: &str) -> (r: Result<OpenFile, Errno>)
        ensures
            match r {
                Ok(file) => exists|i: int| #[trigger]
                    name_set::first_with_name(mapping_names(self.mappings@), path_segment@, i) && file
                        == self.mappings@[i].file,
                Err(e) => e == Errno::Noent && !mapping_names(self.mappings@).contains(path_segment@),
            },
    {
        match self.find(path_segment) {
            Some(i) => Ok(self.mappings[i].file),
            None => Err(Errno::Noent),
        }
    }

    /// Lists the workspaces from the one that the cookie counts to.
    pub fn readdir(&self, cookie: u64) -> (r: Result<Vec<(Dirent, String)>, Errno>)
        ensures
            ({
                let names = mapping_names(self.mappings@);
                let too_long = exists|i: int|
                    cookie <= i < names.len() && vstd::utf8::encode_utf8(#[trigger] names[i]).len()
                        > u32::MAX;
                match r {
                    Err(e) => e == Errno::Overflow && (cookie > usize::MAX || too_long),
                    Ok(items) => {
                        &&& cookie <= usize::MAX
                        &&& !too_long
                        &&& items@.len() == if cookie < names.len() {
                            names.len() - cookie
                        } else {
                            0
                        }
                        &&& forall|k: int|
                            0 <= k < items@.len() ==> {
                                &&& (#[trigger] items@[k]).0 == workspace_dirent(
                                    names[cookie + k],
                                    cookie + k,
                                )
                                &&& items@[k].1@ == names[cookie + k]
                            }
                    },
                }
            }),
    {
        let ghost names = mapping_names(self.mappings@);
        if cookie > usize::MAX as u64 {
            return Err(Errno::Overflow);
        }
        let mut items: Vec<(Dirent, String)> = Vec::new();
        let mut i: usize = cookie as usize;
        let count: usize = self.mappings.len();
        while i < count
            invariant
                names == mapping_names(self.mappings@),
                count == self.mappings@.len(),
                cookie <= i,
                cookie < count ==> i <= count,
                cookie < count ==> items@.len() == i - cookie,
                cookie >= count ==> items@.len() == 0,
                forall|k: int|
                    cookie <= k < i && k < count ==> vstd::utf8::encode_utf8(
                        #[trigger] names[k],
                    ).len() <= u32::MAX,
                forall|k: int|
                    0 <= k < items@.len() ==> {
                        &&& (#[trigger] items@[k]).0 == workspace_dirent(
                            names[cookie + k],
                            cookie + k,
                        )
                        &&& items@[k].1@ == names[cookie + k]
                    },
            decreases count - i,
        {
            let name = &self.mappings[i].name;
            let len: usize = name.as_str().as_bytes().len();
            assert(names[i as int] == name@);
            if len > 0xffff_ffff {
                return Err(Errno::Overflow);
            }
            let dirent = Dirent {
                d_next: i as u64 + 1,
                d_ino: 0,
                d_namlen: len as u32,
                d_type: Filetype::Directory,
            };
            items.push((dirent, name.clone()));
            i += 1;
        }
        Ok(items)
    }

    /// No workspace is a link.
    pub fn readlinkat_child(&self, path_segment: &str) -> (r: Errno)
        ensures
            r == if mapping_names(self.mappings@).contains(path_segment@) {
                Errno::Inval
            } else {
                Errno::Noent
            },
    {
        match self.find(path_segment) {
            Some(i) => {
                assert(mapping_names(self.mappings@)[i as int] == path_segment@);
                Errno::Inval
            },
            None => Errno::Noent,
        }
    }

    pub fn filestat(&self) -> (r: Filestat)
        ensures
            r == types::plain_filestat(0, Filetype::Directory, 0),
    {
        Filestat::plain(0, Filetype::Directory, 0)
    }

    pub fn filestat_child(&self, path_segment: &str) -> (r: Result<Filestat, Errno>)
        ensures
            r == if mapping_names(self.mappings@).contains(path_segment@) {
                Ok(types::plain_filestat(0, Filetype::Directory, 0))
            } else {
                Err(Errno::Noent)
            },
    {
        match self.find(path_segment) {
            Some(i) => {
                assert(mapping_names(self.mappings@)[i as int] == path_segment@);
                Ok(Filestat::plain(0, Filetype::Directory, 0))
            },
            None => Err(Errno::Noent),
        }
    }

    /// No flags are set.
    pub fn fdstat(&self) -> (r: Fdflags)
        ensures
            r == 0,
    {
        0
    }
}

/// The names of workspaces are told one by one.
pub proof fn workspaces_are_named_one_by_one(mappings: Seq<Mapping>)
    ensures
        mapping_names(mappings).len() == mappings.len(),
        forall|i: int| 0 <= i < mappings.len() ==> #[trigger] mapping_names(mappings)[i] == mappings[i].name@,
{
}

/// A workspace is listed as a directory under its own name, with the place of the next one.
pub proof fn workspaces_are_listed_as_directories(name: Seq<char>, i: int)
    requires
        0 <= i < u64::MAX,
        vstd::utf8::encode_utf8(name).len() <= u32::MAX,
    ensures
        workspace_dirent(name, i).d_next == i + 1,
        workspace_dirent(name, i).d_ino == 0,
        workspace_dirent(name, i).d_namlen == vstd::utf8::encode_utf8(name).len(),
        workspace_dirent(name, i).d_type == Filetype::Directory,
{
}

} // verus!
