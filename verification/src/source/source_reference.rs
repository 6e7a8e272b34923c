//! References to files of a workspace, and the file system of sources that records them.

use vstd::prelude::*;

use crate::api::types::Errno;
use crate::base::name_set::{self, stable_order};
use crate::source::source_entry::{self, Status, StatusModel};

verus! {

/// The type of a file that can be depended on.
#[derive(Clone, Copy, PartialEq, Eq, Structural, Debug)]
pub enum FileType {
    Regular,
    Directory,
    Symlink,
}

/// A file as it was when it was first looked at.
pub struct SourceReference {
    /// The number of the monitor of the file.
    pub monitor: u64,
    /// What was seen before the file was used.
    pub pre_observation_status: Status,
}

pub open spec fn status_file_type(status: StatusModel) -> Option<FileType> {
    match status {
        StatusModel::Directory { .. } => Some(FileType::Directory),
        StatusModel::File { .. } => Some(FileType::Regular),
        StatusModel::Symlink { .. } => Some(FileType::Symlink),
        StatusModel::NotFound => None,
    }
}

impl SourceReference {
    pub fn new(monitor: u64, current_status: Status) -> (r: SourceReference)
        ensures
            r.monitor == monitor,
            r.pre_observation_status == current_status,
    {
        SourceReference { monitor, pre_observation_status: current_status }
    }

    /// Whether the file has other contents than when it was first looked at.
    pub fn has_changed(&self, current_status: &Status) -> (r: bool)
        ensures
            r == !source_entry::same_contents(self.pre_observation_status@, current_status@),
            r == !match (self.pre_observation_status, *current_status) {
                (Status::Directory(a), Status::Directory(b)) => {
                    &&& a.children@.len() == b.children@.len()
                    &&& forall|i: int|
                        0 <= i < a.children@.len() ==> (#[trigger] a.children@[i])@ == b.children@[i]@
                },
                (Status::File(a), Status::File(b)) => a.hash@ == b.hash@ && a.executable == b.executable,
                (Status::Symlink(a), Status::Symlink(b)) => a.target@ == b.target@,
                (a, b) => a is NotFound && b is NotFound,
            },
    {
        !self.pre_observation_status.equivalent(current_status)
    }

    pub fn file_type(&self) -> (r: Option<FileType>)
        ensures
            r == status_file_type(self.pre_observation_status@),
    {
        match &self.pre_observation_status {
            Status::Directory(_) => Some(FileType::Directory),
            Status::File(_) => Some(FileType::Regular),
            Status::Symlink(_) => Some(FileType::Symlink),
            Status::NotFound => None,
        }
    }

    /// Whether the file was there when the reference was made.
    pub fn existed(&self) -> (r: bool)
        ensures
            r == !(self.pre_observation_status@ is NotFound),
    {
        match &self.pre_observation_status {
            Status::NotFound => false,
            _ => true,
        }
    }
}

/// A reference to a file that stays as it was never counts as changed, and a file existed exactly
/// where it has a type.
pub proof fn unchanged_reference(status: StatusModel)
    ensures
        source_entry::same_contents(status, status),
        status_file_type(status) is Some <==> !(status is NotFound),
{
}

/// The names that are text, in order.
pub open spec fn text_names(file_names: Seq<Option<String>>) -> Seq<Seq<char>>
    decreases file_names.len(),
{
    if file_names.len() == 0 {
        Seq::empty()
    } else {
        match file_names.last() {
            Some(name) => text_names(file_names.drop_last()).push(name@),
            None => text_names(file_names.drop_last()),
        }
    }
}

/// The places of the names that are text, in order.
pub open spec fn text_places(file_names: Seq<Option<String>>) -> Seq<usize>
    decreases file_names.len(),
{
    if file_names.len() == 0 {
        Seq::empty()
    } else {
        match file_names.last() {
            Some(name) => text_places(file_names.drop_last()).push((file_names.len() - 1) as usize),
            None => text_places(file_names.drop_last()),
        }
    }
}

/// The children of a directory in the order in which they are referenced: those whose names are
/// text, by name. The result tells each child by its place in the list that was read.
pub fn children_order(file_names: &Vec<Option<String>>) -> (r: Vec<usize>)
    ensures
        exists|order: Seq<usize>| #[trigger]
            name_set::is_stable_order(text_names(file_names@), order) && r@ == order.map_values(
                |k: usize| text_places(file_names@)[k as int],
            ),
{
    let mut names: Vec<String> = Vec::new();
    let mut places: Vec<usize> = Vec::new();
    let mut i: usize = 0;
    assert(name_set::texts(names@) =~= text_names(file_names@.take(0)));
    while i < file_names.len()
        invariant
            i <= file_names@.len(),
            name_set::texts(names@) == text_names(file_names@.take(i as int)),
            places@ == text_places(file_names@.take(i as int)),
            names@.len() == places@.len(),
        decreases file_names@.len() - i,
    {
        let ghost before = name_set::texts(names@);
        assert(file_names@.take(i + 1).drop_last() =~= file_names@.take(i as int));
        match &file_names[i] {
            Some(name) => {
                names.push(name.clone());
                places.push(i);
                assert(name_set::texts(names@) =~= before.push(name@));
            },
            None => {},
        }
        i += 1;
    }
    assert(file_names@.take(file_names@.len() as int) =~= file_names@);
    let order = stable_order(&names);
    let mut r: Vec<usize> = Vec::new();
    let mut k: usize = 0;
    while k < order.len()
        invariant
            k <= order@.len(),
            order@.len() == places@.len(),
            places@ == text_places(file_names@),
            forall|j: int| 0 <= j < order@.len() ==> (#[trigger] order@[j]) < places@.len(),
            r@.len() == k,
            forall|j: int| 0 <= j < k ==> #[trigger] r@[j] == places@[order@[j] as int],
        decreases order@.len() - k,
    {
        r.push(places[order[k]]);
        k += 1;
    }
    proof {
        assert(r@ =~= order@.map_values(|k: usize| text_places(file_names@)[k as int]));
        assert(name_set::is_stable_order(text_names(file_names@), order@));
    }
    r
}

/// A segment of a label.
pub enum Segment {
    CurrentDirectory,
    ParentDirectory,
    All,
    Filename(String),
    Colon,
}

/// Whether a label is normalized: it holds no segment that stands for other files.
pub open spec fn normalized(segments: Seq<Segment>) -> bool {
    forall|i: int|
        0 <= i < segments.len() ==> (#[trigger] segments[i] is Filename || segments[i] is Colon)
}

/// The names in a label.
pub open spec fn filenames(segments: Seq<Segment>) -> Seq<Seq<char>>
    decreases segments.len(),
{
    if segments.len() == 0 {
        Seq::empty()
    } else {
        match segments.last() {
            Segment::Filename(name) => filenames(segments.drop_last()).push(name@),
            _ => filenames(segments.drop_last()),
        }
    }
}

/// The children to go through from the root of a workspace to the file that a label names.
pub fn monitor_path(segments: &Vec<Segment>) -> (r: Vec<String>)
    requires
        normalized(segments@),
    ensures
        name_set::texts(r@) == filenames(segments@),
{
    let mut names: Vec<String> = Vec::new();
    let mut i: usize = 0;
    assert(name_set::texts(names@) =~= filenames(segments@.take(0)));
    while i < segments.len()
        invariant
            i <= segments@.len(),
            name_set::texts(names@) == filenames(segments@.take(i as int)),
        decreases segments@.len() - i,
    {
        let ghost before = name_set::texts(names@);
        assert(segments@.take(i + 1).drop_last() =~= segments@.take(i as int));
        match &segments[i] {
            Segment::Filename(name) => {
                names.push(name.clone());
                assert(name_set::texts(names@) =~= before.push(name@));
            },
            _ => {},
        }
        i += 1;
    }
    assert(segments@.take(segments@.len() as int) =~= segments@);
    names
}

/// What a file system of sources records: the files that were used, and whether a fault of the disk
/// makes the results unfit to be kept.
pub struct SourceFsRecord {
    pub references: Vec<SourceReference>,
    pub uncacheable_error: bool,
}

impl SourceFsRecord {
    pub fn new() -> (r: SourceFsRecord)
        ensures
            r.references@.len() == 0,
            !r.uncacheable_error,
    {
        SourceFsRecord { references: Vec::new(), uncacheable_error: false }
    }

    /// Passes a result on, and notes where it is a fault of the disk.
    pub fn register_uncacheable<T>(&mut self, result: Result<T, Errno>) -> (r: Result<T, Errno>)
        ensures
            r == result,
            final(self).references == old(self).references,
            final(self).uncacheable_error == (old(self).uncacheable_error || (result matches Err(e)
                && e == Errno::Io)),
    {
        match result {
            Ok(x) => Ok(x),
            Err(Errno::Io) => {
                self.uncacheable_error = true;
                Err(Errno::Io)
            },
            Err(e) => Err(e),
        }
    }

    /// Records a file that was used.
    pub fn push(&mut self, item: SourceReference)
        ensures
            final(self).references@ == old(self).references@.push(item),
            final(self).uncacheable_error == old(self).uncacheable_error,
    {
        self.references.push(item);
    }

    /// Takes out the files that were used.
    pub fn into_references(self) -> (r: Vec<SourceReference>)
        ensures
            r == self.references,
    {
        self.references
    }
}

/// A file has the type that was seen, and none where none was seen.
pub proof fn references_have_the_type_that_was_seen(status: Status)
    ensures
        match status {
            Status::Directory(_) => status_file_type(status@) == Some(FileType::Directory),
            Status::File(_) => status_file_type(status@) == Some(FileType::Regular),
            Status::Symlink(_) => status_file_type(status@) == Some(FileType::Symlink),
            Status::NotFound => status_file_type(status@) is None,
        },
{
}

/// The names that are text are told in their order, each with its place, and no other is.
pub proof fn texts_among_names_keep_their_places(file_names: Seq<Option<String>>, i: int)
    ensures
        text_names(file_names).len() == text_places(file_names).len(),
        file_names.len() <= usize::MAX && 0 <= i < text_places(file_names).len() ==> {
            let place = text_places(file_names)[i] as int;
            &&& 0 <= place < file_names.len()
            &&& file_names[place] is Some
            &&& file_names[place]->0@ == text_names(file_names)[i]
        },
    decreases file_names.len(),
{
    if file_names.len() > 0 {
        texts_among_names_keep_their_places(file_names.drop_last(), i);
    }
}

/// One more name that is text is told behind all others, and one that is not changes nothing.
pub proof fn every_text_is_told(file_names: Seq<Option<String>>, name: Option<String>)
    ensures
        text_names(Seq::empty()) == Seq::<Seq<char>>::empty(),
        text_names(file_names.push(name)) == match name {
            Some(text) => text_names(file_names).push(text@),
            None => text_names(file_names),
        },
        text_places(file_names.push(name)) == match name {
            Some(_) => text_places(file_names).push(file_names.len() as usize),
            None => text_places(file_names),
        },
{
    assert(file_names.push(name).drop_last() =~= file_names);
}

/// The way to a file goes through the names of its label, in their order. Colons are no names.
pub proof fn labels_lead_through_their_names(segments: Seq<Segment>, name: String)
    ensures
        filenames(Seq::empty()) == Seq::<Seq<char>>::empty(),
        filenames(segments.push(Segment::Filename(name))) == filenames(segments).push(name@),
        filenames(segments.push(Segment::Colon)) == filenames(segments),
        normalized(segments.push(Segment::Filename(name))) == normalized(segments),
        !normalized(segments.push(Segment::ParentDirectory)),
        !normalized(segments.push(Segment::CurrentDirectory)),
        !normalized(segments.push(Segment::All)),
{
    let n = segments.len() as int;
    let more = segments.push(Segment::Filename(name));
    assert(more.drop_last() =~= segments);
    assert(segments.push(Segment::Colon).drop_last() =~= segments);
    if normalized(segments) {
        assert forall|i: int| 0 <= i < more.len() implies (#[trigger] more[i] is Filename || more[i] is Colon) by {
            if i < n {
                assert(more[i] == segments[i]);
            }
        }
    }
    if normalized(more) {
        assert forall|i: int| 0 <= i < n implies (#[trigger] segments[i] is Filename || segments[i] is Colon) by {
            assert(more[i] == segments[i]);
        }
    }
    assert(segments.push(Segment::ParentDirectory)[n] is ParentDirectory);
    assert(segments.push(Segment::CurrentDirectory)[n] is CurrentDirectory);
    assert(segments.push(Segment::All)[n] is All);
}

} // verus!
