//! The read-only filesystem over a directory of a Windows host: what the calls of the host answer
//! becomes what a guest is told.

use vstd::prelude::*;

use crate::api::types::{Errno, Oflags, SeekFrom, OFLAGS_CREAT, OFLAGS_DIRECTORY, OFLAGS_EXCL, OFLAGS_TRUNC};

verus! {

/// The host knows no file of this name.
pub const ERROR_FILE_NOT_FOUND: i32 = 2;

/// The file is not a reparse point, and so no symbolic link.
pub const ERROR_NOT_A_REPARSE_POINT: i32 = 4390;

pub const FILE_ATTRIBUTE_DIRECTORY: u32 = 0x10;

pub const FILE_ATTRIBUTE_REPARSE_POINT: u32 = 0x400;

/// The tag of a reparse point that is a symbolic link.
pub const IO_REPARSE_TAG_SYMLINK: u32 = 0xa000_000c;

pub const FILE_BEGIN: u32 = 0;

pub const FILE_CURRENT: u32 = 1;

pub const FILE_END: u32 = 2;

/// The first component of a root path, where it has one.
#[derive(Debug)]
pub enum RootStart {
    VerbatimDisk,
    VerbatimUnc,
    Disk(u8),
    Unc { server: String, share: String },
    Verbatim,
    DeviceNs,
    /// A root without a prefix, or a name.
    NoPrefix,
    Nothing,
}

/// How a root path becomes a verbatim one, which the host takes as it stands.
#[derive(Debug)]
pub enum RootPlan {
    /// It is one.
    Keep,
    /// By putting its other components behind this prefix.
    Rebuild { prefix: String },
}

/// Why a path cannot be a root.
#[derive(Clone, Copy, PartialEq, Eq, Structural, Debug)]
pub enum RootRefusal {
    Relative,
    Device,
}

/// The verbatim prefix that stands for another one.
pub open spec fn verbatim_prefix(start: RootStart) -> Seq<char> {
    match start {
        RootStart::Disk(letter) => seq!['\\', '\\', '?', '\\', letter as char, ':'],
        RootStart::Unc { server, share } => seq!['\\', '\\', '?', '\\', 'U', 'N', 'C', '\\'] + server@ + seq![
            '\\',
        ] + share@,
        _ => Seq::empty(),
    }
}

/// How a root path becomes a verbatim one, by its first component.
pub fn plan_root(start: RootStart) -> (r: Result<RootPlan, RootRefusal>)
    ensures
        match start {
            RootStart::VerbatimDisk | RootStart::VerbatimUnc => r == Ok::<RootPlan, RootRefusal>(RootPlan::Keep),
            RootStart::Disk(_) | RootStart::Unc { .. } => match r {
                Ok(RootPlan::Rebuild { prefix }) => prefix@ == verbatim_prefix(start),
                _ => false,
            },
            RootStart::DeviceNs => r == Err::<RootPlan, RootRefusal>(RootRefusal::Device),
            RootStart::Verbatim | RootStart::NoPrefix | RootStart::Nothing => r == Err::<RootPlan, RootRefusal>(
                RootRefusal::Relative,
            ),
        },
{
    match start {
        RootStart::VerbatimDisk | RootStart::VerbatimUnc => Ok(RootPlan::Keep),
        RootStart::Disk(letter) => {
            let mut prefix: String = String::new();
            prefix.push('\\');
            prefix.push('\\');
            prefix.push('?');
            prefix.push('\\');
            prefix.push(letter as char);
            prefix.push(':');
            assert(prefix@ =~= verbatim_prefix(start));
            Ok(RootPlan::Rebuild { prefix })
        },
        RootStart::Unc { server, share } => {
            let mut prefix: String = String::new();
            prefix.push('\\');
            prefix.push('\\');
            prefix.push('?');
            prefix.push('\\');
            prefix.push('U');
            prefix.push('N');
            prefix.push('C');
            prefix.push('\\');
            prefix.append(server.as_str());
            prefix.push('\\');
            prefix.append(share.as_str());
            assert(prefix@ =~= verbatim_prefix(RootStart::Unc { server, share }));
            Ok(RootPlan::Rebuild { prefix })
        },
        RootStart::DeviceNs => Err(RootRefusal::Device),
        RootStart::Verbatim | RootStart::NoPrefix | RootStart::Nothing => Err(RootRefusal::Relative),
    }
}

/// Whether a request to open would change the file.
pub open spec fn is_mutating(write: bool, oflags: Oflags) -> bool {
    ||| write
    ||| oflags & OFLAGS_CREAT == OFLAGS_CREAT
    ||| oflags & OFLAGS_EXCL == OFLAGS_EXCL
    ||| oflags & OFLAGS_TRUNC == OFLAGS_TRUNC
}

/// Refuses requests to open that would change the file.
pub fn check_open(write: bool, oflags: Oflags) -> (r: Result<(), Errno>)
    ensures
        r == if is_mutating(write, oflags) {
            Err::<(), Errno>(Errno::Notcapable)
        } else {
            Ok(())
        },
{
    if write || oflags & OFLAGS_CREAT == OFLAGS_CREAT || oflags & OFLAGS_EXCL == OFLAGS_EXCL || oflags & OFLAGS_TRUNC
        == OFLAGS_TRUNC {
        Err(Errno::Notcapable)
    } else {
        Ok(())
    }
}

/// How far the host came with opening a child.
#[derive(Debug)]
pub enum HostOpen {
    /// The file was not opened; the code says why, where there is one.
    CreateFailed { code: Option<i32> },
    /// The path of the open file could not be told.
    NameFailed,
    /// The path was told, and the attributes could not be.
    AttributesFailed { path: Vec<u16> },
    Opened { path: Vec<u16>, attributes: u32 },
}

/// The UTF-16 units of a character.
pub open spec fn utf16_char(c: char) -> Seq<u16> {
    let n = c as u32;
    if n < 0x1_0000 {
        seq![n as u16]
    } else {
        seq![(0xd800 + (n - 0x1_0000) / 0x400) as u16, (0xdc00 + (n - 0x1_0000) % 0x400) as u16]
    }
}

/// The UTF-16 units of a text.
pub open spec fn utf16(s: Seq<char>) -> Seq<u16>
    decreases s.len(),
{
    if s.len() == 0 {
        Seq::empty()
    } else {
        utf16(s.drop_last()) + utf16_char(s.last())
    }
}

/// The part of a path behind its last backslash.
pub open spec fn last_segment(path: Seq<u16>) -> Seq<u16>
    decreases path.len(),
{
    if path.len() == 0 || path.last() == 0x5c {
        Seq::empty()
    } else {
        last_segment(path.drop_last()).push(path.last())
    }
}

/// What a guest is told of opening a child: a regular file, whose name on the host is exactly the
/// requested one.
pub open spec fn open_answer(host: HostOpen, name: Seq<char>, oflags: Oflags) -> Result<(), Errno> {
    match host {
        HostOpen::CreateFailed { code } => if code == Some(ERROR_FILE_NOT_FOUND) {
            Err(Errno::Noent)
        } else {
            Err(Errno::Io)
        },
        HostOpen::NameFailed => Err(Errno::Io),
        HostOpen::AttributesFailed { path } => if last_segment(path@) != utf16(name) {
            Err(Errno::Noent)
        } else {
            Err(Errno::Io)
        },
        HostOpen::Opened { path, attributes } => if last_segment(path@) != utf16(name) {
            Err(Errno::Noent)
        } else if oflags & OFLAGS_DIRECTORY == OFLAGS_DIRECTORY {
            Err(Errno::Notdir)
        } else {
            Ok(())
        },
    }
}

/// Encodes a text in UTF-16.
fn encode_utf16(s: &str) -> (r: Vec<u16>)
    ensures
        r@ == utf16(s@),
{
    let len: usize = s.unicode_len();
    let mut units: Vec<u16> = Vec::new();
    let mut i: usize = 0;
    assert(s@.take(0) =~= Seq::<char>::empty());
    while i < len
        invariant
            len == s@.len(),
            i <= len,
            units@ == utf16(s@.take(i as int)),
        decreases len - i,
    {
        let c: char = s.get_char(i);
        let n: u32 = c as u32;
        let ghost before = units@;
        if n < 0x1_0000 {
            units.push(n as u16);
        } else {
            units.push((0xd800 + (n - 0x1_0000) / 0x400) as u16);
            units.push((0xdc00 + (n - 0x1_0000) % 0x400) as u16);
        }
        i += 1;
        assert(units@ =~= before + utf16_char(c));
        assert(s@.take(i as int).drop_last() =~= s@.take(i - 1));
    }
    assert(s@.take(len as int) =~= s@);
    units
}

/// The units of a character: one that is its number, or two that hold ten bits of it each and that
/// stand for no character by themselves.
proof fn utf16_char_units(c: char)
    ensures
        ({
            let (n, units) = (c as u32, utf16_char(c));
            ||| units.len() == 1 && n < 0x1_0000 && units[0] == n && !(0xd800 <= units[0] <= 0xdfff)
            ||| units.len() == 2 && 0xd800 <= units[0] <= 0xdbff && 0xdc00 <= units[1] <= 0xdfff && n == 0x1_0000
                + 0x400 * (units[0] - 0xd800) + (units[1] - 0xdc00)
        }),
{
    let n = c as u32;
    assert(n <= 0x10_ffff);
    assert(n < 0xd800 || 0xdfff < n);
    if n >= 0x1_0000 {
        let m = n - 0x1_0000;
        assert(0 <= m / 0x400 < 0x400 && 0 <= m % 0x400 < 0x400 && m == 0x400 * (m / 0x400) + m % 0x400);
    }
}

/// A character is known by its number.
proof fn same_number_same_char(a: char, b: char)
    requires
        a as u32 == b as u32,
    ensures
        a == b,
{
}

/// A text is known by its UTF-16 units.
pub proof fn utf16_is_injective(a: Seq<char>, b: Seq<char>)
    requires
        utf16(a) == utf16(b),
    ensures
        a == b,
    decreases a.len(),
{
    if a.len() == 0 {
        if b.len() > 0 {
            assert(utf16(b).len() > 0);
        }
        assert(a =~= b);
    } else if b.len() == 0 {
        assert(utf16(a).len() > 0);
    } else {
        let (ua, ub) = (utf16(a.drop_last()), utf16(b.drop_last()));
        let (ca, cb) = (utf16_char(a.last()), utf16_char(b.last()));
        let all = utf16(a);
        assert(all == ua + ca && all == ub + cb);
        assert(all.last() == ca.last() && all.last() == cb.last());
        utf16_char_units(a.last());
        utf16_char_units(b.last());
        assert(ca.len() == cb.len());
        assert(ua =~= all.take(all.len() - ca.len()));
        assert(ub =~= all.take(all.len() - cb.len()));
        assert(ca =~= all.skip(all.len() - ca.len()));
        assert(cb =~= all.skip(all.len() - cb.len()));
        assert(ca == cb);
        same_number_same_char(a.last(), b.last());
        utf16_is_injective(a.drop_last(), b.drop_last());
        assert(a =~= a.drop_last().push(a.last()));
        assert(b =~= b.drop_last().push(b.last()));
    }
}

/// Refuses a file whose name on the host is not exactly the requested one.
pub fn check_name(path: &[u16], path_segment: &str) -> (r: Result<(), Errno>)
    ensures
        r == if last_segment(path@) == utf16(path_segment@) {
            Ok::<(), Errno>(())
        } else {
            Err(Errno::Noent)
        },
{
    let wanted: Vec<u16> = encode_utf16(path_segment);
    let len: usize = path.len();
    let mut from: usize = len;
    assert(path@.take(len as int) =~= path@);
    assert(last_segment(path@) =~= last_segment(path@) + path@.skip(len as int));
    while from > 0 && path[from - 1] != 0x5c
        invariant
            len == path@.len(),
            from <= len,
            last_segment(path@) == last_segment(path@.take(from as int)) + path@.skip(from as int),
        decreases from,
    {
        proof {
            let shorter = path@.take(from as int);
            assert(shorter.drop_last() =~= path@.take(from - 1));
            assert(last_segment(path@) =~= last_segment(path@.take(from - 1)) + path@.skip(from - 1));
        }
        from -= 1;
    }
    proof {
        assert(last_segment(path@.take(from as int)) =~= Seq::<u16>::empty());
        assert(last_segment(path@) =~= path@.skip(from as int));
    }
    if len - from != wanted.len() {
        return Err(Errno::Noent);
    }
    let mut i: usize = 0;
    while i < wanted.len()
        invariant
            len == path@.len(),
            from <= len,
            len - from == wanted@.len(),
            last_segment(path@) == path@.skip(from as int),
            wanted@ == utf16(path_segment@),
            i <= wanted@.len(),
            forall|k: int| 0 <= k < i ==> #[trigger] wanted@[k] == path@[from + k],
        decreases wanted@.len() - i,
    {
        if path[from + i] != wanted[i] {
            assert(path@.skip(from as int)[i as int] != wanted@[i as int]);
            return Err(Errno::Noent);
        }
        i += 1;
    }
    assert(path@.skip(from as int) =~= wanted@);
    Ok(())
}

/// What a guest is told of opening a child. Directories and links cannot be opened.
pub fn open_child(host: &HostOpen, path_segment: &str, oflags: Oflags) -> (r: Result<(), Errno>)
    requires
        host matches HostOpen::Opened { path, attributes } ==> last_segment(path@) == utf16(path_segment@)
            ==> attributes & FILE_ATTRIBUTE_REPARSE_POINT == 0 && attributes & FILE_ATTRIBUTE_DIRECTORY == 0,
    ensures
        r == open_answer(*host, path_segment@, oflags),
{
    match host {
        HostOpen::CreateFailed { code } => match code {
            Some(code) => if *code == ERROR_FILE_NOT_FOUND {
                Err(Errno::Noent)
            } else {
                Err(Errno::Io)
            },
            None => Err(Errno::Io),
        },
        HostOpen::NameFailed => Err(Errno::Io),
        HostOpen::AttributesFailed { path } => match check_name(path.as_slice(), path_segment) {
            Err(e) => Err(e),
            Ok(()) => Err(Errno::Io),
        },
        HostOpen::Opened { path, .. } => match check_name(path.as_slice(), path_segment) {
            Err(e) => Err(e),
            Ok(()) => if oflags & OFLAGS_DIRECTORY == OFLAGS_DIRECTORY {
                Err(Errno::Notdir)
            } else {
                Ok(())
            },
        },
    }
}

/// How far the host came with reading a link.
#[derive(Debug)]
pub enum HostLink {
    /// The file was not opened; the code says why, where there is one.
    CreateFailed { code: Option<i32> },
    /// The reparse data could not be told; the code says why, where there is one.
    ReparseFailed { code: Option<i32> },
    Reparse { data: Vec<u8> },
}

/// The little-endian number of two bytes at a place.
pub open spec fn unit_at(data: Seq<u8>, at: int) -> u16 {
    (data[at] + 0x100 * data[at + 1]) as u16
}

/// The little-endian number of four bytes at the start.
pub open spec fn reparse_tag(data: Seq<u8>) -> int {
    unit_at(data, 0) + 0x1_0000 * unit_at(data, 2)
}

/// The target of the symbolic link that reparse data describe. Data with another tag, or without one, are
/// not those of a link. Behind a header of 20 bytes stand names; where the target starts among them and how
/// many bytes it has is told at 8 and at 10. Data of a link that do not hold what they tell of are refused
/// like an error of the host, and so are targets in the internal namespace, which are absolute.
pub open spec fn link_units(data: Seq<u8>) -> Result<Seq<u16>, Errno> {
    if data.len() < 4 || reparse_tag(data) != IO_REPARSE_TAG_SYMLINK {
        Err(Errno::Inval)
    } else if data.len() < 20 {
        Err(Errno::Io)
    } else {
        let start = 20 + 2 * (unit_at(data, 8) / 2);
        let len = unit_at(data, 10) / 2;
        let units = Seq::new(len as nat, |i: int| unit_at(data, start + 2 * i));
        if start + 2 * len > data.len() || (len >= 4 && units.take(4) == seq![92u16, 63u16, 63u16, 92u16]) {
            Err(Errno::Io)
        } else {
            Ok(units)
        }
    }
}

/// What is known of the target of a link.
pub open spec fn link_answer(name: Seq<char>, host: HostLink) -> Result<Seq<u16>, Errno> {
    if name.contains('\\') {
        Err(Errno::Noent)
    } else {
        match host {
            HostLink::CreateFailed { code } => if code == Some(ERROR_FILE_NOT_FOUND) {
                Err(Errno::Noent)
            } else {
                Err(Errno::Io)
            },
            HostLink::ReparseFailed { code } => if code == Some(ERROR_NOT_A_REPARSE_POINT) {
                Err(Errno::Inval)
            } else {
                Err(Errno::Io)
            },
            HostLink::Reparse { data } => link_units(data@),
        }
    }
}

/// Refuses names with a backslash, as no source checkout on Windows could contain them.
pub fn check_link_name(path_segment: &str) -> (r: Result<(), Errno>)
    ensures
        r == if path_segment@.contains('\\') {
            Err::<(), Errno>(Errno::Noent)
        } else {
            Ok(())
        },
{
    let len: usize = path_segment.unicode_len();
    let mut i: usize = 0;
    while i < len
        invariant
            len == path_segment@.len(),
            i <= len,
            forall|k: int| 0 <= k < i ==> path_segment@[k] != '\\',
        decreases len - i,
    {
        if path_segment.get_char(i) == '\\' {
            return Err(Errno::Noent);
        }
        i += 1;
    }
    Ok(())
}

/// The little-endian number of two bytes at a place.
fn read_unit(data: &[u8], at: usize) -> (r: u16)
    requires
        at + 1 < data@.len(),
    ensures
        r == unit_at(data@, at as int),
        r == data@[at as int] + 0x100 * data@[at + 1],
{
    data[at] as u16 + 0x100 * (data[at + 1] as u16)
}

/// The target of the symbolic link that reparse data describe.
fn read_target(data: &[u8]) -> (r: Result<Vec<u16>, Errno>)
    ensures
        match r {
            Ok(units) => link_units(data@) == Ok::<Seq<u16>, Errno>(units@),
            Err(e) => link_units(data@) == Err::<Seq<u16>, Errno>(e),
        },
{
    let total: usize = data.len();
    if total < 4 {
        return Err(Errno::Inval);
    }
    let tag: u32 = read_unit(data, 0) as u32 + 0x1_0000 * (read_unit(data, 2) as u32);
    if tag != IO_REPARSE_TAG_SYMLINK {
        return Err(Errno::Inval);
    }
    if total < 20 {
        return Err(Errno::Io);
    }
    let start: usize = 20 + 2 * ((read_unit(data, 8) / 2) as usize);
    let len: usize = (read_unit(data, 10) / 2) as usize;
    if start + 2 * len > total {
        return Err(Errno::Io);
    }
    let ghost whole = Seq::new(len as nat, |i: int| unit_at(data@, start + 2 * i));
    let mut units: Vec<u16> = Vec::new();
    let mut i: usize = 0;
    while i < len
        invariant
            total == data@.len(),
            len <= 0x7fff,
            start + 2 * len <= total,
            i <= len,
            units@ == whole.take(i as int),
            whole == Seq::new(len as nat, |i: int| unit_at(data@, start + 2 * i)),
        decreases len - i,
    {
        units.push(read_unit(data, start + 2 * i));
        i += 1;
        assert(units@ =~= whole.take(i as int));
    }
    assert(units@ =~= whole);
    if len >= 4 && units[0] == 92 && units[1] == 63 && units[2] == 63 && units[3] == 92 {
        assert(whole.take(4) =~= seq![92u16, 63u16, 63u16, 92u16]);
        return Err(Errno::Io);
    }
    proof {
        if len >= 4 && whole.take(4) == seq![92u16, 63u16, 63u16, 92u16] {
            let first = whole.take(4);
            assert(first[0] == units@[0] && first[1] == units@[1] && first[2] == units@[2] && first[3] == units@[3]);
        }
    }
    Ok(units)
}

/// What is known of the target of a link, as far as the host came with reading it.
pub fn read_link(path_segment: &str, host: &HostLink) -> (r: Result<Vec<u16>, Errno>)
    ensures
        match r {
            Ok(units) => link_answer(path_segment@, *host) == Ok::<Seq<u16>, Errno>(units@),
            Err(e) => link_answer(path_segment@, *host) == Err::<Seq<u16>, Errno>(e),
        },
{
    if let Err(e) = check_link_name(path_segment) {
        return Err(e);
    }
    match host {
        HostLink::CreateFailed { code } => match code {
            Some(code) => if *code == ERROR_FILE_NOT_FOUND {
                Err(Errno::Noent)
            } else {
                Err(Errno::Io)
            },
            None => Err(Errno::Io),
        },
        HostLink::ReparseFailed { code } => match code {
            Some(code) => if *code == ERROR_NOT_A_REPARSE_POINT {
                Err(Errno::Inval)
            } else {
                Err(Errno::Io)
            },
            None => Err(Errno::Io),
        },
        HostLink::Reparse { data } => read_target(data.as_slice()),
    }
}

/// A component of the target of a link. Names are told where they are valid Unicode.
#[derive(Debug)]
pub enum LinkComponent {
    VerbatimPrefix(Option<String>),
    /// A prefix that makes the target absolute.
    AbsolutePrefix,
    RootDir,
    CurDir,
    ParentDir,
    Normal(Option<String>),
}

/// The text of a component, where it can stand in the path of a link.
pub open spec fn component_text(component: LinkComponent) -> Option<Seq<char>> {
    match component {
        LinkComponent::VerbatimPrefix(Some(name)) => Some(name@),
        LinkComponent::CurDir => Some(seq!['.']),
        LinkComponent::ParentDir => Some(seq!['.', '.']),
        LinkComponent::Normal(Some(name)) => Some(name@),
        _ => None,
    }
}

/// The components of a path with slashes between them, where all can stand in it.
pub open spec fn joined_components(components: Seq<LinkComponent>) -> Option<Seq<char>>
    decreases components.len(),
{
    if components.len() == 0 {
        Some(Seq::empty())
    } else {
        match (joined_components(components.drop_last()), component_text(components.last())) {
            (Some(before), Some(text)) => Some(
                if components.len() == 1 {
                    text
                } else {
                    before + seq!['/'] + text
                },
            ),
            _ => None,
        }
    }
}

/// A clean and consistent path for the target of a link, which ends in a slash where the target ends in
/// a separator. Absolute targets and invalid Unicode are refused.
pub fn clean_link(components: &Vec<LinkComponent>, ends_in_separator: bool) -> (r: Result<String, Errno>)
    ensures
        match (r, joined_components(components@)) {
            (Ok(path), Some(joined)) => path@ == if ends_in_separator {
                joined.push('/')
            } else {
                joined
            },
            (Err(e), None) => e == Errno::Io,
            _ => false,
        },
{
    let mut cleaned_path: String = String::new();
    let mut i: usize = 0;
    assert(components@.take(0) =~= Seq::<LinkComponent>::empty());
    assert(cleaned_path@ =~= Seq::<char>::empty());
    while i < components.len()
        invariant
            i <= components@.len(),
            joined_components(components@.take(i as int)) == Some(cleaned_path@),
        decreases components@.len() - i,
    {
        let ghost before = cleaned_path@;
        let component: &LinkComponent = &components[i];
        proof {
            assert(components@.take(i + 1).drop_last() =~= components@.take(i as int));
            if component_text(*component) is None {
                no_path_without_component(components@, i + 1);
            }
        }
        if i > 0 {
            cleaned_path.push('/');
        }
        match component {
            LinkComponent::VerbatimPrefix(Some(name)) => cleaned_path.append(name.as_str()),
            LinkComponent::CurDir => cleaned_path.push('.'),
            LinkComponent::ParentDir => {
                cleaned_path.push('.');
                cleaned_path.push('.');
            },
            LinkComponent::Normal(Some(name)) => cleaned_path.append(name.as_str()),
            _ => {
                return Err(Errno::Io);
            },
        }
        proof {
            let text = component_text(*component)->0;
            if i == 0 {
                assert(cleaned_path@ =~= text);
            } else {
                assert(cleaned_path@ =~= before + seq!['/'] + text);
            }
        }
        i += 1;
    }
    assert(components@.take(components@.len() as int) =~= components@);
    if ends_in_separator {
        cleaned_path.push('/');
    }
    Ok(cleaned_path)
}

/// Components that do not form a path do not with more behind them.
proof fn no_path_without_component(components: Seq<LinkComponent>, n: int)
    requires
        0 <= n <= components.len(),
        joined_components(components.take(n)) is None,
    ensures
        joined_components(components) is None,
    decreases components.len(),
{
    if n < components.len() {
        assert(components.drop_last().take(n) =~= components.take(n));
        no_path_without_component(components.drop_last(), n);
    } else {
        assert(components.take(n) =~= components);
    }
}

/// The bytes to ask the host for to fill a buffer.
pub fn read_request(len: usize) -> (r: Result<u32, Errno>)
    ensures
        r == if len <= u32::MAX {
            Ok::<u32, Errno>(len as u32)
        } else {
            Err(Errno::Overflow)
        },
{
    if len > 0xffff_ffff {
        Err(Errno::Overflow)
    } else {
        Ok(len as u32)
    }
}

/// What follows the read of a buffer.
#[derive(Clone, Copy, PartialEq, Eq, Structural, Debug)]
pub enum ReadStep {
    /// The next buffer is filled.
    More { total: usize },
    /// The file is at its end.
    Done { total: usize },
    Failed { error: Errno },
}

/// What follows the read of a buffer of `wanted` bytes, after which the host told how many bytes it
/// read, or that it failed. `total` bytes were read before.
pub fn buffer_read(total: usize, wanted: u32, read: Option<u32>) -> (r: ReadStep)
    requires
        read matches Some(n) ==> total + n <= usize::MAX,
    ensures
        r == match read {
            None => ReadStep::Failed { error: Errno::Io },
            Some(n) => if n < wanted {
                ReadStep::Done { total: (total + n) as usize }
            } else {
                ReadStep::More { total: (total + n) as usize }
            },
        },
{
    match read {
        None => ReadStep::Failed { error: Errno::Io },
        Some(n) => {
            let total: usize = total + n as usize;
            if n < wanted {
                ReadStep::Done { total }
            } else {
                ReadStep::More { total }
            }
        },
    }
}

/// A number of 64 bits as the host takes it: its low and its high half.
#[derive(Clone, Copy, PartialEq, Eq, Structural, Debug)]
pub struct LargeInteger {
    pub low_part: u32,
    pub high_part: i32,
}

impl LargeInteger {
    /// The number whose halves these are.
    pub open spec fn number(self) -> u64 {
        ((self.high_part as u64) << 32u64) | (self.low_part as u64)
    }

    /// The number whose halves these are.
    pub fn combine(self) -> (r: u64)
        ensures
            r == self.number(),
    {
        ((self.high_part as u64) << 32u64) | (self.low_part as u64)
    }
}

/// The halves of a signed number.
pub fn to_large_integer(value: i64) -> (r: LargeInteger)
    ensures
        r.number() == value as u64,
{
    let low_part: u32 = value as u32;
    let high_part: i32 = (value >> 32u64) as i32;
    assert((((value >> 32u64) as i32) as u64) << 32u64 | ((value as u32) as u64) == value as u64) by (bit_vector);
    LargeInteger { low_part, high_part }
}

/// The halves of an unsigned number.
pub fn to_large_integer_unsigned(value: u64) -> (r: LargeInteger)
    ensures
        r.number() == value,
{
    let low_part: u32 = value as u32;
    let high_part: i32 = (value >> 32u64) as i32;
    assert((((value >> 32u64) as i32) as u64) << 32u64 | ((value as u32) as u64) == value) by (bit_vector);
    LargeInteger { low_part, high_part }
}

/// What to ask the host for to move in a file: from where, and how far.
pub fn seek_request(pos: SeekFrom) -> (r: (u32, LargeInteger))
    ensures
        match pos {
            SeekFrom::Start(to) => r.0 == FILE_BEGIN && r.1.number() == to,
            SeekFrom::Current(by) => r.0 == FILE_CURRENT && r.1.number() == by as u64,
            SeekFrom::End(by) => r.0 == FILE_END && r.1.number() == by as u64,
        },
{
    match pos {
        SeekFrom::Start(to) => (FILE_BEGIN, to_large_integer_unsigned(to)),
        SeekFrom::Current(by) => (FILE_CURRENT, to_large_integer(by)),
        SeekFrom::End(by) => (FILE_END, to_large_integer(by)),
    }
}

/// Where a guest is told to be after the host moved in a file, or failed to.
pub fn position_told(told: Option<LargeInteger>) -> (r: Result<u64, Errno>)
    ensures
        r == match told {
            Some(position) => Ok::<u64, Errno>(position.number()),
            None => Err(Errno::Io),
        },
{
    match told {
        Some(position) => Ok(position.combine()),
        None => Err(Errno::Io),
    }
}

/// Prefixes become verbatim ones that name the same disk, or the same server and share.
pub proof fn verbatim_prefixes_name_the_same(letter: u8, server: String, share: String)
    ensures
        ({
            let disk = verbatim_prefix(RootStart::Disk(letter));
            &&& disk.len() == 6
            &&& disk[0] == '\\' && disk[1] == '\\' && disk[2] == '?' && disk[3] == '\\'
            &&& disk[4] == letter as char && disk[5] == ':'
        }),
        ({
            let unc = verbatim_prefix(RootStart::Unc { server, share });
            let n = server@.len() as int;
            &&& unc.len() == 9 + n + share@.len()
            &&& unc[0] == '\\' && unc[1] == '\\' && unc[2] == '?' && unc[3] == '\\'
            &&& unc[4] == 'U' && unc[5] == 'N' && unc[6] == 'C' && unc[7] == '\\'
            &&& unc.subrange(8, 8 + n) == server@
            &&& unc[8 + n] == '\\'
            &&& unc.skip(9 + n) == share@
        }),
{
    let unc = verbatim_prefix(RootStart::Unc { server, share });
    let n = server@.len() as int;
    assert(unc.subrange(8, 8 + n) =~= server@);
    assert(unc.skip(9 + n) =~= share@);
}

/// A request would change a file exactly where it asks to write, to create, to create only, or to cut it off.
pub proof fn requests_to_change_are_known(write: bool, oflags: Oflags)
    ensures
        is_mutating(write, oflags) <==> write || oflags & 0xd != 0,
{
    assert((oflags & OFLAGS_CREAT == OFLAGS_CREAT || oflags & OFLAGS_EXCL == OFLAGS_EXCL || oflags & OFLAGS_TRUNC
        == OFLAGS_TRUNC) == (oflags & 0xd != 0)) by (bit_vector);
}

/// A character of the first plane is one unit, its number. Every other is two: the upper ten bits of what it
/// is above that plane in the first, and the lower ten in the second.
pub proof fn characters_are_one_or_two_units(c: char)
    ensures
        (c as u32) < 0x1_0000 ==> utf16_char(c).len() == 1 && utf16_char(c)[0] == c as u32,
        (c as u32) >= 0x1_0000 ==> {
            &&& utf16_char(c).len() == 2
            &&& 0xd800 <= utf16_char(c)[0] < 0xdc00
            &&& 0xdc00 <= utf16_char(c)[1] < 0xe000
            &&& c as u32 == 0x1_0000 + 0x400 * (utf16_char(c)[0] - 0xd800) + (utf16_char(c)[1] - 0xdc00)
        },
{
    utf16_char_units(c);
    let n = c as u32;
    if n >= 0x1_0000 {
        let h = (n - 0x1_0000) / 0x400;
        let l = (n - 0x1_0000) % 0x400;
        assert(n <= 0x10_ffff);
        assert(0 <= h < 0x400 && 0 <= l < 0x400 && n - 0x1_0000 == 0x400 * h + l);
    }
}

/// The units of a text are those of its characters, one after the other.
pub proof fn texts_are_the_units_of_their_characters(s: Seq<char>, c: char)
    ensures
        utf16(Seq::empty()) == Seq::<u16>::empty(),
        utf16(s.push(c)) == utf16(s) + utf16_char(c),
{
    assert(s.push(c).drop_last() =~= s);
}

/// The last segment of a path is all behind its last backslash.
pub proof fn last_segments_follow_the_last_backslash(path: Seq<u16>, name: Seq<u16>)
    requires
        !name.contains(0x5c),
    ensures
        last_segment(path.push(0x5c) + name) == name,
        last_segment(name) == name,
    decreases name.len(),
{
    let all = path.push(0x5c) + name;
    if name.len() == 0 {
        assert(name =~= Seq::<u16>::empty());
    } else {
        let shorter = name.drop_last();
        assert(name.contains(name.last()));
        assert forall|x: u16| shorter.contains(x) implies name.contains(x) by {
            let k = choose|k: int| 0 <= k < shorter.len() && shorter[k] == x;
            assert(name[k] == x);
        }
        last_segments_follow_the_last_backslash(path, shorter);
        assert(all.drop_last() =~= path.push(0x5c) + shorter);
        assert(all.last() == name.last());
        assert(shorter.push(name.last()) =~= name);
    }
}

/// A child is opened only where the host opened a file of exactly the name, and not as a directory. A name
/// that is not exactly the one of the file is not there.
pub proof fn children_are_opened_by_their_exact_names(host: HostOpen, name: Seq<char>, oflags: Oflags)
    ensures
        open_answer(host, name, oflags) is Ok <==> (host matches HostOpen::Opened { path, .. } && last_segment(
            path@,
        ) == utf16(name) && oflags & 2 != 2),
        host is NameFailed ==> open_answer(host, name, oflags) == Err::<(), Errno>(Errno::Io),
        host matches HostOpen::CreateFailed { code } ==> open_answer(host, name, oflags) == Err::<(), Errno>(
            if code == Some(2i32) {
                Errno::Noent
            } else {
                Errno::Io
            },
        ),
        host matches HostOpen::AttributesFailed { path } ==> open_answer(host, name, oflags) == Err::<(), Errno>(
            if last_segment(path@) == utf16(name) {
                Errno::Io
            } else {
                Errno::Noent
            },
        ),
        host matches HostOpen::Opened { path, .. } && last_segment(path@) != utf16(name) ==> open_answer(
            host,
            name,
            oflags,
        ) == Err::<(), Errno>(Errno::Noent),
        host matches HostOpen::Opened { path, .. } && last_segment(path@) == utf16(name) && oflags & 2 == 2
            ==> open_answer(host, name, oflags) == Err::<(), Errno>(Errno::Notdir),
{
}

/// Two bytes are a number with the lower one first, and so are four.
pub proof fn units_are_little_endian(data: Seq<u8>, at: int)
    ensures
        unit_at(data, at) == data[at] + 256 * data[at + 1],
        reparse_tag(data) == data[0] + 256 * data[1] + 65536 * data[2] + 16777216 * data[3],
{
}

/// The target of a link is told where its data have the tag of a link and hold what they tell of: as many
/// units as half the bytes, from where they start. Targets that start with two question marks between
/// backslashes are not told.
pub proof fn links_tell_their_targets(data: Seq<u8>)
    ensures
        link_units(data) == Err::<Seq<u16>, Errno>(Errno::Inval) <==> data.len() < 4 || !(data[0] == 0x0c && data[1]
            == 0 && data[2] == 0 && data[3] == 0xa0),
        link_units(data) matches Ok(units) ==> {
            let start = 20 + 2 * ((data[8] + 256 * data[9]) / 2);
            &&& data.len() >= 20
            &&& units.len() == (data[10] + 256 * data[11]) / 2
            &&& start + 2 * units.len() <= data.len()
            &&& forall|i: int|
                0 <= i < units.len() ==> #[trigger] units[i] == data[start + 2 * i] + 256 * data[start + 2 * i + 1]
            &&& !(units.len() >= 4 && units[0] == 92 && units[1] == 63 && units[2] == 63 && units[3] == 92)
        },
        ({
            let start = 20 + 2 * ((data[8] + 256 * data[9]) / 2);
            let len = (data[10] + 256 * data[11]) / 2;
            data.len() >= 20 && data[0] == 0x0c && data[1] == 0 && data[2] == 0 && data[3] == 0xa0 && start + 2 * len
                <= data.len() && (len < 4 || data[start] != 92 || data[start + 1] != 0) ==> link_units(data) is Ok
        }),
{
    if data.len() >= 20 && reparse_tag(data) == IO_REPARSE_TAG_SYMLINK {
        let start = 20 + 2 * (unit_at(data, 8) / 2);
        let len = unit_at(data, 10) / 2;
        let units = Seq::new(len as nat, |i: int| unit_at(data, start + 2 * i));
        assert(len >= 4 ==> units[0] == unit_at(data, start));
        if len >= 4 && units.take(4) == seq![92u16, 63u16, 63u16, 92u16] {
            assert(units.take(4)[0] == units[0]);
            assert(units[0] == 92);
        } else if len >= 4 && units[0] == 92 && units[1] == 63 && units[2] == 63 && units[3] == 92 {
            assert(units.take(4) =~= seq![92u16, 63u16, 63u16, 92u16]);
        }
    }
}

/// A link is looked for only under names without a backslash. One that the host does not know is not there,
/// and a file that is no link is told as such.
pub proof fn links_are_looked_for_by_name(name: Seq<char>, host: HostLink)
    ensures
        name.contains('\\') ==> link_answer(name, host) == Err::<Seq<u16>, Errno>(Errno::Noent),
        !name.contains('\\') ==> match host {
            HostLink::CreateFailed { code } => link_answer(name, host) == Err::<Seq<u16>, Errno>(
                if code == Some(2i32) {
                    Errno::Noent
                } else {
                    Errno::Io
                },
            ),
            HostLink::ReparseFailed { code } => link_answer(name, host) == Err::<Seq<u16>, Errno>(
                if code == Some(4390i32) {
                    Errno::Inval
                } else {
                    Errno::Io
                },
            ),
            HostLink::Reparse { data } => link_answer(name, host) == link_units(data@),
        },
{
}

/// Components can stand in a link where they are names that are text, or one or two dots. Roots and other
/// prefixes cannot.
pub proof fn relative_components_have_texts(component: LinkComponent)
    ensures
        match component {
            LinkComponent::VerbatimPrefix(Some(name)) => component_text(component) == Some(name@),
            LinkComponent::Normal(Some(name)) => component_text(component) == Some(name@),
            LinkComponent::CurDir => component_text(component) == Some(seq!['.']),
            LinkComponent::ParentDir => component_text(component) == Some(seq!['.', '.']),
            _ => component_text(component) is None,
        },
{
}

/// Components are joined by single slashes, and one that cannot stand in a link spoils the whole.
pub proof fn components_are_joined_by_slashes(components: Seq<LinkComponent>, last: LinkComponent)
    ensures
        joined_components(Seq::empty()) == Some(Seq::<char>::empty()),
        joined_components(components.push(last)) == match (joined_components(components), component_text(last)) {
            (Some(before), Some(text)) => Some(
                if components.len() == 0 {
                    text
                } else {
                    before + seq!['/'] + text
                },
            ),
            _ => None,
        },
{
    assert(components.push(last).drop_last() =~= components);
}

/// The low half of a number is its low half, and the high half its high half.
pub proof fn halves_stand_in_their_places(n: LargeInteger)
    ensures
        n.number() & 0xffff_ffff == n.low_part as u64,
        n.number() >> 32 == (n.high_part as u32) as u64,
{
    let (low, high) = (n.low_part, n.high_part);
    assert((((high as u64) << 32u64) | (low as u64)) & 0xffff_ffff == low as u64) by (bit_vector);
    assert((((high as u64) << 32u64) | (low as u64)) >> 32 == (high as u32) as u64) by (bit_vector);
}

/// The numbers of the host's interface.
pub proof fn host_numbers()
    ensures
        ERROR_FILE_NOT_FOUND == 2 && ERROR_NOT_A_REPARSE_POINT == 4390,
        FILE_ATTRIBUTE_DIRECTORY == 0x10 && FILE_ATTRIBUTE_REPARSE_POINT == 0x400,
        IO_REPARSE_TAG_SYMLINK == 0xa000_000c,
        FILE_BEGIN == 0 && FILE_CURRENT == 1 && FILE_END == 2,
{
}

} // verus!
