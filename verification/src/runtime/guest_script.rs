//! The scripts that a guest runs: where they stand, the packages that they belong to, and what the
//! guest answers of them.

use vstd::prelude::*;

use crate::base::paths::{self, push_path};
use crate::runtime::guest_memory::{DataEncoding, OutputBuffer};

verus! {

/// What `pathdiff::diff_paths` gives for a path and a base: the path as seen from the base.
pub uninterp spec fn relative_path(path: Seq<char>, base: Seq<char>) -> Option<Seq<char>>;

/// `pathdiff::diff_paths` gives a path as seen from a base, where there is a way. It is made of
/// components of the two texts, and so a text. Paths are those of a guest, with slashes between their
/// components.
#[verifier::external_body]
fn diff_paths(path: &str, base: &str) -> (r: Option<String>)
    ensures
        match r {
            Some(text) => relative_path(path@, base@) == Some(text@),
            None => relative_path(path@, base@) is None,
        },
{
    pathdiff::diff_paths(path, base).map(|p| p.to_str().expect("invalid UTF-8 in path").to_owned())
}

/// What `std::path::Path::parent` gives for a path: the path without its last component, where it has
/// one.
pub uninterp spec fn parent_path(path: Seq<char>) -> Option<Seq<char>>;

/// `std::path::Path::parent` gives a path without its last component, where it has one. Paths are those of
/// a guest, with slashes between their components.
#[verifier::external_body]
fn parent_of(path: &str) -> (r: Option<String>)
    ensures
        match r {
            Some(text) => parent_path(path@) == Some(text@),
            None => parent_path(path@) is None,
        },
{
    std::path::Path::new(path).parent().map(|p| p.to_str().expect("invalid UTF-8 in path").to_owned())
}

/// A text with one character in place of another.
pub open spec fn with_char(s: Seq<char>, from: char, to: char) -> Seq<char> {
    s.map_values(
        |c: char|
            if c == from {
                to
            } else {
                c
            },
    )
}

/// Puts one character in place of another.
pub fn replace_char(s: &str, from: char, to: char) -> (r: String)
    ensures
        r@ == with_char(s@, from, to),
{
    let len: usize = s.unicode_len();
    let mut out: String = String::new();
    let mut i: usize = 0;
    assert(out@ =~= with_char(s@, from, to).take(0));
    while i < len
        invariant
            len == s@.len(),
            i <= len,
            out@ == with_char(s@, from, to).take(i as int),
        decreases len - i,
    {
        let c: char = s.get_char(i);
        out.push(
            if c == from {
                to
            } else {
                c
            },
        );
        i += 1;
        assert(out@ =~= with_char(s@, from, to).take(i as int));
    }
    assert(with_char(s@, from, to).take(len as int) =~= with_char(s@, from, to));
    out
}

/// The package of the scripts of a directory, which is named relative to the root of the packages: the
/// names of the directories with dots between them, behind a prefix.
pub fn package_of_directory(directory: &str, package_root_prefix: &str) -> (r: String)
    ensures
        r@ == package_root_prefix@ + with_char(directory@, '/', '.'),
{
    let mut package: String = package_root_prefix.to_owned();
    let dotted: String = replace_char(directory, '/', '.');
    package.append(dotted.as_str());
    package
}

/// The directory of a script, whose path is named relative to the root of the packages. A path that has
/// no last component stays.
pub open spec fn script_directory(relative: Seq<char>) -> Seq<char> {
    match parent_path(relative) {
        Some(directory) => directory,
        None => relative,
    }
}

/// The package that a script belongs to, where its path can be seen from the root of the packages.
pub fn script_package(actual_path: &str, package_root: &str, package_root_prefix: &str) -> (r: Option<String>)
    ensures
        match (r, relative_path(actual_path@, package_root@)) {
            (Some(package), Some(relative)) => package@ == package_root_prefix@ + with_char(
                script_directory(relative),
                '/',
                '.',
            ),
            (None, None) => true,
            _ => false,
        },
{
    match diff_paths(actual_path, package_root) {
        Some(relative) => match parent_of(relative.as_str()) {
            Some(directory) => Some(package_of_directory(directory.as_str(), package_root_prefix)),
            None => Some(package_of_directory(relative.as_str(), package_root_prefix)),
        },
        None => None,
    }
}

/// A script to run.
#[derive(Debug)]
pub struct Script {
    pub actual_path: String,
    /// The path by which messages name the script.
    pub display_path: String,
    pub package_root: String,
    pub package_root_prefix: String,
}

/// The directory of a workspace in a guest.
pub open spec fn workspace_directory(workspace_name: Seq<char>) -> Seq<char> {
    paths::pushed("/workspaces"@, workspace_name)
}

/// Where a file of a workspace stands in a guest.
pub fn workspace_file(workspace_name: &str, path: &str) -> (r: String)
    ensures
        r@ == paths::pushed(workspace_directory(workspace_name@), path@),
{
    let directory: String = push_path("/workspaces", workspace_name);
    push_path(directory.as_str(), path)
}

/// The script that configures the root workspace.
pub fn root_workspace_script() -> (r: Script)
    ensures
        r.actual_path@ == "/workspace/workspace.cealn"@,
        r.display_path@ == "workspace.cealn"@,
        r.package_root@ == "/workspace"@,
        r.package_root_prefix@ == "root_workspace."@,
{
    Script {
        actual_path: "/workspace/workspace.cealn".to_owned(),
        display_path: "workspace.cealn".to_owned(),
        package_root: "/workspace".to_owned(),
        package_root_prefix: "root_workspace.".to_owned(),
    }
}

/// The script that describes a package of a workspace. The name of the workspace becomes a name of a
/// module, which holds no dots.
pub fn package_script(workspace_name: &str, package_path: &str) -> (r: Script)
    ensures
        r.display_path@ == paths::pushed(package_path@, "build.cealn"@),
        r.package_root@ == workspace_directory(workspace_name@),
        r.actual_path@ == paths::pushed(r.package_root@, r.display_path@),
        r.package_root_prefix@ == "workspaces."@ + with_char(workspace_name@, '.', '_') + "."@,
{
    let display_path: String = push_path(package_path, "build.cealn");
    let package_root: String = push_path("/workspaces", workspace_name);
    let actual_path: String = push_path(package_root.as_str(), display_path.as_str());
    let mut package_root_prefix: String = "workspaces.".to_owned();
    let module: String = replace_char(workspace_name, '.', '_');
    package_root_prefix.append(module.as_str());
    package_root_prefix.append(".");
    Script { actual_path, display_path, package_root, package_root_prefix }
}

/// A text as the interpreter of a guest keeps it.
#[derive(Debug)]
pub enum TextData {
    Utf8(Vec<u8>),
    Latin1(Vec<u8>),
    /// Units of more than one byte.
    Wide,
}

/// The buffer in which a guest hands out the result of a script: the text that it made, or the error
/// that the guest encoded in its place.
pub fn output_buffer(result: Result<TextData, Vec<u8>>) -> (r: OutputBuffer)
    requires
        !(result matches Ok(TextData::Wide)),
    ensures
        match result {
            Ok(TextData::Utf8(bytes)) => r.bytes == bytes && r.encoding == DataEncoding::Utf8,
            Ok(TextData::Latin1(bytes)) => r.bytes == bytes && r.encoding == DataEncoding::Latin1,
            Ok(TextData::Wide) => false,
            Err(bytes) => r.bytes == bytes && r.encoding == DataEncoding::Utf8,
        },
{
    match result {
        Ok(TextData::Utf8(bytes)) => OutputBuffer { bytes, encoding: DataEncoding::Utf8 },
        Ok(TextData::Latin1(bytes)) => OutputBuffer { bytes, encoding: DataEncoding::Latin1 },
        Ok(TextData::Wide) => OutputBuffer { bytes: Vec::new(), encoding: DataEncoding::Utf8 },
        Err(bytes) => OutputBuffer { bytes, encoding: DataEncoding::Utf8 },
    }
}

/// An exception of a script, as it is told outside of the guest.
#[derive(Debug)]
pub struct PythonError {
    pub class: String,
    pub message: String,
    pub traceback: Option<String>,
}

/// An exception as it is told, from the message and the traceback as far as they could be made.
pub fn python_error(class: String, message: Option<String>, traceback: Option<String>) -> (r: PythonError)
    ensures
        r.class == class,
        match message {
            Some(message) => r.message == message,
            None => r.message@ == "[str failed for Python error]"@,
        },
        r.traceback == traceback,
{
    let message: String = match message {
        Some(message) => message,
        None => "[str failed for Python error]".to_owned(),
    };
    PythonError { class, message, traceback }
}

/// What `getcwd` writes into a buffer of a size, where it fits: a guest is always in the root.
pub fn current_directory(size: usize) -> (r: Option<Vec<u8>>)
    ensures
        match r {
            Some(bytes) => size >= 2 && bytes@ == seq![0x2fu8, 0u8],
            None => size < 2,
        },
{
    if size < 2 {
        return None;
    }
    let mut bytes: Vec<u8> = Vec::new();
    bytes.push(0x2f);
    bytes.push(0);
    assert(bytes@ =~= seq![0x2fu8, 0u8]);
    Some(bytes)
}

/// What `dup` answers, from a number that is a descriptor or a negated error.
pub fn dup_result(ret: i32) -> (r: Result<i32, i32>)
    requires
        ret > i32::MIN,
    ensures
        r == if ret < 0 {
            Err::<i32, i32>((-ret) as i32)
        } else {
            Ok(ret)
        },
{
    if ret < 0 {
        Err(-ret)
    } else {
        Ok(ret)
    }
}

/// Every place of one character is taken by the other, and nothing else changes.
pub proof fn characters_are_replaced_in_place(s: Seq<char>, from: char, to: char, i: int)
    requires
        0 <= i < s.len(),
    ensures
        with_char(s, from, to).len() == s.len(),
        s[i] == from ==> with_char(s, from, to)[i] == to,
        s[i] != from ==> with_char(s, from, to)[i] == s[i],
{
}

/// A script stands in the directory that holds it, and a path that is in none is its own.
pub proof fn scripts_stand_in_their_directories(relative: Seq<char>)
    ensures
        parent_path(relative) matches Some(directory) ==> script_directory(relative) == directory,
        parent_path(relative) is None ==> script_directory(relative) == relative,
{
}

/// Workspaces stand below one directory of a guest, each under its name.
pub proof fn workspaces_stand_side_by_side(name: Seq<char>)
    requires
        name.len() > 0,
        name[0] != '/',
    ensures
        workspace_directory(name) == "/workspaces/"@ + name,
{
    reveal_strlit("/workspaces");
    reveal_strlit("/workspaces/");
    assert("/workspaces"@.push('/') =~= "/workspaces/"@);
}

} // verus!
