//! The mount table: named files and directories that a process can open.

use vstd::prelude::*;
use vstd::string::StringExecFns;

verus! {

/// What an open name turned out to be.
pub enum FileDirectoryPipe {
    File(String),
    Directory(Vec<String>),
}

pub struct Name(pub String);

pub struct Directory(pub Vec<(Name, Inode)>);

pub enum Inode {
    File(String),
    Directory(Directory),
}

/// Why a name could not be opened.
#[derive(Debug, PartialEq, Eq, Structural)]
pub enum OpenError {
    /// Nothing of the wanted kind has that name.
    NoEntry,
    /// A part of the path is not a directory.
    NoDirectory,
    /// The name is a directory where a file was wanted.
    IsDirectory,
    /// The name is a file where a directory was wanted.
    IsFile,
}

/// The name of an error's variant.
pub open spec fn error_name(error: OpenError) -> Seq<char> {
    match error {
        OpenError::NoEntry => "NoEntry"@,
        OpenError::NoDirectory => "NoDirectory"@,
        OpenError::IsDirectory => "IsDirectory"@,
        OpenError::IsFile => "IsFile"@,
    }
}

impl OpenError {
    /// The name of the error's variant, as it is shown to the user.
    pub fn name(&self) -> (name: &'static str)
        ensures
            name@ == error_name(*self),
    {
        match self {
            OpenError::NoEntry => "NoEntry",
            OpenError::NoDirectory => "NoDirectory",
            OpenError::IsDirectory => "IsDirectory",
            OpenError::IsFile => "IsFile",
        }
    }
}

/// Index of the first entry called `name`, if there is one.
pub open spec fn first_named(entries: Seq<(Name, Inode)>, name: Seq<char>) -> Option<int>
    decreases entries.len(),
{
    if entries.len() == 0 {
        None
    } else if entries[0].0.0@ == name {
        Some(0)
    } else {
        match first_named(entries.drop_first(), name) {
            Some(i) => Some(i + 1),
            None => None,
        }
    }
}

/// Index of the first entry called `name` that is a file, if there is one.
pub open spec fn first_file(entries: Seq<(Name, Inode)>, name: Seq<char>) -> Option<int>
    decreases entries.len(),
{
    if entries.len() == 0 {
        None
    } else if entries[0].0.0@ == name && entries[0].1 is File {
        Some(0)
    } else {
        match first_file(entries.drop_first(), name) {
            Some(i) => Some(i + 1),
            None => None,
        }
    }
}

/// `first_named` over the entries before `upto` finds nothing exactly when
/// none of them has the name.
pub proof fn lemma_first_named(entries: Seq<(Name, Inode)>, name: Seq<char>)
    ensures
        match first_named(entries, name) {
            Some(i) => 0 <= i < entries.len() && entries[i].0.0@ == name && forall|j: int|
                0 <= j < i ==> (#[trigger] entries[j]).0.0@ != name,
            None => forall|j: int| 0 <= j < entries.len() ==> (#[trigger] entries[j]).0.0@ != name,
        },
    decreases entries.len(),
{
    if entries.len() > 0 && entries[0].0.0@ != name {
        let rest = entries.drop_first();
        lemma_first_named(rest, name);
        match first_named(rest, name) {
            Some(i) => {
                assert forall|j: int| 0 <= j < i + 1 implies (#[trigger] entries[j]).0.0@
                    != name by {
                    if j > 0 {
                        assert(rest[j - 1].0.0@ != name);
                    }
                }
            },
            None => {
                assert forall|j: int| 0 <= j < entries.len() implies (#[trigger] entries[j]).0.0@
                    != name by {
                    if j > 0 {
                        assert(rest[j - 1].0.0@ != name);
                    }
                }
            },
        }
    }
}

/// The same for `first_file`.
pub proof fn lemma_first_file(entries: Seq<(Name, Inode)>, name: Seq<char>)
    ensures
        match first_file(entries, name) {
            Some(i) => 0 <= i < entries.len() && entries[i].0.0@ == name && entries[i].1 is File
                && forall|j: int|
                0 <= j < i ==> !((#[trigger] entries[j]).0.0@ == name && entries[j].1 is File),
            None => forall|j: int|
                0 <= j < entries.len() ==> !((#[trigger] entries[j]).0.0@ == name
                    && entries[j].1 is File),
        },
    decreases entries.len(),
{
    if entries.len() > 0 && !(entries[0].0.0@ == name && entries[0].1 is File) {
        let rest = entries.drop_first();
        lemma_first_file(rest, name);
        match first_file(rest, name) {
            Some(i) => {
                assert forall|j: int| 0 <= j < i + 1 implies !((#[trigger] entries[j]).0.0@ == name
                    && entries[j].1 is File) by {
                    if j > 0 {
                        assert(rest[j - 1] == entries[j]);
                    }
                }
            },
            None => {
                assert forall|j: int| 0 <= j < entries.len() implies !((#[trigger] entries[j]).0.0@
                    == name && entries[j].1 is File) by {
                    if j > 0 {
                        assert(rest[j - 1] == entries[j]);
                    }
                }
            },
        }
    }
}

/// An index that meets what `lemma_first_named` states is the one that
/// `first_named` finds.
pub proof fn lemma_first_named_is(entries: Seq<(Name, Inode)>, name: Seq<char>, found: Option<int>)
    requires
        match found {
            Some(i) => 0 <= i < entries.len() && entries[i].0.0@ == name && forall|j: int|
                0 <= j < i ==> (#[trigger] entries[j]).0.0@ != name,
            None => forall|j: int| 0 <= j < entries.len() ==> (#[trigger] entries[j]).0.0@ != name,
        },
    ensures
        first_named(entries, name) == found,
{
    lemma_first_named(entries, name);
    match (first_named(entries, name), found) {
        (Some(a), Some(b)) => {
            if a < b {
                assert(entries[a].0.0@ != name);
            } else if b < a {
                assert(entries[b].0.0@ != name);
            }
        },
        (Some(a), None) => {
            assert(entries[a].0.0@ != name);
        },
        (None, Some(b)) => {
            assert(entries[b].0.0@ != name);
        },
        (None, None) => {},
    }
}

/// The same for `first_file`.
pub proof fn lemma_first_file_is(entries: Seq<(Name, Inode)>, name: Seq<char>, found: Option<int>)
    requires
        match found {
            Some(i) => 0 <= i < entries.len() && entries[i].0.0@ == name && entries[i].1 is File
                && forall|j: int|
                0 <= j < i ==> !((#[trigger] entries[j]).0.0@ == name && entries[j].1 is File),
            None => forall|j: int|
                0 <= j < entries.len() ==> !((#[trigger] entries[j]).0.0@ == name
                    && entries[j].1 is File),
        },
    ensures
        first_file(entries, name) == found,
{
    lemma_first_file(entries, name);
    match (first_file(entries, name), found) {
        (Some(a), Some(b)) => {
            if a < b {
                assert(!(entries[a].0.0@ == name && entries[a].1 is File));
            } else if b < a {
                assert(!(entries[b].0.0@ == name && entries[b].1 is File));
            }
        },
        (Some(a), None) => {
            assert(!(entries[a].0.0@ == name && entries[a].1 is File));
        },
        (None, Some(b)) => {
            assert(!(entries[b].0.0@ == name && entries[b].1 is File));
        },
        (None, None) => {},
    }
}

impl Directory {
    /// The content of the first file called `name`.
    pub fn file(&self, name: &String) -> (result: Result<&String, OpenError>)
        ensures
            match first_file(self.0@, name@) {
                Some(i) => result matches Ok(content) && Inode::File(*content) == self.0@[i].1,
                None => result == Err::<&String, OpenError>(OpenError::NoEntry),
            },
    {
        let mut i: usize = 0;
        while i < self.0.len()
            invariant
                i <= self.0@.len(),
                forall|j: int|
                    0 <= j < i ==> !((#[trigger] self.0@[j]).0.0@ == name@ && self.0@[j].1 is File),
            decreases self.0@.len() - i,
        {
            if self.0[i].0.0 == *name {
                if let Inode::File(content) = &self.0[i].1 {
                    proof {
                        lemma_first_file_is(self.0@, name@, Some(i as int));
                    }
                    return Ok(content);
                }
            }
            i += 1;
        }
        proof {
            lemma_first_file_is(self.0@, name@, None);
        }
        Err(OpenError::NoEntry)
    }

    /// The directory that is the first entry called `name`.
    pub fn directory(&self, name: &String) -> (result: Result<&Directory, OpenError>)
        ensures
            match first_named(self.0@, name@) {
                Some(i) => match self.0@[i].1 {
                    Inode::Directory(directory) => result == Ok::<&Directory, OpenError>(
                        &directory,
                    ),
                    Inode::File(_) => result == Err::<&Directory, OpenError>(OpenError::IsFile),
                },
                None => result == Err::<&Directory, OpenError>(OpenError::NoEntry),
            },
    {
        let mut i: usize = 0;
        while i < self.0.len()
            invariant
                i <= self.0@.len(),
                forall|j: int| 0 <= j < i ==> (#[trigger] self.0@[j]).0.0@ != name@,
            decreases self.0@.len() - i,
        {
            if self.0[i].0.0 == *name {
                proof {
                    lemma_first_named_is(self.0@, name@, Some(i as int));
                }
                if let Inode::Directory(directory) = &self.0[i].1 {
                    return Ok(directory);
                }
                return Err(OpenError::IsFile);
            }
            i += 1;
        }
        proof {
            lemma_first_named_is(self.0@, name@, None);
        }
        Err(OpenError::NoEntry)
    }
}

pub struct Fs {
    mount: Directory,
}

impl Fs {
    /// The root directory.
    pub closed spec fn mount(&self) -> Directory {
        self.mount
    }

    /// A mount table with one file and one folder of two files.
    pub fn new() -> (fs: Self)
        ensures
            fs.mount().0@.len() == 2,
            fs.mount().0@[0].0.0@ == "mount-file"@,
            fs.mount().0@[0].1 matches Inode::File(content) && content@ == "content_of_mount_file"@,
            fs.mount().0@[1].0.0@ == "mount_folder"@,
            fs.mount().0@[1].1 matches Inode::Directory(folder) && {
                &&& folder.0@.len() == 2
                &&& folder.0@[0].0.0@ == "sub_file_1"@
                &&& folder.0@[0].1 matches Inode::File(content) && content@
                    == "content_of_sub_file_1"@
                &&& folder.0@[1].0.0@ == "sub_file_2"@
                &&& folder.0@[1].1 matches Inode::File(content) && content@
                    == "content_of_sub_file_2"@
            },
    {
        let mut folder: Vec<(Name, Inode)> = Vec::new();
        folder.push(
            (
                Name(String::from_str("sub_file_1")),
                Inode::File(String::from_str("content_of_sub_file_1")),
            ),
        );
        folder.push(
            (
                Name(String::from_str("sub_file_2")),
                Inode::File(String::from_str("content_of_sub_file_2")),
            ),
        );
        let mut mount: Vec<(Name, Inode)> = Vec::new();
        mount.push(
            (
                Name(String::from_str("mount-file")),
                Inode::File(String::from_str("content_of_mount_file")),
            ),
        );
        mount.push((Name(String::from_str("mount_folder")), Inode::Directory(Directory(folder))));
        Fs { mount: Directory(mount) }
    }

    /// The root directory.
    pub fn root(&self) -> (mount: &Directory)
        ensures
            *mount == self.mount(),
    {
        &self.mount
    }
}

} // verus!
