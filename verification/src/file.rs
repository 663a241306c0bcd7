//! The snapshot of one filesystem node: its name, its two path strings, its
//! category, its extension and its size.

use core::cmp::Ordering;
use vstd::prelude::*;
use vstd::std_specs::cmp::{PartialEqSpecImpl, PartialOrdSpecImpl};
use crate::error::{IoError, NASError, ResolveError};
use crate::path::{AbsolutePath, PathResolver};
use crate::path_model::{located, render_absolute, render_relative};
use crate::text::{from_chars, is_text, lex_rank, rank_text, Rank};

verus! {

/// What kind of content a node holds.
#[derive(Debug, Clone, Copy, PartialEq, Eq, Structural)]
pub enum NASFileCategory {
    Directory,
    Audio,
    Video,
    StreamPlaylist,
    StreamSegment,
    Document,
    Image,
    Unknown,
}

/// What one look at a node's metadata found.
#[derive(Debug, Clone, Copy, PartialEq, Eq, Structural)]
pub enum Probe {
    /// There is no node at the path.
    Missing,
    /// The metadata could not be read.
    Unreadable,
    /// The node exists: whether it is a directory, and its length in bytes.
    Found { is_dir: bool, len: u64 },
}

/// The position of the last `.` in the name, or -1 when it has none.
pub open spec fn last_dot(name: Seq<char>) -> int
    decreases name.len(),
{
    if name.len() == 0 {
        -1
    } else if name.last() == '.' {
        name.len() - 1
    } else {
        last_dot(name.drop_last())
    }
}

/// The part of the name after its last `.`; empty when the name has none.
pub open spec fn extension_of(name: Seq<char>) -> Seq<char> {
    if last_dot(name) < 0 {
        Seq::empty()
    } else {
        name.skip(last_dot(name) + 1)
    }
}

/// The category that an extension stands for. The match is exact and
/// case-sensitive; an extension that is not listed is unknown.
pub open spec fn category_of_extension(extension: Seq<char>) -> NASFileCategory {
    if extension == "mp3"@ {
        NASFileCategory::Audio
    } else if extension == "avi"@ || extension == "mkv"@ || extension == "mp4"@ {
        NASFileCategory::Video
    } else if extension == "m3u8"@ {
        NASFileCategory::StreamPlaylist
    } else if extension == "ts"@ {
        NASFileCategory::StreamSegment
    } else if extension == "pdf"@ || extension == "txt"@ {
        NASFileCategory::Document
    } else if extension == "png"@ || extension == "jpg"@ || extension == "jpeg"@ || extension
        == "webp"@ {
        NASFileCategory::Image
    } else {
        NASFileCategory::Unknown
    }
}

/// The category of a node: a directory is a directory whatever its name, any
/// other node goes by its extension.
pub open spec fn category_of(name: Seq<char>, is_dir: bool) -> NASFileCategory {
    if is_dir {
        NASFileCategory::Directory
    } else {
        category_of_extension(extension_of(name))
    }
}

/// The extension recorded for a node: none for a directory.
pub open spec fn extension_for(name: Seq<char>, is_dir: bool) -> Seq<char> {
    if is_dir {
        Seq::empty()
    } else {
        extension_of(name)
    }
}

/// The size recorded for a node: none for a directory.
pub open spec fn size_for(is_dir: bool, len: u64) -> u64 {
    if is_dir {
        0
    } else {
        len
    }
}

/// What classification gives for a node with the given name.
pub open spec fn classified(name: Seq<char>, probe: Probe) -> Result<
    (NASFileCategory, Seq<char>),
    IoError,
> {
    match probe {
        Probe::Missing => Err(IoError::NotFound),
        Probe::Unreadable => Err(IoError::Other),
        Probe::Found { is_dir, len } => Ok((category_of(name, is_dir), extension_for(name, is_dir))),
    }
}

/// A `.` with no `.` after it is the last one.
pub proof fn lemma_last_dot_found(name: Seq<char>, at: int)
    requires
        0 <= at < name.len(),
        name[at] == '.',
        forall|k: int| at < k < name.len() ==> name[k] != '.',
    ensures
        last_dot(name) == at,
    decreases name.len(),
{
    if at < name.len() - 1 {
        lemma_last_dot_found(name.drop_last(), at);
    }
}

/// A name without any `.` has no last one.
pub proof fn lemma_last_dot_absent(name: Seq<char>)
    requires
        forall|k: int| 0 <= k < name.len() ==> name[k] != '.',
    ensures
        last_dot(name) == -1,
    decreases name.len(),
{
    if name.len() > 0 {
        lemma_last_dot_absent(name.drop_last());
    }
}

/// The extension of a name.
pub fn extension_chars(name: &Vec<char>) -> (out: Vec<char>)
    ensures
        out@ == extension_of(name@),
{
    let mut i: usize = name.len();
    while i > 0
        invariant
            i <= name.len(),
            forall|k: int| i <= k < name.len() ==> name@[k] != '.',
        decreases i,
    {
        if name[i - 1] == '.' {
            proof {
                lemma_last_dot_found(name@, i - 1);
            }
            let mut out: Vec<char> = Vec::new();
            let mut k: usize = i;
            while k < name.len()
                invariant
                    i <= k <= name.len(),
                    out@ == name@.subrange(i as int, k as int),
                decreases name.len() - k,
            {
                out.push(name[k]);
                k += 1;
            }
            return out;
        }
        i -= 1;
    }
    proof {
        lemma_last_dot_absent(name@);
    }
    Vec::new()
}

/// Looks an extension up in the table of categories.
pub fn lookup_category(extension: &Vec<char>) -> (category: NASFileCategory)
    ensures
        category == category_of_extension(extension@),
{
    if is_text(extension, "mp3") {
        NASFileCategory::Audio
    } else if is_text(extension, "avi") || is_text(extension, "mkv") || is_text(extension, "mp4") {
        NASFileCategory::Video
    } else if is_text(extension, "m3u8") {
        NASFileCategory::StreamPlaylist
    } else if is_text(extension, "ts") {
        NASFileCategory::StreamSegment
    } else if is_text(extension, "pdf") || is_text(extension, "txt") {
        NASFileCategory::Document
    } else if is_text(extension, "png") || is_text(extension, "jpg") || is_text(extension, "jpeg")
        || is_text(extension, "webp") {
        NASFileCategory::Image
    } else {
        NASFileCategory::Unknown
    }
}

/// Classifies the node at `path` from one probe of its metadata. A node that
/// is missing, or whose metadata cannot be read, is not classified.
pub fn classify(path: &AbsolutePath, probe: &Probe) -> (res: Result<
    (NASFileCategory, String),
    IoError,
>)
    ensures
        (match classified(path.base_name(), *probe) {
            Ok(found) => res is Ok && res->Ok_0.0 == found.0 && res->Ok_0.1@ == found.1,
            Err(e) => res == Err::<(NASFileCategory, String), _>(e),
        }),
{
    match probe {
        Probe::Missing => Err(IoError::NotFound),
        Probe::Unreadable => Err(IoError::Other),
        Probe::Found { is_dir, len } => {
            let category = NASFile::category(path, *is_dir);
            let extension = NASFile::extension(path, *is_dir);
            Ok((category, extension))
        },
    }
}

/// What a snapshot holds, as plain values.
pub struct NASFileView {
    pub name: Seq<char>,
    pub relative_path: Seq<char>,
    pub absolute_path: Seq<char>,
    pub category: NASFileCategory,
    pub extension: Seq<char>,
    pub size_bytes: u64,
}

/// The snapshot of one filesystem node at the time it was probed.
#[derive(Debug, Eq)]
pub struct NASFile {
    /// The last name of the node's path.
    pub name: String,
    /// The path from the storage root to the node.
    pub relative_path_str: String,
    /// The path from the top of the filesystem to the node.
    pub absolute_path_str: String,
    pub category: NASFileCategory,
    /// What follows the last `.` of the name; empty for a directory.
    pub extension: String,
    /// The length of a file in bytes; 0 for a directory.
    pub size_bytes: u64,
}

impl View for NASFile {
    type V = NASFileView;

    open spec fn view(&self) -> NASFileView {
        NASFileView {
            name: self.name@,
            relative_path: self.relative_path_str@,
            absolute_path: self.absolute_path_str@,
            category: self.category,
            extension: self.extension@,
            size_bytes: self.size_bytes,
        }
    }
}

/// The snapshot of the node at a location, `root_len` names of which are the
/// storage root's, for what a probe found there. A location without a last
/// name, the top of the filesystem, has no snapshot.
pub open spec fn snapshot(location: Seq<Seq<char>>, root_len: nat, probe: Probe) -> Result<
    NASFileView,
    NASError,
> {
    match probe {
        Probe::Missing => Err(NASError::Io(IoError::NotFound)),
        Probe::Unreadable => Err(NASError::Io(IoError::Other)),
        Probe::Found { is_dir, len } => if location.len() == 0 {
            Err(NASError::Resolve(ResolveError::InvalidPath))
        } else {
            Ok(
                NASFileView {
                    name: location.last(),
                    relative_path: render_relative(location.skip(root_len as int)),
                    absolute_path: render_absolute(location),
                    category: category_of(location.last(), is_dir),
                    extension: extension_for(location.last(), is_dir),
                    size_bytes: size_for(is_dir, len),
                },
            )
        },
    }
}

impl NASFile {
    /// The name of the node at `path`: its last name. The top of the
    /// filesystem has none.
    pub fn file_name(path: &AbsolutePath) -> (res: Result<String, NASError>)
        ensures
            path@.len() > 0 ==> res is Ok && res->Ok_0@ == path@.last(),
            path@.len() == 0 ==> res == Err::<String, _>(
                NASError::Resolve(ResolveError::InvalidPath),
            ),
    {
        match path.file_name() {
            Some(name) => Ok(name),
            None => Err(NASError::Resolve(ResolveError::InvalidPath)),
        }
    }

    /// The category of the node at `path`, given whether it is a directory.
    pub fn category(path: &AbsolutePath, is_dir: bool) -> (category: NASFileCategory)
        ensures
            category == category_of(path.base_name(), is_dir),
    {
        if is_dir {
            NASFileCategory::Directory
        } else {
            let name = path.base_name_chars();
            let extension = extension_chars(&name);
            lookup_category(&extension)
        }
    }

    /// The extension of the node at `path`, given whether it is a directory.
    pub fn extension(path: &AbsolutePath, is_dir: bool) -> (extension: String)
        ensures
            extension@ == extension_for(path.base_name(), is_dir),
    {
        if is_dir {
            String::new()
        } else {
            let name = path.base_name_chars();
            let extension = extension_chars(&name);
            from_chars(&extension)
        }
    }

    /// The size in bytes that a probe found: nothing for a directory.
    pub fn size_bytes(probe: &Probe) -> (res: Result<u64, IoError>)
        ensures
            res == (match *probe {
                Probe::Missing => Err::<u64, IoError>(IoError::NotFound),
                Probe::Unreadable => Err::<u64, IoError>(IoError::Other),
                Probe::Found { is_dir, len } => Ok::<u64, IoError>(size_for(is_dir, len)),
            }),
    {
        match probe {
            Probe::Missing => Err(IoError::NotFound),
            Probe::Unreadable => Err(IoError::Other),
            Probe::Found { is_dir, len } => if *is_dir {
                Ok(0)
            } else {
                Ok(*len)
            },
        }
    }

    /// Builds the snapshot of the node at `path` from one probe of its
    /// metadata.
    pub fn from_pathbuf(path: &AbsolutePath, probe: &Probe) -> (res: Result<NASFile, NASError>)
        ensures
            (match snapshot(path@, path.root_len(), *probe) {
                Ok(view) => res is Ok && res->Ok_0@ == view,
                Err(e) => res == Err::<NASFile, _>(e),
            }),
    {
        match probe {
            Probe::Missing => Err(NASError::Io(IoError::NotFound)),
            Probe::Unreadable => Err(NASError::Io(IoError::Other)),
            Probe::Found { is_dir, len } => {
                let name = match NASFile::file_name(path) {
                    Ok(name) => name,
                    Err(e) => {
                        return Err(e);
                    },
                };
                let absolute_path_str = path.absolute_string();
                let relative_path_str = path.strip_root().as_str().to_owned();
                let category = NASFile::category(path, *is_dir);
                let extension = NASFile::extension(path, *is_dir);
                let size_bytes = if *is_dir {
                    0
                } else {
                    *len
                };
                Ok(
                    NASFile {
                        name,
                        relative_path_str,
                        absolute_path_str,
                        category,
                        extension,
                        size_bytes,
                    },
                )
            },
        }
    }
}

impl NASFile {
    /// Builds the snapshot of the node that a percent-encoded path names
    /// under the resolver's root, from one probe of that node's metadata.
    pub fn from_relative_path_str(resolver: &PathResolver, path: &str, probe: &Probe) -> (res:
        Result<NASFile, NASError>)
        ensures
            (match located(resolver.root@, path@) {
                Ok(target) => match snapshot(target, resolver.root@.len(), *probe) {
                    Ok(view) => res is Ok && res->Ok_0@ == view,
                    Err(e) => res == Err::<NASFile, _>(e),
                },
                Err(e) => res == Err::<NASFile, _>(e),
            }),
    {
        match resolver.locate(path) {
            Ok(found) => NASFile::from_pathbuf(&found, probe),
            Err(e) => Err(e),
        }
    }

    /// The absolute path string of the node that a percent-encoded path names
    /// under the resolver's root.
    pub fn relative_to_absolute_str(resolver: &PathResolver, path: &str) -> (res: Result<
        String,
        NASError,
    >)
        ensures
            (match located(resolver.root@, path@) {
                Ok(target) => res is Ok && res->Ok_0@ == render_absolute(target),
                Err(e) => res == Err::<String, _>(e),
            }),
    {
        match resolver.locate(path) {
            Ok(found) => Ok(found.absolute_string()),
            Err(e) => Err(e),
        }
    }
}

impl NASFileCategory {
    /// Whether the category is that of a directory.
    pub open spec fn is_directory(self) -> bool {
        self == NASFileCategory::Directory
    }

    /// Whether the category is that of a directory.
    pub fn is_dir(&self) -> (yes: bool)
        ensures
            yes == self.is_directory(),
    {
        match self {
            NASFileCategory::Directory => true,
            _ => false,
        }
    }
}

/// The place of one category relative to another in a listing: directories
/// stand before everything else, and nothing else is told apart.
pub open spec fn category_order(a: NASFileCategory, b: NASFileCategory) -> Ordering {
    if a.is_directory() && !b.is_directory() {
        Ordering::Less
    } else if !a.is_directory() && b.is_directory() {
        Ordering::Greater
    } else {
        Ordering::Equal
    }
}

impl PartialOrd for NASFileCategory {
    fn partial_cmp(&self, other: &Self) -> (r: Option<Ordering>) {
        let mine = self.is_dir();
        let theirs = other.is_dir();
        if mine && !theirs {
            Some(Ordering::Less)
        } else if !mine && theirs {
            Some(Ordering::Greater)
        } else {
            Some(Ordering::Equal)
        }
    }
}

impl PartialOrdSpecImpl for NASFileCategory {
    open spec fn obeys_partial_cmp_spec() -> bool {
        true
    }

    open spec fn partial_cmp_spec(&self, other: &Self) -> Option<Ordering> {
        Some(category_order(*self, *other))
    }
}

/// Whether `a` stands before `b` in a listing: a directory before anything
/// that is none, and within either group the lesser name first.
pub open spec fn precedes(a: NASFileView, b: NASFileView) -> bool {
    ||| a.category.is_directory() && !b.category.is_directory()
    ||| a.category.is_directory() == b.category.is_directory() && lex_rank(a.name, b.name)
        == Rank::Before
}

/// The place of one snapshot relative to another in a listing.
pub open spec fn listing_order(a: NASFileView, b: NASFileView) -> Ordering {
    if precedes(a, b) {
        Ordering::Less
    } else if precedes(b, a) {
        Ordering::Greater
    } else {
        Ordering::Equal
    }
}

impl PartialEq for NASFile {
    fn eq(&self, other: &NASFile) -> (r: bool) {
        self.absolute_path_str == other.absolute_path_str
    }
}

impl PartialEqSpecImpl for NASFile {
    open spec fn obeys_eq_spec() -> bool {
        true
    }

    open spec fn eq_spec(&self, other: &NASFile) -> bool {
        self.absolute_path_str@ == other.absolute_path_str@
    }
}

impl PartialOrd for NASFile {
    fn partial_cmp(&self, other: &NASFile) -> (r: Option<Ordering>) {
        let mine = self.category.is_dir();
        let theirs = other.category.is_dir();
        if mine && !theirs {
            Some(Ordering::Less)
        } else if !mine && theirs {
            Some(Ordering::Greater)
        } else {
            proof {
                crate::text::lemma_rank_mirror(self.name@, other.name@);
            }
            match rank_text(self.name.as_str(), other.name.as_str()) {
                Rank::Before => Some(Ordering::Less),
                Rank::Same => Some(Ordering::Equal),
                Rank::After => Some(Ordering::Greater),
            }
        }
    }
}

impl PartialOrdSpecImpl for NASFile {
    open spec fn obeys_partial_cmp_spec() -> bool {
        true
    }

    open spec fn partial_cmp_spec(&self, other: &NASFile) -> Option<Ordering> {
        Some(listing_order(self@, other@))
    }
}

} // verus!
