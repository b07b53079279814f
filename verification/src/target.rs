//! Download targets: where a file is fetched from and where it is saved.

use vstd::prelude::*;
use vstd::std_specs::iter::IteratorSpec;
use vstd::string::*;

verus! {

/// One file to download: the base location it lives under and the
/// identifier that names it, both remotely and locally.
#[derive(Clone, Debug, PartialEq, Eq)]
pub struct DownloadTarget {
    pub base_location: String,
    pub identifier: String,
}

/// A target as a pair of character sequences.
pub struct TargetView {
    pub base_location: Seq<char>,
    pub identifier: Seq<char>,
}

impl View for DownloadTarget {
    type V = TargetView;

    open spec fn view(&self) -> TargetView {
        TargetView { base_location: self.base_location@, identifier: self.identifier@ }
    }
}

/// The character that joins the parts of an address and of a local path.
pub open spec fn separator() -> Seq<char> {
    seq!['/']
}

/// The directory, relative to the working directory, that files are saved in.
pub open spec fn download_root() -> Seq<char> {
    "downloads"@
}

/// Position of the last `/` in `text`, or -1 where it has none.
pub open spec fn last_separator(text: Seq<char>) -> int
    decreases text.len(),
{
    if text.len() == 0 {
        -1
    } else if text.last() == '/' {
        text.len() - 1
    } else {
        last_separator(text.drop_last())
    }
}

impl TargetView {
    /// The address that is requested: base location, `/`, identifier.
    pub open spec fn remote_address(self) -> Seq<char> {
        self.base_location + separator() + self.identifier
    }

    /// The file that is written: the identifier, verbatim, below the
    /// download root.
    pub open spec fn local_path(self) -> Seq<char> {
        download_root() + separator() + self.identifier
    }

    /// The directory that must exist before the file can be created: the
    /// download root, extended by whatever precedes the last `/` of the
    /// identifier.
    pub open spec fn local_directory(self) -> Seq<char> {
        let cut = last_separator(self.identifier);
        if cut < 0 {
            download_root()
        } else {
            download_root() + separator() + self.identifier.subrange(0, cut)
        }
    }

    /// What follows the last `/` of the identifier: the name of the file
    /// inside its directory.
    pub open spec fn file_name(self) -> Seq<char> {
        self.identifier.subrange(last_separator(self.identifier) + 1, self.identifier.len() as int)
    }
}

/// `last_separator` finds a `/`, and no `/` follows it.
pub proof fn last_separator_is_last(text: Seq<char>)
    ensures
        -1 <= last_separator(text) < text.len(),
        last_separator(text) >= 0 ==> text[last_separator(text)] == '/',
        forall|i: int| last_separator(text) < i < text.len() ==> text[i] != '/',
    decreases text.len(),
{
    if text.len() > 0 && text.last() != '/' {
        let shorter = text.drop_last();
        last_separator_is_last(shorter);
        assert forall|i: int| last_separator(text) < i < text.len() implies text[i] != '/' by {
            if i < shorter.len() {
                assert(shorter[i] == text[i]);
            }
        }
    }
}

/// The local path is the local directory, a `/`, and a file name that
/// holds no `/`.
pub proof fn local_path_splits(target: TargetView)
    ensures
        target.local_path() == target.local_directory() + separator() + target.file_name(),
        !target.file_name().contains('/'),
{
    let id = target.identifier;
    last_separator_is_last(id);
    let cut = last_separator(id);
    if cut < 0 {
        assert(target.file_name() =~= id);
    } else {
        assert(id =~= id.subrange(0, cut) + separator() + target.file_name());
        assert(target.local_path() =~= target.local_directory() + separator()
            + target.file_name());
    }
}

/// Two targets that are saved to the same local path have the same
/// identifier.
pub proof fn local_path_names_one_identifier(first: TargetView, second: TargetView)
    requires
        first.local_path() == second.local_path(),
    ensures
        first.identifier == second.identifier,
{
    let prefix = download_root() + separator();
    assert(first.identifier =~= first.local_path().skip(prefix.len() as int));
    assert(second.identifier =~= second.local_path().skip(prefix.len() as int));
}

/// Position of the last `/` in `text`, counted in characters.
pub fn find_last_separator(text: &str) -> (found: Option<usize>)
    ensures
        match found {
            Some(i) => last_separator(text@) == i,
            None => last_separator(text@) == -1,
        },
{
    let length = text.unicode_len();
    let mut rest = text.chars();
    let mut found: Option<usize> = None;
    let mut index: usize = 0;
    while index < length
        invariant
            length == text@.len(),
            index <= length,
            rest.remaining() == text@.skip(index as int),
            match found {
                Some(i) => last_separator(text@.take(index as int)) == i,
                None => last_separator(text@.take(index as int)) == -1,
            },
        decreases length - index,
    {
        proof {
            assert(text@.take(index + 1).drop_last() =~= text@.take(index as int));
            assert(text@.skip(index as int).drop_first() =~= text@.skip(index + 1));
        }
        if let Some(c) = rest.next() {
            if c == '/' {
                found = Some(index);
            }
        }
        index = index + 1;
    }
    proof {
        assert(text@.take(index as int) =~= text@);
    }
    found
}

impl DownloadTarget {
    /// The target that `identifier` names under `base_location`.  Neither
    /// part is altered: no slash is added or removed.
    pub fn new(base_location: &str, identifier: &str) -> (target: DownloadTarget)
        ensures
            target@.base_location == base_location@,
            target@.identifier == identifier@,
    {
        DownloadTarget {
            base_location: String::from_str(base_location),
            identifier: String::from_str(identifier),
        }
    }

    /// The address to request with GET.
    pub fn remote_address(&self) -> (address: String)
        ensures
            address@ == self@.remote_address(),
    {
        proof {
            reveal_strlit("/");
            assert("/"@ =~= separator());
        }
        let mut address = self.base_location.clone();
        address.append("/");
        address.append(self.identifier.as_str());
        address
    }

    /// The path of the file to write, relative to the working directory.
    pub fn local_path(&self) -> (path: String)
        ensures
            path@ == self@.local_path(),
    {
        proof {
            reveal_strlit("/");
            assert("/"@ =~= separator());
        }
        let mut path = String::from_str("downloads");
        path.append("/");
        path.append(self.identifier.as_str());
        path
    }

    /// The directory to create before the file is written.
    pub fn local_directory(&self) -> (directory: String)
        ensures
            directory@ == self@.local_directory(),
    {
        proof {
            reveal_strlit("/");
            assert("/"@ =~= separator());
        }
        let mut directory = String::from_str("downloads");
        match find_last_separator(self.identifier.as_str()) {
            Some(cut) => {
                proof {
                    last_separator_is_last(self.identifier@);
                }
                directory.append("/");
                directory.append(self.identifier.as_str().substring_char(0, cut));
            },
            None => {},
        }
        directory
    }
}

} // verus!
