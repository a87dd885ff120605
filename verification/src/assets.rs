//! Named assets: what files of authored content must satisfy.
use crate::canvas_edit::joined;
use crate::params::TreeSpecies;
use crate::text::{decimal_text, push_decimal, same_text};
use vstd::prelude::*;

verus! {

/// The schema version species files are written in, and the newest understood.
pub const SPECIES_VERSION: u32 = 1;

/// Why an asset could not be used.
#[derive(PartialEq, Debug)]
pub enum HotReloadError {
    /// Loading, parsing or resolving authored content failed.
    Blueprint(String),
}

/// Result alias for asset operations.
pub type HotReloadResult<T> = Result<T, HotReloadError>;

impl HotReloadError {
    /// The message behind the error.
    pub open spec fn reason(self) -> Seq<char> {
        match self {
            HotReloadError::Blueprint(text) => text@,
        }
    }

    /// The error as text.
    pub fn message(&self) -> (r: String)
        ensures
            r@ == "blueprint: "@ + self.reason(),
    {
        match self {
            HotReloadError::Blueprint(text) => joined("blueprint: ", text.as_str()),
        }
    }
}

/// A text in quotes, with what cannot be shown escaped.
pub uninterp spec fn quoted_text(s: Seq<char>) -> Seq<char>;

/// Wraps the `Debug` form of `str` in `std`: the text between double quotes,
/// with quotes and characters that cannot be shown escaped.
#[verifier::external_body]
pub(crate) fn quoted(s: &str) -> (r: String)
    ensures
        r@ == quoted_text(s@),
{
    format!("{s:?}")
}

/// A species file: shape parameters with the version of the format and the name
/// they go by.
#[derive(PartialEq, Debug)]
pub struct SpeciesFile {
    /// Schema version.
    pub version: u32,
    /// Stable name; must match the filename.
    pub name: String,
    /// The shape parameters.
    pub species: TreeSpecies,
}

/// Whether a character may stand in a name that becomes a filename.
pub open spec fn filename_char(c: char) -> bool {
    ('a' <= c && c <= 'z') || ('A' <= c && c <= 'Z') || ('0' <= c && c <= '9') || c == '_' || c
        == '-'
}

/// Whether a name may become a filename: it is not empty, and every character
/// may stand in it.
pub open spec fn filename(name: Seq<char>) -> bool {
    name.len() > 0 && forall|i: int| 0 <= i < name.len() ==> filename_char(#[trigger] name[i])
}

/// The species of a file that was read under a name, if it is accepted: the file is not
/// newer than this library understands and goes by that name.
pub open spec fn species_under(file: SpeciesFile, name: Seq<char>) -> Option<TreeSpecies> {
    if file.version <= SPECIES_VERSION && file.name@ == name {
        Some(file.species)
    } else {
        None
    }
}

/// A species file is accepted under its own name, with the shape it was written with,
/// and under no other name; one of a later version is accepted under none.
pub proof fn species_go_by_their_own_name(file: SpeciesFile, name: Seq<char>)
    ensures
        file.version <= SPECIES_VERSION ==> species_under(file, file.name@) == Some(file.species),
        name != file.name@ ==> species_under(file, name) is None,
        file.version > SPECIES_VERSION ==> species_under(file, name) is None,
{
}

impl SpeciesFile {
    /// The name of the file to write the species to. A name that could not
    /// become a filename is refused.
    pub fn file_name(&self) -> (r: HotReloadResult<String>)
        ensures
            match r {
                Ok(file) => filename(self.name@) && file@ == self.name@ + ".species.json"@,
                Err(e) => !filename(self.name@) && e.reason() == "species name '"@ + self.name@
                    + "' must be non-empty and use only letters, digits, '_' and '-' - it becomes a filename"@,
            },
    {
        if !is_filename(self.name.as_str()) {
            let mut text = joined("species name '", self.name.as_str());
            text.append(
                "' must be non-empty and use only letters, digits, '_' and '-' - it becomes a filename",
            );
            return Err(HotReloadError::Blueprint(text));
        }
        Ok(joined(self.name.as_str(), ".species.json"))
    }

    /// The species of a file that was read under a name. A file newer than this
    /// library understands is refused, and so is one that goes by another name.
    pub fn accept(self, name: &str, path: &str) -> (r: HotReloadResult<TreeSpecies>)
        ensures
            match r {
                Ok(species) => species_under(self, name@) == Some(species),
                Err(e) => species_under(self, name@) is None && if self.version > SPECIES_VERSION {
                    e.reason() == "species '"@ + name@ + "' is version "@ + decimal_text(
                        self.version as nat,
                    ) + " but this build understands up to "@ + decimal_text(SPECIES_VERSION as nat)
                } else {
                    e.reason() == "species file "@ + path@
                        + " declares the name "@ + quoted_text(self.name@)
                },
            },
    {
        if self.version > SPECIES_VERSION {
            let mut text = joined("species '", name);
            text.append("' is version ");
            push_decimal(&mut text, self.version as usize);
            text.append(" but this build understands up to ");
            push_decimal(&mut text, SPECIES_VERSION as usize);
            return Err(HotReloadError::Blueprint(text));
        }
        if !same_text(self.name.as_str(), name) {
            let mut text = joined("species file ", path);
            text.append(" declares the name ");
            text.append(quoted(self.name.as_str()).as_str());
            return Err(HotReloadError::Blueprint(text));
        }
        Ok(self.species)
    }
}

fn is_filename(name: &str) -> (r: bool)
    ensures
        r == filename(name@),
{
    let n: usize = name.unicode_len();
    let mut i: usize = 0;
    while i < n
        invariant
            i <= n,
            n == name@.len(),
            forall|k: int| 0 <= k < i ==> filename_char(#[trigger] name@[k]),
        decreases n - i,
    {
        let c = name.get_char(i);
        let allowed = ('a' <= c && c <= 'z') || ('A' <= c && c <= 'Z') || ('0' <= c && c <= '9')
            || c == '_' || c == '-';
        if !allowed {
            return false;
        }
        i = i + 1;
    }
    n > 0
}

/// A name that may become a filename stays within its directory: it holds no
/// separator and no dot.
pub proof fn filenames_stay_in_the_directory(name: Seq<char>)
    requires
        filename(name),
    ensures
        !name.contains('/'),
        !name.contains('\\'),
        !name.contains('.'),
        !name.contains(':'),
{
    assert forall|i: int| 0 <= i < name.len() implies name[i] != '/' && name[i] != '\\' && name[i]
        != '.' && name[i] != ':' by {
        assert(filename_char(name[i]));
    }
}

} // verus!
