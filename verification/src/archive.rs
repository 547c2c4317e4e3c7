//! The members of the archive that holds a recording: one GPS log and one
//! accelerometer log, told apart by the endings of their names.

use crate::text::{chars_of, texts};
use vstd::prelude::*;
use vstd::string::*;

verus! {

/// Ending of the name of the GPS log.
pub const GPS_SUFFIX: &'static str = ".gps";

/// Ending of the name of the accelerometer log.
pub const ACC_SUFFIX: &'static str = ".acc";

/// The names of the two members.
#[derive(Clone, Debug, PartialEq, Eq)]
pub struct Members {
    pub gps: String,
    pub acc: String,
}

/// Why the names in an archive are not those of a recording.
#[derive(Clone, Debug, PartialEq, Eq)]
pub enum ArchiveError {
    /// A name ends neither like a GPS log nor like an accelerometer log.
    Unrecognized(String),
    /// No name ends like a GPS log.
    MissingGps,
    /// No name ends like an accelerometer log.
    MissingAcc,
}

impl ArchiveError {
    /// The error in words. An unrecognized name is given in it.
    pub open spec fn message_spec(&self) -> Seq<char> {
        match *self {
            ArchiveError::Unrecognized(name) => "unrecognized filename "@ + name@
                + " in input archive"@,
            ArchiveError::MissingGps => "missing a .gps file in archive"@,
            ArchiveError::MissingAcc => "missing a .acc file in archive"@,
        }
    }

    /// The error in words. An unrecognized name is given in it.
    pub fn message(&self) -> (message: String)
        ensures
            message@ == self.message_spec(),
    {
        match self {
            ArchiveError::Unrecognized(name) => "unrecognized filename ".to_owned().concat(
                name.as_str(),
            ).concat(" in input archive"),
            ArchiveError::MissingGps => "missing a .gps file in archive".to_owned(),
            ArchiveError::MissingAcc => "missing a .acc file in archive".to_owned(),
        }
    }
}

/// The outcome of a selection, with names as sequences of characters.
pub enum Selection {
    Members { gps: Seq<char>, acc: Seq<char> },
    Unrecognized(Seq<char>),
    MissingGps,
    MissingAcc,
}

/// The outcome of a selection as a `Selection`.
pub open spec fn selection_of(out: Result<Members, ArchiveError>) -> Selection {
    match out {
        Ok(members) => Selection::Members { gps: members.gps@, acc: members.acc@ },
        Err(ArchiveError::Unrecognized(name)) => Selection::Unrecognized(name@),
        Err(ArchiveError::MissingGps) => Selection::MissingGps,
        Err(ArchiveError::MissingAcc) => Selection::MissingAcc,
    }
}

/// Whether `name` ends with `suffix`.
pub open spec fn ends_with(name: Seq<char>, suffix: Seq<char>) -> bool {
    &&& suffix.len() <= name.len()
    &&& name.subrange(name.len() - suffix.len(), name.len() as int) == suffix
}

/// Whether `name` is that of one of the two logs.
pub open spec fn recognized(name: Seq<char>) -> bool {
    ends_with(name, GPS_SUFFIX@) || ends_with(name, ACC_SUFFIX@)
}

/// The first of `names` that is not the name of a log, if there is one.
pub open spec fn first_unrecognized(names: Seq<Seq<char>>) -> Option<Seq<char>>
    decreases names.len(),
{
    if names.len() == 0 {
        None
    } else {
        match first_unrecognized(names.drop_last()) {
            Some(name) => Some(name),
            None => if recognized(names.last()) {
                None
            } else {
                Some(names.last())
            },
        }
    }
}

/// The last of `names` that ends with `suffix`, if there is one.
pub open spec fn last_ending_with(names: Seq<Seq<char>>, suffix: Seq<char>) -> Option<Seq<char>>
    decreases names.len(),
{
    if names.len() == 0 {
        None
    } else if ends_with(names.last(), suffix) {
        Some(names.last())
    } else {
        last_ending_with(names.drop_last(), suffix)
    }
}

/// The members that `names` give. Every name must be that of a log, and both
/// logs must be there. Where several names end alike, the last one counts.
pub open spec fn select_spec(names: Seq<Seq<char>>) -> Selection {
    match first_unrecognized(names) {
        Some(name) => Selection::Unrecognized(name),
        None => match last_ending_with(names, GPS_SUFFIX@) {
            None => Selection::MissingGps,
            Some(gps) => match last_ending_with(names, ACC_SUFFIX@) {
                None => Selection::MissingAcc,
                Some(acc) => Selection::Members { gps, acc },
            },
        },
    }
}

/// Whether `name` ends with `suffix`.
pub fn name_ends_with(name: &str, suffix: &str) -> (yes: bool)
    ensures
        yes == ends_with(name@, suffix@),
{
    let name_chars = chars_of(name);
    let suffix_chars = chars_of(suffix);
    if suffix_chars.len() > name_chars.len() {
        return false;
    }
    let shift = name_chars.len() - suffix_chars.len();
    let ghost tail = name@.subrange(shift as int, name@.len() as int);
    let mut i: usize = 0;
    while i < suffix_chars.len()
        invariant
            name_chars@ == name@,
            suffix_chars@ == suffix@,
            shift + suffix_chars.len() == name_chars.len(),
            tail == name@.subrange(shift as int, name@.len() as int),
            i <= suffix_chars.len(),
            forall|j: int| 0 <= j < i ==> tail[j] == suffix@[j],
        decreases suffix_chars.len() - i,
    {
        assert(tail[i as int] == name@[shift + i]);
        if name_chars[shift + i] != suffix_chars[i] {
            return false;
        }
        i += 1;
    }
    assert(tail =~= suffix@);
    true
}

/// Picks the GPS log and the accelerometer log among the names of an archive.
pub fn select_members(names: &Vec<String>) -> (out: Result<Members, ArchiveError>)
    ensures
        selection_of(out) == select_spec(texts(names@)),
{
    let ghost all = texts(names@);
    let mut gps: Option<String> = None;
    let mut acc: Option<String> = None;
    let mut i: usize = 0;
    assert(all.take(0) =~= Seq::empty());
    while i < names.len()
        invariant
            i <= names.len(),
            all == texts(names@),
            first_unrecognized(all.take(i as int)) is None,
            match gps {
                Some(name) => last_ending_with(all.take(i as int), GPS_SUFFIX@) == Some(name@),
                None => last_ending_with(all.take(i as int), GPS_SUFFIX@) is None,
            },
            match acc {
                Some(name) => last_ending_with(all.take(i as int), ACC_SUFFIX@) == Some(name@),
                None => last_ending_with(all.take(i as int), ACC_SUFFIX@) is None,
            },
        decreases names.len() - i,
    {
        proof {
            assert(all.take(i + 1).drop_last() =~= all.take(i as int));
            assert(all.take(i + 1).last() == names[i as int]@);
        }
        let name = names[i].as_str();
        let is_gps = name_ends_with(name, GPS_SUFFIX);
        let is_acc = name_ends_with(name, ACC_SUFFIX);
        if is_gps {
            gps = Some(names[i].clone());
        }
        if is_acc {
            acc = Some(names[i].clone());
        }
        if !is_gps && !is_acc {
            proof {
                lemma_unrecognized_persists(all, i + 1);
            }
            return Err(ArchiveError::Unrecognized(names[i].clone()));
        }
        i += 1;
    }
    assert(all.take(i as int) =~= all);
    match gps {
        None => Err(ArchiveError::MissingGps),
        Some(gps) => match acc {
            None => Err(ArchiveError::MissingAcc),
            Some(acc) => Ok(Members { gps, acc }),
        },
    }
}

/// The first unrecognized name of a prefix is that of the whole.
pub proof fn lemma_unrecognized_persists(names: Seq<Seq<char>>, prefix: int)
    requires
        0 <= prefix <= names.len(),
        first_unrecognized(names.take(prefix)) is Some,
    ensures
        first_unrecognized(names) == first_unrecognized(names.take(prefix)),
    decreases names.len(),
{
    if prefix == names.len() {
        assert(names.take(prefix) =~= names);
    } else {
        assert(names.drop_last().take(prefix) =~= names.take(prefix));
        lemma_unrecognized_persists(names.drop_last(), prefix);
    }
}

} // verus!
