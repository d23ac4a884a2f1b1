//! Whether a file gets a rename action: it must be a regular file whose name
//! matches and whose new name differs from the one it has.

use crate::matcher::{carries_marker, matched, MatchResult, Matcher, Mode, Segments};
use crate::text::extension_of;
use crate::transform::{
    lemma_extension_preserved, lemma_stem_has_no_dot, renamed, replacement_view, transform,
    ReplaceSpec, Replacement,
};
use vstd::prelude::*;

verus! {

/// A rename that is waiting to be carried out: the file at `path`, called
/// `original_name`, is to be called `new_name`. The two names differ: no
/// action exists for a file that already has its new name.
///
/// `P` is whatever the caller knows the file by; the library hands it through.
#[derive(Debug)]
pub struct RenameAction<P> {
    path: P,
    original_name: String,
    new_name: String,
}

/// A [`RenameAction`] with its names as sequences of characters.
pub struct Proposal<P> {
    pub path: P,
    pub original_name: Seq<char>,
    pub new_name: Seq<char>,
}

impl<P> View for RenameAction<P> {
    type V = Proposal<P>;

    closed spec fn view(&self) -> Proposal<P> {
        Proposal {
            path: self.path,
            original_name: self.original_name@,
            new_name: self.new_name@,
        }
    }
}

impl<P> RenameAction<P> {
    #[verifier::type_invariant]
    spec fn names_differ(self) -> bool {
        self.original_name@ != self.new_name@
    }

    /// What the caller knows the file by.
    pub fn path(&self) -> (path: &P)
        ensures
            *path == self@.path,
    {
        &self.path
    }

    /// The name the file has; it is not the new name.
    pub fn original_name(&self) -> (name: &str)
        ensures
            name@ == self@.original_name,
            self@.original_name != self@.new_name,
    {
        proof {
            use_type_invariant(self);
        }
        self.original_name.as_str()
    }

    /// The name the file is to get; it is not the name it has.
    pub fn new_name(&self) -> (name: &str)
        ensures
            name@ == self@.new_name,
            self@.original_name != self@.new_name,
    {
        proof {
            use_type_invariant(self);
        }
        self.new_name.as_str()
    }

    /// The action taken apart: path, original name, new name.
    pub fn into_parts(self) -> (parts: (P, String, String))
        ensures
            parts.0 == self@.path,
            parts.1@ == self@.original_name,
            parts.2@ == self@.new_name,
            parts.1@ != parts.2@,
    {
        proof {
            use_type_invariant(&self);
        }
        (self.path, self.original_name, self.new_name)
    }
}

/// An optional action with its names as sequences of characters.
pub open spec fn action_view<P>(action: Option<RenameAction<P>>) -> Option<Proposal<P>> {
    match action {
        Some(a) => Some(a@),
        None => None,
    }
}

/// An optional file name as a sequence of characters.
pub open spec fn name_view(file_name: Option<&str>) -> Option<Seq<char>> {
    match file_name {
        Some(name) => Some(name@),
        None => None,
    }
}

/// The action that a match calls for: the rename to the new name, unless the
/// file has that name already.
pub open spec fn proposal<P>(
    path: P,
    name: Seq<char>,
    m: Segments,
    replace: Option<Replacement>,
) -> Option<Proposal<P>> {
    if renamed(m, replace) == name {
        None
    } else {
        Some(Proposal { path, original_name: name, new_name: renamed(m, replace) })
    }
}

/// The action that a directory entry calls for: none unless it is a regular
/// file with a name that matches in `mode`, and then the one its match calls
/// for.
pub open spec fn planned<P>(
    path: P,
    is_file: bool,
    file_name: Option<Seq<char>>,
    mode: Mode,
    replace: Option<Replacement>,
) -> Option<Proposal<P>> {
    match file_name {
        Some(name) => if is_file {
            match matched(mode, name) {
                Some(m) => proposal(path, name, m, replace),
                None => None,
            }
        } else {
            None
        },
        None => None,
    }
}

/// Proposes the rename that a match calls for. A new name that equals the
/// original one yields no action.
pub fn propose<P>(path: P, original_name: &str, m: &MatchResult, replace: Option<&ReplaceSpec>) -> (action:
    Option<RenameAction<P>>)
    ensures
        action_view(action) == proposal(path, original_name@, m@, replacement_view(replace)),
        action is None <==> renamed(m@, replacement_view(replace)) == original_name@,
{
    let new_name = transform(m, replace);
    let original = original_name.to_owned();
    if new_name == original {
        None
    } else {
        Some(RenameAction { path, original_name: original, new_name })
    }
}

/// Decides on one directory entry. `is_file` says whether the entry is a
/// regular file, `file_name` is the last component of its path, if it has
/// one. Only a regular file whose name matches and whose new name differs
/// from its name gets an action. The new name of an action has the
/// extension of the original name and no dot before it.
pub fn process_file<P>(
    path: P,
    is_file: bool,
    file_name: Option<&str>,
    matcher: &Matcher,
    replace: Option<&ReplaceSpec>,
) -> (action: Option<RenameAction<P>>)
    ensures
        action_view(action) == planned(
            path,
            is_file,
            name_view(file_name),
            matcher.mode(),
            replacement_view(replace),
        ),
        (!is_file || file_name is None) ==> action is None,
        file_name matches Some(name) ==> (matched(matcher.mode(), name@) is None ==> action
            is None),
        file_name matches Some(name) ==> (!carries_marker(matcher.mode(), name@) ==> action
            is None),
        action matches Some(a) ==> a@.original_name != a@.new_name,
        action matches Some(a) ==> (extension_of(a@.original_name) is Some && extension_of(
            a@.new_name,
        ) == extension_of(a@.original_name)),
        action matches Some(a) ==> (forall|i: int|
            0 <= i < a@.new_name.len() - extension_of(a@.new_name)->0.len() ==> a@.new_name[i]
                != '.'),
{
    if !is_file {
        return None;
    }
    let Some(name) = file_name else {
        return None;
    };
    match matcher.match_name(name) {
        Some(m) => {
            proof {
                lemma_extension_preserved(name@, m@, replacement_view(replace));
                lemma_stem_has_no_dot(name@, m@, replacement_view(replace));
            }
            propose(path, name, &m, replace)
        },
        None => None,
    }
}

} // verus!
