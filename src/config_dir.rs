//! The configuration-directory override. The backend cannot use a directory
//! whose path holds a space, so such a directory is reached through a
//! symbolic link at a fixed place; these are the decisions around that link.
use vstd::prelude::*;
use crate::error::LaunchError;
use crate::paths::{casa_value, lemma_override_single_space};
use crate::text::{chars_of, contains_char, has_char, same_text};

verus! {

/// Where the link to a configuration directory with a space is made.
pub const LINK_PATH: &'static str = "/tmp/carta-etc";

/// What occupies the link's place.
#[derive(Clone, Debug)]
pub enum LinkState {
    Absent,
    Symlink { target: String },
    Occupied,
}

/// What occupies the link's place, with the target as its characters.
pub enum LinkSeen {
    Absent,
    Symlink { target: Seq<char> },
    Occupied,
}

impl View for LinkState {
    type V = LinkSeen;

    open spec fn view(&self) -> LinkSeen {
        match self {
            LinkState::Absent => LinkSeen::Absent,
            LinkState::Symlink { target } => LinkSeen::Symlink { target: target@ },
            LinkState::Occupied => LinkSeen::Occupied,
        }
    }
}

/// The step to take for a resolved configuration directory.
#[derive(Clone, Copy, Debug, PartialEq, Eq, Structural)]
pub enum LinkPlan {
    /// The path holds no space: hand it on as it is.
    UseDirect,
    /// The link already points at the directory.
    Reuse,
    /// Nothing is there: make the link.
    Create,
    /// A link to another place is there: remove it and make the link.
    Replace,
    /// Something that is not a link is there: never overwritten.
    Conflict,
}

pub open spec fn plan_for(resolved: Seq<char>, seen: LinkSeen) -> LinkPlan {
    if !has_char(resolved, ' ') {
        LinkPlan::UseDirect
    } else {
        match seen {
            LinkSeen::Absent => LinkPlan::Create,
            LinkSeen::Symlink { target } => if target == resolved {
                LinkPlan::Reuse
            } else {
                LinkPlan::Replace
            },
            LinkSeen::Occupied => LinkPlan::Conflict,
        }
    }
}

/// What occupies the link's place after the plan was carried out, where
/// `linked` tells whether making the link succeeded.
pub open spec fn seen_after(plan: LinkPlan, resolved: Seq<char>, seen: LinkSeen, linked: bool) -> LinkSeen {
    match plan {
        LinkPlan::Create | LinkPlan::Replace => if linked {
            LinkSeen::Symlink { target: resolved }
        } else {
            LinkSeen::Absent
        },
        _ => seen,
    }
}

/// The directory handed to the backend, which never holds a space: the
/// resolved directory when it has none, else the link. `None` when the place
/// is occupied by something else, or when the link could not be made.
pub open spec fn config_outcome(resolved: Seq<char>, seen: LinkSeen, linked: bool) -> Option<Seq<char>> {
    match plan_for(resolved, seen) {
        LinkPlan::UseDirect => Some(resolved),
        LinkPlan::Reuse => Some(LINK_PATH@),
        LinkPlan::Create | LinkPlan::Replace => if linked {
            Some(LINK_PATH@)
        } else {
            None
        },
        LinkPlan::Conflict => None,
    }
}

/// Decides what to do for the resolved directory `resolved` given what
/// occupies the link's place.
pub fn plan_config_link(resolved: &str, state: &LinkState) -> (r: LinkPlan)
    ensures
        r == plan_for(resolved@, state@),
{
    if !contains_char(&chars_of(resolved), ' ') {
        return LinkPlan::UseDirect;
    }
    match state {
        LinkState::Absent => LinkPlan::Create,
        LinkState::Symlink { target } => if same_text(target.as_str(), resolved) {
            LinkPlan::Reuse
        } else {
            LinkPlan::Replace
        },
        LinkState::Occupied => LinkPlan::Conflict,
    }
}

/// The directory to hand to the backend once the plan for `observed` was
/// carried out, where `linked` tells whether making the link succeeded.
pub fn config_dir_value(resolved: &str, observed: &LinkState, linked: bool) -> (r: Result<
    String,
    LaunchError,
>)
    ensures
        match r {
            Ok(s) => config_outcome(resolved@, observed@, linked) == Some(s@) && !has_char(
                s@,
                ' ',
            ),
            Err(e) => config_outcome(resolved@, observed@, linked) is None && if plan_for(
                resolved@,
                observed@,
            ) == LinkPlan::Conflict {
                e is SymlinkConflict
            } else {
                e is SymlinkFailed
            },
        },
{
    proof {
        reveal_strlit("/tmp/carta-etc");
    }
    match plan_config_link(resolved, observed) {
        LinkPlan::UseDirect => Ok(String::from_str(resolved)),
        LinkPlan::Reuse => Ok(String::from_str(LINK_PATH)),
        LinkPlan::Create | LinkPlan::Replace => if linked {
            Ok(String::from_str(LINK_PATH))
        } else {
            Err(LaunchError::SymlinkFailed)
        },
        LinkPlan::Conflict => Err(LaunchError::SymlinkConflict),
    }
}

/// Resolving the same directory with a space a second time changes nothing:
/// once a first pass made its link, the second pass reuses it and hands on
/// the same value; a pass that reuses the link leaves it as it was; and where
/// something that is not a link occupies the place, both passes fail and
/// leave it as it was.
pub proof fn lemma_config_link_idempotent(resolved: Seq<char>, seen: LinkSeen)
    requires
        has_char(resolved, ' '),
    ensures
        ({
            let first = plan_for(resolved, seen);
            let after = seen_after(first, resolved, seen, true);
            let second = plan_for(resolved, after);
            &&& first != LinkPlan::Conflict ==> second == LinkPlan::Reuse
                && config_outcome(resolved, after, true) == config_outcome(resolved, seen, true)
                && seen_after(second, resolved, after, true) == after
            &&& seen is Occupied ==> first == LinkPlan::Conflict && after == seen && second
                == LinkPlan::Conflict && config_outcome(resolved, seen, true) is None
                && config_outcome(resolved, after, true) is None
        }),
{
}

/// Whatever occupies the link's place, a directory that is handed on yields a
/// configuration-path override with exactly one space, before the platform
/// tag.
pub proof fn lemma_config_override_single_space(resolved: Seq<char>, seen: LinkSeen, linked: bool)
    requires
        config_outcome(resolved, seen, linked) is Some,
    ensures
        ({
            let v = casa_value(config_outcome(resolved, seen, linked)->0);
            forall|i: int|
                0 <= i < v.len() ==> (v[i] == ' ' <==> i == 15 + config_outcome(
                    resolved,
                    seen,
                    linked,
                )->0.len())
        }),
{
    reveal_strlit("/tmp/carta-etc");
    lemma_override_single_space(config_outcome(resolved, seen, linked)->0);
}

} // verus!
