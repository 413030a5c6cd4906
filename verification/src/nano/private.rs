//! Private session storage: what is refused when it is opened again.
use vstd::prelude::*;

verus! {

/// What stands at a path.
#[derive(Debug, Clone, Copy, PartialEq, Eq, Structural)]
pub enum FileKind {
    File,
    Directory,
    Other,
}

/// Why a path is refused.
#[derive(Debug, Clone, Copy, PartialEq, Eq, Structural)]
pub enum Refusal {
    WrongKind,
    NotOwnerOnly,
}

impl Refusal {
    /// The message for the user.
    pub fn message(&self) -> (out: &'static str)
        ensures
            out@ == match *self {
                Refusal::WrongKind => "Unexpected session storage file type"@,
                Refusal::NotOwnerOnly => "Session storage must be owner-only"@,
            },
    {
        match self {
            Refusal::WrongKind => "Unexpected session storage file type",
            Refusal::NotOwnerOnly => "Session storage must be owner-only",
        }
    }
}

/// Whether only the owner has any permission: the nine low bits of a mode are
/// three each for the owner, the group and the others.
pub open spec fn owner_only(mode: u32) -> bool {
    mode % 64 == 0
}

/// Why what stands at a path is refused, without following links: it must be of
/// the expected kind, belong to the user and give nobody else any permission.
pub open spec fn refusal(
    kind: FileKind,
    directory: bool,
    owner: u32,
    user: u32,
    mode: u32,
) -> Option<Refusal> {
    if kind != (if directory {
        FileKind::Directory
    } else {
        FileKind::File
    }) {
        Some(Refusal::WrongKind)
    } else if owner != user || !owner_only(mode) {
        Some(Refusal::NotOwnerOnly)
    } else {
        None
    }
}

/// Checks what stands at a path.
pub fn check(kind: FileKind, directory: bool, owner: u32, user: u32, mode: u32) -> (out: Result<
    (),
    Refusal,
>)
    ensures
        match out {
            Ok(_) => refusal(kind, directory, owner, user, mode) is None,
            Err(refused) => refusal(kind, directory, owner, user, mode) == Some(refused),
        },
{
    let expected: FileKind = if directory {
        FileKind::Directory
    } else {
        FileKind::File
    };
    if kind != expected {
        return Err(Refusal::WrongKind);
    }
    assert((mode & 0o077 == 0) == (mode % 64 == 0)) by (bit_vector);
    if owner == user && mode & 0o077 == 0 {
        Ok(())
    } else {
        Err(Refusal::NotOwnerOnly)
    }
}

/// Whether a mode gives a permission: the bit of it is set.
pub open spec fn permits(mode: u32, bit: u32) -> bool {
    mode & bit != 0
}

/// What is private is opened only by its owner, and only while neither the group
/// nor the others may read, write or execute it, whatever the owner may. A directory
/// is not taken for a file, nor the other way round.
pub proof fn law_only_private_files_are_opened(
    kind: FileKind,
    directory: bool,
    owner: u32,
    user: u32,
    mode: u32,
)
    ensures
        refusal(kind, directory, owner, user, mode) is None <==> {
            &&& directory ==> kind is Directory
            &&& !directory ==> kind is File
            &&& owner == user
            &&& !permits(mode, 0o040) && !permits(mode, 0o020) && !permits(mode, 0o010)
            &&& !permits(mode, 0o004) && !permits(mode, 0o002) && !permits(mode, 0o001)
        },
        refusal(kind, directory, owner, user, mode) == Some(Refusal::WrongKind) <==> (directory
            && !(kind is Directory)) || (!directory && !(kind is File)),
{
    assert((mode % 64 == 0) == (mode & 0o040 == 0 && mode & 0o020 == 0 && mode & 0o010 == 0 && mode
        & 0o004 == 0 && mode & 0o002 == 0 && mode & 0o001 == 0)) by (bit_vector);
}

} // verus!
