//! Choosing the compositor's IPC socket when its path is not given: the most
//! recently modified `niri.wayland-*.sock` in the runtime directory.
use crate::text::{ends_with, starts_with};
use vstd::prelude::*;

verus! {

/// A runtime-directory entry considered as the compositor's socket.
pub struct SocketCandidate {
    pub path: String,
    /// The entry's file name, when it is valid text.
    pub file_name: Option<String>,
    /// The modification time as an ordered number, when it could be read.
    pub modified: Option<i128>,
}

/// The entry is named like a compositor socket and its modification time is known.
pub open spec fn is_socket_candidate(c: SocketCandidate) -> bool {
    &&& c.file_name matches Some(n) && "niri.wayland-"@.is_prefix_of(n@) && ".sock"@.is_suffix_of(n@)
    &&& c.modified is Some
}

/// Whether an entry is a candidate.
fn check_candidate(c: &SocketCandidate) -> (res: bool)
    ensures
        res == is_socket_candidate(*c),
{
    match &c.file_name {
        Some(n) => starts_with(n.as_str(), "niri.wayland-") && ends_with(n.as_str(), ".sock") && c.modified.is_some(),
        None => false,
    }
}

/// The path of the candidate modified last (the earliest listed among equals), if
/// there is a candidate.
pub fn pick_niri_socket(cands: &Vec<SocketCandidate>) -> (res: Option<String>)
    ensures
        match res {
            Some(p) => exists|i: int| {
                &&& 0 <= i < cands@.len()
                &&& is_socket_candidate(#[trigger] cands@[i])
                &&& cands@[i].path@ == p@
                &&& forall|j: int| 0 <= j < cands@.len() && is_socket_candidate(#[trigger] cands@[j]) ==> cands@[j].modified->0 <= cands@[i].modified->0
                &&& forall|j: int| 0 <= j < i && is_socket_candidate(#[trigger] cands@[j]) ==> cands@[j].modified->0 < cands@[i].modified->0
            },
            None => forall|i: int| 0 <= i < cands@.len() ==> !is_socket_candidate(#[trigger] cands@[i]),
        },
{
    let mut best: Option<usize> = None;
    let mut i: usize = 0;
    while i < cands.len()
        invariant
            i <= cands@.len(),
            match best {
                Some(b) => {
                    &&& b < i
                    &&& is_socket_candidate(cands@[b as int])
                    &&& forall|j: int| 0 <= j < i && is_socket_candidate(#[trigger] cands@[j]) ==> cands@[j].modified->0 <= cands@[b as int].modified->0
                    &&& forall|j: int| 0 <= j < b && is_socket_candidate(#[trigger] cands@[j]) ==> cands@[j].modified->0 < cands@[b as int].modified->0
                },
                None => forall|j: int| 0 <= j < i ==> !is_socket_candidate(#[trigger] cands@[j]),
            },
        decreases cands@.len() - i,
    {
        if check_candidate(&cands[i]) {
            let t = match cands[i].modified {
                Some(t) => t,
                None => 0,
            };
            match best {
                Some(b) => {
                    let bt = match cands[b].modified {
                        Some(t) => t,
                        None => 0,
                    };
                    if t > bt {
                        best = Some(i);
                    }
                },
                None => {
                    best = Some(i);
                },
            }
        }
        i += 1;
    }
    match best {
        Some(b) => Some(cands[b].path.clone()),
        None => None,
    }
}

} // verus!
