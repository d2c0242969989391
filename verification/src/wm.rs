//! Locating the window manager's IPC socket when the environment does not name it.
use crate::shortcuts::rows::{text_le, text_less_eq};
use crate::text::{chars_of, copy_string, starts_with};
use vstd::prelude::*;

verus! {

/// Whether a file name has the form of a Sway IPC socket: `sway-ipc.` first and
/// `.sock` last.
pub open spec fn sway_socket_name(name: Seq<char>) -> bool {
    "sway-ipc."@.is_prefix_of(name) && ".sock"@.is_suffix_of(name)
}

/// Whether a directory entry, given by its name and whether it is a socket, is a Sway
/// IPC socket.
pub open spec fn sway_candidate(entry: (String, bool)) -> bool {
    entry.1 && sway_socket_name(entry.0@)
}

/// Whether `name` has the form of a Sway IPC socket name.
pub fn is_sway_socket_name(name: &str) -> (r: bool)
    ensures
        r == sway_socket_name(name@),
{
    proof {
        reveal_strlit("sway-ipc.");
        reveal_strlit(".sock");
    }
    let c = chars_of(name);
    let prefix = chars_of("sway-ipc.");
    let suffix = chars_of(".sock");
    if !starts_with(c.as_slice(), prefix.as_slice()) {
        return false;
    }
    if c.len() < suffix.len() {
        assert(!".sock"@.is_suffix_of(name@));
        return false;
    }
    let start = c.len() - suffix.len();
    let mut k: usize = start;
    while k < c.len()
        invariant
            start <= k <= c@.len(),
            suffix@ == ".sock"@,
            c@ == name@,
            suffix@.len() <= c@.len(),
            start == c@.len() - suffix@.len(),
            forall|j: int| start <= j < k ==> c@[j] == suffix@[j - start],
        decreases c.len() - k,
    {
        if c[k] != suffix[k - start] {
            assert(!".sock"@.is_suffix_of(name@)) by {
                assert(name@.subrange(start as int, name@.len() as int)[k - start] == c@[k as int]);
            };
            return false;
        }
        k += 1;
    }
    assert(name@.subrange(start as int, name@.len() as int) =~= ".sock"@);
    true
}

/// The Sway IPC socket to use among the entries of the runtime directory: of the
/// sockets whose names have the Sway form, the one whose name comes first.
pub fn first_sway_socket(entries: &Vec<(String, bool)>) -> (r: Option<String>)
    ensures
        r is None <==> !(exists|i: int| 0 <= i < entries@.len() && sway_candidate(#[trigger] entries@[i])),
        r matches Some(n) ==> exists|i: int|
            0 <= i < entries@.len() && sway_candidate(#[trigger] entries@[i]) && entries@[i].0@ == n@,
        r matches Some(n) ==> forall|i: int|
            0 <= i < entries@.len() && sway_candidate(#[trigger] entries@[i]) ==> text_le(n@, entries@[i].0@),
{
    let mut best: Option<usize> = None;
    let mut i: usize = 0;
    while i < entries.len()
        invariant
            i <= entries@.len(),
            best is None <==> !(exists|j: int| 0 <= j < i && sway_candidate(#[trigger] entries@[j])),
            best matches Some(b) ==> b < i && sway_candidate(entries@[b as int]),
            best matches Some(b) ==> forall|j: int|
                0 <= j < i && sway_candidate(#[trigger] entries@[j]) ==> text_le(entries@[b as int].0@, entries@[j].0@),
        decreases entries.len() - i,
    {
        if entries[i].1 && is_sway_socket_name(entries[i].0.as_str()) {
            match best {
                None => {
                    proof {
                        crate::shortcuts::rows::lemma_text_refl(entries@[i as int].0@);
                    }
                    best = Some(i);
                },
                Some(b) => {
                    if !text_less_eq(entries[b].0.as_str(), entries[i].0.as_str()) {
                        proof {
                            crate::shortcuts::rows::lemma_text_total(entries@[b as int].0@, entries@[i as int].0@);
                            crate::shortcuts::rows::lemma_text_refl(entries@[i as int].0@);
                            assert forall|j: int|
                                0 <= j < i + 1 && sway_candidate(#[trigger] entries@[j]) implies text_le(
                                entries@[i as int].0@,
                                entries@[j].0@,
                            ) by {
                                if j < i {
                                    crate::shortcuts::rows::lemma_text_trans(
                                        entries@[i as int].0@,
                                        entries@[b as int].0@,
                                        entries@[j].0@,
                                    );
                                }
                            };
                        }
                        best = Some(i);
                    }
                },
            }
        }
        i += 1;
    }
    match best {
        None => None,
        Some(b) => Some(copy_string(&entries[b].0)),
    }
}

} // verus!
