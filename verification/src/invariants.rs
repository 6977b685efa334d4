//! What every step of every request keeps.

use vstd::prelude::*;

use crate::inode_map::InodeTable;
use crate::laws;
use crate::laws::Request;
use crate::path;
use crate::path::SEPARATOR;
use crate::protocol;
use crate::protocol::{
    AttrChange, Call, Form, FsCallView, FsOutcomeView, FsPendingView, FsStepView, Outcome, Pending,
    RawEntry, Step,
};
use crate::state;
use crate::state::FsState;

verus! {

/// The directory, the database and the patterns stay what they were.
pub open spec fn same_setup(s: FsState, t: FsState) -> bool {
    s.root == t.root && s.db == t.db && s.patterns == t.patterns
}

/// No step of a request changes the directory, the database or the patterns.
pub proof fn law_setup_is_kept(
    s: FsState,
    request: Request,
    pending: FsPendingView,
    outcome: FsOutcomeView,
)
    ensures
        same_setup(s, laws::started(s, request).0),
        same_setup(s, s.resumed(pending, outcome).0),
{
}

/// Whether a string can be handed over as a C string.
pub open spec fn is_c_string(p: Seq<u8>) -> bool {
    !p.contains(0u8)
}

/// Whether a call that takes a path takes it relative to the directory `root`, as a C
/// string.
pub open spec fn call_is_under(root: i32, call: FsCallView) -> bool {
    match call {
        Call::StatAt { dir, path } => dir == root && is_c_string(path),
        Call::OpenDirAt { dir, path } => dir == root && is_c_string(path),
        Call::OpenAt { dir, path, .. } => dir == root && is_c_string(path),
        Call::OpenNoFollowAt { dir, path, .. } => dir == root && is_c_string(path),
        Call::CreateAt { dir, path, .. } => dir == root && is_c_string(path),
        Call::FchmodAt { dir, path, .. } => dir == root && is_c_string(path),
        Call::FchownAt { dir, path, .. } => dir == root && is_c_string(path),
        Call::UtimensAt { dir, path, .. } => dir == root && is_c_string(path),
        Call::AccessAt { dir, path, .. } => dir == root && is_c_string(path),
        Call::ReadlinkAt { dir, path, .. } => dir == root && is_c_string(path),
        Call::UnlinkAt { dir, path, .. } => dir == root && is_c_string(path),
        Call::MkdirAt { dir, path, .. } => dir == root && is_c_string(path),
        Call::RenameAt { dir, old_path, new_path, .. } => {
            dir == root && is_c_string(old_path) && is_c_string(new_path)
        },
        Call::LinkAt { dir, old_path, new_path } => {
            dir == root && is_c_string(old_path) && is_c_string(new_path)
        },
        Call::SymlinkAt { target, dir, path } => {
            dir == root && is_c_string(path) && is_c_string(target)
        },
        Call::Fstatvfs { fd } => fd == root,
        _ => true,
    }
}

/// Whether the call of a step, if it has one, is made under `root`.
pub open spec fn step_is_under(root: i32, step: FsStepView) -> bool {
    match step {
        Step::Call { call, .. } => call_is_under(root, call),
        Step::Finish { .. } => true,
    }
}

proof fn lemma_c_path(p: Seq<u8>)
    ensures
        is_c_string(path::c_path_of(p)),
{
    if p.contains(0u8) {
        assert(!seq![path::DOT].contains(0u8));
    }
}

proof fn lemma_resumed_under_the_root(s: FsState, pending: FsPendingView, outcome: FsOutcomeView)
    ensures
        step_is_under(s.root, s.resumed(pending, outcome).1),
{
    assert forall|p: Seq<u8>| is_c_string(#[trigger] path::c_path_of(p)) by {
        lemma_c_path(p);
    }
}

/// Every call that takes a path takes it relative to the directory that is proxied, in
/// every step of every request.
pub proof fn law_calls_are_made_under_the_root(
    s: FsState,
    request: Request,
    pending: FsPendingView,
    outcome: FsOutcomeView,
)
    ensures
        step_is_under(s.root, laws::started(s, request).1),
        step_is_under(s.root, s.resumed(pending, outcome).1),
{
    lemma_started(s, request);
    lemma_resumed_under_the_root(s, pending, outcome);
}

/// Whether a path starts at the root of the file system, and not at a directory.
pub open spec fn is_absolute(p: Seq<u8>) -> bool {
    p.len() > 0 && p[0] == SEPARATOR
}

/// Whether no path of the table is absolute.
pub open spec fn table_is_relative(t: InodeTable) -> bool {
    forall|ino: u64| #[trigger] t.paths.contains_key(ino) ==> !is_absolute(t.paths[ino])
}

/// Whether the paths that a request has in hand are relative.
pub open spec fn pending_is_relative(pending: FsPendingView) -> bool {
    match pending {
        Pending::Lookup { child } => !is_absolute(child),
        Pending::GetAttr { path } => !is_absolute(path),
        Pending::ReadDir { parent, .. } => !is_absolute(parent),
        Pending::SetAttrOpen { path, .. } => !is_absolute(path),
        Pending::SetAttrPath { path, .. } => !is_absolute(path),
        Pending::SetAttrChange { path, .. } => !is_absolute(path),
        Pending::SetAttrStatus { path, .. } => !is_absolute(path),
        Pending::CreateOpen { child } => !is_absolute(child),
        Pending::CreateStatus { child, .. } => !is_absolute(child),
        Pending::Make { path } => !is_absolute(path),
        Pending::MakeStatus { path } => !is_absolute(path),
        Pending::Rename { old_path, new_path, .. } => {
            !is_absolute(old_path) && !is_absolute(new_path)
        },
        _ => true,
    }
}

/// Whether the paths of a call are relative; the target of a symbolic link is none of them.
pub open spec fn call_is_relative(call: FsCallView) -> bool {
    match call {
        Call::StatAt { path, .. } => !is_absolute(path),
        Call::OpenDirAt { path, .. } => !is_absolute(path),
        Call::OpenAt { path, .. } => !is_absolute(path),
        Call::OpenNoFollowAt { path, .. } => !is_absolute(path),
        Call::CreateAt { path, .. } => !is_absolute(path),
        Call::FchmodAt { path, .. } => !is_absolute(path),
        Call::FchownAt { path, .. } => !is_absolute(path),
        Call::UtimensAt { path, .. } => !is_absolute(path),
        Call::AccessAt { path, .. } => !is_absolute(path),
        Call::ReadlinkAt { path, .. } => !is_absolute(path),
        Call::UnlinkAt { path, .. } => !is_absolute(path),
        Call::MkdirAt { path, .. } => !is_absolute(path),
        Call::RenameAt { old_path, new_path, .. } => {
            !is_absolute(old_path) && !is_absolute(new_path)
        },
        Call::LinkAt { old_path, new_path, .. } => !is_absolute(old_path) && !is_absolute(new_path),
        Call::SymlinkAt { path, .. } => !is_absolute(path),
        _ => true,
    }
}

/// Whether a step works with relative paths only.
pub open spec fn step_is_relative(step: FsStepView) -> bool {
    match step {
        Step::Call { call, next } => call_is_relative(call) && pending_is_relative(next),
        Step::Finish { .. } => true,
    }
}

/// Whether the names of a request do not start with a separator, as no name of a directory
/// entry does.
pub open spec fn names_are_relative(request: Request) -> bool {
    match request {
        Request::Lookup { name, .. } => !is_absolute(name),
        Request::Create { name, .. } => !is_absolute(name),
        Request::Unlink { name, .. } => !is_absolute(name),
        Request::Rmdir { name, .. } => !is_absolute(name),
        Request::Mkdir { name, .. } => !is_absolute(name),
        Request::Rename { name, newname, .. } => !is_absolute(name) && !is_absolute(newname),
        Request::Symlink { link_name, .. } => !is_absolute(link_name),
        Request::Link { newname, .. } => !is_absolute(newname),
        _ => true,
    }
}

/// Whether the names of the entries that were read do not start with a separator.
pub open spec fn entries_are_relative(entries: Seq<Option<RawEntry<Seq<u8>>>>) -> bool {
    forall|i: int|
        0 <= i < entries.len() ==> (#[trigger] entries[i] matches Some(e) ==> !is_absolute(e.name))
}

/// Whether an outcome names entries as directories do.
pub open spec fn outcome_is_relative(outcome: FsOutcomeView) -> bool {
    match outcome {
        Outcome::Entries(entries) => entries_are_relative(entries),
        _ => true,
    }
}

proof fn lemma_listing_is_relative(
    t: InodeTable,
    parent: Seq<u8>,
    entries: Seq<Option<RawEntry<Seq<u8>>>>,
)
    requires
        table_is_relative(t),
        !is_absolute(parent),
        entries_are_relative(entries),
    ensures
        table_is_relative(state::inodes_after_listing(t, parent, entries)),
    decreases entries.len(),
{
    if entries.len() > 0 {
        let front = entries.drop_last();
        assert forall|i: int| 0 <= i < front.len() implies (#[trigger] front[i] matches Some(e)
            ==> !is_absolute(e.name)) by {
            assert(front[i] == entries[i]);
        }
        lemma_listing_is_relative(t, parent, front);
        if state::is_listed(entries.last()) {
            let entry = entries[entries.len() - 1].unwrap();
            assert(!is_absolute(entry.name));
            path::law_parent_drops_the_last_component(parent);
            if let Some(q) = path::parent_of(parent) {
                if q.len() > 0 {
                    assert(q[0] == parent[0]);
                }
            }
            assert(!is_absolute(state::child_of(parent, entry.name)));
        }
    }
}

proof fn lemma_resumed_relative(s: FsState, pending: FsPendingView, outcome: FsOutcomeView)
    requires
        table_is_relative(s.inodes),
        pending_is_relative(pending),
        outcome_is_relative(outcome),
    ensures
        table_is_relative(s.resumed(pending, outcome).0.inodes),
        step_is_relative(s.resumed(pending, outcome).1),
{
    if let Pending::ReadDir { parent, offset } = pending {
        if let Outcome::Entries(entries) = outcome {
            lemma_listing_is_relative(s.inodes, parent, entries);
        }
    }
}

/// No absolute path is ever handed to a call, which would lead out of the directory that
/// is proxied: the table of a fresh mount holds none, and no step of a request brings one
/// in as long as the names of entries do not start with a separator.
pub proof fn law_paths_stay_relative(
    s: FsState,
    request: Request,
    pending: FsPendingView,
    outcome: FsOutcomeView,
)
    requires
        table_is_relative(s.inodes),
        names_are_relative(request),
        pending_is_relative(pending),
        outcome_is_relative(outcome),
    ensures
        table_is_relative(InodeTable::fresh()),
        table_is_relative(laws::started(s, request).0.inodes),
        step_is_relative(laws::started(s, request).1),
        table_is_relative(s.resumed(pending, outcome).0.inodes),
        step_is_relative(s.resumed(pending, outcome).1),
{
    lemma_started(s, request);
    lemma_resumed_relative(s, pending, outcome);
}

/// How many changes are still to be made.
pub open spec fn changes_left(change: AttrChange) -> nat {
    (if change.mode is Some {
        1nat
    } else {
        0
    }) + (if change.owner is Some {
        1nat
    } else {
        0
    }) + (if change.size is Some {
        1nat
    } else {
        0
    }) + (if change.times is Some {
        1nat
    } else {
        0
    })
}

/// How far a request is from its end, in phases.
pub open spec fn phases_left(pending: FsPendingView) -> nat {
    match pending {
        Pending::SetAttrOpen { fallback, .. } => if fallback {
            9
        } else {
            10
        },
        Pending::SetAttrPath { change, .. } => 4 + changes_left(change),
        Pending::SetAttrChange { change, .. } => 4 + changes_left(change),
        Pending::SetAttrStatus { .. } => 3,
        Pending::CreateOpen { .. } => 4,
        Pending::CreateStatus { .. } => 3,
        Pending::Make { .. } => 4,
        Pending::MakeStatus { .. } => 3,
        Pending::Lookup { .. } => 3,
        Pending::GetAttr { .. } => 3,
        Pending::ReadStatus { .. } => 3,
        Pending::ReadContent { .. } => 2,
        _ => 1,
    }
}

/// How many bytes of an intercepted file are still to be read.
pub open spec fn bytes_left(pending: FsPendingView) -> nat {
    match pending {
        Pending::ReadContent { real_size, content, .. } => if content.len() < real_size {
            (real_size - content.len()) as nat
        } else {
            0
        },
        _ => 0,
    }
}

/// No request goes on for ever: each call brings it into a later phase, or leaves fewer
/// bytes to read.
pub proof fn law_every_request_ends(s: FsState, pending: FsPendingView, outcome: FsOutcomeView)
    ensures
        s.resumed(pending, outcome).1 matches Step::Call { next, .. } ==> {
            ||| phases_left(next) < phases_left(pending)
            ||| phases_left(next) == phases_left(pending) && bytes_left(next) < bytes_left(pending)
        },
{
}

/// Whether every handle that is open was given out before the next one.
pub open spec fn handles_are_used(s: FsState) -> bool {
    &&& forall|fh: u64| #[trigger] s.files.contains_key(fh) ==> fh < s.next_fh
    &&& forall|fh: u64| #[trigger] s.dirs.contains_key(fh) ==> fh < s.next_fh
}

/// The handle that a finished request hands out.
pub open spec fn handle_given(step: FsStepView) -> Option<u64> {
    match step {
        Step::Finish { reply, .. } => match reply {
            protocol::Reply::Opened { fh } => Some(fh),
            protocol::Reply::Created { fh, .. } => Some(fh),
            _ => None,
        },
        Step::Call { .. } => None,
    }
}

proof fn lemma_resumed_handles(s: FsState, pending: FsPendingView, outcome: FsOutcomeView)
    requires
        handles_are_used(s),
        s.next_fh < u64::MAX,
    ensures
        handles_are_used(s.resumed(pending, outcome).0),
        handle_given(s.resumed(pending, outcome).1) matches Some(fh) ==> {
            &&& fh == s.next_fh
            &&& s.resumed(pending, outcome).0.files.contains_key(fh) || s.resumed(
                pending,
                outcome,
            ).0.dirs.contains_key(fh)
        },
{
}

/// Handles are handed out in turn, each number once before the numbers start again: the one
/// that is handed out is the next, and only then is another one the next. Releasing a
/// handle does not bring its number back.
pub proof fn law_handles_are_handed_out_in_turn(
    s: FsState,
    request: Request,
    pending: FsPendingView,
    outcome: FsOutcomeView,
)
    ensures
        handle_given(laws::started(s, request).1) is None,
        laws::started(s, request).0.next_fh == s.next_fh,
        ({
            let (t, step) = s.resumed(pending, outcome);
            &&& handle_given(step) matches Some(fh) ==> fh == s.next_fh && t.next_fh
                == state::handle_after(fh)
            &&& handle_given(step) is None ==> t.next_fh == s.next_fh
        }),
{
    lemma_started(s, request);
}

/// As long as the numbers last, a handle that is handed out was open neither as a file nor
/// as a directory; from then on it is open as one of them. No handle is handed out twice:
/// those to come are larger than all that were handed out.
pub proof fn law_handles_are_fresh(
    s: FsState,
    request: Request,
    pending: FsPendingView,
    outcome: FsOutcomeView,
)
    requires
        handles_are_used(s),
        s.next_fh < u64::MAX,
    ensures
        handles_are_used(laws::started(s, request).0),
        handle_given(laws::started(s, request).1) is None,
        laws::started(s, request).0.next_fh == s.next_fh,
        handles_are_used(s.resumed(pending, outcome).0),
        s.next_fh <= s.resumed(pending, outcome).0.next_fh,
        handle_given(s.resumed(pending, outcome).1) matches Some(fh) ==> {
            &&& s.next_fh <= fh < s.resumed(pending, outcome).0.next_fh
            &&& !s.files.contains_key(fh)
            &&& !s.dirs.contains_key(fh)
            &&& s.resumed(pending, outcome).0.files.contains_key(fh) || s.resumed(
                pending,
                outcome,
            ).0.dirs.contains_key(fh)
        },
{
    lemma_started(s, request);
    lemma_resumed_handles(s, pending, outcome);
    law_handles_are_handed_out_in_turn(s, request, pending, outcome);
}

/// Whether a descriptor is open under a handle.
pub open spec fn is_held(s: FsState, fd: i32) -> bool {
    ||| exists|fh: u64| #[trigger] s.files.contains_key(fh) && s.files[fh] == fd
    ||| exists|fh: u64| #[trigger] s.dirs.contains_key(fh) && s.dirs[fh] == fd
}

/// The descriptor that a request has opened and not yet passed on or closed.
pub open spec fn carried(pending: FsPendingView) -> Option<i32> {
    match pending {
        Pending::SetAttrChange { close, .. } => close,
        Pending::SetAttrStatus { close, .. } => close,
        Pending::CreateStatus { fd, .. } => Some(fd),
        Pending::Describe { form, .. } => match form {
            Form::Attr { close, .. } => close,
            Form::Entry { .. } => None,
            Form::Created { fd, .. } => Some(fd),
        },
        _ => None,
    }
}

/// Whether a step carries a descriptor on.
pub open spec fn carries(step: FsStepView, fd: i32) -> bool {
    match step {
        Step::Call { next, .. } => carried(next) == Some(fd),
        Step::Finish { .. } => false,
    }
}

/// Whether a step closes a descriptor.
pub open spec fn closes(step: FsStepView, fd: i32) -> bool {
    match step {
        Step::Call { .. } => false,
        Step::Finish { close, .. } => close == Some(fd),
    }
}

/// No descriptor gets lost: one that is open under a handle, that the request carries or
/// that a call opens is afterwards open under a handle, carried on or closed.
pub proof fn law_no_descriptor_is_lost(
    s: FsState,
    request: Request,
    pending: FsPendingView,
    outcome: FsOutcomeView,
    fd: i32,
)
    requires
        protocol::accepts(pending, outcome),
    ensures
        is_held(s, fd) ==> {
            let (t, step) = laws::started(s, request);
            is_held(t, fd) || carries(step, fd) || closes(step, fd)
        },
        is_held(s, fd) || carried(pending) == Some(fd) || outcome == FsOutcomeView::Descriptor(fd)
            ==> {
            let (t, step) = s.resumed(pending, outcome);
            is_held(t, fd) || carries(step, fd) || closes(step, fd)
        },
{
    let (t, step) = laws::started(s, request);
    lemma_held_after_removal(s, t, step, fd);
    let (u, next) = s.resumed(pending, outcome);
    let fh = s.next_fh;
    if is_held(s, fd) {
        if exists|h: u64| #[trigger] s.files.contains_key(h) && s.files[h] == fd {
            let h = choose|h: u64| #[trigger] s.files.contains_key(h) && s.files[h] == fd;
            if u.files.contains_key(h) && u.files[h] == fd {
            } else {
                assert(h == fh);
            }
        } else {
            let h = choose|h: u64| #[trigger] s.dirs.contains_key(h) && s.dirs[h] == fd;
            if u.dirs.contains_key(h) && u.dirs[h] == fd {
            } else {
                assert(h == fh);
            }
        }
    }
    assert(u.files.contains_key(fh) && u.files[fh] == fd ==> is_held(u, fd));
    assert(u.dirs.contains_key(fh) && u.dirs[fh] == fd ==> is_held(u, fd));
}

proof fn lemma_held_after_removal(s: FsState, t: FsState, step: FsStepView, fd: i32)
    requires
        exists|request: Request| (t, step) == #[trigger] laws::started(s, request),
    ensures
        is_held(s, fd) ==> is_held(t, fd) || closes(step, fd),
{
    let request = choose|request: Request| (t, step) == #[trigger] laws::started(s, request);
    if is_held(s, fd) {
        if exists|h: u64| #[trigger] s.files.contains_key(h) && s.files[h] == fd {
            let h = choose|h: u64| #[trigger] s.files.contains_key(h) && s.files[h] == fd;
            if !t.files.contains_key(h) {
                assert(request == Request::Release { fh: h });
            }
        } else {
            let h = choose|h: u64| #[trigger] s.dirs.contains_key(h) && s.dirs[h] == fd;
            if !t.dirs.contains_key(h) {
                assert(request == Request::ReleaseDir { fh: h });
            }
        }
    }
}

/// Whether no descriptor is open under two handles.
pub open spec fn descriptors_are_distinct(s: FsState) -> bool {
    &&& forall|a: u64, b: u64| #[trigger]
        s.files.contains_key(a) && #[trigger] s.files.contains_key(b) && s.files[a] == s.files[b]
            ==> a == b
    &&& forall|a: u64, b: u64| #[trigger]
        s.dirs.contains_key(a) && #[trigger] s.dirs.contains_key(b) && s.dirs[a] == s.dirs[b] ==> a
            == b
    &&& forall|a: u64, b: u64| #[trigger]
        s.files.contains_key(a) && #[trigger] s.dirs.contains_key(b) ==> s.files[a] != s.dirs[b]
}

/// Whether a descriptor, if there is one, is open under no handle.
pub open spec fn is_apart(s: FsState, fd: Option<i32>) -> bool {
    match fd {
        Some(f) => !is_held(s, f),
        None => true,
    }
}

/// Whether the descriptor that a step carries on is open under no handle, and the one that
/// it closes is not either.
pub open spec fn step_is_apart(s: FsState, step: FsStepView) -> bool {
    match step {
        Step::Call { next, .. } => is_apart(s, carried(next)),
        Step::Finish { close, .. } => is_apart(s, close),
    }
}

proof fn lemma_resumed_apart(s: FsState, pending: FsPendingView, outcome: FsOutcomeView)
    requires
        descriptors_are_distinct(s),
        is_apart(s, carried(pending)),
        outcome matches Outcome::Descriptor(fd) ==> !is_held(s, fd),
    ensures
        descriptors_are_distinct(s.resumed(pending, outcome).0),
        step_is_apart(s.resumed(pending, outcome).0, s.resumed(pending, outcome).1),
{
}

/// A descriptor is closed only when nothing leads to it any more, so none is closed twice
/// and none is used once it is closed; given that the kernel opens a file under a
/// descriptor that is not in use.
pub proof fn law_closed_descriptor_is_not_held(
    s: FsState,
    request: Request,
    pending: FsPendingView,
    outcome: FsOutcomeView,
)
    requires
        descriptors_are_distinct(s),
        is_apart(s, carried(pending)),
        outcome matches Outcome::Descriptor(fd) ==> !is_held(s, fd),
    ensures
        descriptors_are_distinct(laws::started(s, request).0),
        step_is_apart(laws::started(s, request).0, laws::started(s, request).1),
        descriptors_are_distinct(s.resumed(pending, outcome).0),
        step_is_apart(s.resumed(pending, outcome).0, s.resumed(pending, outcome).1),
{
    lemma_started(s, request);
    lemma_resumed_apart(s, pending, outcome);
}

/// What the first step of a request keeps, for all requests.
proof fn lemma_started(s: FsState, request: Request)
    ensures
        step_is_under(s.root, laws::started(s, request).1),
        table_is_relative(s.inodes) && names_are_relative(request) ==> {
            &&& table_is_relative(laws::started(s, request).0.inodes)
            &&& step_is_relative(laws::started(s, request).1)
        },
        handles_are_used(s) ==> handles_are_used(laws::started(s, request).0),
        handle_given(laws::started(s, request).1) is None,
        laws::started(s, request).0.next_fh == s.next_fh,
        descriptors_are_distinct(s) ==> {
            &&& descriptors_are_distinct(laws::started(s, request).0)
            &&& step_is_apart(laws::started(s, request).0, laws::started(s, request).1)
        },
{
    assert forall|p: Seq<u8>| is_c_string(#[trigger] path::c_path_of(p)) by {
        lemma_c_path(p);
    }
    assert(is_c_string(Seq::<u8>::empty()));
    match request {
        Request::Lookup { .. } => {},
        Request::GetAttr { .. } => {},
        Request::OpenDir { .. } => {},
        Request::ReadDir { .. } => {},
        Request::ReleaseDir { .. } => {},
        Request::Open { .. } => {},
        Request::Read { .. } => {},
        Request::Release { .. } => {},
        Request::Access { .. } => {},
        Request::Readlink { .. } => {},
        Request::StatFs => {},
        Request::Write { .. } => {},
        Request::SetAttr { .. } => {},
        Request::Create { .. } => {},
        Request::Unlink { .. } => {},
        Request::Rmdir { .. } => {},
        Request::Mkdir { .. } => {},
        Request::Rename { .. } => {},
        Request::Flush => {},
        Request::Fsync { .. } => {},
        Request::Symlink { .. } => {},
        Request::Link { .. } => {},
    }
}

} // verus!
