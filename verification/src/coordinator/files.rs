//! The attachment files that are still needed, and those that are not.

use crate::attachment::stored_at;
use crate::attachment::InboundAttachment;
use crate::state::earliest_kept;
use crate::state::earliest_time;
use crate::state::BridgeState;
use crate::state::StateModel;
use crate::text::same_text;
use crate::text::texts;
use super::model::Coordinator;
use vstd::prelude::*;

verus! {

/// A file in the attachment directory.
#[derive(Debug, PartialEq, Eq)]
pub struct StoredFile {
    pub path: String,
    /// When it was written, in seconds since the epoch.
    pub modified_at: u64,
}

/// Whether an attachment is stored at a path.
pub open spec fn is_stored_at(attachment: Option<InboundAttachment>, path: Seq<char>) -> bool {
    attachment matches Some(attachment) && stored_at(attachment) == Some(path)
}

/// Whether a file is still needed: the running turn refers to it, or a message that waits
/// to be submitted does.
pub open spec fn refers_to(state: StateModel, path: Seq<char>) -> bool {
    ||| state.active_turn matches Some(turn) && turn.attachment_paths.contains(path)
    ||| exists|i: int|
        0 <= i < state.queued_prompts.len() && is_stored_at(
            (#[trigger] state.queued_prompts[i]).attachment,
            path,
        )
    ||| exists|i: int|
        0 <= i < state.pending_steers.len() && is_stored_at(
            (#[trigger] state.pending_steers[i]).attachment,
            path,
        )
}

/// Whether a file is stale: nothing refers to it, and it is older than anything that the
/// bridge still remembers, so that no message about it is on its way.
pub open spec fn is_stale(state: StateModel, ttl_hours: u64, file: StoredFile, now: u64) -> bool {
    !refers_to(state, file.path@) && file.modified_at < earliest_kept(now, ttl_hours)
}

/// The paths of the stale files, in order.
pub open spec fn stale_paths(
    state: StateModel,
    ttl_hours: u64,
    files: Seq<StoredFile>,
    now: u64,
) -> Seq<Seq<char>>
    decreases files.len(),
{
    if files.len() == 0 {
        Seq::empty()
    } else {
        let earlier = stale_paths(state, ttl_hours, files.drop_last(), now);
        if is_stale(state, ttl_hours, files.last(), now) {
            earlier.push(files.last().path@)
        } else {
            earlier
        }
    }
}

/// Whether an attachment is stored at a path.
fn has_path(attachment: &Option<InboundAttachment>, path: &str) -> (found: bool)
    ensures
        found == is_stored_at(*attachment, path@),
{
    match attachment {
        Some(attachment) => match attachment.path() {
            Some(own) => same_text(own, path),
            None => false,
        },
        None => false,
    }
}

/// Whether a path is in a list.
fn lists(paths: &Vec<String>, path: &str) -> (found: bool)
    ensures
        found == texts(paths@).contains(path@),
{
    let mut index: usize = 0;
    while index < paths.len()
        invariant
            index <= paths@.len(),
            forall|i: int| 0 <= i < index ==> (#[trigger] paths@[i])@ != path@,
        decreases paths@.len() - index,
    {
        if same_text(paths[index].as_str(), path) {
            assert(texts(paths@)[index as int] == path@);
            return true;
        }
        index += 1;
    }
    assert forall|i: int| 0 <= i < texts(paths@).len() implies texts(paths@)[i] != path@ by {
        assert(paths@[i]@ != path@);
    }
    false
}

impl BridgeState {
    /// Whether a file is still needed.
    pub fn needs_file(&self, path: &str) -> (needed: bool)
        ensures
            needed == refers_to(self@, path@),
    {
        match &self.active_turn {
            Some(turn) => {
                if lists(&turn.attachment_paths, path) {
                    return true;
                }
            },
            None => {},
        }
        let mut index: usize = 0;
        while index < self.queued_prompts.len()
            invariant
                index <= self.queued_prompts@.len(),
                forall|i: int|
                    0 <= i < index ==> !is_stored_at(
                        (#[trigger] self@.queued_prompts[i]).attachment,
                        path@,
                    ),
            decreases self.queued_prompts@.len() - index,
        {
            assert(self@.queued_prompts[index as int] == self.queued_prompts@[index as int]@);
            if has_path(&self.queued_prompts[index].attachment, path) {
                return true;
            }
            index += 1;
        }
        let mut at: usize = 0;
        while at < self.pending_steers.len()
            invariant
                at <= self.pending_steers@.len(),
                forall|i: int|
                    0 <= i < at ==> !is_stored_at(
                        (#[trigger] self@.pending_steers[i]).attachment,
                        path@,
                    ),
            decreases self.pending_steers@.len() - at,
        {
            assert(self@.pending_steers[at as int] == self.pending_steers@[at as int]@);
            if has_path(&self.pending_steers[at].attachment, path) {
                return true;
            }
            at += 1;
        }
        false
    }
}

impl Coordinator {
    /// The files of the attachment directory that can be removed.
    pub fn stale_attachments(&self, files: &Vec<StoredFile>, now: u64) -> (paths: Vec<String>)
        ensures
            texts(paths@) == stale_paths(
                self@.state,
                self.settings.dedupe_ttl_hours,
                files@,
                now,
            ),
    {
        let earliest: u64 = earliest_time(now, self.settings.dedupe_ttl_hours);
        let mut paths: Vec<String> = Vec::new();
        let mut index: usize = 0;
        assert(files@.take(0) =~= Seq::<StoredFile>::empty());
        assert(texts(paths@) =~= Seq::<Seq<char>>::empty());
        while index < files.len()
            invariant
                index <= files@.len(),
                earliest == earliest_kept(now, self.settings.dedupe_ttl_hours),
                texts(paths@) == stale_paths(
                    self@.state,
                    self.settings.dedupe_ttl_hours,
                    files@.take(index as int),
                    now,
                ),
            decreases files@.len() - index,
        {
            let file = &files[index];
            proof {
                let longer = files@.take(index + 1);
                assert(longer.drop_last() =~= files@.take(index as int));
                assert(longer.last() == *file);
            }
            if file.modified_at < earliest && !self.state.needs_file(file.path.as_str()) {
                let ghost before = texts(paths@);
                paths.push(file.path.clone());
                assert(texts(paths@) =~= before.push(file.path@));
            }
            index += 1;
        }
        assert(files@.take(index as int) =~= files@);
        paths
    }
}

/// A file that a turn or a waiting message refers to is kept, however old it is.
pub proof fn needed_files_are_kept(
    state: StateModel,
    ttl_hours: u64,
    files: Seq<StoredFile>,
    now: u64,
    path: Seq<char>,
)
    requires
        refers_to(state, path),
    ensures
        !stale_paths(state, ttl_hours, files, now).contains(path),
    decreases files.len(),
{
    if files.len() > 0 {
        needed_files_are_kept(state, ttl_hours, files.drop_last(), now, path);
    }
}

/// Whether a waiting message came with the document that is stored at a path.
pub open spec fn came_with(attachment: Option<InboundAttachment>, path: Seq<char>) -> bool {
    match attachment {
        Some(InboundAttachment::Document { path: place, .. }) => place@ == path,
        _ => false,
    }
}

/// A file is needed exactly while the running turn has it, or a message that waits came
/// with it.
pub proof fn files_are_needed_by_what_waits(state: StateModel, path: Seq<char>)
    ensures
        refers_to(state, path) <==> (state.active_turn matches Some(turn)
            && turn.attachment_paths.contains(path)) || (exists|i: int|
            0 <= i < state.queued_prompts.len() && came_with(
                (#[trigger] state.queued_prompts[i]).attachment,
                path,
            )) || (exists|i: int|
            0 <= i < state.pending_steers.len() && came_with(
                (#[trigger] state.pending_steers[i]).attachment,
                path,
            )),
{
    assert forall|attachment: Option<InboundAttachment>| #[trigger]
        is_stored_at(attachment, path) == came_with(attachment, path) by {}
}

/// The files that go are exactly those that nothing refers to and that were written longer
/// ago than the record reaches back; they go in their order.
pub proof fn stale_files_go(state: StateModel, ttl_hours: u64, files: Seq<StoredFile>, now: u64)
    ensures
        stale_paths(state, ttl_hours, files, now) == files.filter(
            |file: StoredFile|
                !refers_to(state, file.path@) && file.modified_at + ttl_hours * 3600 < now,
        ).map_values(|file: StoredFile| file.path@),
    decreases files.len(),
{
    reveal(Seq::filter);
    let stale = |file: StoredFile|
        !refers_to(state, file.path@) && file.modified_at + ttl_hours * 3600 < now;
    let path = |file: StoredFile| file.path@;
    if files.len() > 0 {
        let shorter = files.drop_last();
        stale_files_go(state, ttl_hours, shorter, now);
        assert(is_stale(state, ttl_hours, files.last(), now) == stale(files.last()));
        if stale(files.last()) {
            assert(shorter.filter(stale).push(files.last()).map_values(path) =~= shorter.filter(
                stale,
            ).map_values(path).push(files.last().path@));
        }
    } else {
        assert(stale_paths(state, ttl_hours, files, now) =~= files.filter(stale).map_values(path));
    }
}

} // verus!
