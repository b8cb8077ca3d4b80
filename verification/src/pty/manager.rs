//! The registry of sessions: at most one session goes by an identifier.
//!
//! A registry holds as many sessions as there are terminals open, which is few: it keeps
//! them in a list and looks one up by going through it. To its users it is a map from
//! identifiers to sessions.

use crate::pty::error::{PtyError, PtyErrorModel};
use crate::pty::session::{
    session_cwd, ProbeOutcome, PtySession, ResizeRequest, WriteRequest,
};
use crate::pty::shell::PtySize;
use vstd::prelude::*;

verus! {

/// A session under the identifier by which it goes.
struct Entry<H> {
    id: String,
    session: PtySession<H>,
}

/// The sessions of a registry as a map from identifiers.
pub type Sessions<H> = Map<Seq<char>, PtySession<H>>;

/// Whether no two of `entries` go by the same identifier.
spec fn distinct<H>(entries: Seq<Entry<H>>) -> bool {
    forall|i: int, j: int|
        0 <= i < j < entries.len() ==> (#[trigger] entries[i]).id@ != (#[trigger] entries[j]).id@
}

/// Whether one of `entries` goes by `id`.
spec fn listed<H>(entries: Seq<Entry<H>>, id: Seq<char>) -> bool {
    exists|i: int| 0 <= i < entries.len() && (#[trigger] entries[i]).id@ == id
}

/// The position of an entry that goes by `id`.
spec fn place<H>(entries: Seq<Entry<H>>, id: Seq<char>) -> int {
    choose|i: int| 0 <= i < entries.len() && (#[trigger] entries[i]).id@ == id
}

/// The map that `entries` stand for.
spec fn as_map<H>(entries: Seq<Entry<H>>) -> Sessions<H> {
    Map::new(|id: Seq<char>| listed(entries, id), |id: Seq<char>| entries[place(entries, id)].session)
}

/// Each entry of a list without doubles is what the map holds under its identifier.
proof fn lemma_as_map_at<H>(entries: Seq<Entry<H>>, i: int)
    requires
        distinct(entries),
        0 <= i < entries.len(),
    ensures
        as_map(entries).contains_key(entries[i].id@),
        as_map(entries)[entries[i].id@] == entries[i].session,
{
    let id = entries[i].id@;
    assert(listed(entries, id));
    let j = place(entries, id);
    assert(0 <= j < entries.len() && entries[j].id@ == id);
    if j < i {
        assert(entries[j].id@ != entries[i].id@);
    } else if i < j {
        assert(entries[i].id@ != entries[j].id@);
    }
}

/// Adding an entry under a new identifier adds it to the map.
proof fn lemma_as_map_push<H>(entries: Seq<Entry<H>>, entry: Entry<H>)
    requires
        distinct(entries),
        !listed(entries, entry.id@),
    ensures
        distinct(entries.push(entry)),
        as_map(entries.push(entry)) == as_map(entries).insert(entry.id@, entry.session),
{
    let more = entries.push(entry);
    assert forall|i: int, j: int| 0 <= i < j < more.len() implies (#[trigger] more[i]).id@ != (
    #[trigger] more[j]).id@ by {
        if j == entries.len() {
            assert(more[i] == entries[i]);
            if entries[i].id@ == entry.id@ {
                assert(listed(entries, entry.id@));
            }
        } else {
            assert(more[i] == entries[i] && more[j] == entries[j]);
        }
    }
    let target = as_map(entries).insert(entry.id@, entry.session);
    assert forall|id: Seq<char>| as_map(more).contains_key(id) <==> target.contains_key(id) by {
        if as_map(more).contains_key(id) {
            let i = place(more, id);
            if i < entries.len() {
                assert(entries[i] == more[i]);
                assert(listed(entries, id));
            }
        }
        if target.contains_key(id) {
            if id == entry.id@ {
                assert(more[entries.len() as int].id@ == id);
            } else {
                let i = place(entries, id);
                assert(more[i] == entries[i]);
            }
            assert(listed(more, id));
        }
    }
    assert forall|id: Seq<char>| as_map(more).contains_key(id) implies as_map(more)[id]
        == target[id] by {
        let i = place(more, id);
        lemma_as_map_at(more, i);
        if i < entries.len() {
            assert(entries[i] == more[i]);
            lemma_as_map_at(entries, i);
            if entries[i].id@ == entry.id@ {
                assert(listed(entries, entry.id@));
            }
        }
    }
    assert(as_map(more) =~= target);
}

/// Taking an entry out takes its identifier out of the map.
proof fn lemma_as_map_remove<H>(entries: Seq<Entry<H>>, i: int)
    requires
        distinct(entries),
        0 <= i < entries.len(),
    ensures
        distinct(entries.remove(i)),
        as_map(entries.remove(i)) == as_map(entries).remove(entries[i].id@),
{
    let fewer = entries.remove(i);
    let gone = entries[i].id@;
    assert forall|a: int, b: int| 0 <= a < b < fewer.len() implies (#[trigger] fewer[a]).id@ != (
    #[trigger] fewer[b]).id@ by {
        let a0 = if a < i {
            a
        } else {
            a + 1
        };
        let b0 = if b < i {
            b
        } else {
            b + 1
        };
        assert(fewer[a] == entries[a0] && fewer[b] == entries[b0]);
    }
    let target = as_map(entries).remove(gone);
    assert forall|id: Seq<char>| as_map(fewer).contains_key(id) <==> target.contains_key(id) by {
        if as_map(fewer).contains_key(id) {
            let a = place(fewer, id);
            let a0 = if a < i {
                a
            } else {
                a + 1
            };
            assert(fewer[a] == entries[a0]);
            assert(listed(entries, id));
            if a0 < i {
                assert(entries[a0].id@ != entries[i].id@);
            } else {
                assert(entries[i].id@ != entries[a0].id@);
            }
        }
        if target.contains_key(id) {
            let k = place(entries, id);
            let a = if k < i {
                k
            } else {
                k - 1
            };
            assert(fewer[a] == entries[k]);
            assert(listed(fewer, id));
        }
    }
    assert forall|id: Seq<char>| as_map(fewer).contains_key(id) implies as_map(fewer)[id]
        == target[id] by {
        let a = place(fewer, id);
        let a0 = if a < i {
            a
        } else {
            a + 1
        };
        assert(fewer[a] == entries[a0]);
        lemma_as_map_at(fewer, a);
        lemma_as_map_at(entries, a0);
    }
    assert(as_map(fewer) =~= target);
}

/// The session that goes by `id`, or the failure that none does.
pub open spec fn found<H>(sessions: Sessions<H>, id: Seq<char>) -> Result<
    PtySession<H>,
    PtyErrorModel,
> {
    if sessions.contains_key(id) {
        Ok(sessions[id])
    } else {
        Err(PtyErrorModel::NotFound(id))
    }
}

/// The sessions after `session` was to be registered under `id`: an identifier that is
/// taken keeps its session, and nothing changes.
pub open spec fn created<H>(sessions: Sessions<H>, id: Seq<char>, session: PtySession<H>)
    -> Sessions<H> {
    if sessions.contains_key(id) {
        sessions
    } else {
        sessions.insert(id, session)
    }
}

/// The sessions after the one that goes by `id`, if there is one, was taken out.
pub open spec fn destroyed<H>(sessions: Sessions<H>, id: Seq<char>) -> Sessions<H> {
    sessions.remove(id)
}

/// The registry of the sessions that are alive, each under its identifier.
pub struct PtyManager<H> {
    entries: Vec<Entry<H>>,
}

impl<H> View for PtyManager<H> {
    type V = Sessions<H>;

    closed spec fn view(&self) -> Sessions<H> {
        as_map(self.entries@)
    }
}

impl<H> PtyManager<H> {
    #[verifier::type_invariant]
    spec fn no_doubles(&self) -> bool {
        distinct(self.entries@)
    }

    /// A registry without sessions.
    pub fn new() -> (manager: PtyManager<H>)
        ensures
            manager@ == Map::<Seq<char>, PtySession<H>>::empty(),
    {
        let manager = PtyManager { entries: Vec::new() };
        assert(manager@ =~= Map::<Seq<char>, PtySession<H>>::empty()) by {
            assert forall|id: Seq<char>| !listed(manager.entries@, id) by {}
        }
        manager
    }

    /// The position of the entry that goes by `id`.
    fn position(&self, id: &str) -> (r: Option<usize>)
        ensures
            match r {
                Some(i) => i < self.entries@.len() && self.entries@[i as int].id@ == id@
                    && self@.contains_key(id@) && self@[id@] == self.entries@[i as int].session,
                None => !self@.contains_key(id@) && !listed(self.entries@, id@),
            },
    {
        proof {
            use_type_invariant(self);
        }
        let wanted = String::from_str(id);
        let mut i: usize = 0;
        while i < self.entries.len()
            invariant
                i <= self.entries@.len(),
                wanted@ == id@,
                distinct(self.entries@),
                forall|k: int| 0 <= k < i ==> (#[trigger] self.entries@[k]).id@ != id@,
            decreases self.entries.len() - i,
        {
            if self.entries[i].id == wanted {
                proof {
                    lemma_as_map_at(self.entries@, i as int);
                }
                return Some(i);
            }
            i += 1;
        }
        None
    }

    /// Whether a session goes by `session_id`.
    pub fn has_session(&self, session_id: &str) -> (b: bool)
        ensures
            b == self@.contains_key(session_id@),
    {
        self.position(session_id).is_some()
    }

    /// The session that goes by `session_id`.
    pub fn session(&self, session_id: &str) -> (r: Option<&PtySession<H>>)
        ensures
            match r {
                Some(session) => self@.contains_key(session_id@) && *session == self@[session_id@],
                None => !self@.contains_key(session_id@),
            },
    {
        match self.position(session_id) {
            Some(i) => Some(&self.entries[i].session),
            None => None,
        }
    }

    /// Whether a session may be created under `session_id`: the failure that one goes by
    /// it already, where one does. Asked before a shell is started, it spares the start.
    pub fn ensure_free(&self, session_id: &str) -> (r: Result<(), PtyError>)
        ensures
            match r {
                Ok(_) => !self@.contains_key(session_id@),
                Err(e) => self@.contains_key(session_id@) && e@ == PtyErrorModel::Duplicate(
                    session_id@,
                ),
            },
    {
        match self.position(session_id) {
            Some(_) => Err(PtyError::Duplicate(String::from_str(session_id))),
            None => Ok(()),
        }
    }

    /// Registers `session` under `session_id`. An identifier names at most one session:
    /// where one goes by it already, the registry stays as it is and the new session is
    /// refused.
    pub fn register(&mut self, session_id: String, session: PtySession<H>) -> (r: Result<
        (),
        PtyError,
    >)
        ensures
            final(self)@ == created(old(self)@, session_id@, session),
            match r {
                Ok(_) => !old(self)@.contains_key(session_id@),
                Err(e) => old(self)@.contains_key(session_id@) && e@ == PtyErrorModel::Duplicate(
                    session_id@,
                ),
            },
    {
        proof {
            use_type_invariant(&*self);
        }
        match self.position(session_id.as_str()) {
            Some(_) => Err(PtyError::Duplicate(session_id)),
            None => {
                let entry = Entry { id: session_id, session };
                proof {
                    lemma_as_map_push(self.entries@, entry);
                }
                let mut entries: Vec<Entry<H>> = Vec::new();
                core::mem::swap(&mut self.entries, &mut entries);
                entries.push(entry);
                core::mem::swap(&mut self.entries, &mut entries);
                Ok(())
            },
        }
    }

    /// Creates the session `session_id` from what starting its shell gave. Where the
    /// start failed, no session is registered and the failure of the start is the
    /// answer. Where it gave a session, the session is registered under the identifier,
    /// unless one goes by it already: then the registry stays as it is, and the answer is
    /// that failure.
    pub fn create_session(
        &mut self,
        session_id: String,
        spawned: Result<PtySession<H>, PtyError>,
    ) -> (r: Result<(), PtyError>)
        ensures
            match spawned {
                Err(failure) => final(self)@ == old(self)@ && r == Err::<(), PtyError>(failure),
                Ok(session) => final(self)@ == created(old(self)@, session_id@, session) && (
                match r {
                    Ok(_) => !old(self)@.contains_key(session_id@),
                    Err(e) => old(self)@.contains_key(session_id@) && e@
                        == PtyErrorModel::Duplicate(session_id@),
                }),
            },
    {
        match spawned {
            Err(failure) => Err(failure),
            Ok(session) => self.register(session_id, session),
        }
    }

    /// The order that writes `data` to the session that goes by `session_id`; the
    /// failure that no session does, where none does.
    pub fn write_to_session<'a>(&'a self, session_id: &str, data: &'a [u8]) -> (r: Result<
        WriteRequest<'a, H>,
        PtyError,
    >)
        ensures
            match r {
                Ok(request) => found(self@, session_id@) == Ok::<PtySession<H>, PtyErrorModel>(
                    *request.session,
                ) && request.data@ == data@,
                Err(e) => found(self@, session_id@) == Err::<PtySession<H>, PtyErrorModel>(e@),
            },
    {
        match self.position(session_id) {
            Some(i) => Ok(self.entries[i].session.write(data)),
            None => Err(PtyError::NotFound(String::from_str(session_id))),
        }
    }

    /// The order that gives the window of the session that goes by `session_id` the
    /// size of `cols` columns and `rows` rows; the failure that no session goes by
    /// that identifier, where none does.
    pub fn resize_session(&self, session_id: &str, cols: u16, rows: u16) -> (r: Result<
        ResizeRequest<'_, H>,
        PtyError,
    >)
        ensures
            match r {
                Ok(request) => resize_answer(self@, session_id@, cols, rows) == Ok::<
                    (PtySession<H>, PtySize),
                    PtyErrorModel,
                >((*request.session, request.size)),
                Err(e) => resize_answer(self@, session_id@, cols, rows) == Err::<
                    (PtySession<H>, PtySize),
                    PtyErrorModel,
                >(e@),
            },
    {
        match self.position(session_id) {
            Some(i) => Ok(self.entries[i].session.resize(cols, rows)),
            None => Err(PtyError::NotFound(String::from_str(session_id))),
        }
    }

    /// Takes the session that goes by `session_id` out of the registry and hands it
    /// over, handles and all; where none goes by it, nothing changes.
    pub fn destroy_session(&mut self, session_id: &str) -> (r: Option<PtySession<H>>)
        ensures
            final(self)@ == destroyed(old(self)@, session_id@),
            match r {
                Some(session) => old(self)@.contains_key(session_id@) && session == old(
                    self,
                )@[session_id@],
                None => !old(self)@.contains_key(session_id@),
            },
    {
        proof {
            use_type_invariant(&*self);
        }
        match self.position(session_id) {
            Some(i) => {
                proof {
                    lemma_as_map_remove(self.entries@, i as int);
                }
                let mut entries: Vec<Entry<H>> = Vec::new();
                core::mem::swap(&mut self.entries, &mut entries);
                let entry = entries.remove(i);
                core::mem::swap(&mut self.entries, &mut entries);
                Some(entry.session)
            },
            None => {
                assert(self@.remove(session_id@) =~= self@);
                None
            },
        }
    }

    /// The working directory of the session that goes by `session_id`, from what the
    /// system answered when asked about its shell; `None` where no session goes by that
    /// identifier.
    pub fn get_session_cwd(&self, session_id: &str, outcome: &ProbeOutcome) -> (r: Option<String>)
        ensures
            match r {
                Some(dir) => self@.contains_key(session_id@) && dir@ == session_cwd(
                    self@[session_id@].cwd@,
                    outcome@,
                ),
                None => !self@.contains_key(session_id@),
            },
    {
        match self.position(session_id) {
            Some(i) => Some(self.entries[i].session.get_cwd(outcome)),
            None => None,
        }
    }
}

/// An operation on a registry, by the identifier that it names and by what it does to
/// the registry.
pub enum Operation<H> {
    Create(Seq<char>, PtySession<H>),
    Write(Seq<char>),
    Resize(Seq<char>),
    GetCwd(Seq<char>),
    Destroy(Seq<char>),
}

impl<H> Operation<H> {
    /// The identifier that the operation names.
    pub open spec fn id(self) -> Seq<char> {
        match self {
            Operation::Create(id, _) => id,
            Operation::Write(id) => id,
            Operation::Resize(id) => id,
            Operation::GetCwd(id) => id,
            Operation::Destroy(id) => id,
        }
    }
}

/// The sessions after one operation. Only creating and destroying change the registry;
/// the other operations take it as it is.
pub open spec fn after<H>(sessions: Sessions<H>, op: Operation<H>) -> Sessions<H> {
    match op {
        Operation::Create(id, session) => created(sessions, id, session),
        Operation::Destroy(id) => destroyed(sessions, id),
        _ => sessions,
    }
}

/// The sessions after the operations `ops`, one after the other.
pub open spec fn after_all<H>(sessions: Sessions<H>, ops: Seq<Operation<H>>) -> Sessions<H>
    decreases ops.len(),
{
    if ops.len() == 0 {
        sessions
    } else {
        after(after_all(sessions, ops.drop_last()), ops.last())
    }
}

/// Writing to, resizing or asking about an identifier by which no session goes fails
/// with the failure that names the identifier, and leaves the registry as it was.
pub proof fn lemma_unknown_session_is_not_found<H>(sessions: Sessions<H>, op: Operation<H>)
    requires
        !sessions.contains_key(op.id()),
        op is Write || op is Resize || op is GetCwd,
    ensures
        found(sessions, op.id()) == Err::<PtySession<H>, PtyErrorModel>(
            PtyErrorModel::NotFound(op.id()),
        ),
        after(sessions, op) == sessions,
{
}

/// Once the session that goes by `id` is destroyed, no session goes by `id`, whatever
/// operations follow, as long as none of them creates a session under `id` again.
pub proof fn lemma_destroyed_stays_not_found<H>(
    sessions: Sessions<H>,
    id: Seq<char>,
    ops: Seq<Operation<H>>,
)
    requires
        forall|k: int| 0 <= k < ops.len() && (#[trigger] ops[k]) is Create ==> ops[k].id() != id,
    ensures
        found(after_all(destroyed(sessions, id), ops), id) == Err::<PtySession<H>, PtyErrorModel>(
            PtyErrorModel::NotFound(id),
        ),
    decreases ops.len(),
{
    if ops.len() > 0 {
        let before = ops.drop_last();
        assert forall|k: int| 0 <= k < before.len() && (#[trigger] before[k]) is Create implies before[k].id()
            != id by {
            assert(before[k] == ops[k]);
        }
        lemma_destroyed_stays_not_found(sessions, id, before);
        assert(ops.last() == ops[ops.len() - 1]);
    }
}

/// Operations that name other identifiers, destroying among them, leave the session
/// that goes by `id` in the registry, and the same as before.
pub proof fn lemma_sessions_are_separate<H>(
    sessions: Sessions<H>,
    id: Seq<char>,
    ops: Seq<Operation<H>>,
)
    requires
        forall|k: int| 0 <= k < ops.len() ==> (#[trigger] ops[k]).id() != id,
    ensures
        found(after_all(sessions, ops), id) == found(sessions, id),
    decreases ops.len(),
{
    if ops.len() > 0 {
        let before = ops.drop_last();
        assert forall|k: int| 0 <= k < before.len() implies (#[trigger] before[k]).id() != id by {
            assert(before[k] == ops[k]);
        }
        lemma_sessions_are_separate(sessions, id, before);
        assert(ops.last() == ops[ops.len() - 1]);
    }
}

/// What a resize of the session `id` to `cols` columns and `rows` rows is answered
/// with: the session and the size to give its window, or the failure that no session
/// goes by `id`.
pub open spec fn resize_answer<H>(sessions: Sessions<H>, id: Seq<char>, cols: u16, rows: u16)
    -> Result<(PtySession<H>, PtySize), PtyErrorModel> {
    match found(sessions, id) {
        Ok(session) => Ok((session, PtySize::of(cols, rows))),
        Err(e) => Err(e),
    }
}

/// A resize with the numbers of the resize before it is answered as that one was: for a
/// session that exists, both times with success and with the same size, which holds
/// these numbers and nothing of what the size was before.
pub proof fn lemma_resize_twice<H>(sessions: Sessions<H>, id: Seq<char>, cols: u16, rows: u16)
    ensures
        resize_answer(after(sessions, Operation::Resize(id)), id, cols, rows) == resize_answer(
            sessions,
            id,
            cols,
            rows,
        ),
        sessions.contains_key(id) ==> resize_answer(sessions, id, cols, rows) == Ok::<
            (PtySession<H>, PtySize),
            PtyErrorModel,
        >((sessions[id], PtySize { rows, cols, pixel_width: 0, pixel_height: 0 })),
{
}

} // verus!
