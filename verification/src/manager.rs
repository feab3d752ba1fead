//! The registry of live sessions, by identifier.

use vstd::prelude::*;
use vstd::set_lib::{lemma_int_range, lemma_len_subset, set_int_range};
use crate::command::{spec_invocation, Invocation};
use crate::error::{SessionError, SessionErrorView};
use crate::geometry::Geometry;
use crate::forward::{Forwarder, ForwarderView};
use crate::history::{Change, Registry};
use crate::ident::{
    is_identifier, lemma_serial_identifiers_differ, random_identifier, serial_identifier,
    serial_identifier_text,
};
use crate::job::{operation_views, Job, JobView};
use crate::operation::{Operation, OperationView};
use crate::session::{resize_steps, write_steps, TerminalSession};

verus! {

/// Whether one of `sessions` has the identifier `id`.
spec fn has_id<H>(sessions: Seq<TerminalSession<H>>, id: Seq<char>) -> bool {
    exists|i: int| 0 <= i < sessions.len() && #[trigger] sessions[i].id@ == id
}

/// The place of a session with the identifier `id`.
spec fn index_of<H>(sessions: Seq<TerminalSession<H>>, id: Seq<char>) -> int {
    choose|i: int| 0 <= i < sessions.len() && #[trigger] sessions[i].id@ == id
}

/// No two of `sessions` have the same identifier.
spec fn distinct_ids<H>(sessions: Seq<TerminalSession<H>>) -> bool {
    forall|i: int, j: int|
        0 <= i < j < sessions.len() ==> #[trigger] sessions[i].id@ != #[trigger] sessions[j].id@
}

/// The handles of `sessions`, by identifier.
spec fn as_map<H>(sessions: Seq<TerminalSession<H>>) -> Map<Seq<char>, H> {
    Map::new(
        |id: Seq<char>| has_id(sessions, id),
        |id: Seq<char>| sessions[index_of(sessions, id)].handles,
    )
}

proof fn lemma_place<H>(sessions: Seq<TerminalSession<H>>, i: int)
    requires
        distinct_ids(sessions),
        0 <= i < sessions.len(),
    ensures
        has_id(sessions, sessions[i].id@),
        index_of(sessions, sessions[i].id@) == i,
        as_map(sessions).contains_key(sessions[i].id@),
        as_map(sessions)[sessions[i].id@] == sessions[i].handles,
{
    let j = index_of(sessions, sessions[i].id@);
    assert(0 <= j < sessions.len() && sessions[j].id@ == sessions[i].id@);
}

proof fn lemma_absent<H>(sessions: Seq<TerminalSession<H>>, id: Seq<char>)
    requires
        forall|i: int| 0 <= i < sessions.len() ==> (#[trigger] sessions[i]).id@ != id,
    ensures
        !as_map(sessions).contains_key(id),
{
}

proof fn lemma_push<H>(sessions: Seq<TerminalSession<H>>, session: TerminalSession<H>)
    requires
        distinct_ids(sessions),
        !as_map(sessions).contains_key(session.id@),
    ensures
        distinct_ids(sessions.push(session)),
        as_map(sessions.push(session)) == as_map(sessions).insert(session.id@, session.handles),
{
    let after = sessions.push(session);
    assert(distinct_ids(after)) by {
        assert forall|i: int, j: int| 0 <= i < j < after.len() implies #[trigger] after[i].id@
            != #[trigger] after[j].id@ by {
            if j == sessions.len() {
                assert(sessions[i].id@ != session.id@);
            } else {
                assert(sessions[i].id@ != sessions[j].id@);
            }
        }
    }
    assert forall|id: Seq<char>| as_map(after).contains_key(id) <==> as_map(sessions).insert(
        session.id@,
        session.handles,
    ).contains_key(id) by {
        if has_id(after, id) {
            let i = index_of(after, id);
            if i < sessions.len() {
                assert(sessions[i].id@ == id);
            }
        }
        if has_id(sessions, id) {
            let i = index_of(sessions, id);
            assert(after[i].id@ == id);
        }
        if id == session.id@ {
            assert(after[sessions.len() as int].id@ == id);
        }
    }
    assert forall|id: Seq<char>| as_map(after).contains_key(id) implies as_map(after)[id]
        == as_map(sessions).insert(session.id@, session.handles)[id] by {
        let i = index_of(after, id);
        lemma_place(after, i);
        if i < sessions.len() {
            assert(sessions[i] == after[i]);
            lemma_place(sessions, i);
        }
    }
    assert(as_map(after) =~= as_map(sessions).insert(session.id@, session.handles));
}

proof fn lemma_remove<H>(sessions: Seq<TerminalSession<H>>, i: int)
    requires
        distinct_ids(sessions),
        0 <= i < sessions.len(),
    ensures
        distinct_ids(sessions.remove(i)),
        as_map(sessions.remove(i)) == as_map(sessions).remove(sessions[i].id@),
{
    let after = sessions.remove(i);
    let gone = sessions[i].id@;
    assert forall|a: int| 0 <= a < after.len() implies #[trigger] after[a] == sessions[if a < i {
        a
    } else {
        a + 1
    }] by {}
    assert(distinct_ids(after)) by {
        assert forall|a: int, b: int| 0 <= a < b < after.len() implies #[trigger] after[a].id@
            != #[trigger] after[b].id@ by {
            let a0 = if a < i { a } else { a + 1 };
            let b0 = if b < i { b } else { b + 1 };
            assert(after[a] == sessions[a0]);
            assert(after[b] == sessions[b0]);
            assert(sessions[a0].id@ != sessions[b0].id@);
        }
    }
    assert forall|id: Seq<char>| as_map(after).contains_key(id) <==> as_map(sessions).remove(
        gone,
    ).contains_key(id) by {
        if has_id(after, id) {
            let a = index_of(after, id);
            let a0 = if a < i { a } else { a + 1 };
            assert(after[a] == sessions[a0]);
            assert(sessions[a0].id@ == id);
            if a0 < i {
                assert(sessions[a0].id@ != sessions[i].id@);
            } else {
                assert(sessions[i].id@ != sessions[a0].id@);
            }
        }
        if has_id(sessions, id) && id != gone {
            let a0 = index_of(sessions, id);
            let a = if a0 < i { a0 } else { a0 - 1 };
            assert(after[a] == sessions[a0]);
            assert(after[a].id@ == id);
        }
    }
    assert forall|id: Seq<char>| as_map(after).contains_key(id) implies as_map(after)[id]
        == as_map(sessions).remove(gone)[id] by {
        let a = index_of(after, id);
        let a0 = if a < i { a } else { a + 1 };
        lemma_place(after, a);
        assert(after[a] == sessions[a0]);
        lemma_place(sessions, a0);
    }
    assert(as_map(after) =~= as_map(sessions).remove(gone));
}

/// The texts of a list of identifiers.
spec fn texts(identifiers: Seq<String>) -> Seq<Seq<char>> {
    identifiers.map_values(|identifier: String| identifier@)
}

/// The identifiers of `sessions`, in their order.
spec fn ids<H>(sessions: Seq<TerminalSession<H>>) -> Seq<Seq<char>> {
    sessions.map_values(|session: TerminalSession<H>| session.id@)
}

/// Every identifier of `sessions` is among `record`.
spec fn all_recorded<H>(sessions: Seq<TerminalSession<H>>, record: Seq<String>) -> bool {
    forall|i: int| 0 <= i < sessions.len() ==> texts(record).contains((#[trigger] sessions[i]).id@)
}

proof fn lemma_keys<H>(sessions: Seq<TerminalSession<H>>)
    ensures
        as_map(sessions).dom() == ids(sessions).to_set(),
        as_map(sessions).dom().finite(),
{
    broadcast use vstd::seq_lib::seq_to_set_is_finite;

    assert forall|id: Seq<char>| as_map(sessions).dom().contains(id) <==> ids(
        sessions,
    ).to_set().contains(id) by {
        if has_id(sessions, id) {
            let i = index_of(sessions, id);
            assert(ids(sessions)[i] == id);
        }
        if ids(sessions).contains(id) {
            let i = choose|i: int| 0 <= i < ids(sessions).len() && ids(sessions)[i] == id;
            assert(sessions[i].id@ == id);
        }
    }
    assert(as_map(sessions).dom() =~= ids(sessions).to_set());
}

/// The sessions that can be written to, resized and closed, and a record of
/// every identifier that was ever issued. An identifier that is present
/// denotes a live session; one that is absent was never created or has been
/// closed, and callers cannot tell which. No identifier is issued twice.
pub struct SessionManager<H> {
    sessions: Vec<TerminalSession<H>>,
    issued: Vec<String>,
}

impl<H> View for SessionManager<H> {
    type V = Map<Seq<char>, H>;

    closed spec fn view(&self) -> Map<Seq<char>, H> {
        as_map(self.sessions@)
    }
}

/// The steps of creating a session: allocate a pseudo-terminal of 80 by 24
/// cells, start the command on its subordinate side, then obtain the input
/// handle and a read handle of the controlling side.
pub open spec fn creation_steps(
    working_directory: Seq<char>,
    command: Seq<char>,
    args: Seq<Seq<char>>,
) -> Seq<OperationView> {
    seq![
        OperationView::OpenPty(Geometry::spec_initial()),
        OperationView::SpawnCommand(spec_invocation(working_directory, command, args)),
        OperationView::TakeWriter,
        OperationView::CloneReader,
    ]
}

impl<H> SessionManager<H> {
    #[verifier::type_invariant]
    spec fn well_formed(self) -> bool {
        &&& distinct_ids(self.sessions@)
        &&& all_recorded(self.sessions@, self.issued@)
    }

    /// Every identifier the registry has issued, whether its session is
    /// still live or not.
    pub closed spec fn issued(&self) -> Set<Seq<char>> {
        texts(self.issued@).to_set().union(as_map(self.sessions@).dom())
    }

    /// The live sessions together with the record of identifiers.
    pub open spec fn state(&self) -> Registry<H> {
        Registry { live: self@, issued: self.issued() }
    }

    /// The registry holds finitely many sessions, has issued finitely many
    /// identifiers, and every live identifier is among them.
    pub proof fn lemma_state_is_sound(&self)
        ensures
            self.state().sound(),
            self@.dom().finite(),
            self.issued().finite(),
            self@.dom().subset_of(self.issued()),
    {
        broadcast use vstd::seq_lib::seq_to_set_is_finite;

        lemma_keys(self.sessions@);
        vstd::set_lib::lemma_set_union_finite_iff(
            texts(self.issued@).to_set(),
            as_map(self.sessions@).dom(),
        );
    }

    /// A registry without sessions that has issued no identifier.
    pub fn new() -> (manager: Self)
        ensures
            manager@ == Map::<Seq<char>, H>::empty(),
            manager.issued() == Set::<Seq<char>>::empty(),
            manager.state() == Registry::<H>::empty(),
    {
        let manager = SessionManager { sessions: Vec::new(), issued: Vec::new() };
        assert(manager@ =~= Map::<Seq<char>, H>::empty());
        assert(manager.issued() =~= Set::<Seq<char>>::empty());
        manager
    }

    /// The place of the session `session_id`, if it is live.
    fn find(&self, session_id: &str) -> (place: Option<usize>)
        ensures
            match place {
                Some(i) => i < self.sessions@.len() && self.sessions@[i as int].id@
                    == session_id@,
                None => !self@.contains_key(session_id@),
            },
    {
        let wanted: String = session_id.to_owned();
        let mut i: usize = 0;
        while i < self.sessions.len()
            invariant
                i <= self.sessions@.len(),
                wanted@ == session_id@,
                forall|j: int| 0 <= j < i ==> (#[trigger] self.sessions@[j]).id@ != session_id@,
            decreases self.sessions@.len() - i,
        {
            if self.sessions[i].id == wanted {
                return Some(i);
            }
            i += 1;
        }
        proof {
            lemma_absent(self.sessions@, session_id@);
        }
        None
    }

    /// Whether `id` was ever issued.
    fn was_issued(&self, id: &String) -> (found: bool)
        ensures
            found == self.issued().contains(id@),
            found == texts(self.issued@).contains(id@),
    {
        proof {
            use_type_invariant(self);
        }
        let mut i: usize = 0;
        while i < self.issued.len()
            invariant
                i <= self.issued@.len(),
                forall|j: int| 0 <= j < i ==> (#[trigger] self.issued@[j])@ != id@,
            decreases self.issued@.len() - i,
        {
            if self.issued[i] == *id {
                assert(texts(self.issued@)[i as int] == id@);
                return true;
            }
            i += 1;
        }
        proof {
            assert(!texts(self.issued@).contains(id@)) by {
                if texts(self.issued@).contains(id@) {
                    let j = choose|j: int|
                        0 <= j < texts(self.issued@).len() && texts(self.issued@)[j] == id@;
                    assert(self.issued@[j]@ == id@);
                }
            }
            if as_map(self.sessions@).contains_key(id@) {
                let k = index_of(self.sessions@, id@);
                assert(texts(self.issued@).contains(self.sessions@[k].id@));
            }
        }
        false
    }

    /// Puts a session under an identifier that was never issued.
    fn insert_unused(&mut self, id: String, handles: H)
        requires
            !old(self).issued().contains(id@),
        ensures
            !old(self)@.contains_key(id@),
            final(self)@ == old(self)@.insert(id@, handles),
            final(self)@.len() == old(self)@.len() + 1,
            final(self).issued() == old(self).issued().insert(id@),
            final(self).state() == old(self).state().apply(Change::Created { id: id@, handles }),
    {
        proof {
            use_type_invariant(&*self);
            self.lemma_state_is_sound();
        }
        let ghost before = self.sessions@;
        let ghost record = self.issued@;
        let mut sessions: Vec<TerminalSession<H>> = Vec::new();
        std::mem::swap(&mut sessions, &mut self.sessions);
        let mut issued: Vec<String> = Vec::new();
        std::mem::swap(&mut issued, &mut self.issued);
        let session = TerminalSession { id: id.clone(), handles };
        proof {
            lemma_push(before, session);
            assert(texts(record.push(id)) =~= texts(record).push(id@));
            assert forall|t: Seq<char>| texts(record).push(id@).contains(t) <==> (texts(
                record,
            ).contains(t) || t == id@) by {
                if texts(record).contains(t) {
                    let j = choose|j: int| 0 <= j < texts(record).len() && texts(record)[j] == t;
                    assert(texts(record).push(id@)[j] == t);
                }
                if t == id@ {
                    assert(texts(record).push(id@)[texts(record).len() as int] == t);
                }
            }
            assert(texts(record.push(id)).to_set() =~= texts(record).to_set().insert(id@));
            assert forall|i: int| 0 <= i < before.push(session).len() implies texts(
                record.push(id),
            ).contains((#[trigger] before.push(session)[i]).id@) by {
                if i < before.len() {
                    assert(before.push(session)[i] == before[i]);
                    assert(texts(record).contains(before[i].id@));
                } else {
                    assert(before.push(session)[i].id@ == id@);
                }
            }
        }
        issued.push(id);
        sessions.push(session);
        self.issued = issued;
        self.sessions = sessions;
        proof {
            assert(final(self).issued() =~= old(self).issued().insert(id@));
        }
    }

    /// Registers a session under `id` if the identifier was never issued by
    /// this registry, and puts the identifier on record. An identifier that
    /// was issued before, whether its session is live or closed, is refused:
    /// the handles come back and nothing changes.
    pub fn register(&mut self, id: String, handles: H) -> (result: Result<(), H>)
        ensures
            final(self).state() == old(self).state().apply(Change::Created { id: id@, handles }),
            match result {
                Ok(_) => {
                    &&& !old(self).issued().contains(id@)
                    &&& !old(self)@.contains_key(id@)
                    &&& final(self)@ == old(self)@.insert(id@, handles)
                    &&& final(self)@.len() == old(self)@.len() + 1
                    &&& final(self).issued() == old(self).issued().insert(id@)
                },
                Err(back) => {
                    &&& old(self).issued().contains(id@)
                    &&& back == handles
                    &&& final(self)@ == old(self)@
                    &&& final(self).issued() == old(self).issued()
                },
            },
    {
        if self.was_issued(&id) {
            Err(handles)
        } else {
            self.insert_unused(id, handles);
            Ok(())
        }
    }

    /// An identifier that this registry has never issued. It is drawn at
    /// random. Should the draw be on record, the serial identifiers are
    /// tried in their order: the record is finite and they all differ, so
    /// one of the first `n + 1` is unused, `n` being the size of the record.
    fn unused_identifier(&self) -> (id: String)
        ensures
            is_identifier(id@),
            !self.issued().contains(id@),
    {
        let drawn = random_identifier();
        if !self.was_issued(&drawn) {
            return drawn;
        }
        let count = self.issued.len();
        let ghost mut met: Set<int> = Set::empty();
        let mut serial: usize = 0;
        loop
            invariant
                count == self.issued@.len(),
                serial <= count,
                met.finite(),
                met.len() == serial,
                forall|j: int| #[trigger] met.contains(j) ==> 0 <= j < count,
                forall|j: int| #[trigger]
                    met.contains(j) ==> exists|c: nat|
                        c < serial && self.issued@[j]@ == #[trigger] serial_identifier(c),
            decreases count - serial,
        {
            let candidate = serial_identifier_text(serial as u64);
            if !self.was_issued(&candidate) {
                return candidate;
            }
            proof {
                let taken = candidate@;
                let j = choose|j: int|
                    0 <= j < texts(self.issued@).len() && texts(self.issued@)[j] == taken;
                assert(self.issued@[j]@ == serial_identifier(serial as nat));
                if met.contains(j) {
                    let c = choose|c: nat|
                        c < serial && self.issued@[j]@ == #[trigger] serial_identifier(c);
                    lemma_serial_identifiers_differ(c, serial as nat);
                }
                let more = met.insert(j);
                assert forall|i: int| #[trigger] more.contains(i) implies exists|c: nat|
                    c < serial + 1 && self.issued@[i]@ == #[trigger] serial_identifier(c) by {
                    if i == j {
                        assert(self.issued@[i]@ == serial_identifier(serial as nat));
                    } else {
                        assert(met.contains(i));
                        let c = choose|c: nat|
                            c < serial && self.issued@[i]@ == #[trigger] serial_identifier(c);
                        assert(c < serial + 1 && self.issued@[i]@ == serial_identifier(c));
                    }
                }
                assert forall|i: int| #[trigger] more.contains(i) implies 0 <= i < count by {
                    if i != j {
                        assert(met.contains(i));
                    }
                }
                lemma_int_range(0, count as int);
                assert(more.subset_of(set_int_range(0, count as int)));
                lemma_len_subset(more, set_int_range(0, count as int));
                met = more;
            }
            serial += 1;
        }
    }

    /// Registers a started session under a new identifier and returns the
    /// identifier with the forwarding task bound to it. The identifier has
    /// the form of a version 4 UUID and was never issued by this registry:
    /// no session is displaced and no closed identifier comes back. Once the
    /// host has started the session, its creation cannot fail.
    pub fn create_session(&mut self, handles: H) -> (created: (String, Forwarder))
        ensures
            is_identifier(created.0@),
            !old(self).issued().contains(created.0@),
            !old(self)@.contains_key(created.0@),
            final(self)@ == old(self)@.insert(created.0@, handles),
            final(self)@.len() == old(self)@.len() + 1,
            final(self).issued() == old(self).issued().insert(created.0@),
            final(self).state() == old(self).state().apply(
                Change::Created { id: created.0@, handles },
            ),
            created.1@ == ForwarderView::start(created.0@),
    {
        let id = self.unused_identifier();
        let task = Forwarder::new(id.as_str());
        self.insert_unused(id.clone(), handles);
        (id, task)
    }

    /// Looks up the session and returns its handles with the job of writing
    /// `data` to it. Fails with `NotFound` exactly when no live session has
    /// the identifier.
    pub fn write(&self, session_id: &str, data: &[u8]) -> (result: Result<(&H, Job), SessionError>)
        ensures
            match result {
                Ok((handles, job)) => {
                    &&& self@.contains_key(session_id@)
                    &&& *handles == self@[session_id@]
                    &&& job@ == JobView::fresh(write_steps(data@))
                },
                Err(error) => {
                    &&& !self@.contains_key(session_id@)
                    &&& error@ == SessionErrorView::NotFound
                },
            },
    {
        proof {
            use_type_invariant(self);
        }
        match self.find(session_id) {
            Some(i) => {
                proof {
                    lemma_place(self.sessions@, i as int);
                }
                let session = &self.sessions[i];
                Ok((&session.handles, session.write(data)))
            },
            None => Err(SessionError::NotFound),
        }
    }

    /// Looks up the session and returns its handles with the job of giving
    /// it `cols` columns and `rows` rows. Fails with `NotFound` exactly when
    /// no live session has the identifier.
    pub fn resize(&self, session_id: &str, cols: u16, rows: u16) -> (result: Result<
        (&H, Job),
        SessionError,
    >)
        ensures
            match result {
                Ok((handles, job)) => {
                    &&& self@.contains_key(session_id@)
                    &&& *handles == self@[session_id@]
                    &&& job@ == JobView::fresh(resize_steps(cols, rows))
                },
                Err(error) => {
                    &&& !self@.contains_key(session_id@)
                    &&& error@ == SessionErrorView::NotFound
                },
            },
    {
        proof {
            use_type_invariant(self);
        }
        match self.find(session_id) {
            Some(i) => {
                proof {
                    lemma_place(self.sessions@, i as int);
                }
                let session = &self.sessions[i];
                Ok((&session.handles, session.resize(cols, rows)))
            },
            None => Err(SessionError::NotFound),
        }
    }

    /// Removes the session from the registry and lets go of its handles; the
    /// identifier stays on record and is never issued again. Fails with
    /// `NotFound`, changing nothing, exactly when no live session has the
    /// identifier.
    pub fn close(&mut self, session_id: &str) -> (result: Result<(), SessionError>)
        ensures
            final(self).issued() == old(self).issued(),
            final(self).state() == old(self).state().apply(Change::Closed { id: session_id@ }),
            match result {
                Ok(_) => {
                    &&& old(self)@.contains_key(session_id@)
                    &&& final(self)@ == old(self)@.remove(session_id@)
                    &&& final(self)@.len() == old(self)@.len() - 1
                },
                Err(error) => {
                    &&& !old(self)@.contains_key(session_id@)
                    &&& error@ == SessionErrorView::NotFound
                    &&& final(self)@ == old(self)@
                },
            },
    {
        proof {
            use_type_invariant(&*self);
            self.lemma_state_is_sound();
        }
        match self.find(session_id) {
            Some(i) => {
                let ghost before = self.sessions@;
                let mut sessions: Vec<TerminalSession<H>> = Vec::new();
                std::mem::swap(&mut sessions, &mut self.sessions);
                proof {
                    lemma_place(before, i as int);
                    lemma_remove(before, i as int);
                    assert(all_recorded(before.remove(i as int), self.issued@)) by {
                        assert forall|a: int| 0 <= a < before.remove(i as int).len() implies texts(
                            self.issued@,
                        ).contains((#[trigger] before.remove(i as int)[a]).id@) by {
                            let a0 = if a < i { a } else { a + 1 };
                            assert(before.remove(i as int)[a] == before[a0]);
                            assert(texts(self.issued@).contains(before[a0].id@));
                        }
                    }
                    assert(texts(self.issued@).contains(before[i as int].id@));
                }
                let _ = sessions.remove(i);
                self.sessions = sessions;
                proof {
                    assert(final(self).issued() =~= old(self).issued());
                    assert(old(self)@.remove(session_id@).dom() =~= old(self)@.dom().remove(
                        session_id@,
                    ));
                }
                Ok(())
            },
            None => {
                proof {
                    assert(old(self)@.remove(session_id@) =~= old(self)@);
                }
                Err(SessionError::NotFound)
            },
        }
    }
}

/// The job that creates a session: what the host has to do before the
/// session can be registered. The job touches no registry, so a failure
/// leaves none changed.
pub fn plan_session(working_directory: &str, command: &str, args: &[String]) -> (job: Job)
    ensures
        job@ == JobView::fresh(creation_steps(working_directory@, command@, args.deep_view())),
{
    let mut steps: Vec<Operation> = Vec::new();
    steps.push(Operation::OpenPty(Geometry::initial()));
    steps.push(Operation::SpawnCommand(Invocation::new(working_directory, command, args)));
    steps.push(Operation::TakeWriter);
    steps.push(Operation::CloneReader);
    assert(operation_views(steps@) =~= creation_steps(
        working_directory@,
        command@,
        args.deep_view(),
    ));
    Job::new(steps)
}

impl<H> Default for SessionManager<H> {
    fn default() -> (manager: Self)
        ensures
            manager@ == Map::<Seq<char>, H>::empty(),
            manager.issued() == Set::<Seq<char>>::empty(),
    {
        Self::new()
    }
}

} // verus!
