//! The sessions that are open, each found by its name.

use vstd::prelude::*;
use vstd::string::StringExecFns;
use crate::client::{ClientView, TemuxClient};
use crate::strings::texts;

verus! {

/// The message for a session that is not among those open.
pub open spec fn not_found(session_name: Seq<char>) -> Seq<char> {
    "Session '"@ + session_name + "' not found"@
}

/// The open sessions. No two of them have the same name.
pub struct SessionManager {
    sessions: Vec<TemuxClient>,
}

/// The names of a sequence of clients.
spec fn names(sessions: Seq<TemuxClient>) -> Seq<Seq<char>> {
    Seq::new(sessions.len(), |i: int| sessions[i]@.session_name)
}

/// Where the client of a name stands among the clients.
spec fn position(sessions: Seq<TemuxClient>, name: Seq<char>) -> int {
    choose|i: int| 0 <= i < sessions.len() && sessions[i]@.session_name == name
}

/// The clients by their names.
spec fn by_name(sessions: Seq<TemuxClient>) -> Map<Seq<char>, ClientView> {
    Map::new(
        |name: Seq<char>| names(sessions).contains(name),
        |name: Seq<char>| sessions[position(sessions, name)]@,
    )
}

/// Among clients with different names, the client at an index is the one found by its name.
proof fn lemma_by_name(sessions: Seq<TemuxClient>, i: int)
    requires
        names(sessions).no_duplicates(),
        0 <= i < sessions.len(),
    ensures
        by_name(sessions).dom().contains(sessions[i]@.session_name),
        by_name(sessions)[sessions[i]@.session_name] == sessions[i]@,
{
    let name = sessions[i]@.session_name;
    assert(names(sessions)[i] == name);
    let found = position(sessions, name);
    assert(names(sessions)[found] == name);
}

impl View for SessionManager {
    type V = Map<Seq<char>, ClientView>;

    closed spec fn view(&self) -> Map<Seq<char>, ClientView> {
        by_name(self.sessions@)
    }
}

impl SessionManager {
    /// No two sessions share a name, each session is found under its own name, and each
    /// is well-formed.
    pub closed spec fn wf(&self) -> bool {
        &&& names(self.sessions@).no_duplicates()
        &&& forall|i: int| 0 <= i < self.sessions@.len() ==> (#[trigger] self.sessions@[i]).wf()
    }

    /// Each session of a well-formed manager is well-formed and is found under its own name.
    pub proof fn lemma_wf(&self, name: Seq<char>)
        requires
            self.wf(),
            self@.dom().contains(name),
        ensures
            self@[name].wf(),
            self@[name].session_name == name,
    {
        let i = names(self.sessions@).index_of(name);
        assert(names(self.sessions@)[i] == name);
        lemma_by_name(self.sessions@, i);
        self.sessions@[i].lemma_wf();
    }

    /// A manager without sessions.
    pub fn new() -> (manager: SessionManager)
        ensures
            manager.wf(),
            manager@ == Map::<Seq<char>, ClientView>::empty(),
    {
        let manager = SessionManager { sessions: Vec::new() };
        assert(manager@ =~= Map::<Seq<char>, ClientView>::empty());
        manager
    }

    /// The index of the session of the given name, if there is one.
    fn find(&self, session_name: &str) -> (found: Option<usize>)
        requires
            self.wf(),
        ensures
            found is Some <==> self@.dom().contains(session_name@),
            found is Some ==> found->0 < self.sessions@.len()
                && self.sessions@[found->0 as int]@.session_name == session_name@,
    {
        let wanted = session_name.to_owned();
        let mut i: usize = 0;
        while i < self.sessions.len()
            invariant
                i <= self.sessions.len(),
                wanted@ == session_name@,
                forall|j: int| 0 <= j < i ==> names(self.sessions@)[j] != session_name@,
            decreases self.sessions.len() - i,
        {
            if *self.sessions[i].session_name() == wanted {
                assert(names(self.sessions@)[i as int] == session_name@);
                return Some(i);
            }
            i += 1;
        }
        None
    }

    /// Opens a session of the given name. A session that was open under that name is
    /// replaced by the new one.
    pub fn add_session(&mut self, session_name: &str)
        requires
            old(self).wf(),
        ensures
            final(self).wf(),
            final(self)@ == old(self)@.insert(session_name@, ClientView::opened(session_name@)),
    {
        let client = TemuxClient::new(session_name);
        match self.find(session_name) {
            Some(i) => {
                self.sessions[i] = client;
                proof {
                    assert(names(self.sessions@) =~= names(old(self).sessions@));
                    assert forall|name: Seq<char>|
                        self@.dom().contains(name) implies #[trigger] self@[name] == old(
                        self,
                    )@.insert(session_name@, ClientView::opened(session_name@))[name] by {
                        let k = names(self.sessions@).index_of(name);
                        assert(names(self.sessions@)[k] == name);
                        assert(names(old(self).sessions@)[k] == name);
                        assert(names(old(self).sessions@)[i as int] == session_name@);
                        lemma_by_name(self.sessions@, k);
                        lemma_by_name(old(self).sessions@, k);
                        if k != i {
                            assert(self.sessions@[k] == old(self).sessions@[k]);
                            assert(name != session_name@);
                        }
                    }
                    assert(old(self)@.dom().contains(session_name@));
                    assert(self@.dom() =~= old(self)@.dom());
                }
            },
            None => {
                self.sessions.push(client);
                proof {
                    let before = names(old(self).sessions@);
                    assert(names(self.sessions@) =~= before.push(session_name@));
                    assert forall|name: Seq<char>|
                        self@.dom().contains(name) <==> old(self)@.insert(
                            session_name@,
                            ClientView::opened(session_name@),
                        ).dom().contains(name) by {
                        assert(names(self.sessions@)[before.len() as int] == session_name@);
                        if before.contains(name) {
                            let k = before.index_of(name);
                            assert(names(self.sessions@)[k] == name);
                        }
                        if names(self.sessions@).contains(name) {
                            let k = names(self.sessions@).index_of(name);
                            if k < before.len() {
                                assert(before[k] == name);
                            }
                        }
                    }
                    assert forall|name: Seq<char>|
                        self@.dom().contains(name) implies #[trigger] self@[name] == old(
                        self,
                    )@.insert(session_name@, ClientView::opened(session_name@))[name] by {
                        let k = names(self.sessions@).index_of(name);
                        assert(names(self.sessions@)[k] == name);
                        lemma_by_name(self.sessions@, k);
                        if k < before.len() {
                            assert(before[k] == name);
                            lemma_by_name(old(self).sessions@, k);
                        }
                    }
                }
            },
        }
        assert(self@ =~= old(self)@.insert(session_name@, ClientView::opened(session_name@)));
    }

    /// Accepts a command for the session of the given name: it succeeds where that session
    /// is open and fails with a message where it is not. The sessions stay as they are.
    pub fn send_command(&self, session_name: &str, _command: &str) -> (outcome: Result<
        (),
        String,
    >)
        requires
            self.wf(),
        ensures
            outcome is Ok <==> self@.dom().contains(session_name@),
            outcome is Err ==> outcome->Err_0@ == not_found(session_name@),
    {
        match self.find(session_name) {
            Some(_) => Ok(()),
            None => Err(missing(session_name)),
        }
    }

    /// The names of the open sessions, each once, in no particular order.
    pub fn list_sessions(&self) -> (listed: Vec<String>)
        requires
            self.wf(),
        ensures
            texts(listed@).no_duplicates(),
            texts(listed@).to_set() == self@.dom(),
    {
        let mut listed: Vec<String> = Vec::new();
        let mut i: usize = 0;
        while i < self.sessions.len()
            invariant
                i <= self.sessions.len(),
                texts(listed@) == names(self.sessions@).take(i as int),
            decreases self.sessions.len() - i,
        {
            let ghost before = texts(listed@);
            let name = self.sessions[i].session_name().clone();
            listed.push(name);
            i += 1;
            assert(texts(listed@) =~= before.push(name@));
            assert(texts(listed@) =~= names(self.sessions@).take(i as int));
        }
        proof {
            assert(names(self.sessions@).take(i as int) =~= names(self.sessions@));
            assert(texts(listed@).to_set() =~= self@.dom());
        }
        listed
    }

    /// Closes the session of the given name: it succeeds where that session is open, and
    /// fails with a message, changing nothing, where it is not.
    pub fn remove_session(&mut self, session_name: &str) -> (outcome: Result<(), String>)
        requires
            old(self).wf(),
        ensures
            final(self).wf(),
            outcome is Ok <==> old(self)@.dom().contains(session_name@),
            outcome is Ok ==> final(self)@ == old(self)@.remove(session_name@),
            outcome is Err ==> final(self)@ == old(self)@ && outcome->Err_0@ == not_found(
                session_name@,
            ),
    {
        match self.find(session_name) {
            Some(i) => {
                self.sessions.remove(i);
                proof {
                    let before = names(old(self).sessions@);
                    let after = names(self.sessions@);
                    assert(after =~= before.remove(i as int));
                    assert forall|a: int, b: int|
                        0 <= a < after.len() && 0 <= b < after.len() && a != b implies after[a]
                        != after[b] by {
                        let a0 = if a < i {
                            a
                        } else {
                            a + 1
                        };
                        let b0 = if b < i {
                            b
                        } else {
                            b + 1
                        };
                        assert(after[a] == before[a0]);
                        assert(after[b] == before[b0]);
                    }
                    assert forall|name: Seq<char>|
                        self@.dom().contains(name) <==> old(self)@.remove(
                            session_name@,
                        ).dom().contains(name) by {
                        assert(before[i as int] == session_name@);
                        if after.contains(name) {
                            let k = after.index_of(name);
                            let k0 = if k < i {
                                k
                            } else {
                                k + 1
                            };
                            assert(before[k0] == name);
                            assert(k0 != i);
                        }
                        if before.contains(name) && name != session_name@ {
                            let k0 = before.index_of(name);
                            let k = if k0 < i {
                                k0
                            } else {
                                k0 - 1
                            };
                            assert(after[k] == name);
                        }
                    }
                    assert forall|name: Seq<char>|
                        self@.dom().contains(name) implies #[trigger] self@[name] == old(
                        self,
                    )@.remove(session_name@)[name] by {
                        let k = after.index_of(name);
                        let k0 = if k < i {
                            k
                        } else {
                            k + 1
                        };
                        assert(after[k] == name);
                        assert(before[k0] == name);
                        lemma_by_name(self.sessions@, k);
                        lemma_by_name(old(self).sessions@, k0);
                    }
                    assert(self@ =~= old(self)@.remove(session_name@));
                }
                Ok(())
            },
            None => Err(missing(session_name)),
        }
    }
}

/// The message for a session that is not among those open.
fn missing(session_name: &str) -> (message: String)
    ensures
        message@ == not_found(session_name@),
{
    let mut message = "Session '".to_owned();
    message.append(session_name);
    message.append("' not found");
    message
}

} // verus!
