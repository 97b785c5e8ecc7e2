//! The registry of running scan sessions and their cancellation tokens.
use vstd::prelude::*;

use tokio_util::sync::CancellationToken;

use crate::agent::cancel_slot::CancelSlot;
use crate::text::str_eq;

verus! {

#[verifier::external_type_specification]
#[verifier::external_body]
pub struct ExCancellationToken(CancellationToken);

/// `CancellationToken::new`: a fresh, uncancelled token. The token's state
/// is shared with its clones and hidden here, so nothing is stated of it.
#[verifier::external_body]
fn new_token() -> CancellationToken {
    CancellationToken::new()
}

/// `<CancellationToken as Clone>::clone`: a handle to the same token, which
/// is cancelled whenever the token it was cloned from is (and vice versa).
/// The clone holds the same shared node, so it is stated equal to `t`.
#[verifier::external_body]
fn clone_token(t: &CancellationToken) -> (r: CancellationToken)
    ensures
        r == *t,
{
    t.clone()
}

/// The cancellation tokens of running sessions, by session id, each with
/// whether the registry has cancelled it.
pub struct SessionRegistry {
    tokens: Vec<CancelSlot>,
}

impl SessionRegistry {
    /// No session id is registered twice.
    #[verifier::type_invariant]
    closed spec fn ids_unique(self) -> bool {
        forall|i: int, j: int|
            0 <= i < j < self.tokens@.len() ==> self.tokens@[i].id_view() != self.tokens@[j].id_view()
    }

    /// The ids of the registered sessions, in registration order.
    pub closed spec fn ids(&self) -> Seq<Seq<char>> {
        self.tokens@.map_values(|p: CancelSlot| p.id_view())
    }

    /// The set of registered session ids.
    pub open spec fn id_set(&self) -> Set<Seq<char>> {
        self.ids().to_set()
    }

    /// The registry keeps `token` under the session id `id`.
    pub closed spec fn holds(&self, id: Seq<char>, token: CancellationToken) -> bool {
        exists|i: int| 0 <= i < self.tokens@.len() && self.tokens@[i].id_view() == id && self.tokens@[i].token_view() == token
    }

    /// The registry has cancelled the token it keeps under `id`.
    pub closed spec fn cancelled(&self, id: Seq<char>) -> bool {
        exists|i: int| 0 <= i < self.tokens@.len() && self.tokens@[i].id_view() == id && self.tokens@[i].is_cancelled()
    }

    pub fn new() -> (r: SessionRegistry)
        ensures
            r.id_set() == Set::<Seq<char>>::empty(),
            forall|id: Seq<char>, t: CancellationToken| !r.holds(id, t),
    {
        let r = SessionRegistry { tokens: Vec::new() };
        proof {
            assert(r.ids() =~= Seq::<Seq<char>>::empty());
            assert(r.id_set() =~= Set::<Seq<char>>::empty());
        }
        r
    }

    fn position(&self, session_id: &str) -> (r: Option<usize>)
        ensures
            match r {
                Some(i) => i < self.tokens@.len() && self.tokens@[i as int].id_view() == session_id@,
                None => !self.id_set().contains(session_id@) && forall|j: int|
                    0 <= j < self.tokens@.len() ==> self.tokens@[j].id_view() != session_id@,
            },
    {
        let n = self.tokens.len();
        let mut i: usize = 0;
        while i < n
            invariant
                n == self.tokens@.len(),
                i <= n,
                forall|j: int| 0 <= j < i ==> self.tokens@[j].id_view() != session_id@,
            decreases n - i,
        {
            if str_eq(self.tokens[i].id(), session_id) {
                return Some(i);
            }
            i = i + 1;
        }
        proof {
            if self.id_set().contains(session_id@) {
                let k = choose|k: int| 0 <= k < self.ids().len() && self.ids()[k] == session_id@;
                assert(self.tokens@[k].id_view() == session_id@);
            }
        }
        None
    }

    /// Whether a session with this id is registered.
    pub fn contains(&self, session_id: &str) -> (r: bool)
        ensures
            r == self.id_set().contains(session_id@),
    {
        match self.position(session_id) {
            Some(i) => {
                proof {
                    assert(self.ids()[i as int] == session_id@);
                }
                true
            },
            None => false,
        }
    }

    /// Registers a session and returns its new cancellation token: the
    /// registry keeps that same token under the id (replacing any token the
    /// id had), so cancelling the id reaches whoever watches the token.
    pub fn register(&mut self, session_id: String) -> (token: CancellationToken)
        ensures
            final(self).id_set() == old(self).id_set().insert(session_id@),
            final(self).holds(session_id@, token),
            !final(self).cancelled(session_id@),
            forall|t: CancellationToken| #[trigger] final(self).holds(session_id@, t) ==> t == token,
            forall|id: Seq<char>, t: CancellationToken|
                id != session_id@ ==> (#[trigger] final(self).holds(id, t) == old(self).holds(id, t)),
    {
        proof {
            use_type_invariant(&*self);
        }
        let token = new_token();
        let stored = clone_token(&token);
        let ghost id = session_id@;
        let ghost before = self.tokens@;
        let mut tokens: Vec<CancelSlot> = Vec::new();
        std::mem::swap(&mut tokens, &mut self.tokens);
        let ghost mut idx: int = 0;
        match Self::position_in(&tokens, session_id.as_str()) {
            Some(i) => {
                tokens.set(i, CancelSlot::new(session_id, stored));
                proof {
                    idx = i as int;
                    assert forall|a: int, b: int|
                        0 <= a < b < tokens@.len() implies tokens@[a].id_view() != tokens@[b].id_view() by {
                        assert(tokens@[a].id_view() == before[a].id_view());
                        assert(tokens@[b].id_view() == before[b].id_view());
                    }
                    let after = tokens@.map_values(|p: CancelSlot| p.id_view());
                    assert(after =~= before.map_values(|p: CancelSlot| p.id_view()));
                }
            },
            None => {
                tokens.push(CancelSlot::new(session_id, stored));
                proof {
                    idx = before.len() as int;
                    assert forall|a: int, b: int|
                        0 <= a < b < tokens@.len() implies tokens@[a].id_view() != tokens@[b].id_view() by {
                        if b == before.len() {
                            assert(tokens@[a] == before[a]);
                        } else {
                            assert(tokens@[a] == before[a]);
                            assert(tokens@[b] == before[b]);
                        }
                    }
                }
            },
        }
        self.tokens = tokens;
        proof {
            let n = self.tokens@.len();
            let k = idx;
            assert(0 <= k < n && self.tokens@[k].id_view() == id && self.tokens@[k].token_view() == token);
            assert(self.holds(id, token));
            assert forall|t: CancellationToken| #[trigger] self.holds(id, t) implies t == token by {
                let k2 = choose|k2: int| 0 <= k2 < n && self.tokens@[k2].id_view() == id && self.tokens@[k2].token_view() == t;
                assert(k2 == k);
            }
            assert forall|x: Seq<char>, t: CancellationToken|
                x != id implies (#[trigger] self.holds(x, t) == old(self).holds(x, t)) by {
                if self.holds(x, t) {
                    let k2 = choose|k2: int| 0 <= k2 < n && self.tokens@[k2].id_view() == x && self.tokens@[k2].token_view() == t;
                    assert(k2 < before.len() && before[k2] == self.tokens@[k2]);
                }
                if old(self).holds(x, t) {
                    let k2 = choose|k2: int| 0 <= k2 < before.len() && before[k2].id_view() == x && before[k2].token_view() == t;
                    assert(self.tokens@[k2] == before[k2]);
                }
            }
            assert forall|x: Seq<char>| self.id_set().contains(x) == old(self).id_set().insert(id).contains(x) by {
                if self.id_set().contains(x) {
                    let k2 = choose|k2: int| 0 <= k2 < self.ids().len() && self.ids()[k2] == x;
                    if x != id {
                        assert(k2 < before.len() && before[k2] == self.tokens@[k2]);
                        assert(old(self).ids()[k2] == x);
                    }
                }
                if old(self).id_set().contains(x) {
                    let k2 = choose|k2: int| 0 <= k2 < old(self).ids().len() && old(self).ids()[k2] == x;
                    assert(self.tokens@[k2].id_view() == before[k2].id_view());
                    assert(self.ids()[k2] == x);
                }
                if x == id {
                    assert(self.ids()[k] == id);
                }
            }
            assert(self.id_set() =~= old(self).id_set().insert(id));
        }
        token
    }

    fn position_in(tokens: &Vec<CancelSlot>, session_id: &str) -> (r: Option<usize>)
        ensures
            match r {
                Some(i) => i < tokens@.len() && tokens@[i as int].id_view() == session_id@,
                None => forall|j: int| 0 <= j < tokens@.len() ==> tokens@[j].id_view() != session_id@,
            },
    {
        let n = tokens.len();
        let mut i: usize = 0;
        while i < n
            invariant
                n == tokens@.len(),
                i <= n,
                forall|j: int| 0 <= j < i ==> tokens@[j].id_view() != session_id@,
            decreases n - i,
        {
            if str_eq(tokens[i].id(), session_id) {
                return Some(i);
            }
            i = i + 1;
        }
        None
    }

    /// Cancels the token registered under this id, if any (which stops the
    /// scan watching it, or any clone of it); no other session's token is
    /// touched, and every session keeps its token.
    pub fn cancel(&mut self, session_id: &str)
        ensures
            final(self).id_set() == old(self).id_set(),
            forall|id: Seq<char>, t: CancellationToken|
                #[trigger] final(self).holds(id, t) == old(self).holds(id, t),
            old(self).id_set().contains(session_id@) ==> final(self).cancelled(session_id@),
            !old(self).id_set().contains(session_id@) ==> !final(self).cancelled(session_id@),
            forall|id: Seq<char>|
                id != session_id@ ==> (#[trigger] final(self).cancelled(id) == old(self).cancelled(id)),
    {
        proof {
            use_type_invariant(&*self);
        }
        let ghost before = self.tokens@;
        let ghost sid = session_id@;
        let mut tokens: Vec<CancelSlot> = Vec::new();
        std::mem::swap(&mut tokens, &mut self.tokens);
        match Self::position_in(&tokens, session_id) {
            Some(i) => {
                let mut slot = tokens.remove(i);
                slot.cancel();
                tokens.insert(i, slot);
                proof {
                    assert forall|k: int| 0 <= k < tokens@.len() && k != i implies tokens@[k] == before[k] by {}
                    assert(tokens@[i as int].id_view() == sid && tokens@[i as int].token_view() == before[i as int].token_view());
                    assert(tokens@.len() == before.len());
                    assert forall|a: int, b: int|
                        0 <= a < b < tokens@.len() implies tokens@[a].id_view() != tokens@[b].id_view() by {
                        assert(tokens@[a].id_view() == before[a].id_view());
                        assert(tokens@[b].id_view() == before[b].id_view());
                    }
                }
            },
            None => {},
        }
        self.tokens = tokens;
        proof {
            let n = self.tokens@.len();
            assert(n == before.len());
            assert forall|k: int| 0 <= k < n implies #[trigger] self.tokens@[k].id_view() == before[k].id_view()
                && self.tokens@[k].token_view() == before[k].token_view() by {}
            assert(self.ids() =~= old(self).ids());
            assert forall|id: Seq<char>, t: CancellationToken|
                #[trigger] self.holds(id, t) == old(self).holds(id, t) by {
                if self.holds(id, t) {
                    let k = choose|k: int| 0 <= k < n && self.tokens@[k].id_view() == id && self.tokens@[k].token_view() == t;
                    assert(before[k].id_view() == id && before[k].token_view() == t);
                }
                if old(self).holds(id, t) {
                    let k = choose|k: int| 0 <= k < n && before[k].id_view() == id && before[k].token_view() == t;
                    assert(self.tokens@[k].id_view() == id && self.tokens@[k].token_view() == t);
                }
            }
            if old(self).id_set().contains(sid) {
                let k = choose|k: int| 0 <= k < old(self).ids().len() && old(self).ids()[k] == sid;
                assert(before[k].id_view() == sid);
                assert(self.tokens@[k].is_cancelled());
                assert(self.cancelled(sid));
            } else {
                if self.cancelled(sid) {
                    let k = choose|k: int| 0 <= k < n && self.tokens@[k].id_view() == sid && self.tokens@[k].is_cancelled();
                    assert(old(self).ids()[k] == sid);
                }
            }
            assert forall|id: Seq<char>| id != sid implies (#[trigger] self.cancelled(id) == old(self).cancelled(id)) by {
                if self.cancelled(id) {
                    let k = choose|k: int| 0 <= k < n && self.tokens@[k].id_view() == id && self.tokens@[k].is_cancelled();
                    assert(self.tokens@[k] == before[k]) by {
                        if self.tokens@[k] != before[k] {
                            assert(self.tokens@[k].id_view() == sid);
                        }
                    }
                }
                if old(self).cancelled(id) {
                    let k = choose|k: int| 0 <= k < n && before[k].id_view() == id && before[k].is_cancelled();
                    assert(self.tokens@[k] == before[k]) by {
                        if self.tokens@[k] != before[k] {
                            assert(self.tokens@[k].id_view() == sid);
                        }
                    }
                }
            }
        }
    }

    /// Forgets the session registered under this id, if any; every other
    /// session keeps its token.
    pub fn remove(&mut self, session_id: &str)
        ensures
            final(self).id_set() == old(self).id_set().remove(session_id@),
            !final(self).cancelled(session_id@),
            forall|t: CancellationToken| !(#[trigger] final(self).holds(session_id@, t)),
            forall|id: Seq<char>, t: CancellationToken|
                id != session_id@ ==> (#[trigger] final(self).holds(id, t) == old(self).holds(id, t)),
    {
        proof {
            use_type_invariant(&*self);
        }
        let ghost before = self.tokens@;
        let ghost sid = session_id@;
        let mut tokens: Vec<CancelSlot> = Vec::new();
        std::mem::swap(&mut tokens, &mut self.tokens);
        let pos = Self::position_in(&tokens, session_id);
        match pos {
            Some(i) => {
                let _ = tokens.remove(i);
                proof {
                    assert forall|a: int, b: int|
                        0 <= a < b < tokens@.len() implies tokens@[a].id_view() != tokens@[b].id_view() by {
                        let a0 = if a < i { a } else { a + 1 };
                        let b0 = if b < i { b } else { b + 1 };
                        assert(tokens@[a] == before[a0]);
                        assert(tokens@[b] == before[b0]);
                    }
                }
            },
            None => {},
        }
        self.tokens = tokens;
        proof {
            let n = self.tokens@.len();
            // Index `k` of the new list came from index `k` or `k + 1`.
            assert forall|k: int| 0 <= k < n implies #[trigger] self.tokens@[k] == (match pos {
                Some(i) => if k < i { before[k] } else { before[k + 1] },
                None => before[k],
            }) by {}
            assert forall|k: int| 0 <= k < n implies self.tokens@[k].id_view() != sid by {
                match pos {
                    Some(i) => {
                        let k0 = if k < i { k } else { k + 1 };
                        assert(self.tokens@[k] == before[k0]);
                        assert(k0 != i as int);
                    },
                    None => {},
                }
            }
            assert forall|t: CancellationToken| !(#[trigger] self.holds(sid, t)) by {
                if self.holds(sid, t) {
                    let k = choose|k: int| 0 <= k < n && self.tokens@[k].id_view() == sid && self.tokens@[k].token_view() == t;
                    assert(self.tokens@[k].id_view() != sid);
                }
            }
            assert forall|x: Seq<char>, t: CancellationToken|
                x != sid implies (#[trigger] self.holds(x, t) == old(self).holds(x, t)) by {
                if self.holds(x, t) {
                    let k = choose|k: int| 0 <= k < n && self.tokens@[k].id_view() == x && self.tokens@[k].token_view() == t;
                    let k0 = match pos { Some(i) => if k < i { k } else { k + 1 }, None => k };
                    assert(before[k0] == self.tokens@[k]);
                }
                if old(self).holds(x, t) {
                    let k = choose|k: int| 0 <= k < before.len() && before[k].id_view() == x && before[k].token_view() == t;
                    match pos {
                        Some(i) => {
                            assert(k != i as int);
                            let k1 = if k < i { k } else { k - 1 };
                            assert(self.tokens@[k1] == before[k]);
                        },
                        None => {
                            assert(self.tokens@[k] == before[k]);
                        },
                    }
                }
            }
            assert forall|x: Seq<char>| self.id_set().contains(x) == old(self).id_set().remove(sid).contains(x) by {
                if self.id_set().contains(x) {
                    let k = choose|k: int| 0 <= k < self.ids().len() && self.ids()[k] == x;
                    let k0 = match pos { Some(i) => if k < i { k } else { k + 1 }, None => k };
                    assert(before[k0] == self.tokens@[k]);
                    assert(old(self).ids()[k0] == x);
                    assert(self.tokens@[k].id_view() != sid);
                }
                if old(self).id_set().contains(x) && x != sid {
                    let k = choose|k: int| 0 <= k < old(self).ids().len() && old(self).ids()[k] == x;
                    match pos {
                        Some(i) => {
                            assert(k != i as int);
                            let k1 = if k < i { k } else { k - 1 };
                            assert(self.tokens@[k1] == before[k]);
                            assert(self.ids()[k1] == x);
                        },
                        None => {
                            assert(self.ids()[k] == x);
                        },
                    }
                }
            }
            assert(self.id_set() =~= old(self).id_set().remove(sid));
        }
    }
}

} // verus!
