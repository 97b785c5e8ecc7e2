//! One registered session: its id, its cancellation token and whether the
//! token has been cancelled. The token is only ever cancelled through
//! `CancelSlot::cancel`, which records that it was, and it is not handed out
//! again, so the record is the token's state as far as the registry acts on
//! it.
use vstd::prelude::*;

use tokio_util::sync::CancellationToken;

verus! {

/// `CancellationToken::cancel`: cancels the token and all its clones. Its
/// effect is on hidden shared state, so nothing is stated.
#[verifier::external_body]
fn cancel_token(t: &CancellationToken) {
    t.cancel()
}

/// A session id with the token that stops its scan.
pub struct CancelSlot {
    id: String,
    token: CancellationToken,
    cancelled: bool,
}

impl CancelSlot {
    pub closed spec fn id_view(&self) -> Seq<char> {
        self.id@
    }

    pub closed spec fn token_view(&self) -> CancellationToken {
        self.token
    }

    /// The slot's token has been cancelled through `cancel`.
    pub closed spec fn is_cancelled(&self) -> bool {
        self.cancelled
    }

    /// A slot keeping `token` under `id`, not cancelled.
    pub fn new(id: String, token: CancellationToken) -> (r: CancelSlot)
        ensures
            r.id_view() == id@,
            r.token_view() == token,
            !r.is_cancelled(),
    {
        CancelSlot { id, token, cancelled: false }
    }

    /// The session id.
    pub fn id(&self) -> (r: &str)
        ensures
            r@ == self.id_view(),
    {
        self.id.as_str()
    }

    /// Cancels the slot's token (and so every clone of it).
    pub fn cancel(&mut self)
        ensures
            final(self).id_view() == old(self).id_view(),
            final(self).token_view() == old(self).token_view(),
            final(self).is_cancelled(),
    {
        cancel_token(&self.token);
        self.cancelled = true;
    }
}

} // verus!
