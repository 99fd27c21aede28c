//! Confirming a pending subscription: the link in the welcome email leads
//! here with the subscription token, and a known token marks its
//! subscriber as confirmed.

use vstd::prelude::*;

verus! {

use crate::http::{status_only, status_only_model, SavedResponse};
use crate::store::{confirmed_model, Store, StoreModel};

/// The query parameters of a confirmation request.
pub struct Parameters {
    pub subscription_token: String,
}

/// Confirm a pending subscriber: an unknown token is rejected with 401 and
/// no effect; a known token marks its subscriber as confirmed and answers
/// 200.
pub fn confirm(store: &mut Store, parameters: &Parameters) -> (r: SavedResponse)
    requires
        old(store)@.wf(),
    ensures
        final(store)@.wf(),
        !old(store)@.has_token(parameters.subscription_token@) ==> r@ == status_only_model(401)
            && *final(store) == *old(store),
        old(store)@.has_token(parameters.subscription_token@) ==> ({
            let s = old(store)@;
            let id = s.tokens[s.token_at(parameters.subscription_token@)].subscriber_id;
            &&& r@ == status_only_model(200)
            &&& s.has_subscriber(id)
            &&& final(store)@ == (StoreModel {
                subscribers: s.subscribers.update(
                    s.subscriber_at(id),
                    confirmed_model(s.subscribers[s.subscriber_at(id)]),
                ),
                ..s
            })
        }),
{
    let id = match store.get_subscriber_id_from_token(parameters.subscription_token.as_str()) {
        Some(id) => id,
        None => {
            return status_only(401);
        },
    };
    proof {
        let s = store@;
        let ix = s.token_at(parameters.subscription_token@);
        assert(s.has_subscriber(s.tokens[ix].subscriber_id));
    }
    store.confirm_subscriber(id);
    status_only(200)
}

} // verus!
