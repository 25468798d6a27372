//! The settings of the service and the secret of its tokens.

use vstd::prelude::*;
use crate::engine::Dispatcher;
use crate::model::{Courier, QueueEntry};

verus! {

/// The settings that the service is started with.
#[derive(Debug, Clone)]
pub struct Opt {
    pub jwt_secret: String,
    pub password_salt: String,
    pub password_secret_key: String,
    pub database_url: String,
    /// Seconds after which a searching entry expires.
    pub order_max_waiting_time: i32,
    /// Seconds that a requester has to let pass between two attempts.
    pub create_order_crone: i32,
    pub bind_address: String,
    pub grpc_users_address: String,
    pub grpc_orders_address: String,
    pub grpc_analytics_address: String,
}

impl Opt {
    /// An engine with empty stores that expires and throttles as the
    /// settings say.
    pub fn dispatcher(&self) -> (r: Dispatcher)
        ensures
            r.max_wait == self.order_max_waiting_time,
            r.cooldown == self.create_order_crone,
            r.queue@ == Seq::<QueueEntry>::empty(),
            r.couriers@ == Seq::<Courier>::empty(),
    {
        Dispatcher::new(self.order_max_waiting_time, self.create_order_crone)
    }
}

/// The secret that tokens are signed with.
pub struct JwtSecret {
    pub jwt: String,
}

/// Number of characters that stand before the token in an authorization
/// header: the scheme and a blank.
pub const SCHEME_PREFIX: usize = 7;

/// The token that an authorization header carries: what follows its first
/// seven characters.
pub open spec fn token_of(header: Seq<char>) -> Seq<char> {
    if header.len() >= SCHEME_PREFIX {
        header.subrange(SCHEME_PREFIX as int, header.len() as int)
    } else {
        Seq::empty()
    }
}

/// The guard that admits the requests that carry a token signed with
/// `jwt_secret`.
pub struct JwtMiddleware {
    pub jwt_secret: String,
}

impl JwtMiddleware {
    /// The token that the authorization header `header` carries.
    pub fn bearer_token(header: &str) -> (r: String)
        ensures
            r@ == token_of(header@),
    {
        let len = header.unicode_len();
        if len >= SCHEME_PREFIX {
            header.substring_char(SCHEME_PREFIX, len).to_owned()
        } else {
            proof {
                reveal_strlit("");
            }
            assert(""@ =~= Seq::<char>::empty());
            "".to_owned()
        }
    }
}

} // verus!
