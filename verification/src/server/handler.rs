//! The example policy of the server program: who may log in, and which
//! subscriptions are granted.

use vstd::prelude::*;

use crate::qos::QualityOfService;

verus! {

/// Why a login is refused.
#[derive(Debug, PartialEq, Eq, Structural, Clone, Copy)]
pub enum LoginError {
    InvalidPassword,
}

/// Lets everyone in except the user `foo`.
pub struct SimpleLoginHandler;

/// Grants every subscription as asked, except to the topic `forbidden`.
pub struct SimpleSubscriptionHandler;

impl SimpleLoginHandler {
    /// Refuses the user name `foo`; everything else may log in.
    pub fn allow_login(&self, username: Option<&str>, password: Option<&[u8]>) -> (res: Result<(), LoginError>)
        ensures
            res is Err <==> (username matches Some(u) && u@ == seq!['f', 'o', 'o']),
            res is Err ==> res == Err::<(), LoginError>(LoginError::InvalidPassword),
    {
        proof {
            reveal_strlit("foo");
            assert("foo"@ =~= seq!['f', 'o', 'o']);
        }
        match username {
            Some(u) => {
                if crate::util::str_eq(u, "foo") {
                    return Err(LoginError::InvalidPassword);
                }
            },
            None => {},
        }
        Ok(())
    }
}

impl SimpleSubscriptionHandler {
    /// Grants a subscription to `topic` at the level asked for, unless the
    /// topic is `forbidden`.
    pub fn allow_subscription(&self, topic: &str, requested: QualityOfService) -> (res: Option<QualityOfService>)
        ensures
            topic@ == seq!['f', 'o', 'r', 'b', 'i', 'd', 'd', 'e', 'n'] ==> res is None,
            topic@ != seq!['f', 'o', 'r', 'b', 'i', 'd', 'd', 'e', 'n'] ==> res == Some(requested),
    {
        proof {
            reveal_strlit("forbidden");
            assert("forbidden"@ =~= seq!['f', 'o', 'r', 'b', 'i', 'd', 'd', 'e', 'n']);
        }
        if crate::util::str_eq(topic, "forbidden") {
            None
        } else {
            Some(requested)
        }
    }
}

} // verus!
