//! Whether the server is up, and whether it can work.

use vstd::prelude::*;

verus! {

/// The answer to a question of readiness.
#[derive(Clone, Copy, Debug, PartialEq, Eq, Structural)]
pub struct Readiness {
    pub status: u16,
    pub ready: bool,
    pub postgres: bool,
    pub redis: bool,
}

impl Readiness {
    /// How the state is called.
    pub fn label(&self) -> (r: &'static str)
        ensures
            r@ == (if self.ready {
                "ready"@
            } else {
                "unready"@
            }),
    {
        if self.ready {
            "ready"
        } else {
            "unready"
        }
    }
}

/// The server is ready where both of its stores answer.
pub fn readiness(postgres: bool, redis: bool) -> (r: Readiness)
    ensures
        r.ready == (postgres && redis),
        r.status == (if postgres && redis {
            200int
        } else {
            503int
        }),
        r.postgres == postgres,
        r.redis == redis,
{
    let ready = postgres && redis;
    Readiness {
        status: if ready {
            200
        } else {
            503
        },
        ready,
        postgres,
        redis,
    }
}

} // verus!
