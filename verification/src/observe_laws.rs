//! What holds of every normalized container status.
use crate::observe::status_of;
use vstd::prelude::*;

verus! {

proof fn lemma_status_words()
    ensures
        "failed"@ != "healthy"@,
        "failed"@ != "unknown"@,
        "healthy"@ != "unknown"@,
        "unhealthy"@ != "healthy"@,
        "unhealthy"@ != "none"@,
        "running"@ != "exited"@,
        "running"@ != "dead"@,
{
    reveal_strlit("failed");
    reveal_strlit("healthy");
    reveal_strlit("unknown");
    reveal_strlit("unhealthy");
    reveal_strlit("none");
    reveal_strlit("running");
    reveal_strlit("exited");
    reveal_strlit("dead");
    assert("failed"@[0] != "healthy"@[0]);
    assert("failed"@[0] != "unknown"@[0]);
    assert("healthy"@[0] != "unknown"@[0]);
    assert("unhealthy"@.len() != "healthy"@.len());
    assert("unhealthy"@.len() != "none"@.len());
    assert("running"@.len() != "exited"@.len());
    assert("running"@.len() != "dead"@.len());
}

/// A stopped container (Docker state `exited` or `dead`) or one whose health
/// check reports `unhealthy` is `failed`, whatever else holds; a running
/// container whose health check passes, or that has none, is `healthy`; only a
/// running container is ever `healthy`; and every status is one of `failed`,
/// `healthy` and `unknown`.
pub proof fn law_status_normalization(state: Seq<char>, health: Seq<char>)
    ensures
        state == "exited"@ || state == "dead"@ || health == "unhealthy"@ ==> status_of(state, health)
            == "failed"@,
        state == "running"@ && (health == "healthy"@ || health == "none"@) ==> status_of(
            state,
            health,
        ) == "healthy"@,
        status_of(state, health) == "healthy"@ ==> state == "running"@,
        status_of(state, health) == "failed"@ || status_of(state, health) == "healthy"@
            || status_of(state, health) == "unknown"@,
{
    lemma_status_words();
}

} // verus!
