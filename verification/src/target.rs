//! The delivery target of a request.
//!
//! The target is what follows the route prefix in the request's path, taken
//! literally: whatever it holds, it is where the payload goes. One thing only
//! is changed, and only in containerized mode: the host token that means
//! "this machine" is replaced by the one that reaches the host from inside the
//! container network.

use crate::text::{
    lemma_leftmost_exists, lemma_replace_at_leftmost, lemma_replace_without_occurrence,
    leftmost_at, occurs_at, occurs_in, replace, replace_all,
};
use vstd::prelude::*;
use vstd::string::*;

verus! {

/// The host token that means "this machine".
pub const LOCAL_HOST: &'static str = "localhost";

/// The host token that reaches the host machine from inside a container.
pub const CONTAINER_HOST: &'static str = "host.docker.internal";

/// `target` as it is reached from where the relay runs: in containerized mode
/// every local host token is replaced by the container host token, otherwise
/// nothing changes.
pub open spec fn host_rewritten(target: Seq<char>, in_container: bool) -> Seq<char> {
    if in_container {
        replace_all(target, LOCAL_HOST@, CONTAINER_HOST@)
    } else {
        target
    }
}

/// Rewrites the local host token for a containerized deployment; outside one
/// the target is returned as it came.
pub fn rewrite_host(target: &str, in_container: bool) -> (rewritten: String)
    ensures
        rewritten@ == host_rewritten(target@, in_container),
{
    if in_container {
        replace(target, LOCAL_HOST, CONTAINER_HOST)
    } else {
        target.to_owned()
    }
}

/// Rewriting the host never empties a target: one that names something still
/// names something afterwards, in containerized mode and outside it.
pub proof fn lemma_rewritten_target_is_not_empty(target: Seq<char>, in_container: bool)
    requires
        target.len() > 0,
    ensures
        host_rewritten(target, in_container).len() > 0,
{
    reveal_strlit("localhost");
    reveal_strlit("host.docker.internal");
}

/// The local host token is rewritten in containerized mode, and only there.
///
/// Outside containerized mode a target is left as it is. In containerized mode
/// a target without the local host token is left as it is too; in one that
/// holds the token, everything before its leftmost occurrence is kept, the
/// container host token stands where that occurrence stood, and so the target
/// has changed.
pub proof fn lemma_host_rewritten_in_container_only(target: Seq<char>)
    ensures
        host_rewritten(target, false) == target,
        !occurs_in(target, LOCAL_HOST@) ==> host_rewritten(target, true) == target,
        forall|i: int| #[trigger]
            leftmost_at(target, LOCAL_HOST@, i) ==> {
                &&& host_rewritten(target, true).take(i) == target.take(i)
                &&& occurs_at(host_rewritten(target, true), CONTAINER_HOST@, i)
            },
        occurs_in(target, LOCAL_HOST@) ==> {
            &&& occurs_in(host_rewritten(target, true), CONTAINER_HOST@)
            &&& host_rewritten(target, true) != target
        },
{
    reveal_strlit("localhost");
    reveal_strlit("host.docker.internal");
    let local = LOCAL_HOST@;
    let remote = CONTAINER_HOST@;
    let rewritten = host_rewritten(target, true);
    if !occurs_in(target, local) {
        lemma_replace_without_occurrence(target, local, remote);
    }
    assert forall|i: int| #[trigger] leftmost_at(target, local, i) implies {
        &&& rewritten.take(i) == target.take(i)
        &&& occurs_at(rewritten, remote, i)
    } by {
        lemma_replace_at_leftmost(target, local, remote, i);
        let tail = replace_all(target.skip(i + local.len()), local, remote);
        assert((target.take(i) + remote + tail).take(i) =~= target.take(i));
    }
    if occurs_in(target, local) {
        let some = choose|i: int| occurs_at(target, local, i);
        lemma_leftmost_exists(target, local, some);
        let i = choose|k: int| 0 <= k <= some && leftmost_at(target, local, k);
        assert(leftmost_at(target, local, i));
        assert(occurs_at(rewritten, remote, i));
        assert(rewritten.subrange(i, i + remote.len())[0] == 'h');
        assert(target.subrange(i, i + local.len())[0] == 'l');
    }
}

} // verus!
