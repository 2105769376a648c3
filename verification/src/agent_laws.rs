//! What every accepted `agent` block guarantees.
use crate::agent_config::{
    absolute, agent_configuration, lemma_distinct_in_order, agent_document, agent_settings, checked_input, checked_inputs,
    urls_scan, AgentConfigView, DockerInputView, InputBuilderView,
};
use crate::agent_error::{AgentError, UrlSetting};
use crate::address::socket_address;
use crate::network::url_check;
use vstd::prelude::*;

verus! {

proof fn lemma_urls_scan(a: Seq<Seq<char>>, setting: UrlSetting)
    requires
        urls_scan(a, setting) == Ok::<(), AgentError>(()),
    ensures
        forall|j: int| 0 <= j < a.len() ==> url_check(#[trigger] a[j], setting) == Ok::<(), AgentError>(()),
    decreases a.len(),
{
    if a.len() > 0 {
        lemma_urls_scan(a.drop_last(), setting);
        assert forall|j: int| 0 <= j < a.len() implies url_check(#[trigger] a[j], setting) == Ok::<
            (),
            AgentError,
        >(()) by {
            if j < a.len() - 1 {
                assert(a[j] == a.drop_last()[j]);
            }
        }
    }
}

/// An input that is accepted has an address, and each of its addresses is
/// HTTPS or private-network HTTP.
pub open spec fn input_reachable_safely(d: crate::agent_config::DockerInputView) -> bool {
    &&& d.addresses.len() > 0
    &&& forall|j: int|
        0 <= j < d.addresses.len() ==> url_check(#[trigger] d.addresses[j], UrlSetting::InputAddress)
            == Ok::<(), AgentError>(())
}

proof fn lemma_checked_inputs(ins: Seq<InputBuilderView>, k: int)
    requires
        checked_inputs(ins, k) is Ok,
    ensures
        forall|i: int|
            0 <= i < checked_inputs(ins, k)->Ok_0.len() ==> input_reachable_safely(
                #[trigger] checked_inputs(ins, k)->Ok_0[i],
            ),
    decreases k,
{
    if k > 0 {
        lemma_checked_inputs(ins, k - 1);
        let v = checked_inputs(ins, k - 1)->Ok_0;
        let d = checked_input(ins, k - 1)->Ok_0;
        let x = ins[k - 1];
        lemma_urls_scan(x.addresses->0, UrlSetting::InputAddress);
        assert(input_reachable_safely(d));
        let r = checked_inputs(ins, k)->Ok_0;
        assert forall|i: int| 0 <= i < r.len() implies input_reachable_safely(#[trigger] r[i]) by {
            if i < v.len() {
                assert(r[i] == v[i]);
            }
        }
    }
}

/// An accepted `agent` block polls every 5 to 3600 seconds, binds its health
/// server to a socket address, keeps its state
/// at an absolute path, has at least one input, reaches every Docker input
/// only over HTTPS or private-network HTTP, and subscribes its output to a set
/// of event kinds, each listed once.
pub proof fn law_accepted_agent_configuration(input: Seq<char>, env: Seq<(String, String)>)
    requires
        agent_document(input, env) is Ok,
    ensures
        ({
            let c: AgentConfigView = agent_document(input, env)->Ok_0;
            &&& 5 <= c.poll_interval_seconds <= 3600
            &&& socket_address(c.health_bind)
            &&& absolute(c.state_file)
            &&& c.inputs.len() > 0
            &&& forall|i: int| 0 <= i < c.inputs.len() ==> input_reachable_safely(#[trigger] c.inputs[i])
            &&& c.output.events.len() > 0
            &&& forall|i: int, j: int|
                0 <= i < j < c.output.events.len() ==> c.output.events[i] != c.output.events[j]
        }),
{
    let b = agent_settings(input)->Ok_0;
    lemma_checked_inputs(b.inputs, b.inputs.len() as int);
    lemma_distinct_in_order(b.outputs[0].events->0);
}

/// A checked input keeps what its block wrote: its id, its addresses, and the
/// projects and services that it watches, as listed (none listed: no filter).
pub open spec fn input_as_written(d: DockerInputView, x: InputBuilderView) -> bool {
    &&& d.id == x.id
    &&& x.addresses == Some(d.addresses)
    &&& match x.projects {
        Some(p) => d.projects == p,
        None => d.projects.len() == 0,
    }
    &&& match x.services {
        Some(s) => d.services == s,
        None => d.services.len() == 0,
    }
}

proof fn lemma_inputs_as_written(ins: Seq<InputBuilderView>, k: int)
    requires
        0 <= k <= ins.len(),
        checked_inputs(ins, k) is Ok,
    ensures
        checked_inputs(ins, k)->Ok_0.len() == k,
        forall|i: int|
            0 <= i < k ==> input_as_written(#[trigger] checked_inputs(ins, k)->Ok_0[i], ins[i]),
    decreases k,
{
    if k > 0 {
        lemma_inputs_as_written(ins, k - 1);
        let v = checked_inputs(ins, k - 1)->Ok_0;
        let r = checked_inputs(ins, k)->Ok_0;
        assert forall|i: int| 0 <= i < k implies input_as_written(#[trigger] r[i], ins[i]) by {
            if i < k - 1 {
                assert(r[i] == v[i]);
            }
        }
    }
}

/// Each input of an accepted `agent` block watches exactly the compose
/// projects and services listed in its own block, in that order, and every
/// project and service when the block lists none; its id and addresses are
/// those written there.
pub proof fn law_inputs_as_written(input: Seq<char>, env: Seq<(String, String)>)
    requires
        agent_document(input, env) is Ok,
    ensures
        ({
            let b = agent_settings(input)->Ok_0;
            let c: AgentConfigView = agent_document(input, env)->Ok_0;
            &&& c.inputs.len() == b.inputs.len()
            &&& forall|i: int| 0 <= i < c.inputs.len() ==> input_as_written(#[trigger] c.inputs[i], b.inputs[i])
        }),
{
    let b = agent_settings(input)->Ok_0;
    lemma_inputs_as_written(b.inputs, b.inputs.len() as int);
}

} // verus!
