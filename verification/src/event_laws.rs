//! What holds of the agent's events across snapshots and polls.
use crate::agent_config::{AgentConfigView, InfraBotOutputView};
use crate::events::{
    current_events, deliveries, event_field_names, event_request_for, field_kept, field_value,
    pair_get, pick_fields, projected, removed_events, stopped, transition_events, DeliveryView,
    EventRequestView, PollError,
};
use crate::snapshot::{lemma_lookup_sorted, lookup, sorted_keys, ObservedView};
use vstd::prelude::*;

verus! {

/// A transition as the agent reports it: it has an observation on at least
/// one side, a status change when it has both, `service.removed` exactly when
/// the container is gone, and `service.recovered` only from `failed` to
/// `healthy`.
pub open spec fn is_transition(e: (Seq<char>, Option<ObservedView>, Option<ObservedView>)) -> bool {
    &&& (e.1 is Some || e.2 is Some)
    &&& (e.1 is Some && e.2 is Some ==> e.1->0.status != e.2->0.status)
    &&& (e.0 == "service.removed"@ <==> e.2 is None)
    &&& (e.0 == "service.recovered"@ ==> e.1 is Some && e.2 is Some && e.1->0.status
        == "failed"@ && e.2->0.status == "healthy"@)
}

/// `prev` holds `key` with the status of `o`.
spec fn known_with_status(prev: Seq<(Seq<char>, ObservedView)>, key: Seq<char>, o: ObservedView) -> bool {
    match lookup(prev, key) {
        Some(b) => b.status == o.status,
        None => false,
    }
}

proof fn lemma_current_events_empty(
    prev: Seq<(Seq<char>, ObservedView)>,
    cur: Seq<(Seq<char>, ObservedView)>,
)
    requires
        forall|i: int| 0 <= i < cur.len() ==> known_with_status(prev, #[trigger] cur[i].0, cur[i].1),
    ensures
        current_events(prev, cur) == Seq::<
            (Seq<char>, Option<ObservedView>, Option<ObservedView>),
        >::empty(),
    decreases cur.len(),
{
    if cur.len() > 0 {
        let last = cur.len() - 1;
        assert(known_with_status(prev, cur[last].0, cur[last].1));
        assert forall|i: int| 0 <= i < cur.drop_last().len() implies known_with_status(
            prev,
            #[trigger] cur.drop_last()[i].0,
            cur.drop_last()[i].1,
        ) by {
            assert(cur.drop_last()[i] == cur[i]);
            assert(known_with_status(prev, cur[i].0, cur[i].1));
        }
        lemma_current_events_empty(prev, cur.drop_last());
    }
}

proof fn lemma_removed_events_empty(
    prev: Seq<(Seq<char>, ObservedView)>,
    cur: Seq<(Seq<char>, ObservedView)>,
)
    requires
        forall|i: int| 0 <= i < prev.len() ==> (#[trigger] lookup(cur, prev[i].0)) is Some,
    ensures
        removed_events(prev, cur) == Seq::<
            (Seq<char>, Option<ObservedView>, Option<ObservedView>),
        >::empty(),
    decreases prev.len(),
{
    if prev.len() > 0 {
        let last = prev.len() - 1;
        assert(lookup(cur, prev[last].0) is Some);
        assert forall|i: int| 0 <= i < prev.drop_last().len() implies (#[trigger] lookup(
            cur,
            prev.drop_last()[i].0,
        )) is Some by {
            assert(prev.drop_last()[i] == prev[i]);
            assert(lookup(cur, prev[i].0) is Some);
        }
        lemma_removed_events_empty(prev.drop_last(), cur);
    }
}

/// Polling an unchanged snapshot reports nothing.
pub proof fn law_unchanged_snapshot_no_events(s: Seq<(Seq<char>, ObservedView)>)
    requires
        sorted_keys(s),
    ensures
        transition_events(s, s) == Seq::<
            (Seq<char>, Option<ObservedView>, Option<ObservedView>),
        >::empty(),
{
    assert forall|i: int| 0 <= i < s.len() implies known_with_status(s, #[trigger] s[i].0, s[i].1) by {
        lemma_lookup_sorted(s, i);
    }
    assert forall|i: int| 0 <= i < s.len() implies (#[trigger] lookup(s, s[i].0)) is Some by {
        lemma_lookup_sorted(s, i);
    }
    lemma_current_events_empty(s, s);
    lemma_removed_events_empty(s, s);
    assert(transition_events(s, s) =~= Seq::<
        (Seq<char>, Option<ObservedView>, Option<ObservedView>),
    >::empty());
}

proof fn lemma_kind_literals()
    ensures
        "service.started"@ != "service.removed"@,
        "service.failed"@ != "service.removed"@,
        "service.changed"@ != "service.removed"@,
        "service.recovered"@ != "service.removed"@,
        "service.started"@ != "service.recovered"@,
        "service.failed"@ != "service.recovered"@,
        "service.changed"@ != "service.recovered"@,
{
    reveal_strlit("service.started");
    reveal_strlit("service.failed");
    reveal_strlit("service.changed");
    reveal_strlit("service.recovered");
    reveal_strlit("service.removed");
    assert("service.started"@[9] != "service.removed"@[9]);
    assert("service.failed"@[8] != "service.removed"@[8]);
    assert("service.changed"@[8] != "service.removed"@[8]);
    assert("service.recovered"@[10] != "service.removed"@[10]);
    assert("service.started"@[8] != "service.recovered"@[8]);
    assert("service.failed"@[8] != "service.recovered"@[8]);
    assert("service.changed"@[8] != "service.recovered"@[8]);
}

proof fn lemma_current_events_are_transitions(
    prev: Seq<(Seq<char>, ObservedView)>,
    cur: Seq<(Seq<char>, ObservedView)>,
)
    ensures
        forall|i: int|
            0 <= i < current_events(prev, cur).len() ==> is_transition(
                #[trigger] current_events(prev, cur)[i],
            ),
    decreases cur.len(),
{
    if cur.len() > 0 {
        lemma_current_events_are_transitions(prev, cur.drop_last());
        lemma_kind_literals();
        let rest = current_events(prev, cur.drop_last());
        let r = current_events(prev, cur);
        assert forall|i: int| 0 <= i < r.len() implies is_transition(#[trigger] r[i]) by {
            if i < rest.len() {
                assert(r[i] == rest[i]);
            }
        }
    }
}

proof fn lemma_removed_events_are_transitions(
    prev: Seq<(Seq<char>, ObservedView)>,
    cur: Seq<(Seq<char>, ObservedView)>,
)
    ensures
        forall|i: int|
            0 <= i < removed_events(prev, cur).len() ==> is_transition(
                #[trigger] removed_events(prev, cur)[i],
            ),
    decreases prev.len(),
{
    if prev.len() > 0 {
        lemma_removed_events_are_transitions(prev.drop_last(), cur);
        lemma_kind_literals();
        let rest = removed_events(prev.drop_last(), cur);
        let r = removed_events(prev, cur);
        assert forall|i: int| 0 <= i < r.len() implies is_transition(#[trigger] r[i]) by {
            if i < rest.len() {
                assert(r[i] == rest[i]);
            }
        }
    }
}

/// Every reported event is a transition: it carries an observation, a status
/// change when it has both sides, `service.removed` exactly for containers that
/// disappeared, and `service.recovered` only from `failed` to `healthy`.
pub proof fn law_events_are_transitions(
    prev: Seq<(Seq<char>, ObservedView)>,
    cur: Seq<(Seq<char>, ObservedView)>,
)
    ensures
        forall|i: int|
            0 <= i < transition_events(prev, cur).len() ==> is_transition(
                #[trigger] transition_events(prev, cur)[i],
            ),
{
    lemma_current_events_are_transitions(prev, cur);
    lemma_removed_events_are_transitions(prev, cur);
    let a = current_events(prev, cur);
    let b = removed_events(prev, cur);
    assert forall|i: int| 0 <= i < (a + b).len() implies is_transition(#[trigger] (a + b)[i]) by {
        if i >= a.len() {
            assert((a + b)[i] == b[i - a.len()]);
        }
    }
}

proof fn lemma_pick_kept(
    names: Seq<Seq<char>>,
    kind: Seq<char>,
    previous_status: Seq<char>,
    current_status: Seq<char>,
    o: ObservedView,
    input_fields: Seq<Seq<char>>,
)
    ensures
        forall|i: int|
            0 <= i < pick_fields(names, kind, previous_status, current_status, o, input_fields).len()
                ==> field_kept(
                #[trigger] pick_fields(
                    names,
                    kind,
                    previous_status,
                    current_status,
                    o,
                    input_fields,
                )[i].0,
                input_fields,
            ),
    decreases names.len(),
{
    if names.len() > 0 {
        lemma_pick_kept(names.drop_last(), kind, previous_status, current_status, o, input_fields);
        let rest = pick_fields(
            names.drop_last(),
            kind,
            previous_status,
            current_status,
            o,
            input_fields,
        );
        let r = pick_fields(names, kind, previous_status, current_status, o, input_fields);
        assert forall|i: int| 0 <= i < r.len() implies field_kept(#[trigger] r[i].0, input_fields) by {
            if i < rest.len() {
                assert(r[i] == rest[i]);
            }
        }
    }
}

proof fn lemma_pair_get_key(ps: Seq<(Seq<char>, Seq<char>)>, name: Seq<char>)
    requires
        pair_get(ps, name) is Some,
    ensures
        exists|j: int| 0 <= j < ps.len() && ps[j].0 == name,
    decreases ps.len(),
{
    if ps[0].0 != name {
        lemma_pair_get_key(ps.drop_first(), name);
        let j = choose|j: int| 0 <= j < ps.drop_first().len() && ps.drop_first()[j].0 == name;
        assert(ps[j + 1] == ps.drop_first()[j]);
    }
}

proof fn lemma_projected_keys(out_fields: Seq<Seq<char>>, available: Seq<(Seq<char>, Seq<char>)>)
    ensures
        forall|i: int|
            0 <= i < projected(out_fields, available).len() ==> exists|j: int|
                0 <= j < available.len() && available[j].0 == #[trigger] projected(
                    out_fields,
                    available,
                )[i].0,
    decreases out_fields.len(),
{
    if out_fields.len() > 0 {
        lemma_projected_keys(out_fields.drop_last(), available);
        if pair_get(available, out_fields.last()) is Some {
            lemma_pair_get_key(available, out_fields.last());
        }
        let rest = projected(out_fields.drop_last(), available);
        let r = projected(out_fields, available);
        assert forall|i: int| 0 <= i < r.len() implies exists|j: int|
            0 <= j < available.len() && available[j].0 == #[trigger] r[i].0 by {
            if i < rest.len() {
                assert(r[i] == rest[i]);
            }
        }
    }
}

/// An event names the output it is for, and carries only the derived fields
/// (`kind`, `previous_status`, `status`) and the observed fields that its input
/// declares: raw Docker fields not declared there never appear.
pub proof fn law_event_fields_declared(
    output: InfraBotOutputView,
    kind: Seq<char>,
    before: Option<ObservedView>,
    after: Option<ObservedView>,
    input_fields: Seq<Seq<char>>,
)
    requires
        event_request_for(output, kind, before, after, input_fields) is Ok,
    ensures
        ({
            let q = event_request_for(output, kind, before, after, input_fields)->Ok_0;
            &&& q.output == output.id
            &&& q.kind == kind
            &&& forall|i: int|
                0 <= i < q.fields.len() ==> field_kept(#[trigger] q.fields[i].0, input_fields)
        }),
{
    let q = event_request_for(output, kind, before, after, input_fields)->Ok_0;
    let o = if after is Some {
        after->0
    } else {
        before->0
    };
    let previous_status = crate::events::side_status(before);
    let current_status = crate::events::side_status(after);
    let available = pick_fields(
        crate::events::event_field_names(),
        kind,
        previous_status,
        current_status,
        o,
        input_fields,
    );
    lemma_pick_kept(
        crate::events::event_field_names(),
        kind,
        previous_status,
        current_status,
        o,
        input_fields,
    );
    lemma_projected_keys(output.fields, available);
    assert forall|i: int| 0 <= i < q.fields.len() implies field_kept(
        #[trigger] q.fields[i].0,
        input_fields,
    ) by {
        let j = choose|j: int| 0 <= j < available.len() && available[j].0 == q.fields[i].0;
        assert(field_kept(available[j].0, input_fields));
    }
}

/// A poll sends only events of the kinds its output subscribes to.
pub proof fn law_only_subscribed_kinds(
    config: AgentConfigView,
    events: Seq<(Seq<char>, Option<ObservedView>, Option<ObservedView>)>,
)
    ensures
        forall|i: int|
            0 <= i < deliveries(config, events).len() ==> (#[trigger] deliveries(
                config,
                events,
            )[i] matches DeliveryView::Send(q) ==> config.output.events.contains(q.kind)),
    decreases events.len(),
{
    if events.len() > 0 {
        law_only_subscribed_kinds(config, events.drop_last());
        let rest = deliveries(config, events.drop_last());
        let e = events.last();
        if !(stopped(rest) || !config.output.events.contains(e.0)) {
            match crate::events::described(e.1, e.2) {
                None => {},
                Some(o) => match crate::events::input_fields_of(config.inputs, o.input) {
                    None => {},
                    Some(f) => {
                        if event_request_for(config.output, e.0, e.1, e.2, f) is Ok {
                            law_event_fields_declared(config.output, e.0, e.1, e.2, f);
                        }
                    },
                },
            }
        }
    }
}

/// Two observations of the same input with the same status that agree on every
/// field the input declares; they may differ in any undeclared raw field.
pub open spec fn agree_on_declared(a: ObservedView, b: ObservedView, f: Seq<Seq<char>>) -> bool {
    &&& a.input == b.input
    &&& a.status == b.status
    &&& (f.contains("docker_address"@) ==> a.docker_address == b.docker_address)
    &&& (f.contains("container"@) ==> a.container == b.container)
    &&& (f.contains("container_id"@) ==> a.container_id == b.container_id)
    &&& (f.contains("project"@) ==> a.project == b.project)
    &&& (f.contains("service"@) ==> a.service == b.service)
    &&& (f.contains("image"@) ==> a.image == b.image)
    &&& (f.contains("state"@) ==> a.state == b.state)
    &&& (f.contains("health"@) ==> a.health == b.health)
}

/// Both sides absent, or both present and agreeing on the declared fields.
pub open spec fn sides_agree(x: Option<ObservedView>, y: Option<ObservedView>, f: Seq<Seq<char>>) -> bool {
    match (x, y) {
        (Some(a), Some(b)) => agree_on_declared(a, b, f),
        (None, None) => true,
        _ => false,
    }
}

proof fn lemma_kept_value_agrees(
    n: Seq<char>,
    kind: Seq<char>,
    previous_status: Seq<char>,
    current_status: Seq<char>,
    a: ObservedView,
    b: ObservedView,
    f: Seq<Seq<char>>,
)
    requires
        agree_on_declared(a, b, f),
        field_kept(n, f),
    ensures
        field_value(n, kind, previous_status, current_status, a) == field_value(
            n,
            kind,
            previous_status,
            current_status,
            b,
        ),
{
    reveal_strlit("container");
    reveal_strlit("container_id");
    reveal_strlit("docker_address");
    reveal_strlit("health");
    reveal_strlit("image");
    reveal_strlit("input");
    reveal_strlit("kind");
    reveal_strlit("previous_status");
    reveal_strlit("project");
    reveal_strlit("service");
    reveal_strlit("state");
    reveal_strlit("status");
    if n == "kind"@ || n == "previous_status"@ || n == "status"@ {
        assert(n != "container"@ && n != "container_id"@ && n != "docker_address"@ && n
            != "health"@ && n != "image"@ && n != "input"@ && n != "project"@ && n != "service"@
            && n != "state"@) by {
            if n == "kind"@ {
                assert(n.len() == 4);
            } else if n == "previous_status"@ {
                assert(n.len() == 15);
            } else {
                assert(n.len() == 6 && n[0] == 's' && n[1] == 't' && n[5] == 's');
            }
        }
    }
}

proof fn lemma_pick_agrees(
    names: Seq<Seq<char>>,
    kind: Seq<char>,
    previous_status: Seq<char>,
    current_status: Seq<char>,
    a: ObservedView,
    b: ObservedView,
    f: Seq<Seq<char>>,
)
    requires
        agree_on_declared(a, b, f),
    ensures
        pick_fields(names, kind, previous_status, current_status, a, f) == pick_fields(
            names,
            kind,
            previous_status,
            current_status,
            b,
            f,
        ),
    decreases names.len(),
{
    if names.len() > 0 {
        lemma_pick_agrees(names.drop_last(), kind, previous_status, current_status, a, b, f);
        if field_kept(names.last(), f) {
            lemma_kept_value_agrees(names.last(), kind, previous_status, current_status, a, b, f);
        }
    }
}

/// Raw Docker fields that the input does not declare never influence an event:
/// two transitions whose observations agree on the declared fields (and on the
/// input and status) give the same request.
pub proof fn law_event_ignores_undeclared_fields(
    output: InfraBotOutputView,
    kind: Seq<char>,
    before1: Option<ObservedView>,
    after1: Option<ObservedView>,
    before2: Option<ObservedView>,
    after2: Option<ObservedView>,
    input_fields: Seq<Seq<char>>,
)
    requires
        sides_agree(before1, before2, input_fields),
        sides_agree(after1, after2, input_fields),
    ensures
        event_request_for(output, kind, before1, after1, input_fields) == event_request_for(
            output,
            kind,
            before2,
            after2,
            input_fields,
        ),
{
    let o1 = crate::events::described(before1, after1);
    let o2 = crate::events::described(before2, after2);
    if o1 is Some {
        let a = o1->0;
        let b = o2->0;
        assert(agree_on_declared(a, b, input_fields));
        let ps = crate::events::side_status(before1);
        let cs = crate::events::side_status(after1);
        assert(ps == crate::events::side_status(before2));
        assert(cs == crate::events::side_status(after2));
        lemma_pick_agrees(event_field_names(), kind, ps, cs, a, b, input_fields);
    }
}

/// The kind an event into a status must have: into `failed` it is
/// `service.failed`; into `healthy` it is `service.recovered` from `failed` and
/// `service.started` otherwise.
pub open spec fn kind_fits(e: (Seq<char>, Option<ObservedView>, Option<ObservedView>)) -> bool {
    match e.2 {
        Some(a) => (a.status == "failed"@ ==> e.0 == "service.failed"@) && (a.status == "healthy"@
            ==> e.0 == (if e.1 is Some && e.1->0.status == "failed"@ {
            "service.recovered"@
        } else {
            "service.started"@
        })),
        None => true,
    }
}

proof fn lemma_failed_not_healthy()
    ensures
        "failed"@ != "healthy"@,
{
    reveal_strlit("failed");
    reveal_strlit("healthy");
    assert("failed"@[0] != "healthy"@[0]);
}

proof fn lemma_current_events_kinds(
    prev: Seq<(Seq<char>, ObservedView)>,
    cur: Seq<(Seq<char>, ObservedView)>,
)
    ensures
        forall|i: int|
            0 <= i < current_events(prev, cur).len() ==> kind_fits(
                #[trigger] current_events(prev, cur)[i],
            ),
    decreases cur.len(),
{
    if cur.len() > 0 {
        lemma_current_events_kinds(prev, cur.drop_last());
        lemma_failed_not_healthy();
        let rest = current_events(prev, cur.drop_last());
        let r = current_events(prev, cur);
        assert forall|i: int| 0 <= i < r.len() implies kind_fits(#[trigger] r[i]) by {
            if i < rest.len() {
                assert(r[i] == rest[i]);
            }
        }
    }
}

proof fn lemma_removed_events_kinds(
    prev: Seq<(Seq<char>, ObservedView)>,
    cur: Seq<(Seq<char>, ObservedView)>,
)
    ensures
        forall|i: int|
            0 <= i < removed_events(prev, cur).len() ==> kind_fits(
                #[trigger] removed_events(prev, cur)[i],
            ),
    decreases prev.len(),
{
    if prev.len() > 0 {
        lemma_removed_events_kinds(prev.drop_last(), cur);
        let rest = removed_events(prev.drop_last(), cur);
        let r = removed_events(prev, cur);
        assert forall|i: int| 0 <= i < r.len() implies kind_fits(#[trigger] r[i]) by {
            if i < rest.len() {
                assert(r[i] == rest[i]);
            }
        }
    }
}

/// Every event into `failed`, from any other status or from nothing, is
/// `service.failed`; every event into `healthy` is `service.recovered` when the
/// container was `failed` before and `service.started` otherwise.
pub proof fn law_event_kinds(
    prev: Seq<(Seq<char>, ObservedView)>,
    cur: Seq<(Seq<char>, ObservedView)>,
)
    ensures
        forall|i: int|
            0 <= i < transition_events(prev, cur).len() ==> kind_fits(
                #[trigger] transition_events(prev, cur)[i],
            ),
{
    lemma_current_events_kinds(prev, cur);
    lemma_removed_events_kinds(prev, cur);
    let a = current_events(prev, cur);
    let b = removed_events(prev, cur);
    assert forall|i: int| 0 <= i < (a + b).len() implies kind_fits(#[trigger] (a + b)[i]) by {
        if i >= a.len() {
            assert((a + b)[i] == b[i - a.len()]);
        }
    }
}

} // verus!
