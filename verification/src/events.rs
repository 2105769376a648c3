//! What the agent reports: transitions between two snapshots, the fields and
//! requests it sends for them, and when the stored snapshot moves forward.
use crate::agent_config::{AgentConfig, AgentConfigView, DockerInput, DockerInputView, InfraBotOutput, InfraBotOutputView};
use crate::snapshot::{lookup, ObservedContainer, ObservedView, Snapshot};
use crate::text::{chars_of, eq_seq, push_str, strs};
use vstd::prelude::*;

verus! {

pub open spec fn opt_obs(o: Option<ObservedContainer>) -> Option<ObservedView> {
    match o {
        Some(x) => Some(x@),
        None => None,
    }
}

/// The view of a transition: its kind and the observations before and after.
pub open spec fn transition_view(t: (String, Option<ObservedContainer>, Option<ObservedContainer>)) -> (
    Seq<char>,
    Option<ObservedView>,
    Option<ObservedView>,
) {
    (t.0@, opt_obs(t.1), opt_obs(t.2))
}

/// The kind of event for a container seen for the first time.
pub open spec fn new_kind(a: ObservedView) -> Seq<char> {
    if a.status == "healthy"@ {
        "service.started"@
    } else {
        "service.failed"@
    }
}

/// The kind of event for a status change.
pub open spec fn change_kind(before: Seq<char>, after: Seq<char>) -> Seq<char> {
    if before == "failed"@ && after == "healthy"@ {
        "service.recovered"@
    } else if after == "failed"@ {
        "service.failed"@
    } else if after == "healthy"@ {
        "service.started"@
    } else {
        "service.changed"@
    }
}

/// Events for the current containers, in key order: new ones, and known ones
/// whose status changed.
pub open spec fn current_events(
    prev: Seq<(Seq<char>, ObservedView)>,
    cur: Seq<(Seq<char>, ObservedView)>,
) -> Seq<(Seq<char>, Option<ObservedView>, Option<ObservedView>)>
    decreases cur.len(),
{
    if cur.len() == 0 {
        seq![]
    } else {
        let rest = current_events(prev, cur.drop_last());
        let k = cur.last().0;
        let a = cur.last().1;
        match lookup(prev, k) {
            None => rest.push((new_kind(a), None, Some(a))),
            Some(b) => if b.status != a.status {
                rest.push((change_kind(b.status, a.status), Some(b), Some(a)))
            } else {
                rest
            },
        }
    }
}

/// Events for the containers that disappeared, in key order.
pub open spec fn removed_events(
    prev: Seq<(Seq<char>, ObservedView)>,
    cur: Seq<(Seq<char>, ObservedView)>,
) -> Seq<(Seq<char>, Option<ObservedView>, Option<ObservedView>)>
    decreases prev.len(),
{
    if prev.len() == 0 {
        seq![]
    } else {
        let rest = removed_events(prev.drop_last(), cur);
        if lookup(cur, prev.last().0) is None {
            rest.push(("service.removed"@, Some(prev.last().1), None))
        } else {
            rest
        }
    }
}

/// All transitions from `prev` to `cur`.
pub open spec fn transition_events(
    prev: Seq<(Seq<char>, ObservedView)>,
    cur: Seq<(Seq<char>, ObservedView)>,
) -> Seq<(Seq<char>, Option<ObservedView>, Option<ObservedView>)> {
    current_events(prev, cur) + removed_events(prev, cur)
}

fn new_kind_of(a: &ObservedContainer) -> (r: String)
    ensures
        r@ == new_kind(a@),
{
    if eq_seq(&chars_of(a.status.as_str()), &chars_of("healthy")) {
        "service.started".to_owned()
    } else {
        "service.failed".to_owned()
    }
}

fn change_kind_of(before: &ObservedContainer, after: &ObservedContainer) -> (r: String)
    ensures
        r@ == change_kind(before@.status, after@.status),
{
    let b = chars_of(before.status.as_str());
    let a = chars_of(after.status.as_str());
    let failed = chars_of("failed");
    let healthy = chars_of("healthy");
    if eq_seq(&b, &failed) && eq_seq(&a, &healthy) {
        "service.recovered".to_owned()
    } else if eq_seq(&a, &failed) {
        "service.failed".to_owned()
    } else if eq_seq(&a, &healthy) {
        "service.started".to_owned()
    } else {
        "service.changed".to_owned()
    }
}

/// The transitions from the previous snapshot to the current one: first the
/// current containers in key order (new, or with a changed status), then the
/// containers that disappeared, in key order.
pub fn transitions(previous: &Snapshot, current: &Snapshot) -> (r: Vec<
    (String, Option<ObservedContainer>, Option<ObservedContainer>),
>)
    ensures
        r@.map_values(|t| transition_view(t)) == transition_events(previous@, current@),
{
    let mut events: Vec<(String, Option<ObservedContainer>, Option<ObservedContainer>)> = Vec::new();
    let n = current.len();
    let ghost cur = current@;
    let ghost prev = previous@;
    let mut i: usize = 0;
    assert(events@.map_values(|t| transition_view(t)) =~= current_events(prev, cur.take(0)));
    while i < n
        invariant
            i <= n,
            n == cur.len(),
            cur == current@,
            prev == previous@,
            events@.map_values(|t| transition_view(t)) == current_events(prev, cur.take(i as int)),
        decreases n - i,
    {
        let ghost before_events = events@.map_values(|t| transition_view(t));
        let (key, after) = current.entry(i);
        assert(cur.take(i + 1).drop_last() =~= cur.take(i as int));
        assert(cur.take(i + 1).last() == cur[i as int]);
        let k = chars_of(key.as_str());
        match previous.get(&k) {
            None => {
                let t = (new_kind_of(after), None, Some(after.copy()));
                events.push(t);
                assert(events@.map_values(|t| transition_view(t)) =~= before_events.push(
                    transition_view(t),
                ));
            },
            Some(before) => {
                if !eq_seq(&chars_of(before.status.as_str()), &chars_of(after.status.as_str())) {
                    let t = (change_kind_of(before, after), Some(before.copy()), Some(after.copy()));
                    events.push(t);
                    assert(events@.map_values(|t| transition_view(t)) =~= before_events.push(
                        transition_view(t),
                    ));
                }
            },
        }
        i = i + 1;
    }
    assert(cur.take(n as int) =~= cur);
    let ghost first = events@.map_values(|t| transition_view(t));
    let m = previous.len();
    let mut j: usize = 0;
    assert(removed_events(prev.take(0), cur) =~= Seq::empty());
    assert(first + removed_events(prev.take(0), cur) =~= first);
    while j < m
        invariant
            j <= m,
            m == prev.len(),
            cur == current@,
            prev == previous@,
            first == current_events(prev, cur),
            events@.map_values(|t| transition_view(t)) == first + removed_events(
                prev.take(j as int),
                cur,
            ),
        decreases m - j,
    {
        let ghost before_events = events@.map_values(|t| transition_view(t));
        let (key, before) = previous.entry(j);
        assert(prev.take(j + 1).drop_last() =~= prev.take(j as int));
        assert(prev.take(j + 1).last() == prev[j as int]);
        if current.get(&chars_of(key.as_str())).is_none() {
            let t = ("service.removed".to_owned(), Some(before.copy()), None);
            events.push(t);
            assert(events@.map_values(|t| transition_view(t)) =~= before_events.push(
                transition_view(t),
            ));
        }
        j = j + 1;
    }
    assert(prev.take(m as int) =~= prev);
    events
}

/// The names of the fields an event may carry, in name order.
pub open spec fn event_field_names() -> Seq<Seq<char>> {
    seq![
        "container"@,
        "container_id"@,
        "docker_address"@,
        "health"@,
        "image"@,
        "input"@,
        "kind"@,
        "previous_status"@,
        "project"@,
        "service"@,
        "state"@,
        "status"@,
    ]
}

/// The value of a named event field.
pub open spec fn field_value(
    name: Seq<char>,
    kind: Seq<char>,
    previous_status: Seq<char>,
    current_status: Seq<char>,
    o: ObservedView,
) -> Seq<char> {
    if name == "container"@ {
        o.container
    } else if name == "container_id"@ {
        o.container_id
    } else if name == "docker_address"@ {
        o.docker_address
    } else if name == "health"@ {
        o.health
    } else if name == "image"@ {
        o.image
    } else if name == "input"@ {
        o.input
    } else if name == "kind"@ {
        kind
    } else if name == "previous_status"@ {
        previous_status
    } else if name == "project"@ {
        o.project
    } else if name == "service"@ {
        o.service
    } else if name == "state"@ {
        o.state
    } else {
        current_status
    }
}

/// The derived fields are always available; observed fields only when the
/// input extracts them.
pub open spec fn field_kept(name: Seq<char>, input_fields: Seq<Seq<char>>) -> bool {
    name == "kind"@ || name == "previous_status"@ || name == "status"@ || input_fields.contains(
        name,
    )
}

/// The kept fields among `names`, in order, with their values.
pub open spec fn pick_fields(
    names: Seq<Seq<char>>,
    kind: Seq<char>,
    previous_status: Seq<char>,
    current_status: Seq<char>,
    o: ObservedView,
    input_fields: Seq<Seq<char>>,
) -> Seq<(Seq<char>, Seq<char>)>
    decreases names.len(),
{
    if names.len() == 0 {
        seq![]
    } else {
        let rest = pick_fields(
            names.drop_last(),
            kind,
            previous_status,
            current_status,
            o,
            input_fields,
        );
        let n = names.last();
        if field_kept(n, input_fields) {
            rest.push((n, field_value(n, kind, previous_status, current_status, o)))
        } else {
            rest
        }
    }
}

pub open spec fn string_pairs(v: Seq<(String, String)>) -> Seq<(Seq<char>, Seq<char>)> {
    v.map_values(|p: (String, String)| (p.0@, p.1@))
}

fn member(v: &Vec<String>, x: &Vec<char>) -> (b: bool)
    ensures
        b == strs(v@).contains(x@),
{
    let ghost sv = strs(v@);
    let mut i: usize = 0;
    while i < v.len()
        invariant
            i <= v.len(),
            sv == strs(v@),
            forall|j: int| 0 <= j < i ==> sv[j] != x@,
        decreases v.len() - i,
    {
        if eq_seq(&chars_of(v[i].as_str()), x) {
            assert(sv[i as int] == x@);
            return true;
        }
        i = i + 1;
    }
    false
}

fn value_of_field(
    name: &Vec<char>,
    kind: &str,
    previous_status: &str,
    current_status: &str,
    o: &ObservedContainer,
) -> (r: String)
    ensures
        r@ == field_value(name@, kind@, previous_status@, current_status@, o@),
{
    if eq_seq(name, &chars_of("container")) {
        o.container.clone()
    } else if eq_seq(name, &chars_of("container_id")) {
        o.container_id.clone()
    } else if eq_seq(name, &chars_of("docker_address")) {
        o.docker_address.clone()
    } else if eq_seq(name, &chars_of("health")) {
        o.health.clone()
    } else if eq_seq(name, &chars_of("image")) {
        o.image.clone()
    } else if eq_seq(name, &chars_of("input")) {
        o.input.clone()
    } else if eq_seq(name, &chars_of("kind")) {
        kind.to_owned()
    } else if eq_seq(name, &chars_of("previous_status")) {
        previous_status.to_owned()
    } else if eq_seq(name, &chars_of("project")) {
        o.project.clone()
    } else if eq_seq(name, &chars_of("service")) {
        o.service.clone()
    } else if eq_seq(name, &chars_of("state")) {
        o.state.clone()
    } else {
        current_status.to_owned()
    }
}

/// The fields an event may carry: the derived `kind`, `previous_status` and
/// `status`, and the observed fields that the input extracts, in name order.
pub fn event_fields(
    kind: &str,
    previous_status: &str,
    current_status: &str,
    observed: &ObservedContainer,
    input_fields: &Vec<String>,
) -> (r: Vec<(String, String)>)
    ensures
        string_pairs(r@) == pick_fields(
            event_field_names(),
            kind@,
            previous_status@,
            current_status@,
            observed@,
            strs(input_fields@),
        ),
{
    let names = vec![
        chars_of("container"),
        chars_of("container_id"),
        chars_of("docker_address"),
        chars_of("health"),
        chars_of("image"),
        chars_of("input"),
        chars_of("kind"),
        chars_of("previous_status"),
        chars_of("project"),
        chars_of("service"),
        chars_of("state"),
        chars_of("status"),
    ];
    let ghost nv = crate::text::views(names@);
    assert(nv =~= event_field_names());
    let kind_name = chars_of("kind");
    let previous_name = chars_of("previous_status");
    let status_name = chars_of("status");
    let mut out: Vec<(String, String)> = Vec::new();
    let mut i: usize = 0;
    assert(string_pairs(out@) =~= Seq::<(Seq<char>, Seq<char>)>::empty());
    while i < names.len()
        invariant
            i <= names.len(),
            nv == crate::text::views(names@),
            kind_name@ == "kind"@,
            previous_name@ == "previous_status"@,
            status_name@ == "status"@,
            string_pairs(out@) == pick_fields(
                nv.take(i as int),
                kind@,
                previous_status@,
                current_status@,
                observed@,
                strs(input_fields@),
            ),
        decreases names.len() - i,
    {
        let name = &names[i];
        assert(nv.take(i + 1).drop_last() =~= nv.take(i as int));
        assert(nv.take(i + 1).last() == name@);
        let ghost before = string_pairs(out@);
        if eq_seq(name, &kind_name) || eq_seq(name, &previous_name) || eq_seq(name, &status_name)
            || member(input_fields, name) {
            let v = value_of_field(name, kind, previous_status, current_status, observed);
            let pair = (crate::text::string_of(name), v);
            out.push(pair);
            assert(string_pairs(out@) =~= before.push((name@, v@)));
        }
        i = i + 1;
    }
    assert(nv.take(names.len() as int) =~= nv);
    out
}

/// The value of the first pair named `name`.
pub open spec fn pair_get(ps: Seq<(Seq<char>, Seq<char>)>, name: Seq<char>) -> Option<Seq<char>>
    decreases ps.len(),
{
    if ps.len() == 0 {
        None
    } else if ps[0].0 == name {
        Some(ps[0].1)
    } else {
        pair_get(ps.drop_first(), name)
    }
}

/// The output's fields, in its order, that the event has.
pub open spec fn projected(out_fields: Seq<Seq<char>>, available: Seq<(Seq<char>, Seq<char>)>) -> Seq<
    (Seq<char>, Seq<char>),
>
    decreases out_fields.len(),
{
    if out_fields.len() == 0 {
        seq![]
    } else {
        let rest = projected(out_fields.drop_last(), available);
        match pair_get(available, out_fields.last()) {
            Some(v) => rest.push((out_fields.last(), v)),
            None => rest,
        }
    }
}

/// The event that infraBot receives.
pub struct EventRequest {
    pub output: String,
    pub kind: String,
    pub project: String,
    pub service: Option<String>,
    pub status: Option<String>,
    pub message: String,
    pub fields: Vec<(String, String)>,
}

pub struct EventRequestView {
    pub output: Seq<char>,
    pub kind: Seq<char>,
    pub project: Seq<char>,
    pub service: Option<Seq<char>>,
    pub status: Option<Seq<char>>,
    pub message: Seq<char>,
    pub fields: Seq<(Seq<char>, Seq<char>)>,
}

impl View for EventRequest {
    type V = EventRequestView;

    open spec fn view(&self) -> EventRequestView {
        EventRequestView {
            output: self.output@,
            kind: self.kind@,
            project: self.project@,
            service: match self.service {
                Some(s) => Some(s@),
                None => None,
            },
            status: match self.status {
                Some(s) => Some(s@),
                None => None,
            },
            message: self.message@,
            fields: string_pairs(self.fields@),
        }
    }
}

/// Why a poll stops before it has delivered every event.
#[derive(Debug, Clone, Copy, PartialEq, Eq)]
pub enum PollError {
    NoState,
    InputNotConfigured,
}

/// The status on one side of a transition, or `absent`.
pub open spec fn side_status(o: Option<ObservedView>) -> Seq<char> {
    match o {
        Some(x) => x.status,
        None => "absent"@,
    }
}

/// The observation an event describes: the one after, else the one before.
pub open spec fn described(before: Option<ObservedView>, after: Option<ObservedView>) -> Option<
    ObservedView,
> {
    if after is Some {
        after
    } else {
        before
    }
}

/// The project an event names: the project label when the input declares the
/// `project` field and the label is set, else the input's id.
pub open spec fn event_project(o: ObservedView, input_fields: Seq<Seq<char>>) -> Seq<char> {
    if input_fields.contains("project"@) && o.project.len() > 0 {
        o.project
    } else {
        o.input
    }
}

/// What an event is about: the service label when declared and set, else the
/// container name when declared and set, else the input's id.
pub open spec fn event_subject(o: ObservedView, input_fields: Seq<Seq<char>>) -> Seq<char> {
    if input_fields.contains("service"@) && o.service.len() > 0 {
        o.service
    } else if input_fields.contains("container"@) && o.container.len() > 0 {
        o.container
    } else {
        o.input
    }
}

/// The request for one event. Besides the derived statuses and the input and
/// output ids, it carries only fields that the input declares.
pub open spec fn event_request_for(
    output: InfraBotOutputView,
    kind: Seq<char>,
    before: Option<ObservedView>,
    after: Option<ObservedView>,
    input_fields: Seq<Seq<char>>,
) -> Result<EventRequestView, PollError> {
    match described(before, after) {
        None => Err(PollError::NoState),
        Some(o) => {
            let previous_status = side_status(before);
            let current_status = side_status(after);
            let available = pick_fields(
                event_field_names(),
                kind,
                previous_status,
                current_status,
                o,
                input_fields,
            );
            let subject = event_subject(o, input_fields);
            Ok(
                EventRequestView {
                    output: output.id,
                    kind,
                    project: event_project(o, input_fields),
                    service: Some(subject),
                    status: Some(current_status),
                    message: subject + ": "@ + previous_status + " -> "@ + current_status,
                    fields: projected(output.fields, available),
                },
            )
        },
    }
}

fn get_pair(ps: &Vec<(String, String)>, name: &Vec<char>) -> (r: Option<String>)
    ensures
        match r {
            Some(v) => pair_get(string_pairs(ps@), name@) == Some(v@),
            None => pair_get(string_pairs(ps@), name@) is None,
        },
{
    let ghost p = string_pairs(ps@);
    let mut i: usize = 0;
    assert(p.subrange(0, p.len() as int) =~= p);
    while i < ps.len()
        invariant
            i <= ps.len(),
            p == string_pairs(ps@),
            pair_get(p, name@) == pair_get(p.subrange(i as int, p.len() as int), name@),
        decreases ps.len() - i,
    {
        let ghost rest = p.subrange(i as int, p.len() as int);
        assert(rest[0] == p[i as int]);
        if eq_seq(&chars_of(ps[i].0.as_str()), name) {
            return Some(ps[i].1.clone());
        }
        assert(rest.drop_first() =~= p.subrange(i + 1, p.len() as int));
        i = i + 1;
    }
    None
}

/// Builds the request that reports one event through the output.
pub fn event_request(
    output: &InfraBotOutput,
    kind: &str,
    before: Option<&ObservedContainer>,
    after: Option<&ObservedContainer>,
    input_fields: &Vec<String>,
) -> (r: Result<EventRequest, PollError>)
    ensures
        match r {
            Ok(q) => event_request_for(
                output@,
                kind@,
                match before {
                    Some(b) => Some(b@),
                    None => None,
                },
                match after {
                    Some(a) => Some(a@),
                    None => None,
                },
                strs(input_fields@),
            ) == Ok::<_, PollError>(q@),
            Err(e) => event_request_for(
                output@,
                kind@,
                match before {
                    Some(b) => Some(b@),
                    None => None,
                },
                match after {
                    Some(a) => Some(a@),
                    None => None,
                },
                strs(input_fields@),
            ) == Err::<EventRequestView, _>(e),
        },
{
    let observed = match after {
        Some(a) => a,
        None => match before {
            Some(b) => b,
            None => {
                return Err(PollError::NoState);
            },
        },
    };
    let previous_status: String = match before {
        Some(b) => b.status.clone(),
        None => "absent".to_owned(),
    };
    let current_status: String = match after {
        Some(a) => a.status.clone(),
        None => "absent".to_owned(),
    };
    let available = event_fields(
        kind,
        previous_status.as_str(),
        current_status.as_str(),
        observed,
        input_fields,
    );
    let ghost av = string_pairs(available@);
    let ghost of = strs(output.fields@);
    let mut fields: Vec<(String, String)> = Vec::new();
    let mut i: usize = 0;
    assert(string_pairs(fields@) =~= Seq::<(Seq<char>, Seq<char>)>::empty());
    while i < output.fields.len()
        invariant
            i <= output.fields.len(),
            av == string_pairs(available@),
            of == strs(output.fields@),
            string_pairs(fields@) == projected(of.take(i as int), av),
        decreases output.fields.len() - i,
    {
        let name = chars_of(output.fields[i].as_str());
        assert(of.take(i + 1).drop_last() =~= of.take(i as int));
        assert(of.take(i + 1).last() == name@);
        let ghost before_fields = string_pairs(fields@);
        match get_pair(&available, &name) {
            Some(v) => {
                let n = output.fields[i].clone();
                fields.push((n, v));
                assert(string_pairs(fields@) =~= before_fields.push((name@, v@)));
            },
            None => {},
        }
        i = i + 1;
    }
    assert(of.take(output.fields.len() as int) =~= of);
    let subject = if member(input_fields, &chars_of("service")) && !observed.service.as_str().is_empty() {
        observed.service.clone()
    } else if member(input_fields, &chars_of("container"))
        && !observed.container.as_str().is_empty() {
        observed.container.clone()
    } else {
        observed.input.clone()
    };
    let project = if member(input_fields, &chars_of("project")) && !observed.project.as_str().is_empty() {
        observed.project.clone()
    } else {
        observed.input.clone()
    };
    let mut message = subject.clone();
    push_str(&mut message, ": ");
    push_str(&mut message, previous_status.as_str());
    push_str(&mut message, " -> ");
    push_str(&mut message, current_status.as_str());
    Ok(
        EventRequest {
            output: output.id.clone(),
            kind: kind.to_owned(),
            project,
            service: Some(subject),
            status: Some(current_status),
            message,
            fields,
        },
    )
}

/// One step of delivering a poll's events.
pub enum Delivery {
    Send(EventRequest),
    Abort(PollError),
}

pub enum DeliveryView {
    Send(EventRequestView),
    Abort(PollError),
}

impl View for Delivery {
    type V = DeliveryView;

    open spec fn view(&self) -> DeliveryView {
        match self {
            Delivery::Send(q) => DeliveryView::Send(q@),
            Delivery::Abort(e) => DeliveryView::Abort(*e),
        }
    }
}

/// The fields that the input named `id` extracts.
pub open spec fn input_fields_of(inputs: Seq<DockerInputView>, id: Seq<char>) -> Option<
    Seq<Seq<char>>,
>
    decreases inputs.len(),
{
    if inputs.len() == 0 {
        None
    } else if inputs[0].id == id {
        Some(inputs[0].fields)
    } else {
        input_fields_of(inputs.drop_first(), id)
    }
}

/// Whether the plan already stops.
pub open spec fn stopped(plan: Seq<DeliveryView>) -> bool {
    plan.len() > 0 && plan.last() is Abort
}

/// The deliveries for the events, in order: events of kinds the output does not
/// subscribe to are skipped, and the first event that cannot be reported stops
/// the plan.
pub open spec fn deliveries(
    config: AgentConfigView,
    events: Seq<(Seq<char>, Option<ObservedView>, Option<ObservedView>)>,
) -> Seq<DeliveryView>
    decreases events.len(),
{
    if events.len() == 0 {
        seq![]
    } else {
        let rest = deliveries(config, events.drop_last());
        let e = events.last();
        if stopped(rest) || !config.output.events.contains(e.0) {
            rest
        } else {
            match described(e.1, e.2) {
                None => rest.push(DeliveryView::Abort(PollError::NoState)),
                Some(o) => match input_fields_of(config.inputs, o.input) {
                    None => rest.push(DeliveryView::Abort(PollError::InputNotConfigured)),
                    Some(f) => match event_request_for(config.output, e.0, e.1, e.2, f) {
                        Ok(q) => rest.push(DeliveryView::Send(q)),
                        Err(err) => rest.push(DeliveryView::Abort(err)),
                    },
                },
            }
        }
    }
}

/// What one poll does once the current snapshot has been collected.
pub enum PollPlan {
    /// The first poll: the current snapshot becomes the baseline, nothing is sent.
    Baseline,
    /// Check the output credential, then perform the deliveries in order.
    Deliver(Vec<Delivery>),
}

fn input_fields_for<'a>(inputs: &'a Vec<DockerInput>, id: &Vec<char>) -> (r: Option<&'a Vec<String>>)
    ensures
        match r {
            Some(f) => input_fields_of(inputs@.map_values(|d: DockerInput| d@), id@) == Some(
                strs(f@),
            ),
            None => input_fields_of(inputs@.map_values(|d: DockerInput| d@), id@) is None,
        },
{
    let ghost iv = inputs@.map_values(|d: DockerInput| d@);
    let mut i: usize = 0;
    assert(iv.subrange(0, iv.len() as int) =~= iv);
    while i < inputs.len()
        invariant
            i <= inputs.len(),
            iv == inputs@.map_values(|d: DockerInput| d@),
            input_fields_of(iv, id@) == input_fields_of(iv.subrange(i as int, iv.len() as int), id@),
        decreases inputs.len() - i,
    {
        let ghost rest = iv.subrange(i as int, iv.len() as int);
        assert(rest[0] == inputs@[i as int]@);
        if eq_seq(&chars_of(inputs[i].id.as_str()), id) {
            return Some(&inputs[i].fields);
        }
        assert(rest.drop_first() =~= iv.subrange(i + 1, iv.len() as int));
        i = i + 1;
    }
    None
}

fn subscribed(events: &Vec<String>, kind: &Vec<char>) -> (b: bool)
    ensures
        b == strs(events@).contains(kind@),
{
    member(events, kind)
}

/// Plans one poll: a baseline when nothing was stored before, otherwise the
/// deliveries for the transitions from the previous snapshot to the current one.
pub fn plan_poll(config: &AgentConfig, previous: &Snapshot, current: &Snapshot) -> (r: PollPlan)
    ensures
        previous@.len() == 0 <==> r is Baseline,
        r matches PollPlan::Deliver(d) ==> d@.map_values(|x: Delivery| x@) == deliveries(
            config@,
            transition_events(previous@, current@),
        ),
{
    if previous.is_empty() {
        return PollPlan::Baseline;
    }
    let events = transitions(previous, current);
    let ghost ev = events@.map_values(|t| transition_view(t));
    let mut plan: Vec<Delivery> = Vec::new();
    let mut i: usize = 0;
    assert(plan@.map_values(|x: Delivery| x@) =~= deliveries(config@, ev.take(0)));
    while i < events.len()
        invariant
            i <= events.len(),
            ev == events@.map_values(|t| transition_view(t)),
            plan@.map_values(|x: Delivery| x@) == deliveries(config@, ev.take(i as int)),
        decreases events.len() - i,
    {
        assert(ev.take(i + 1).drop_last() =~= ev.take(i as int));
        assert(ev.take(i + 1).last() == transition_view(events@[i as int]));
        let ghost before = plan@.map_values(|x: Delivery| x@);
        let stop = plan.len() > 0 && match &plan[plan.len() - 1] {
            Delivery::Abort(_) => true,
            Delivery::Send(_) => false,
        };
        let (kind, before_obs, after_obs) = &events[i];
        if !stop && subscribed(&config.output.events, &chars_of(kind.as_str())) {
            let observed = match after_obs {
                Some(a) => Some(a),
                None => match before_obs {
                    Some(b) => Some(b),
                    None => None,
                },
            };
            let step = match observed {
                None => Delivery::Abort(PollError::NoState),
                Some(o) => match input_fields_for(&config.inputs, &chars_of(o.input.as_str())) {
                    None => Delivery::Abort(PollError::InputNotConfigured),
                    Some(f) => match event_request(
                        &config.output,
                        kind.as_str(),
                        before_obs.as_ref(),
                        after_obs.as_ref(),
                        f,
                    ) {
                        Ok(q) => Delivery::Send(q),
                        Err(e) => Delivery::Abort(e),
                    },
                },
            };
            plan.push(step);
            assert(plan@.map_values(|x: Delivery| x@) =~= before.push(step@));
        }
        i = i + 1;
    }
    assert(ev.take(events.len() as int) =~= ev);
    PollPlan::Deliver(plan)
}

/// The snapshot stored after a poll: the current one when the poll succeeded,
/// otherwise the previous one, so that failed deliveries are retried.
pub fn state_after_poll(previous: Snapshot, current: Snapshot, succeeded: bool) -> (r: Snapshot)
    ensures
        r@ == (if succeeded {
            current@
        } else {
            previous@
        }),
{
    if succeeded {
        current
    } else {
        previous
    }
}

/// The credential file that `infra auth telegram` writes.
pub struct CredentialFile {
    pub version: u8,
    pub endpoint: String,
    pub source: String,
    pub token_type: String,
    pub access_token: String,
    pub expires_at: u64,
}

/// Why an output credential cannot be used.
#[derive(Debug, Clone, Copy, PartialEq, Eq)]
pub enum CredentialError {
    SourceMismatch,
    EmptyEndpoint,
    Expired,
}

/// Whether a credential can authorize deliveries for `source` at time `now`
/// (Unix seconds).
pub open spec fn credential_check(c: CredentialFile, source: Seq<char>, now: nat) -> Result<
    (),
    CredentialError,
> {
    if c.version != 1 || c.token_type@ != "Bearer"@ || c.access_token@.len() == 0 || c.source@
        != source {
        Err(CredentialError::SourceMismatch)
    } else if c.endpoint@.len() == 0 {
        Err(CredentialError::EmptyEndpoint)
    } else if c.expires_at <= now {
        Err(CredentialError::Expired)
    } else {
        Ok(())
    }
}

/// Checks a credential read from disk.
pub fn check_credential(c: &CredentialFile, source: &str, now: u64) -> (r: Result<(), CredentialError>)
    ensures
        r == credential_check(*c, source@, now as nat),
{
    if c.version != 1 || !eq_seq(&chars_of(c.token_type.as_str()), &chars_of("Bearer"))
        || c.access_token.as_str().is_empty() || !eq_seq(
        &chars_of(c.source.as_str()),
        &chars_of(source),
    ) {
        return Err(CredentialError::SourceMismatch);
    }
    if c.endpoint.as_str().is_empty() {
        return Err(CredentialError::EmptyEndpoint);
    }
    if c.expires_at <= now {
        return Err(CredentialError::Expired);
    }
    Ok(())
}

/// The request line prefix the health endpoint answers.
pub open spec fn health_probe() -> Seq<u8> {
    seq![71u8, 69u8, 84u8, 32u8, 47u8, 104u8, 101u8, 97u8, 108u8, 116u8, 104u8, 32u8]
}

/// The status line and body that answer a health-server request: `200 OK` for
/// `GET /health `, `404 Not Found` otherwise.
pub fn health_response(request: &[u8]) -> (r: (&'static str, &'static str))
    ensures
        request@.len() >= 12 && request@.subrange(0, 12) == health_probe() ==> r.0@ == "200 OK"@
            && r.1@ == "ok"@,
        !(request@.len() >= 12 && request@.subrange(0, 12) == health_probe()) ==> r.0@
            == "404 Not Found"@ && r.1@ == "not found"@,
{
    let probe: [u8; 12] = [71, 69, 84, 32, 47, 104, 101, 97, 108, 116, 104, 32];
    let mut ok = request.len() >= 12;
    let mut i: usize = 0;
    while ok && i < 12
        invariant
            i <= 12,
            ok ==> request@.len() >= 12,
            probe@ == health_probe(),
            ok ==> forall|j: int| 0 <= j < i ==> request@[j] == probe@[j],
            !ok ==> !(request@.len() >= 12 && request@.subrange(0, 12) == health_probe()),
        decreases 12 - i,
    {
        if request[i] != probe[i] {
            assert(request@.subrange(0, 12)[i as int] != health_probe()[i as int]);
            ok = false;
        }
        i = i + 1;
    }
    if ok {
        assert(request@.subrange(0, 12) =~= health_probe());
        ("200 OK", "ok")
    } else {
        ("404 Not Found", "not found")
    }
}

} // verus!
