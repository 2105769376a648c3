//! How a Docker container listing becomes observations: compose labels,
//! project and service filters, health and the normalized status.
use crate::agent_config::{DockerInput, DockerInputView};
use crate::snapshot::{lookup, ObservedContainer, ObservedView, Snapshot};
use crate::text::{chars_of, contains, contains_seq, eq_seq, push_char, push_str, slice_of, string_of, strs};
use vstd::prelude::*;

verus! {

/// One container of a Docker `containers/json` listing.
pub struct ContainerSummary {
    pub id: String,
    pub names: Vec<String>,
    pub image: String,
    pub state: String,
    pub status: String,
    pub labels: Vec<(String, String)>,
}

pub struct ContainerView {
    pub id: Seq<char>,
    pub names: Seq<Seq<char>>,
    pub image: Seq<char>,
    pub state: Seq<char>,
    pub status: Seq<char>,
    pub labels: Seq<(Seq<char>, Seq<char>)>,
}

pub open spec fn pairs(v: Seq<(String, String)>) -> Seq<(Seq<char>, Seq<char>)> {
    v.map_values(|p: (String, String)| (p.0@, p.1@))
}

impl View for ContainerSummary {
    type V = ContainerView;

    open spec fn view(&self) -> ContainerView {
        ContainerView {
            id: self.id@,
            names: strs(self.names@),
            image: self.image@,
            state: self.state@,
            status: self.status@,
            labels: pairs(self.labels@),
        }
    }
}

/// The health that Docker's status text reports.
pub open spec fn health_of(status: Seq<char>) -> Seq<char> {
    if contains(status, "(unhealthy)"@) {
        "unhealthy"@
    } else if contains(status, "(healthy)"@) {
        "healthy"@
    } else if contains(status, "health: starting"@) || contains(status, "(health: starting)"@) {
        "starting"@
    } else {
        "none"@
    }
}

/// Reads the health from Docker's status text.
pub fn health_from_status(status: &str) -> (r: String)
    ensures
        r@ == health_of(status@),
{
    let s = chars_of(status);
    if contains_seq(&s, &chars_of("(unhealthy)")) {
        "unhealthy".to_owned()
    } else if contains_seq(&s, &chars_of("(healthy)")) {
        "healthy".to_owned()
    } else if contains_seq(&s, &chars_of("health: starting")) || contains_seq(
        &s,
        &chars_of("(health: starting)"),
    ) {
        "starting".to_owned()
    } else {
        "none".to_owned()
    }
}

/// The normalized status of a container: failed, healthy or unknown.
pub open spec fn status_of(state: Seq<char>, health: Seq<char>) -> Seq<char> {
    if health == "unhealthy"@ || state == "exited"@ || state == "dead"@ {
        "failed"@
    } else if state == "running"@ && (health == "healthy"@ || health == "none"@) {
        "healthy"@
    } else {
        "unknown"@
    }
}

/// Normalizes a Docker state and health into a status.
pub fn normalized_status(state: &str, health: &str) -> (r: &'static str)
    ensures
        r@ == status_of(state@, health@),
{
    let st = chars_of(state);
    let h = chars_of(health);
    if eq_seq(&h, &chars_of("unhealthy")) || eq_seq(&st, &chars_of("exited")) || eq_seq(
        &st,
        &chars_of("dead"),
    ) {
        "failed"
    } else if eq_seq(&st, &chars_of("running")) && (eq_seq(&h, &chars_of("healthy")) || eq_seq(
        &h,
        &chars_of("none"),
    )) {
        "healthy"
    } else {
        "unknown"
    }
}

/// The value of a label, or the empty text when it is absent.
pub open spec fn label(labels: Seq<(Seq<char>, Seq<char>)>, name: Seq<char>) -> Seq<char>
    decreases labels.len(),
{
    if labels.len() == 0 {
        seq![]
    } else if labels[0].0 == name {
        labels[0].1
    } else {
        label(labels.drop_first(), name)
    }
}

fn label_of(labels: &Vec<(String, String)>, name: &Vec<char>) -> (r: String)
    ensures
        r@ == label(pairs(labels@), name@),
{
    let ghost p = pairs(labels@);
    let mut i: usize = 0;
    assert(p.subrange(0, p.len() as int) =~= p);
    while i < labels.len()
        invariant
            i <= labels.len(),
            p == pairs(labels@),
            label(p, name@) == label(p.subrange(i as int, p.len() as int), name@),
        decreases labels.len() - i,
    {
        let ghost rest = p.subrange(i as int, p.len() as int);
        assert(rest[0] == p[i as int]);
        if eq_seq(&chars_of(labels[i].0.as_str()), name) {
            return labels[i].1.clone();
        }
        assert(rest.drop_first() =~= p.subrange(i + 1, p.len() as int));
        i = i + 1;
    }
    String::new()
}

/// The text without its leading slashes (`str::trim_start_matches('/')`).
pub open spec fn without_leading_slashes(s: Seq<char>) -> Seq<char>
    decreases s.len(),
{
    if s.len() > 0 && s[0] == '/' {
        without_leading_slashes(s.drop_first())
    } else {
        s
    }
}

/// The container's name: its first Docker name without the leading slash, or
/// the first twelve characters of its id.
pub open spec fn container_name(c: ContainerView) -> Seq<char> {
    if c.names.len() > 0 {
        without_leading_slashes(c.names[0])
    } else if c.id.len() <= 12 {
        c.id
    } else {
        c.id.take(12)
    }
}

/// A set that is empty accepts everything; otherwise only its members.
pub open spec fn accepts(filter: Seq<Seq<char>>, v: Seq<char>) -> bool {
    filter.len() == 0 || filter.contains(v)
}

/// What a container of a listing contributes: its key and observation, unless
/// the input's project or service filter excludes it.
pub open spec fn observation(input: DockerInputView, address: Seq<char>, c: ContainerView) -> Option<
    (Seq<char>, ObservedView),
> {
    let project = label(c.labels, "com.docker.compose.project"@);
    let service = label(c.labels, "com.docker.compose.service"@);
    if !accepts(input.projects, project) || !accepts(input.services, service) {
        None
    } else {
        let health = health_of(c.status);
        Some(
            (
                input.id + seq![':'] + c.id,
                ObservedView {
                    input: input.id,
                    docker_address: address,
                    container: container_name(c),
                    container_id: c.id,
                    project,
                    service,
                    image: c.image,
                    state: c.state,
                    health,
                    status: status_of(c.state, health),
                },
            ),
        )
    }
}

fn name_of(c: &ContainerSummary) -> (r: String)
    ensures
        r@ == container_name(c@),
{
    if c.names.len() > 0 {
        let n = chars_of(c.names[0].as_str());
        assert(strs(c.names@)[0] == n@);
        let mut a: usize = 0;
        assert(n@.subrange(0, n@.len() as int) =~= n@);
        while a < n.len() && n[a] == '/'
            invariant
                a <= n.len(),
                without_leading_slashes(n@) == without_leading_slashes(
                    n@.subrange(a as int, n@.len() as int),
                ),
            decreases n.len() - a,
        {
            assert(n@.subrange(a as int, n@.len() as int).drop_first() =~= n@.subrange(
                a + 1,
                n@.len() as int,
            ));
            a = a + 1;
        }
        string_of(&slice_of(&n, a, n.len()))
    } else {
        let id = chars_of(c.id.as_str());
        if id.len() <= 12 {
            c.id.clone()
        } else {
            let r = slice_of(&id, 0, 12);
            assert(r@ =~= id@.take(12));
            string_of(&r)
        }
    }
}

fn member(v: &Vec<String>, x: &Vec<char>) -> (b: bool)
    ensures
        b == strs(v@).contains(x@),
{
    let ghost sv = strs(v@);
    let mut i: usize = 0;
    while i < v.len()
        invariant
            i <= v.len(),
            sv == strs(v@),
            forall|j: int| 0 <= j < i ==> sv[j] != x@,
        decreases v.len() - i,
    {
        if eq_seq(&chars_of(v[i].as_str()), x) {
            assert(sv[i as int] == x@);
            return true;
        }
        i = i + 1;
    }
    false
}

/// The key and observation of one container of a listing, if the input's
/// filters keep it.
pub fn observe(input: &DockerInput, address: &str, c: &ContainerSummary) -> (r: Option<
    (String, ObservedContainer),
>)
    ensures
        match r {
            Some((k, o)) => observation(input@, address@, c@) == Some((k@, o@)),
            None => observation(input@, address@, c@) is None,
        },
{
    let project = label_of(&c.labels, &chars_of("com.docker.compose.project"));
    let service = label_of(&c.labels, &chars_of("com.docker.compose.service"));
    if input.projects.len() > 0 && !member(&input.projects, &chars_of(project.as_str())) {
        return None;
    }
    if input.services.len() > 0 && !member(&input.services, &chars_of(service.as_str())) {
        return None;
    }
    let health = health_from_status(c.status.as_str());
    let status = normalized_status(c.state.as_str(), health.as_str()).to_owned();
    let mut key = input.id.clone();
    push_char(&mut key, ':');
    push_str(&mut key, c.id.as_str());
    let o = ObservedContainer {
        input: input.id.clone(),
        docker_address: address.to_owned(),
        container: name_of(c),
        container_id: c.id.clone(),
        project,
        service,
        image: c.image.clone(),
        state: c.state.clone(),
        health,
        status,
    };
    Some((key, o))
}

/// The observations of a listing, in listing order.
pub open spec fn observations(input: DockerInputView, address: Seq<char>, cs: Seq<ContainerView>) -> Seq<
    (Seq<char>, ObservedView),
>
    decreases cs.len(),
{
    if cs.len() == 0 {
        seq![]
    } else {
        let rest = observations(input, address, cs.drop_last());
        match observation(input, address, cs.last()) {
            Some(e) => rest.push(e),
            None => rest,
        }
    }
}

/// The first key of `obs` that is already known or repeats an earlier key.
pub open spec fn first_clash(
    known: Seq<(Seq<char>, ObservedView)>,
    obs: Seq<(Seq<char>, ObservedView)>,
) -> Option<Seq<char>>
    decreases obs.len(),
{
    if obs.len() == 0 {
        None
    } else {
        match first_clash(known, obs.drop_last()) {
            Some(k) => Some(k),
            None => {
                let k = obs.last().0;
                if lookup(known, k) is Some || lookup(obs.drop_last(), k) is Some {
                    Some(k)
                } else {
                    None
                }
            },
        }
    }
}

/// The observation for `k` once `obs` has been added to `known`.
pub open spec fn merged(
    known: Seq<(Seq<char>, ObservedView)>,
    obs: Seq<(Seq<char>, ObservedView)>,
    k: Seq<char>,
) -> Option<ObservedView> {
    if lookup(obs, k) is Some {
        lookup(obs, k)
    } else {
        lookup(known, k)
    }
}

/// Why a listing could not be recorded.
#[derive(Debug, Clone, PartialEq, Eq)]
pub enum ObserveError {
    DuplicateContainer { key: String },
}

pub proof fn lemma_lookup_push(s: Seq<(Seq<char>, ObservedView)>, e: (Seq<char>, ObservedView), q: Seq<char>)
    ensures
        lookup(s.push(e), q) == (if lookup(s, q) is Some {
            lookup(s, q)
        } else if e.0 == q {
            Some(e.1)
        } else {
            None
        }),
    decreases s.len(),
{
    assert(s.push(e).len() > 0);
    if s.len() == 0 {
        assert(s.push(e)[0] == e);
        assert(s.push(e).drop_first() =~= Seq::<(Seq<char>, ObservedView)>::empty());
        assert(lookup(Seq::<(Seq<char>, ObservedView)>::empty(), q) is None);
    } else {
        assert(s.push(e)[0] == s[0]);
        assert(s.push(e).drop_first() =~= s.drop_first().push(e));
        lemma_lookup_push(s.drop_first(), e, q);
    }
}

proof fn lemma_observations_prefix(input: DockerInputView, address: Seq<char>, cs: Seq<ContainerView>, i: int)
    requires
        0 <= i < cs.len(),
    ensures
        observations(input, address, cs.take(i + 1)) == (match observation(input, address, cs[i]) {
            Some(e) => observations(input, address, cs.take(i)).push(e),
            None => observations(input, address, cs.take(i)),
        }),
{
    assert(cs.take(i + 1).drop_last() =~= cs.take(i));
}

proof fn lemma_clash_persists(
    known: Seq<(Seq<char>, ObservedView)>,
    input: DockerInputView,
    address: Seq<char>,
    cs: Seq<ContainerView>,
    i: int,
    k: Seq<char>,
)
    requires
        0 <= i <= cs.len(),
        first_clash(known, observations(input, address, cs.take(i))) == Some(k),
    ensures
        first_clash(known, observations(input, address, cs)) == Some(k),
    decreases cs.len() - i,
{
    if i < cs.len() {
        lemma_observations_prefix(input, address, cs, i);
        let o = observations(input, address, cs.take(i));
        if let Some(e) = observation(input, address, cs[i]) {
            assert(o.push(e).drop_last() =~= o);
        }
        lemma_clash_persists(known, input, address, cs, i + 1, k);
    } else {
        assert(cs.take(i) =~= cs);
    }
}

/// Records the containers of one listing of an input's Docker address.
/// A container whose key is already recorded, or repeats within the listing,
/// is rejected.
pub fn record_listing(
    snapshot: &mut Snapshot,
    input: &DockerInput,
    address: &str,
    containers: &Vec<ContainerSummary>,
) -> (r: Result<(), ObserveError>)
    ensures
        ({
            let obs = observations(
                input@,
                address@,
                containers@.map_values(|c: ContainerSummary| c@),
            );
            match r {
                Ok(()) => first_clash(old(snapshot)@, obs) is None && forall|k: Seq<char>|
                    lookup(final(snapshot)@, k) == merged(old(snapshot)@, obs, k),
                Err(ObserveError::DuplicateContainer { key }) => first_clash(
                    old(snapshot)@,
                    obs,
                ) == Some(key@) && final(snapshot)@ == old(snapshot)@,
            }
        }),
{
    let mut next = snapshot.copy();
    let r = record_into(&mut next, input, address, containers);
    if r.is_ok() {
        *snapshot = next;
    }
    r
}

/// Adds the observations of one listing to `snapshot`, stopping at the first
/// duplicate key.
fn record_into(
    snapshot: &mut Snapshot,
    input: &DockerInput,
    address: &str,
    containers: &Vec<ContainerSummary>,
) -> (r: Result<(), ObserveError>)
    ensures
        ({
            let obs = observations(
                input@,
                address@,
                containers@.map_values(|c: ContainerSummary| c@),
            );
            match r {
                Ok(()) => first_clash(old(snapshot)@, obs) is None && forall|k: Seq<char>|
                    lookup(final(snapshot)@, k) == merged(old(snapshot)@, obs, k),
                Err(ObserveError::DuplicateContainer { key }) => first_clash(
                    old(snapshot)@,
                    obs,
                ) == Some(key@),
            }
        }),
{
    let ghost known = snapshot@;
    let ghost cs = containers@.map_values(|c: ContainerSummary| c@);
    let mut i: usize = 0;
    assert(cs.take(0) =~= Seq::<ContainerView>::empty());
    while i < containers.len()
        invariant
            i <= containers.len(),
            cs == containers@.map_values(|c: ContainerSummary| c@),
            known == old(snapshot)@,
            first_clash(known, observations(input@, address@, cs.take(i as int))) is None,
            forall|k: Seq<char>|
                lookup(snapshot@, k) == merged(
                    known,
                    observations(input@, address@, cs.take(i as int)),
                    k,
                ),
        decreases containers.len() - i,
    {
        proof {
            lemma_observations_prefix(input@, address@, cs, i as int);
        }
        assert(cs[i as int] == containers@[i as int]@);
        let ghost op = observations(input@, address@, cs.take(i as int));
        match observe(input, address, &containers[i]) {
            None => {},
            Some((k, o)) => {
                let ghost e = (k@, o@);
                let ghost before = snapshot@;
                let ghost kv = k@;
                let key_copy = k.clone();
                let inserted = snapshot.insert(k, o);
                assert(op.push(e).drop_last() =~= op);
                if !inserted {
                    proof {
                        lemma_clash_persists(known, input@, address@, cs, i + 1, kv);
                    }
                    return Err(ObserveError::DuplicateContainer { key: key_copy });
                }
                proof {
                    assert forall|q: Seq<char>| lookup(snapshot@, q) == merged(known, op.push(e), q) by {
                        lemma_lookup_push(op, e, q);
                    }
                }
            },
        }
        i = i + 1;
    }
    assert(cs.take(containers.len() as int) =~= cs);
    Ok(())
}

} // verus!
