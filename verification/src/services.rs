//! Services that the agent reports: Docker containers and systemd units.
use vstd::prelude::*;

use crate::text::{
    chars_eq_str, chars_of, lines, lines_of, parse_u64, parse_u64_spec, split_whitespace,
    string_from_chars, string_from_str, views, words_of,
};

verus! {

/// The kind of service a [`ServiceInfo`] describes.
#[derive(Debug, Clone, Copy, PartialEq, Eq, Structural)]
pub enum ServiceKind {
    Docker,
    Podman,
    Systemd,
    Other,
}

impl ServiceKind {
    /// The kind a service has when nothing else is known of it.
    pub fn default_kind() -> (k: ServiceKind)
        ensures
            k == ServiceKind::Other,
    {
        ServiceKind::Other
    }
}

/// General representation of any service the agent monitors:
/// Docker container, Podman container, systemd unit, etc.
#[derive(Debug, Clone)]
pub struct ServiceInfo {
    pub name: String,
    pub kind: ServiceKind,
    pub status: String,
    pub uptime_secs: u64,
    pub restart_count: u32,
}

/// The mathematical value of a [`ServiceInfo`].
pub struct ServiceInfoView {
    pub name: Seq<char>,
    pub kind: ServiceKind,
    pub status: Seq<char>,
    pub uptime_secs: u64,
    pub restart_count: u32,
}

impl View for ServiceInfo {
    type V = ServiceInfoView;

    open spec fn view(&self) -> ServiceInfoView {
        ServiceInfoView {
            name: self.name@,
            kind: self.kind,
            status: self.status@,
            uptime_secs: self.uptime_secs,
            restart_count: self.restart_count,
        }
    }
}

/// The views of a sequence of services.
pub open spec fn service_views(v: Seq<ServiceInfo>) -> Seq<ServiceInfoView> {
    v.map_values(|x: ServiceInfo| x@)
}

// ---------------------------------------------------------------------------
// Docker `RunningFor` durations
// ---------------------------------------------------------------------------

/// The number of seconds in one unit named by `unit`, as `docker ps` writes
/// them; `0` for a unit it does not know.
pub open spec fn unit_seconds(unit: Seq<char>) -> nat {
    if unit == "seconds"@ || unit == "second"@ {
        1
    } else if unit == "minutes"@ || unit == "minute"@ {
        60
    } else if unit == "hours"@ || unit == "hour"@ {
        3600
    } else if unit == "days"@ || unit == "day"@ {
        86400
    } else {
        0
    }
}

/// The uptime in seconds that a `RunningFor` text such as `"5 minutes"`
/// denotes: a number and a unit as its first two words; `0` when either is
/// missing or not understood.
pub open spec fn running_for_value(val: Option<Seq<char>>) -> nat {
    match val {
        None => 0,
        Some(t) => {
            let parts = words_of(t);
            if parts.len() >= 2 {
                match parse_u64_spec(parts[0]) {
                    Some(n) => n as nat * unit_seconds(parts[1]),
                    None => 0,
                }
            } else {
                0
            }
        },
    }
}

/// The view of an optional string.
pub open spec fn opt_view(v: Option<String>) -> Option<Seq<char>> {
    match v {
        Some(s) => Some(s@),
        None => None,
    }
}

/// The number of seconds in one unit.
fn unit_factor(unit: &[char]) -> (r: u64)
    ensures
        r == unit_seconds(unit@),
{
    proof {
        reveal_strlit("seconds");
        reveal_strlit("second");
        reveal_strlit("minutes");
        reveal_strlit("minute");
        reveal_strlit("hours");
        reveal_strlit("hour");
        reveal_strlit("days");
        reveal_strlit("day");
    }
    if chars_eq_str(unit, "seconds") || chars_eq_str(unit, "second") {
        1
    } else if chars_eq_str(unit, "minutes") || chars_eq_str(unit, "minute") {
        60
    } else if chars_eq_str(unit, "hours") || chars_eq_str(unit, "hour") {
        3600
    } else if chars_eq_str(unit, "days") || chars_eq_str(unit, "day") {
        86400
    } else {
        0
    }
}

/// Whether the uptime of a `RunningFor` text fits in a `u64`; where it does
/// not, the computation of [`parse_running_for`] overflows.
pub fn running_for_fits(val: &Option<String>) -> (r: bool)
    ensures
        r == (running_for_value(opt_view(*val)) <= u64::MAX),
{
    match val {
        None => {
            assert(running_for_value(opt_view(*val)) == 0);
            true
        },
        Some(v) => {
            let cs = chars_of(v.as_str());
            let parts = split_whitespace(cs.as_slice());
            if parts.len() >= 2 {
                assert(parts@[0]@ == words_of(v@)[0]);
                assert(parts@[1]@ == words_of(v@)[1]);
                match parse_u64(parts[0].as_slice()) {
                    Some(n) => {
                        let f = unit_factor(parts[1].as_slice());
                        proof {
                            if f > 0 {
                                assert(n <= u64::MAX / f <==> n * f <= u64::MAX) by (nonlinear_arith)
                                    requires
                                        f > 0,
                                ;
                            }
                        }
                        f == 0 || n <= u64::MAX / f
                    },
                    None => true,
                }
            } else {
                true
            }
        },
    }
}

/// Uptime in seconds from Docker's human-readable `RunningFor` field
/// (`"30 seconds"`, `"2 hours"`, `"3 days"`); `0` when it is absent or not
/// understood.
pub fn parse_running_for(val: &Option<String>) -> (r: u64)
    requires
        running_for_value(opt_view(*val)) <= u64::MAX,
    ensures
        r == running_for_value(opt_view(*val)),
{
    match val {
        None => 0,
        Some(v) => {
            let cs = chars_of(v.as_str());
            let parts = split_whitespace(cs.as_slice());
            if parts.len() >= 2 {
                assert(parts@[0]@ == words_of(v@)[0]);
                assert(parts@[1]@ == words_of(v@)[1]);
                match parse_u64(parts[0].as_slice()) {
                    Some(n) => {
                        let f = unit_factor(parts[1].as_slice());
                        n * f
                    },
                    None => 0,
                }
            } else {
                0
            }
        },
    }
}

// ---------------------------------------------------------------------------
// Docker containers
// ---------------------------------------------------------------------------

/// The fields of one line of `docker ps --format '{{json .}}'` that the agent reads.
#[derive(Debug, Clone)]
pub struct ContainerJson {
    pub names: Option<Vec<String>>,
    pub state: Option<String>,
    pub running_for: Option<String>,
    pub restart_count: Option<u32>,
}

/// The service a container record describes.
pub open spec fn container_service(c: ContainerJson, kind: ServiceKind) -> ServiceInfoView {
    ServiceInfoView {
        name: match c.names {
            Some(n) => if n@.len() > 0 {
                n@[0]@
            } else {
                Seq::empty()
            },
            None => Seq::empty(),
        },
        kind: kind,
        status: match c.state {
            Some(s) => s@,
            None => "unknown"@,
        },
        uptime_secs: running_for_value(opt_view(c.running_for)) as u64,
        restart_count: match c.restart_count {
            Some(n) => n,
            None => 0,
        },
    }
}

/// The uptime of every record fits in a `u64`.
pub open spec fn containers_fit(records: Seq<Option<ContainerJson>>) -> bool {
    forall|i: int|
        0 <= i < records.len() && (#[trigger] records[i]) is Some ==> running_for_value(
            opt_view(records[i]->0.running_for),
        ) <= u64::MAX
}

/// The services that a list of parsed `docker ps` lines describes; lines that
/// did not parse (`None`) are skipped.
pub open spec fn container_services(records: Seq<Option<ContainerJson>>, kind: ServiceKind) -> Seq<
    ServiceInfoView,
>
    decreases records.len(),
{
    if records.len() == 0 {
        seq![]
    } else {
        let prev = container_services(records.drop_last(), kind);
        match records.last() {
            Some(c) => prev.push(container_service(c, kind)),
            None => prev,
        }
    }
}

impl ServiceInfo {
    /// The service that one container record describes.
    pub fn from_container(c: &ContainerJson, kind: ServiceKind) -> (r: ServiceInfo)
        requires
            running_for_value(opt_view(c.running_for)) <= u64::MAX,
        ensures
            r@ == container_service(*c, kind),
    {
        let uptime_secs = parse_running_for(&c.running_for);
        let name = match &c.names {
            Some(n) => if n.len() > 0 {
                n[0].clone()
            } else {
                String::new()
            },
            None => String::new(),
        };
        let status = match &c.state {
            Some(s) => s.clone(),
            None => string_from_str("unknown"),
        };
        let restart_count = match c.restart_count {
            Some(n) => n,
            None => 0,
        };
        ServiceInfo { name, kind, status, uptime_secs, restart_count }
    }
}

/// The services that the parsed lines of `docker ps` describe, in line order;
/// lines that did not parse as a container record (`None`) are skipped.
pub fn parse_containers(records: Vec<Option<ContainerJson>>, kind: ServiceKind) -> (r: Vec<
    ServiceInfo,
>)
    requires
        containers_fit(records@),
    ensures
        service_views(r@) == container_services(records@, kind),
{
    let mut out: Vec<ServiceInfo> = Vec::new();
    let mut i: usize = 0;
    while i < records.len()
        invariant
            i <= records.len(),
            containers_fit(records@),
            service_views(out@) == container_services(records@.take(i as int), kind),
        decreases records.len() - i,
    {
        let ghost before = out@;
        assert(records@.take(i + 1).drop_last() =~= records@.take(i as int));
        match &records[i] {
            Some(c) => {
                assert(records@[i as int] is Some);
                assert(running_for_value(opt_view(records@[i as int]->0.running_for)) <= u64::MAX);
                let svc = ServiceInfo::from_container(c, kind);
                out.push(svc);
                assert(service_views(out@) =~= service_views(before).push(svc@));
            },
            None => {},
        }
        i = i + 1;
    }
    assert(records@.take(records.len() as int) =~= records@);
    out
}

// ---------------------------------------------------------------------------
// systemd units
// ---------------------------------------------------------------------------

/// The services listed by `systemctl list-units --no-legend`, one per line
/// with at least four words: the unit name is the first word and the status
/// the fourth; shorter lines are skipped.
pub open spec fn systemd_services(ls: Seq<Seq<char>>) -> Seq<ServiceInfoView>
    decreases ls.len(),
{
    if ls.len() == 0 {
        seq![]
    } else {
        let prev = systemd_services(ls.drop_last());
        let w = words_of(ls.last());
        if w.len() >= 4 {
            prev.push(
                ServiceInfoView {
                    name: w[0],
                    kind: ServiceKind::Systemd,
                    status: w[3],
                    uptime_secs: 0,
                    restart_count: 0,
                },
            )
        } else {
            prev
        }
    }
}

/// Parses the output of `systemctl list-units --type=service --no-pager --no-legend`.
pub fn parse_systemd_services(output: &str) -> (r: Vec<ServiceInfo>)
    ensures
        service_views(r@) == systemd_services(lines_of(output@)),
{
    let cs = chars_of(output);
    let ls = lines(cs.as_slice());
    let ghost lv = views(ls@);
    let mut out: Vec<ServiceInfo> = Vec::new();
    let mut i: usize = 0;
    while i < ls.len()
        invariant
            i <= ls.len(),
            lv == views(ls@),
            lv == lines_of(output@),
            service_views(out@) == systemd_services(lv.take(i as int)),
        decreases ls.len() - i,
    {
        let ghost before = out@;
        assert(lv.take(i + 1).drop_last() =~= lv.take(i as int));
        assert(lv.take(i + 1).last() == ls@[i as int]@);
        let parts = split_whitespace(ls[i].as_slice());
        if parts.len() >= 4 {
            let svc = ServiceInfo {
                name: string_from_chars(parts[0].as_slice()),
                kind: ServiceKind::Systemd,
                status: string_from_chars(parts[3].as_slice()),
                uptime_secs: 0,
                restart_count: 0,
            };
            assert(parts@[0]@ == views(parts@)[0]);
            assert(parts@[3]@ == views(parts@)[3]);
            out.push(svc);
            assert(service_views(out@) =~= service_views(before).push(svc@));
        }
        i = i + 1;
    }
    assert(lv.take(ls.len() as int) =~= lv);
    out
}

/// Appends the services of `more` to `all`.
fn append_services(all: &mut Vec<ServiceInfo>, more: Vec<ServiceInfo>)
    ensures
        service_views(final(all)@) == service_views(old(all)@) + service_views(more@),
{
    let ghost start = service_views(all@);
    let mut i: usize = 0;
    while i < more.len()
        invariant
            i <= more.len(),
            service_views(all@) == start + service_views(more@).take(i as int),
        decreases more.len() - i,
    {
        let ghost before = service_views(all@);
        let s = ServiceInfo {
            name: more[i].name.clone(),
            kind: more[i].kind,
            status: more[i].status.clone(),
            uptime_secs: more[i].uptime_secs,
            restart_count: more[i].restart_count,
        };
        assert(s@ == more@[i as int]@);
        all.push(s);
        assert(service_views(all@) =~= before.push(more@[i as int]@));
        assert(service_views(more@).take(i + 1) =~= service_views(more@).take(i as int).push(
            more@[i as int]@,
        ));
        i = i + 1;
    }
    assert(service_views(more@).take(more.len() as int) =~= service_views(more@));
}

/// The services a source reported, none where its collection failed.
pub open spec fn opt_services(o: Option<Vec<ServiceInfo>>) -> Seq<ServiceInfoView> {
    match o {
        Some(v) => service_views(v@),
        None => Seq::empty(),
    }
}

/// The services of a node: Docker's, then Podman's, then systemd's; a
/// source whose collection failed (none) contributes nothing.
pub fn collect_all_services(
    docker: Option<Vec<ServiceInfo>>,
    podman: Option<Vec<ServiceInfo>>,
    systemd: Option<Vec<ServiceInfo>>,
) -> (r: Vec<ServiceInfo>)
    ensures
        service_views(r@) == opt_services(docker) + opt_services(podman) + opt_services(systemd),
{
    let ghost dv = opt_services(docker);
    let ghost pv = opt_services(podman);
    let ghost sv = opt_services(systemd);
    let mut all: Vec<ServiceInfo> = Vec::new();
    assert(service_views(all@) =~= Seq::<ServiceInfoView>::empty());
    match docker {
        Some(v) => append_services(&mut all, v),
        None => {},
    }
    assert(service_views(all@) =~= dv);
    match podman {
        Some(v) => append_services(&mut all, v),
        None => {},
    }
    assert(service_views(all@) =~= dv + pv);
    match systemd {
        Some(v) => append_services(&mut all, v),
        None => {},
    }
    assert(service_views(all@) =~= dv + pv + sv);
    all
}

} // verus!
