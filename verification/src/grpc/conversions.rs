//! Specs from the client interface, made into the orchestrator's own.
use std::sync::Arc;

use vstd::prelude::*;

use crate::grpc::proto;
use crate::grpc::status::{invalid, invalid_value, outcome, Code, Status, StatusView};
use crate::ids::{ServiceId, WorkloadId};
use crate::scan::{address, parse_ipv4, split, split_once, split_text, split_text_once, texts};
use crate::sorted_map::{Key, SortedMap};
use crate::text::{chars_of, number, parse_number};
use crate::types::{
    ActivationSpec, ActivatorConfig, ContainerConfig, ContainerSpec, NamespaceSpec, NetworkConfig,
    PodNetworkConfig, ResourceRequirements, ServicePolicy, ServiceSpec, WorkloadSpec,
};

verus! {

// ---- numbers and addresses --------------------------------------------------------------------

fn parse_decimal(s: &str, max: u64) -> (r: Option<u64>)
    ensures
        match r {
            Some(v) => number(s@, 10, max as nat) == Some(v as nat) && v <= max,
            None => number(s@, 10, max as nat) is None,
        },
{
    let text: Vec<char> = chars_of(s);
    proof {
        assert(text@.subrange(0, text.len() as int) =~= s@);
    }
    parse_number(&text, 0, text.len(), 10, max)
}

/// The network that a subnet in CIDR notation stands for: its gateway is the address after the
/// subnet's.
pub open spec fn network_of(subnet: Seq<char>) -> Result<NetworkConfig, StatusView> {
    let parts = split(subnet, '/');
    if parts.len() != 2 {
        Err(invalid("invalid subnet format: '"@ + subnet + "', expected CIDR notation"@))
    } else {
        match address(parts[0]) {
            None => Err(invalid("invalid subnet IP: '"@ + parts[0] + "'"@)),
            Some(ip) => match number(parts[1], 10, 255) {
                None => Err(invalid("invalid prefix length: '"@ + parts[1] + "'"@)),
                Some(bits) => Ok(
                    NetworkConfig {
                        subnet: ip,
                        gateway: (ip + 1) as u32,
                        prefix_len: bits as u8,
                        segment_id: None,
                    },
                ),
            },
        }
    }
}

/// The subnet, if it is one, leaves an address for its gateway.
pub open spec fn has_gateway(subnet: Seq<char>) -> bool {
    network_of(subnet) matches Ok(n) ==> n.subnet < u32::MAX
}

/// Reads a network: `10.0.0.0/24` gives the subnet 10.0.0.0, the gateway 10.0.0.1 and the prefix
/// length 24.
pub fn parse_network_config(subnet: &str) -> (r: Result<NetworkConfig, Status>)
    requires
        has_gateway(subnet@),
    ensures
        outcome(r) == network_of(subnet@),
{
    match read_subnet(subnet) {
        Err(e) => Err(e),
        Ok((ip, bits)) => Ok(
            NetworkConfig { subnet: ip, gateway: ip + 1, prefix_len: bits, segment_id: None },
        ),
    }
}

fn read_subnet(subnet: &str) -> (r: Result<(u32, u8), Status>)
    ensures
        match r {
            Ok((ip, bits)) => network_of(subnet@) is Ok && network_of(subnet@)->Ok_0.subnet == ip
                && network_of(subnet@)->Ok_0.prefix_len == bits,
            Err(e) => network_of(subnet@) == Err::<NetworkConfig, StatusView>(e@),
        },
{
    let parts: Vec<&str> = split_text(subnet, '/');
    proof {
        assert(texts(parts@).len() == parts@.len());
        assert forall|i: int| 0 <= i < parts@.len() implies texts(parts@)[i] == #[trigger] parts@[i]@ by {
        }
    }
    if parts.len() != 2 {
        return Err(
            invalid_value("invalid subnet format: '", subnet, "', expected CIDR notation"),
        );
    }
    match parse_ipv4(parts[0]) {
        None => Err(invalid_value("invalid subnet IP: '", parts[0], "'")),
        Some(ip) => match parse_decimal(parts[1], 255) {
            None => Err(invalid_value("invalid prefix length: '", parts[1], "'")),
            Some(bits) => Ok((ip, bits as u8)),
        },
    }
}

/// Whether a subnet, if it is one, leaves an address for its gateway.
pub fn leaves_gateway(subnet: &str) -> (r: bool)
    ensures
        r == has_gateway(subnet@),
{
    match read_subnet(subnet) {
        Ok((ip, _)) => ip < u32::MAX,
        Err(_) => true,
    }
}

/// What `make` makes of each, or the first refusal.
pub open spec fn each_of<T, U>(
    s: Seq<T>,
    make: spec_fn(T) -> Result<U, StatusView>,
) -> Result<Seq<U>, StatusView>
    decreases s.len(),
{
    if s.len() == 0 {
        Ok(Seq::empty())
    } else {
        match each_of(s.drop_last(), make) {
            Err(e) => Err(e),
            Ok(head) => match make(s.last()) {
                Err(e) => Err(e),
                Ok(u) => Ok(head.push(u)),
            },
        }
    }
}

/// The first refusal is that of the whole.
proof fn lemma_each_fails<T, U>(s: Seq<T>, make: spec_fn(T) -> Result<U, StatusView>, n: int)
    requires
        0 <= n <= s.len(),
        each_of(s.take(n), make) is Err,
    ensures
        each_of(s, make) == each_of(s.take(n), make),
    decreases s.len() - n,
{
    if n == s.len() {
        assert(s.take(n) =~= s);
    } else {
        assert(s.take(n + 1).drop_last() =~= s.take(n));
        lemma_each_fails(s, make, n + 1);
    }
}

/// What `make` makes of each by its name, or the first refusal. The last entry of a name counts.
pub open spec fn named_of<T, U>(
    s: Seq<(String, T)>,
    make: spec_fn(T) -> Result<U, StatusView>,
) -> Result<Map<Seq<char>, U>, StatusView>
    decreases s.len(),
{
    if s.len() == 0 {
        Ok(Map::empty())
    } else {
        match named_of(s.drop_last(), make) {
            Err(e) => Err(e),
            Ok(m) => match make(s.last().1) {
                Err(e) => Err(e),
                Ok(u) => Ok(m.insert(s.last().0@, u)),
            },
        }
    }
}

/// The first refusal is that of the whole.
proof fn lemma_named_fails<T, U>(
    s: Seq<(String, T)>,
    make: spec_fn(T) -> Result<U, StatusView>,
    n: int,
)
    requires
        0 <= n <= s.len(),
        named_of(s.take(n), make) is Err,
    ensures
        named_of(s, make) == named_of(s.take(n), make),
    decreases s.len() - n,
{
    if n == s.len() {
        assert(s.take(n) =~= s);
    } else {
        assert(s.take(n + 1).drop_last() =~= s.take(n));
        lemma_named_fails(s, make, n + 1);
    }
}

/// A table of what `convert` makes of each under the key that `key` makes of its name, or the first
/// refusal.
fn convert_named<
    K: Key<Id = Seq<char>>,
    T,
    W,
    U,
    N: Fn(&String) -> K,
    F: Fn(&T) -> Result<W, Status>,
>(
    list: &Vec<(String, T)>,
    key: N,
    convert: F,
    Ghost(make): Ghost<spec_fn(T) -> Result<U, StatusView>>,
    Ghost(view): Ghost<spec_fn(W) -> U>,
) -> (r: Result<SortedMap<K, W>, Status>)
    requires
        forall|n: &String| #[trigger] call_requires(key, (n,)),
        forall|n: &String, k: K| #[trigger] call_ensures(key, (n,), k) ==> k.id() == n@,
        forall|t: &T| #[trigger] call_requires(convert, (t,)),
        forall|t: &T, r: Result<W, Status>| #[trigger]
            call_ensures(convert, (t,), r) ==> match r {
                Ok(w) => make(*t) == Ok::<U, StatusView>(view(w)),
                Err(e) => make(*t) == Err::<U, StatusView>(e@),
            },
    ensures
        match r {
            Ok(v) => named_of(list@, make) == Ok::<Map<Seq<char>, U>, StatusView>(
                v@.map_values(view),
            ),
            Err(e) => named_of(list@, make) == Err::<Map<Seq<char>, U>, StatusView>(e@),
        },
{
    let mut r: SortedMap<K, W> = SortedMap::new();
    let mut i: usize = 0;
    proof {
        assert(r@.map_values(view) =~= Map::empty());
    }
    while i < list.len()
        invariant
            i <= list.len(),
            named_of(list@.take(i as int), make) == Ok::<Map<Seq<char>, U>, StatusView>(
                r@.map_values(view),
            ),
            forall|n: &String| #[trigger] call_requires(key, (n,)),
            forall|n: &String, k: K| #[trigger] call_ensures(key, (n,), k) ==> k.id() == n@,
            forall|t: &T| #[trigger] call_requires(convert, (t,)),
            forall|t: &T, r: Result<W, Status>| #[trigger]
                call_ensures(convert, (t,), r) ==> match r {
                    Ok(w) => make(*t) == Ok::<U, StatusView>(view(w)),
                    Err(e) => make(*t) == Err::<U, StatusView>(e@),
                },
        decreases list.len() - i,
    {
        proof {
            assert(list@.take(i + 1).drop_last() =~= list@.take(i as int));
        }
        match convert(&list[i].1) {
            Err(e) => {
                proof {
                    lemma_named_fails(list@, make, i + 1);
                }
                return Err(e);
            },
            Ok(w) => {
                let ghost before = r@;
                r.insert(key(&list[i].0), w);
                proof {
                    assert(r@.map_values(view) =~= before.map_values(view).insert(
                        list@[i as int].0@,
                        view(w),
                    ));
                }
            },
        }
        i = i + 1;
    }
    proof {
        assert(list@.take(i as int) =~= list@);
    }
    Ok(r)
}

/// The byte that a part writes in hexadecimal.
pub open spec fn mac_byte(part: Seq<char>) -> Result<u8, StatusView> {
    match number(part, 16, 255) {
        Some(b) => Ok(b as u8),
        None => Err(invalid("invalid MAC address byte: '"@ + part + "'"@)),
    }
}

/// The bytes that the parts write in hexadecimal.
pub open spec fn mac_bytes(parts: Seq<Seq<char>>) -> Result<Seq<u8>, StatusView> {
    each_of(parts, |part: Seq<char>| mac_byte(part))
}

/// The hardware address that `s` writes: six hexadecimal bytes between colons.
pub open spec fn mac_of_text(s: Seq<char>) -> Result<Seq<u8>, StatusView> {
    let parts = split(s, ':');
    if parts.len() != 6 {
        Err(invalid("invalid MAC address: '"@ + s + "'"@))
    } else {
        mac_bytes(parts)
    }
}

/// Reads a hardware address: six hexadecimal bytes between colons.
pub fn parse_mac(mac: &str) -> (r: Result<[u8; 6], Status>)
    ensures
        match r {
            Ok(m) => mac_of_text(mac@) == Ok::<Seq<u8>, StatusView>(m@),
            Err(e) => mac_of_text(mac@) == Err::<Seq<u8>, StatusView>(e@),
        },
{
    let parts: Vec<&str> = split_text(mac, ':');
    proof {
        assert(texts(parts@).len() == parts@.len());
    }
    if parts.len() != 6 {
        return Err(invalid_value("invalid MAC address: '", mac, "'"));
    }
    let mut r: [u8; 6] = [0u8; 6];
    let mut i: usize = 0;
    proof {
        assert(r@.take(0) =~= Seq::empty());
        assert(texts(parts@).take(0) =~= Seq::empty());
    }
    while i < 6
        invariant
            i <= 6,
            parts.len() == 6,
            texts(parts@) == split(mac@, ':'),
            mac_bytes(texts(parts@).take(i as int)) == Ok::<Seq<u8>, StatusView>(r@.take(i as int)),
        decreases 6 - i,
    {
        let ghost all = texts(parts@);
        proof {
            assert(all.take(i + 1).drop_last() =~= all.take(i as int));
            assert(all.take(i + 1).last() == parts@[i as int]@);
        }
        let part: Vec<char> = chars_of(parts[i]);
        proof {
            assert(part@.subrange(0, part.len() as int) =~= parts@[i as int]@);
        }
        match parse_number(&part, 0, part.len(), 16, 255) {
            None => {
                proof {
                    lemma_each_fails(all, |part: Seq<char>| mac_byte(part), i + 1);
                    assert(all.take(6) =~= all);
                }
                return Err(invalid_value("invalid MAC address byte: '", parts[i], "'"));
            },
            Some(b) => {
                let ghost before = r@;
                r[i] = b as u8;
                proof {
                    assert(r@.take(i + 1) =~= before.take(i as int).push(b as u8));
                }
            },
        }
        i = i + 1;
    }
    proof {
        assert(texts(parts@).take(6) =~= texts(parts@));
        assert(r@.take(6) =~= r@);
    }
    Ok(r)
}

/// The user and group that a user field names: `uid:gid` or `uid`.
pub open spec fn user_of(user: Seq<char>) -> Result<(Option<u32>, Option<u32>), StatusView> {
    match split_once(user, ':') {
        Some((uid, gid)) => match number(uid, 10, 0xffff_ffff) {
            None => Err(invalid("non-numeric uid: '"@ + uid + "'"@)),
            Some(u) => match number(gid, 10, 0xffff_ffff) {
                None => Err(invalid("non-numeric gid: '"@ + gid + "'"@)),
                Some(g) => Ok((Some(u as u32), Some(g as u32))),
            },
        },
        None => match number(user, 10, 0xffff_ffff) {
            None => Err(invalid("non-numeric user: '"@ + user + "'"@)),
            Some(u) => Ok((Some(u as u32), None)),
        },
    }
}

/// Reads a user field: `uid:gid` or `uid`.
pub fn parse_user_field(user: &str) -> (r: Result<(Option<u32>, Option<u32>), Status>)
    ensures
        outcome(r) == user_of(user@),
{
    match split_text_once(user, ':') {
        Some((uid, gid)) => match parse_decimal(uid, 0xffff_ffff) {
            None => Err(invalid_value("non-numeric uid: '", uid, "'")),
            Some(u) => match parse_decimal(gid, 0xffff_ffff) {
                None => Err(invalid_value("non-numeric gid: '", gid, "'")),
                Some(g) => Ok((Some(u as u32), Some(g as u32))),
            },
        },
        None => match parse_decimal(user, 0xffff_ffff) {
            None => Err(invalid_value("non-numeric user: '", user, "'")),
            Some(u) => Ok((Some(u as u32), None)),
        },
    }
}

// ---- specs ------------------------------------------------------------------------------------

/// A container with its lists and composed texts as sequences.
#[verifier::ext_equal]
pub struct ContainerView {
    pub container_id: String,
    pub image_ref: String,
    pub entrypoint: Seq<String>,
    pub args: Seq<String>,
    pub env: Seq<Seq<char>>,
    pub working_dir: Option<String>,
    pub uid: Option<u32>,
    pub gid: Option<u32>,
    pub hostname: Option<String>,
    pub capture_output: bool,
    pub stdin: bool,
}

pub open spec fn container_view(c: ContainerSpec) -> ContainerView {
    ContainerView {
        container_id: c.container_id,
        image_ref: c.image_ref,
        entrypoint: c.config.entrypoint@,
        args: c.config.args@,
        env: c.config.env@.map_values(|e: String| e@),
        working_dir: c.config.working_dir,
        uid: c.config.uid,
        gid: c.config.gid,
        hostname: c.config.hostname,
        capture_output: c.config.capture_output,
        stdin: c.config.stdin,
    }
}

/// A text, unless it is empty.
pub open spec fn nonempty(s: String) -> Option<String> {
    if s@.len() == 0 {
        None
    } else {
        Some(s)
    }
}

/// Environment variables as `name=value`.
pub open spec fn env_of(env: Seq<(String, String)>) -> Seq<Seq<char>> {
    env.map_values(|e: (String, String)| e.0@ + "="@ + e.1@)
}

/// The container that a client asks for: its output is captured and its input closed.
pub open spec fn container_of(c: proto::ContainerSpec) -> Result<ContainerView, StatusView> {
    match c.config {
        None => Ok(
            ContainerView {
                container_id: c.name,
                image_ref: c.image,
                entrypoint: Seq::empty(),
                args: Seq::empty(),
                env: Seq::empty(),
                working_dir: None,
                uid: None,
                gid: None,
                hostname: None,
                capture_output: true,
                stdin: false,
            },
        ),
        Some(config) => {
            let user = if config.user@.len() == 0 {
                Ok((None, None))
            } else {
                user_of(config.user@)
            };
            match user {
                Err(e) => Err(e),
                Ok((uid, gid)) => Ok(
                    ContainerView {
                        container_id: c.name,
                        image_ref: c.image,
                        entrypoint: config.entrypoint@,
                        args: config.args@,
                        env: env_of(config.env@),
                        working_dir: nonempty(config.working_dir),
                        uid,
                        gid,
                        hostname: nonempty(config.hostname),
                        capture_output: true,
                        stdin: false,
                    },
                ),
            }
        },
    }
}

fn clone_list(list: &Vec<String>) -> (r: Vec<String>)
    ensures
        r@ == list@,
{
    let mut r: Vec<String> = Vec::new();
    let mut i: usize = 0;
    while i < list.len()
        invariant
            i <= list.len(),
            r@ == list@.take(i as int),
        decreases list.len() - i,
    {
        r.push(list[i].clone());
        proof {
            assert(list@.take(i + 1) =~= list@.take(i as int).push(list@[i as int]));
        }
        i = i + 1;
    }
    proof {
        assert(list@.take(i as int) =~= list@);
    }
    r
}

fn env_list(env: &Vec<(String, String)>) -> (r: Vec<String>)
    ensures
        r@.map_values(|e: String| e@) == env_of(env@),
{
    let mut r: Vec<String> = Vec::new();
    let mut i: usize = 0;
    while i < env.len()
        invariant
            i <= env.len(),
            r.len() == i,
            forall|j: int| 0 <= j < i ==> (#[trigger] r@[j])@ == env@[j].0@ + "="@ + env@[j].1@,
        decreases env.len() - i,
    {
        let mut line: String = env[i].0.clone();
        line.append("=");
        line.append(env[i].1.as_str());
        r.push(line);
        i = i + 1;
    }
    proof {
        assert(r@.map_values(|e: String| e@) =~= env_of(env@));
    }
    r
}

fn present(s: &String) -> (r: Option<String>)
    ensures
        r == nonempty(*s),
{
    if s.as_str().is_empty() {
        None
    } else {
        Some(s.clone())
    }
}

/// Makes a container from what a client asks for.
pub fn convert_proto_container_spec(c: &proto::ContainerSpec) -> (r: Result<ContainerSpec, Status>)
    ensures
        match r {
            Ok(v) => container_of(*c) == Ok::<ContainerView, StatusView>(container_view(v)),
            Err(e) => container_of(*c) == Err::<ContainerView, StatusView>(e@),
        },
{
    match &c.config {
        None => {
            let config: ContainerConfig = ContainerConfig {
                entrypoint: Vec::new(),
                args: Vec::new(),
                env: Vec::new(),
                working_dir: None,
                uid: None,
                gid: None,
                hostname: None,
                capture_output: true,
                stdin: false,
            };
            let r: ContainerSpec = ContainerSpec {
                container_id: c.name.clone(),
                image_ref: c.image.clone(),
                config,
            };
            proof {
                assert(container_view(r) =~= container_of(*c)->Ok_0);
            }
            Ok(r)
        },
        Some(config) => {
            let user: Result<(Option<u32>, Option<u32>), Status> = if config.user.as_str().is_empty() {
                Ok((None, None))
            } else {
                parse_user_field(config.user.as_str())
            };
            match user {
                Err(e) => Err(e),
                Ok((uid, gid)) => {
                    let made: ContainerConfig = ContainerConfig {
                        entrypoint: clone_list(&config.entrypoint),
                        args: clone_list(&config.args),
                        env: env_list(&config.env),
                        working_dir: present(&config.working_dir),
                        uid,
                        gid,
                        hostname: present(&config.hostname),
                        capture_output: true,
                        stdin: false,
                    };
                    Ok(
                        ContainerSpec {
                            container_id: c.name.clone(),
                            image_ref: c.image.clone(),
                            config: made,
                        },
                    )
                },
            }
        },
    }
}

/// The containers of a workload, or the first refusal among them.
pub open spec fn containers_of(s: Seq<proto::ContainerSpec>) -> Result<
    Seq<ContainerView>,
    StatusView,
> {
    each_of(s, |c: proto::ContainerSpec| container_of(c))
}

fn convert_containers(list: &Vec<proto::ContainerSpec>) -> (r: Result<Vec<ContainerSpec>, Status>)
    ensures
        match r {
            Ok(v) => containers_of(list@) == Ok::<Seq<ContainerView>, StatusView>(
                v@.map_values(|c: ContainerSpec| container_view(c)),
            ),
            Err(e) => containers_of(list@) == Err::<Seq<ContainerView>, StatusView>(e@),
        },
{
    let mut r: Vec<ContainerSpec> = Vec::new();
    let mut i: usize = 0;
    proof {
        assert(r@.map_values(|c: ContainerSpec| container_view(c)) =~= Seq::empty());
    }
    while i < list.len()
        invariant
            i <= list.len(),
            containers_of(list@.take(i as int)) == Ok::<Seq<ContainerView>, StatusView>(
                r@.map_values(|c: ContainerSpec| container_view(c)),
            ),
        decreases list.len() - i,
    {
        proof {
            assert(list@.take(i + 1).drop_last() =~= list@.take(i as int));
        }
        match convert_proto_container_spec(&list[i]) {
            Err(e) => {
                proof {
                    lemma_each_fails(
                        list@,
                        |c: proto::ContainerSpec| container_of(c),
                        i + 1,
                    );
                }
                return Err(e);
            },
            Ok(c) => {
                let ghost before = r@;
                r.push(c);
                proof {
                    assert(r@.map_values(|c: ContainerSpec| container_view(c)) =~= before.map_values(
                        |c: ContainerSpec| container_view(c),
                    ).push(container_view(c)));
                }
            },
        }
        i = i + 1;
    }
    proof {
        assert(list@.take(i as int) =~= list@);
    }
    Ok(r)
}

/// A workload with its lists and composed texts as sequences.
#[verifier::ext_equal]
pub struct WorkloadView {
    pub containers: Seq<ContainerView>,
    pub ip: u32,
    pub mac: Seq<u8>,
    pub gateway: u32,
    pub netmask: Seq<char>,
    pub suspend_on_idle: bool,
    pub resources: Option<ResourceRequirements>,
    pub activation: Option<ActivationSpec>,
}

pub open spec fn workload_view(w: WorkloadSpec) -> WorkloadView {
    WorkloadView {
        containers: w.containers@.map_values(|c: ContainerSpec| container_view(c)),
        ip: w.network.ip,
        mac: w.network.mac@,
        gateway: w.network.gateway,
        netmask: w.network.netmask@,
        suspend_on_idle: w.suspend_on_idle,
        resources: w.resources,
        activation: w.activation,
    }
}

/// The locally administered unicast hardware address of an IP address.
pub open spec fn mac_of_ip(ip: u32) -> Seq<u8> {
    seq![
        0x02u8,
        0x00u8,
        (ip / 0x100_0000) as u8,
        (ip / 0x1_0000 % 0x100) as u8,
        (ip / 0x100 % 0x100) as u8,
        (ip % 0x100) as u8,
    ]
}

/// The workload that a client asks for. Its gateway and netmask come from the namespace, when a pod
/// is launched.
pub open spec fn workload_of(w: proto::WorkloadSpec) -> Result<WorkloadView, StatusView> {
    match w.network {
        None => Err(invalid("workload missing network config"@)),
        Some(network) => match address(network.ip@) {
            None => Err(invalid("invalid workload IP: '"@ + network.ip@ + "'"@)),
            Some(ip) => match containers_of(w.containers@) {
                Err(e) => Err(e),
                Ok(containers) => Ok(
                    WorkloadView {
                        containers,
                        ip,
                        mac: mac_of_ip(ip),
                        gateway: 0,
                        netmask: Seq::empty(),
                        suspend_on_idle: w.suspend_on_idle,
                        resources: w.resources,
                        activation: None,
                    },
                ),
            },
        },
    }
}

/// Makes a workload from what a client asks for.
pub fn convert_proto_workload_spec(w: &proto::WorkloadSpec) -> (r: Result<WorkloadSpec, Status>)
    ensures
        match r {
            Ok(v) => workload_of(*w) == Ok::<WorkloadView, StatusView>(workload_view(v)),
            Err(e) => workload_of(*w) == Err::<WorkloadView, StatusView>(e@),
        },
{
    match &w.network {
        None => Err(Status::new(Code::InvalidArgument, "workload missing network config")),
        Some(network) => match parse_ipv4(network.ip.as_str()) {
            None => Err(invalid_value("invalid workload IP: '", network.ip.as_str(), "'")),
            Some(ip) => match convert_containers(&w.containers) {
                Err(e) => Err(e),
                Ok(containers) => {
                    let mac: [u8; 6] = [
                        0x02u8,
                        0x00u8,
                        (ip / 0x100_0000) as u8,
                        (ip / 0x1_0000 % 0x100) as u8,
                        (ip / 0x100 % 0x100) as u8,
                        (ip % 0x100) as u8,
                    ];
                    let made: WorkloadSpec = WorkloadSpec {
                        containers: Arc::new(containers),
                        network: PodNetworkConfig { ip, mac, gateway: 0, netmask: String::new() },
                        suspend_on_idle: w.suspend_on_idle,
                        resources: w.resources,
                        activation: None,
                    };
                    proof {
                        assert(mac@ =~= mac_of_ip(ip));
                        assert(made.network.netmask@ =~= Seq::empty());
                    }
                    Ok(made)
                },
            },
        },
    }
}

/// An activator with its ports as a sequence.
#[verifier::ext_equal]
pub enum ActivatorView {
    Tcp { ports: Option<Seq<u16>>, tcp_only: bool, max_flows: u32 },
    Http2,
}

/// A service with its policy laid open.
#[verifier::ext_equal]
pub struct ServiceView {
    pub workload_id: Seq<char>,
    pub ip: u32,
    pub buffer_frames: u32,
    pub timeout_ms: u64,
    pub activator: Option<ActivatorView>,
    pub activation: Option<ActivationSpec>,
}

pub open spec fn activator_view(a: ActivatorConfig) -> ActivatorView {
    match a {
        ActivatorConfig::Tcp { ports, tcp_only, max_flows } => ActivatorView::Tcp {
            ports: match ports {
                Some(p) => Some(p@),
                None => None,
            },
            tcp_only,
            max_flows,
        },
        ActivatorConfig::Http2 => ActivatorView::Http2,
    }
}

pub open spec fn service_view(s: ServiceSpec) -> ServiceView {
    ServiceView {
        workload_id: s.workload_id.0@,
        ip: s.ip,
        buffer_frames: s.policy.buffer_frames,
        timeout_ms: s.policy.timeout_ms,
        activator: match s.policy.activator {
            Some(a) => Some(activator_view(a)),
            None => None,
        },
        activation: s.activation,
    }
}

/// Ports of 16 bits: of a larger number the low bits.
pub open spec fn ports_of(ports: Seq<u32>) -> Seq<u16> {
    ports.map_values(|p: u32| (p % 0x1_0000) as u16)
}

/// The activator that a client asks for: over TCP without ports it takes every port.
pub open spec fn activator_of(a: proto::ActivationConfig) -> Option<ActivatorView> {
    match a.activator {
        None => None,
        Some(config) => match config.activator {
            None => None,
            Some(proto::Activator::Tcp { ports }) => Some(
                ActivatorView::Tcp {
                    ports: if ports@.len() == 0 {
                        None
                    } else {
                        Some(ports_of(ports@))
                    },
                    tcp_only: false,
                    max_flows: 1024,
                },
            ),
            Some(proto::Activator::Http2) => Some(ActivatorView::Http2),
        },
    }
}

/// The service that a client asks for. Frames are buffered only for a service that can sleep.
pub open spec fn service_of(s: proto::ServiceSpec) -> Result<ServiceView, StatusView> {
    match s.network {
        None => Err(invalid("service missing network config"@)),
        Some(network) => match address(network.ip@) {
            None => Err(invalid("invalid service IP: '"@ + network.ip@ + "'"@)),
            Some(ip) => match s.activation {
                None => Ok(
                    ServiceView {
                        workload_id: s.workload_id@,
                        ip,
                        buffer_frames: 0,
                        timeout_ms: 0,
                        activator: None,
                        activation: None,
                    },
                ),
                Some(act) => Ok(
                    ServiceView {
                        workload_id: s.workload_id@,
                        ip,
                        buffer_frames: 64,
                        timeout_ms: 5000,
                        activator: activator_of(act),
                        activation: Some(ActivationSpec { idle_timeout_ms: act.idle_timeout_ms }),
                    },
                ),
            },
        },
    }
}

fn convert_ports(ports: &Vec<u32>) -> (r: Vec<u16>)
    ensures
        r@ == ports_of(ports@),
{
    let mut r: Vec<u16> = Vec::new();
    let mut i: usize = 0;
    while i < ports.len()
        invariant
            i <= ports.len(),
            r@ == ports_of(ports@.take(i as int)),
        decreases ports.len() - i,
    {
        r.push((ports[i] % 0x1_0000) as u16);
        proof {
            assert(ports_of(ports@.take(i + 1)) =~= ports_of(ports@.take(i as int)).push(
                (ports@[i as int] % 0x1_0000) as u16,
            ));
        }
        i = i + 1;
    }
    proof {
        assert(ports@.take(i as int) =~= ports@);
    }
    r
}

fn convert_activator(a: &proto::ActivationConfig) -> (r: Option<ActivatorConfig>)
    ensures
        match r {
            Some(v) => activator_of(*a) == Some(activator_view(v)),
            None => activator_of(*a) is None,
        },
{
    match &a.activator {
        None => None,
        Some(config) => match &config.activator {
            None => None,
            Some(proto::Activator::Tcp { ports }) => {
                let wanted: Option<Vec<u16>> = if ports.len() == 0 {
                    None
                } else {
                    Some(convert_ports(ports))
                };
                Some(ActivatorConfig::Tcp { ports: wanted, tcp_only: false, max_flows: 1024 })
            },
            Some(proto::Activator::Http2) => Some(ActivatorConfig::Http2),
        },
    }
}

/// Makes a service from what a client asks for.
pub fn convert_proto_service_spec(s: &proto::ServiceSpec) -> (r: Result<ServiceSpec, Status>)
    ensures
        match r {
            Ok(v) => service_of(*s) == Ok::<ServiceView, StatusView>(service_view(v)),
            Err(e) => service_of(*s) == Err::<ServiceView, StatusView>(e@),
        },
{
    let ip: u32 = match &s.network {
        None => {
            return Err(Status::new(Code::InvalidArgument, "service missing network config"));
        },
        Some(network) => match parse_ipv4(network.ip.as_str()) {
            None => {
                return Err(invalid_value("invalid service IP: '", network.ip.as_str(), "'"));
            },
            Some(ip) => ip,
        },
    };
    let workload_id: WorkloadId = WorkloadId(s.workload_id.clone());
    match &s.activation {
        None => {
            let policy: ServicePolicy = ServicePolicy {
                buffer_frames: 0,
                timeout_ms: 0,
                activator: None,
            };
            Ok(ServiceSpec { workload_id, ip, policy: Arc::new(policy), activation: None })
        },
        Some(act) => {
            let policy: ServicePolicy = ServicePolicy {
                buffer_frames: 64,
                timeout_ms: 5000,
                activator: convert_activator(act),
            };
            let activation: Option<ActivationSpec> = Some(
                ActivationSpec { idle_timeout_ms: act.idle_timeout_ms },
            );
            Ok(ServiceSpec { workload_id, ip, policy: Arc::new(policy), activation })
        },
    }
}

/// The workloads of a namespace by name, or the first refusal among them.
pub open spec fn workloads_of(s: Seq<(String, proto::WorkloadSpec)>) -> Result<
    Map<Seq<char>, WorkloadView>,
    StatusView,
> {
    named_of(s, |w: proto::WorkloadSpec| workload_of(w))
}

/// The services of a namespace by name, or the first refusal among them.
pub open spec fn services_of(s: Seq<(String, proto::ServiceSpec)>) -> Result<
    Map<Seq<char>, ServiceView>,
    StatusView,
> {
    named_of(s, |w: proto::ServiceSpec| service_of(w))
}

pub open spec fn workload_views(m: Map<Seq<char>, WorkloadSpec>) -> Map<Seq<char>, WorkloadView> {
    m.map_values(|w: WorkloadSpec| workload_view(w))
}

pub open spec fn service_views(m: Map<Seq<char>, ServiceSpec>) -> Map<Seq<char>, ServiceView> {
    m.map_values(|w: ServiceSpec| service_view(w))
}

fn convert_workloads(list: &Vec<(String, proto::WorkloadSpec)>) -> (r: Result<
    SortedMap<WorkloadId, WorkloadSpec>,
    Status,
>)
    ensures
        match r {
            Ok(v) => workloads_of(list@) == Ok::<Map<Seq<char>, WorkloadView>, StatusView>(
                workload_views(v@),
            ),
            Err(e) => workloads_of(list@) == Err::<Map<Seq<char>, WorkloadView>, StatusView>(e@),
        },
{
    let key = |name: &String| -> (r: WorkloadId)
        ensures
            r.id() == name@,
        {
            WorkloadId(name.clone())
        };
    let convert = |w: &proto::WorkloadSpec| -> (r: Result<WorkloadSpec, Status>)
        ensures
            match r {
                Ok(v) => workload_of(*w) == Ok::<WorkloadView, StatusView>(workload_view(v)),
                Err(e) => workload_of(*w) == Err::<WorkloadView, StatusView>(e@),
            },
        {
            convert_proto_workload_spec(w)
        };
    convert_named::<_, _, _, WorkloadView, _, _>(
        list,
        key,
        convert,
        Ghost(|w: proto::WorkloadSpec| workload_of(w)),
        Ghost(|w: WorkloadSpec| workload_view(w)),
    )
}

fn convert_services(list: &Vec<(String, proto::ServiceSpec)>) -> (r: Result<
    SortedMap<ServiceId, ServiceSpec>,
    Status,
>)
    ensures
        match r {
            Ok(v) => services_of(list@) == Ok::<Map<Seq<char>, ServiceView>, StatusView>(
                service_views(v@),
            ),
            Err(e) => services_of(list@) == Err::<Map<Seq<char>, ServiceView>, StatusView>(e@),
        },
{
    let key = |name: &String| -> (r: ServiceId)
        ensures
            r.id() == name@,
        {
            ServiceId(name.clone())
        };
    let convert = |w: &proto::ServiceSpec| -> (r: Result<ServiceSpec, Status>)
        ensures
            match r {
                Ok(v) => service_of(*w) == Ok::<ServiceView, StatusView>(service_view(v)),
                Err(e) => service_of(*w) == Err::<ServiceView, StatusView>(e@),
            },
        {
            convert_proto_service_spec(w)
        };
    convert_named::<_, _, _, ServiceView, _, _>(
        list,
        key,
        convert,
        Ghost(|w: proto::ServiceSpec| service_of(w)),
        Ghost(|w: ServiceSpec| service_view(w)),
    )
}

/// A namespace with its workloads and services laid open.
#[verifier::ext_equal]
pub struct SpecView {
    pub network: NetworkConfig,
    pub workloads: Map<Seq<char>, WorkloadView>,
    pub services: Map<Seq<char>, ServiceView>,
}

pub open spec fn spec_view(spec: NamespaceSpec) -> SpecView {
    SpecView {
        network: spec.network,
        workloads: workload_views(spec.workloads@),
        services: service_views(spec.services@),
    }
}

/// The namespace that a client asks for, or the first refusal: of the network, of a workload, of a
/// service.
pub open spec fn spec_of(spec: proto::NamespaceSpec) -> Result<SpecView, StatusView> {
    match spec.network {
        None => Err(invalid("missing network config"@)),
        Some(n) => match network_of(n.subnet@) {
            Err(e) => Err(e),
            Ok(network) => match workloads_of(spec.workloads@) {
                Err(e) => Err(e),
                Ok(workloads) => match services_of(spec.services@) {
                    Err(e) => Err(e),
                    Ok(services) => Ok(SpecView { network, workloads, services }),
                },
            },
        },
    }
}

/// The subnet of a namespace, if it is one, leaves an address for its gateway.
pub open spec fn spec_has_gateway(spec: proto::NamespaceSpec) -> bool {
    spec.network matches Some(n) ==> has_gateway(n.subnet@)
}

/// Makes a namespace from what a client asks for.
pub fn convert_proto_spec(spec: &proto::NamespaceSpec) -> (r: Result<NamespaceSpec, Status>)
    requires
        spec_has_gateway(*spec),
    ensures
        match r {
            Ok(v) => spec_of(*spec) == Ok::<SpecView, StatusView>(spec_view(v)),
            Err(e) => spec_of(*spec) == Err::<SpecView, StatusView>(e@),
        },
{
    let network: NetworkConfig = match &spec.network {
        None => {
            return Err(Status::new(Code::InvalidArgument, "missing network config"));
        },
        Some(n) => match parse_network_config(n.subnet.as_str()) {
            Err(e) => {
                return Err(e);
            },
            Ok(network) => network,
        },
    };
    match convert_workloads(&spec.workloads) {
        Err(e) => Err(e),
        Ok(workloads) => match convert_services(&spec.services) {
            Err(e) => Err(e),
            Ok(services) => Ok(NamespaceSpec { network, workloads, services }),
        },
    }
}

// ---- what a namespace gets ----------------------------------------------------------------------

/// Two addresses with one hardware address are equal: the workloads of a segment have hardware
/// addresses of their own.
pub proof fn law_hardware_addresses_differ(a: u32, b: u32)
    requires
        mac_of_ip(a) == mac_of_ip(b),
    ensures
        a == b,
{
    let (s, t) = (mac_of_ip(a), mac_of_ip(b));
    assert(s[2] == t[2] && s[3] == t[3] && s[4] == t[4] && s[5] == t[5]);
}

} // verus!
