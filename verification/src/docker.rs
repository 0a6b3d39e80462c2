//! Running the local `docker` CLI against a device's Docker daemon through a
//! forwarded socket: where the local socket lives and how Docker is told.
use vstd::prelude::*;

use crate::clock::{duration_millis, unix_time};
use crate::text::{decimal, join_path, path_join, push_decimal, string_from_str};

verus! {

/// The `DOCKER_HOST` of a local Unix socket.
pub open spec fn docker_host_uri_of(socket: Seq<char>) -> Seq<char> {
    "unix://"@ + socket
}

/// The `DOCKER_HOST` that points the CLI at the forwarded socket.
pub fn docker_host_uri(socket: &str) -> (r: String)
    ensures
        r@ == docker_host_uri_of(socket@),
{
    let mut s = string_from_str("unix://");
    s.append(socket);
    s
}

/// The local socket of a forward to a device: in the temporary directory,
/// named after the process, the device and the time in milliseconds.
pub open spec fn local_socket_path_of(
    temp_dir: Seq<char>,
    pid: u32,
    device: Seq<char>,
    millis: u128,
) -> Seq<char> {
    join_path(
        temp_dir,
        "m87-docker-"@ + decimal(pid as nat) + "_"@ + device + "_"@ + decimal(millis as nat)
            + ".sock"@,
    )
}

/// The local socket path for the given time.
pub fn local_socket_path(temp_dir: &str, pid: u32, device: &str, millis: u128) -> (r: String)
    ensures
        r@ == local_socket_path_of(temp_dir@, pid, device@, millis),
{
    let mut name = string_from_str("m87-docker-");
    push_decimal(&mut name, pid as u64);
    name.append("_");
    name.append(device);
    name.append("_");
    push_decimal_u128(&mut name, millis);
    name.append(".sock");
    path_join(temp_dir, name.as_str())
}

/// Appends the decimal digits of a `u128`.
fn push_decimal_u128(s: &mut String, n: u128)
    ensures
        final(s)@ == old(s)@ + decimal(n as nat),
    decreases n,
{
    if n < 10 {
        crate::text::push_char(s, crate::text::digit_to_char(n as u64));
    } else {
        push_decimal_u128(s, n / 10);
        crate::text::push_char(s, crate::text::digit_to_char((n % 10) as u64));
    }
}

/// A fresh local socket path for a forward to `device`: it is unique per
/// process and millisecond.
pub fn generate_local_socket_path(temp_dir: &str, pid: u32, device: &str) -> (r: String)
    ensures
        exists|millis: u128| r@ == local_socket_path_of(temp_dir@, pid, device@, millis),
{
    let (secs, nanos) = unix_time();
    let millis = duration_millis(secs, nanos);
    local_socket_path(temp_dir, pid, device, millis)
}

/// Sockets made at different milliseconds have different paths (for the
/// same directory, process and device), so two forwards opened a
/// millisecond or more apart never share a socket.
pub proof fn lemma_local_socket_path_distinct(
    temp_dir: Seq<char>,
    pid: u32,
    device: Seq<char>,
    m1: u128,
    m2: u128,
)
    requires
        m1 != m2,
    ensures
        local_socket_path_of(temp_dir, pid, device, m1) != local_socket_path_of(
            temp_dir,
            pid,
            device,
            m2,
        ),
{
    reveal_strlit("m87-docker-");
    reveal_strlit(".sock");
    let pre = "m87-docker-"@ + decimal(pid as nat) + "_"@ + device + "_"@;
    let n1 = pre + decimal(m1 as nat) + ".sock"@;
    let n2 = pre + decimal(m2 as nat) + ".sock"@;
    assert("m87-docker-"@ + decimal(pid as nat) + "_"@ + device + "_"@ + decimal(m1 as nat)
        + ".sock"@ == n1);
    assert("m87-docker-"@ + decimal(pid as nat) + "_"@ + device + "_"@ + decimal(m2 as nat)
        + ".sock"@ == n2);
    if local_socket_path_of(temp_dir, pid, device, m1) == local_socket_path_of(
        temp_dir,
        pid,
        device,
        m2,
    ) {
        assert(n1[0] == 'm');
        assert(n2[0] == 'm');
        if temp_dir.len() == 0 || temp_dir.last() == '/' {
            assert(n1 =~= (temp_dir + n1).skip(temp_dir.len() as int));
            assert(n2 =~= (temp_dir + n2).skip(temp_dir.len() as int));
        } else {
            assert(n1 =~= (temp_dir + seq!['/'] + n1).skip(temp_dir.len() as int + 1));
            assert(n2 =~= (temp_dir + seq!['/'] + n2).skip(temp_dir.len() as int + 1));
        }
        assert(n1 == n2);
        let k = pre.len() as int;
        assert(n1.skip(k) =~= decimal(m1 as nat) + ".sock"@);
        assert(n2.skip(k) =~= decimal(m2 as nat) + ".sock"@);
        let t1 = decimal(m1 as nat) + ".sock"@;
        let t2 = decimal(m2 as nat) + ".sock"@;
        assert(t1.take(t1.len() - 5) =~= decimal(m1 as nat));
        assert(t2.take(t2.len() - 5) =~= decimal(m2 as nat));
        crate::text::lemma_decimal_injective(m1 as nat, m2 as nat);
    }
}

/// The forward that connects the local socket to the device's Docker
/// socket: `<local>:/var/run/docker.sock`.
pub fn socket_forward_spec(local: &str) -> (r: String)
    ensures
        r@ == local@ + ":/var/run/docker.sock"@,
{
    let mut s = string_from_str(local);
    s.append(":/var/run/docker.sock");
    s
}

} // verus!
