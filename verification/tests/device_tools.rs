use m87_client::docker::{docker_host_uri, generate_local_socket_path, local_socket_path, socket_forward_spec};

#[test]
fn test_docker_host_uri_format() {
    let path = "/tmp/test.sock";
    let uri = docker_host_uri(path);
    assert_eq!(uri, "unix:///tmp/test.sock");
}

#[test]
fn test_generate_local_socket_path_contains_device() {
    let path_str = generate_local_socket_path("/tmp", 4242, "my-device");

    assert!(path_str.contains("my-device"));
    assert!(path_str.contains("m87-docker"));
    assert!(path_str.ends_with(".sock"));
}

#[test]
fn local_socket_path_exact() {
    assert_eq!(
        local_socket_path("/tmp", 17, "dev", 1700000000123),
        "/tmp/m87-docker-17_dev_1700000000123.sock"
    );
    assert_eq!(
        local_socket_path("/tmp/", 0, "d", 0),
        "/tmp/m87-docker-0_d_0.sock"
    );
}

#[test]
fn docker_forward_spec() {
    assert_eq!(socket_forward_spec("/tmp/x.sock"), "/tmp/x.sock:/var/run/docker.sock");
}
