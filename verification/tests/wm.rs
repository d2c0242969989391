use way_shell::wm::{first_sway_socket, is_sway_socket_name};

#[test]
fn sway_socket_names_have_the_ipc_prefix_and_socket_suffix() {
    assert!(is_sway_socket_name("sway-ipc.1000.1234.sock"));
    assert!(is_sway_socket_name("sway-ipc.sock"));
    assert!(!is_sway_socket_name("sway-ipc.1000.1234"));
    assert!(!is_sway_socket_name("i3-ipc.1000.sock"));
    assert!(!is_sway_socket_name(".sock"));
}

#[test]
fn the_first_sway_socket_by_name_is_chosen() {
    let entries = vec![
        ("sway-ipc.1000.900.sock".to_string(), true),
        ("sway-ipc.1000.10.sock".to_string(), false),
        ("wayland-1".to_string(), true),
        ("sway-ipc.1000.1200.sock".to_string(), true),
    ];
    assert_eq!(first_sway_socket(&entries), Some("sway-ipc.1000.1200.sock".to_string()));
    assert_eq!(first_sway_socket(&vec![("wayland-1".to_string(), true)]), None);
}
