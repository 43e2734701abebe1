use device_agent::errors::IdentityError;
use device_agent::probes::{get_linux_components, get_macos_components, get_windows_components};

#[test]
fn macos_components_from_profiler_and_ifconfig() {
    let profiler = "Hardware:\n\
                    \n\
                    Hardware Overview:\n\
                    \n\
                          Model Name: MacBook Pro\n\
                          Serial Number (system): C02ABC123DEF\n\
                          Hardware UUID: 564D9214-52B7-4C55-A966-21A982A6AE4F\n";
    let ifconfig = "en0: flags=8863<UP,BROADCAST,SMART,RUNNING,SIMPLEX,MULTICAST> mtu 1500\n\
                    \tether aa:bb:cc:dd:ee:ff\n\
                    \tinet 192.168.1.10 netmask 0xffffff00 broadcast 192.168.1.255\n";
    let comps = get_macos_components(profiler, ifconfig).unwrap();
    assert_eq!(
        comps,
        vec![
            "serial:C02ABC123DEF".to_string(),
            "hw_uuid:564D9214-52B7-4C55-A966-21A982A6AE4F".to_string(),
            "mac:aa:bb:cc:dd:ee:ff".to_string(),
        ]
    );
}

#[test]
fn macos_serial_placeholder_is_skipped() {
    // The literal "(system)" value is a placeholder, not a serial.
    let profiler = "      Serial Number: (system)\n";
    let r = get_macos_components(profiler, "");
    assert!(matches!(r, Err(IdentityError::NoIdentifiers)));
}

#[test]
fn macos_empty_probes_yield_no_identifiers() {
    let r = get_macos_components("", "");
    assert!(matches!(r, Err(IdentityError::NoIdentifiers)));
}

#[test]
fn linux_components_in_collection_order() {
    let comps = get_linux_components(
        &Some("abcdef123456\n".to_string()),
        &None,
        &Some("11111111-2222-3333-4444-555555555555\n".to_string()),
        &Some("BSN-777\n".to_string()),
        &vec![
            ("lo".to_string(), Some("00:00:00:00:00:00\n".to_string())),
            ("docker0".to_string(), Some("02:42:ac:11:00:02\n".to_string())),
            ("eth0".to_string(), Some("aa:bb:cc:dd:ee:01\n".to_string())),
            ("eth1".to_string(), Some("aa:bb:cc:dd:ee:02\n".to_string())),
        ],
    )
    .unwrap();
    assert_eq!(
        comps,
        vec![
            "machine_id:abcdef123456".to_string(),
            "product_uuid:11111111-2222-3333-4444-555555555555".to_string(),
            "board_serial:BSN-777".to_string(),
            // Only the first physical interface contributes.
            "mac:eth0:aa:bb:cc:dd:ee:01".to_string(),
        ]
    );
}

#[test]
fn linux_dbus_fallback_only_when_primary_unreadable() {
    let comps = get_linux_components(
        &None,
        &Some("dbus-id-42\n".to_string()),
        &None,
        &None,
        &Vec::new(),
    )
    .unwrap();
    assert_eq!(comps, vec!["machine_id:dbus-id-42".to_string()]);

    // A readable but empty primary file does not fall back to dbus.
    let r = get_linux_components(
        &Some("  \n".to_string()),
        &Some("dbus-id-42\n".to_string()),
        &None,
        &None,
        &Vec::new(),
    );
    assert!(matches!(r, Err(IdentityError::NoIdentifiers)));
}

#[test]
fn linux_board_serial_placeholder_and_zero_mac_are_skipped() {
    let r = get_linux_components(
        &None,
        &None,
        &None,
        &Some("None\n".to_string()),
        &vec![("eth0".to_string(), Some("00:00:00:00:00:00\n".to_string()))],
    );
    assert!(matches!(r, Err(IdentityError::NoIdentifiers)));
}

#[test]
fn windows_components_skip_table_headers() {
    let uuid_out = "UUID\n564D9214-52B7-4C55-A966-21A982A6AE4F\n\n";
    let serial_out = "SerialNumber\nVMware-56 4d 92 14\n\n";
    let getmac_out = "\nConnection Name:  Ethernet\n\
                      Network Adapter:  Intel Adapter\n\
                      Physical Address: AA-BB-CC-DD-EE-FF\n\
                      Transport Name:   \\Device\\Tcpip\n\
                      Physical Address: 11-22-33-44-55-66\n";
    let comps = get_windows_components(uuid_out, serial_out, getmac_out).unwrap();
    assert_eq!(
        comps,
        vec![
            "uuid:564D9214-52B7-4C55-A966-21A982A6AE4F".to_string(),
            "serial:VMware-56 4d 92 14".to_string(),
            // Only the first physical address contributes.
            "mac:AA-BB-CC-DD-EE-FF".to_string(),
        ]
    );
}

#[test]
fn windows_empty_probes_yield_no_identifiers() {
    let r = get_windows_components("", "", "");
    assert!(matches!(r, Err(IdentityError::NoIdentifiers)));
}
