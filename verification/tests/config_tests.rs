use tunnlto::config::serialize_config;
use tunnlto::tunnel::{Allowed, Disallowed, Interface, Peer, Rules, Tunnel};

fn tunnel(
    ipv4: &str,
    ipv6: &str,
    port: &str,
    private_key: &str,
    dns: &str,
    mtu: &str,
    endpoint: &str,
    peer_port: &str,
    public_key: &str,
    keepalive: &str,
    preshared: &str,
    allowed: (&str, &str, &str),
    disallowed: (&str, &str, &str),
) -> Tunnel {
    Tunnel {
        id: String::from("t1"),
        name: String::from("Test tunnel"),
        interface: Interface {
            ipv4Address: String::from(ipv4),
            ipv6Address: String::from(ipv6),
            port: String::from(port),
            privateKey: String::from(private_key),
            dns: String::from(dns),
            mtu: String::from(mtu),
        },
        peer: Peer {
            endpoint: String::from(endpoint),
            port: String::from(peer_port),
            publicKey: String::from(public_key),
            persistentKeepalive: String::from(keepalive),
            presharedKey: String::from(preshared),
        },
        rules: Rules {
            allowed: Allowed {
                apps: String::from(allowed.0),
                folders: String::from(allowed.1),
                ipAddresses: String::from(allowed.2),
            },
            disallowed: Disallowed {
                apps: String::from(disallowed.0),
                folders: String::from(disallowed.1),
                ipAddresses: String::from(disallowed.2),
            },
        },
    }
}

fn minimal_tunnel() -> Tunnel {
    tunnel(
        "10.0.0.2/32",
        "",
        "",
        "PK1",
        "",
        "",
        "vpn.example.com",
        "51820",
        "PUB1",
        "",
        "",
        ("", "", ""),
        ("", "", ""),
    )
}

#[test]
fn minimal_descriptor_serializes_exactly() {
    let text = serialize_config(&minimal_tunnel());
    assert_eq!(
        text,
        "[Interface]\nPrivateKey = PK1\nAddress = 10.0.0.2/32\n\n[Peer]\nPublicKey = PUB1\nEndpoint = vpn.example.com:51820\n"
    );
}

#[test]
fn both_addresses_give_one_combined_address_line() {
    let t = tunnel(
        "10.0.0.2/32",
        "fd00::2/128",
        "",
        "PK1",
        "",
        "",
        "vpn.example.com",
        "51820",
        "PUB1",
        "",
        "",
        ("", "", ""),
        ("", "", ""),
    );
    let text = serialize_config(&t);
    let address_lines: Vec<&str> =
        text.lines().filter(|l| l.starts_with("Address = ")).collect();
    assert_eq!(address_lines, vec!["Address = 10.0.0.2/32, fd00::2/128"]);
}

#[test]
fn ipv6_alone_gives_one_address_line() {
    let t = tunnel(
        "",
        "fd00::2/128",
        "",
        "PK1",
        "",
        "",
        "vpn.example.com",
        "51820",
        "PUB1",
        "",
        "",
        ("", "", ""),
        ("", "", ""),
    );
    let text = serialize_config(&t);
    let address_lines: Vec<&str> =
        text.lines().filter(|l| l.starts_with("Address = ")).collect();
    assert_eq!(address_lines, vec!["Address = fd00::2/128"]);
}

#[test]
fn no_addresses_give_no_address_line() {
    let t = tunnel(
        "",
        "",
        "",
        "PK1",
        "",
        "",
        "vpn.example.com",
        "51820",
        "PUB1",
        "",
        "",
        ("", "", ""),
        ("", "", ""),
    );
    let text = serialize_config(&t);
    assert!(!text.contains("Address = "));
}

#[test]
fn empty_optionals_are_absent_not_blank() {
    let text = serialize_config(&minimal_tunnel());
    for prefix in [
        "ListenPort",
        "DNS",
        "MTU",
        "PresharedKey",
        "PersistentKeepalive",
        "AllowedApps",
        "AllowedIPs",
        "DisallowedApps",
        "DisallowedIPs",
    ] {
        assert!(!text.contains(prefix), "unexpected {prefix} line in: {text}");
    }
    let blank_lines = text.lines().filter(|l| l.is_empty()).count();
    assert_eq!(blank_lines, 1, "exactly the one separator line may be blank");
}

#[test]
fn full_descriptor_serializes_exactly() {
    let t = tunnel(
        "10.0.0.2/32",
        "fd00::2/128",
        "51821",
        "PK1",
        "1.1.1.1",
        "1380",
        "vpn.example.com",
        "51820",
        "PUB1",
        "25",
        "PSK1",
        ("a.exe, b.exe", "C:\\apps", "0.0.0.0/0"),
        ("c.exe", "D:\\other", "192.168.0.0/16"),
    );
    let text = serialize_config(&t);
    assert_eq!(
        text,
        "[Interface]\n\
         PrivateKey = PK1\n\
         Address = 10.0.0.2/32, fd00::2/128\n\
         ListenPort = 51821\n\
         DNS = 1.1.1.1\n\
         MTU = 1380\n\
         \n\
         [Peer]\n\
         PublicKey = PUB1\n\
         PresharedKey = PSK1\n\
         Endpoint = vpn.example.com:51820\n\
         PersistentKeepalive = 25\n\
         AllowedApps = a.exe, b.exe, C:\\apps\n\
         AllowedIPs = 0.0.0.0/0\n\
         DisallowedApps = c.exe, D:\\other\n\
         DisallowedIPs = 192.168.0.0/16\n"
    );
}

#[test]
fn folders_alone_still_emit_apps_line() {
    let t = tunnel(
        "10.0.0.2/32",
        "",
        "",
        "PK1",
        "",
        "",
        "vpn.example.com",
        "51820",
        "PUB1",
        "",
        "",
        ("", "C:\\apps", ""),
        ("", "", ""),
    );
    let text = serialize_config(&t);
    assert!(text.contains("AllowedApps = C:\\apps\n"));
}
