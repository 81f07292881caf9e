use anoma_config::net::{Host, SocketAddress};
use libp2p::multiaddr::Multiaddr;

#[test]
fn socket_address_is_written_with_dots_and_colon() {
    let a = SocketAddress::new(127, 0, 0, 1, 26658);
    assert_eq!(a.to_text(), "127.0.0.1:26658");
}

#[test]
fn socket_address_is_read_back() {
    assert_eq!(
        SocketAddress::parse("127.0.0.1:26656"),
        Some(SocketAddress::new(127, 0, 0, 1, 26656))
    );
    assert_eq!(
        SocketAddress::parse("5.6.7.8:2000"),
        Some(SocketAddress::new(5, 6, 7, 8, 2000))
    );
    assert_eq!(
        SocketAddress::parse("0.0.0.0:0080"),
        Some(SocketAddress::new(0, 0, 0, 0, 80))
    );
}

#[test]
fn malformed_socket_addresses_are_refused() {
    for text in [
        "",
        "127.0.0.1",
        "127.0.0.1:",
        "127.0.0:80",
        "127.0.0.1.2:80",
        "256.0.0.1:80",
        "01.0.0.1:80",
        "1.2.3.4:65536",
        "1.2.3.4:8:0",
        "a.b.c.d:80",
        "[::1]",
        "[::1]80",
        "[::1:80",
        "::1:80",
        "[1.2.3.4]:80",
        "[::1]:65536",
        "[::1%]:80",
        "[::1%x]:80",
        "[::1%4294967296]:80",
        "[::1%1%2]:80",
        "[::1] :80",
        " 1.2.3.4:80",
    ] {
        assert_eq!(SocketAddress::parse(text), None, "{}", text);
    }
}

#[test]
fn a_written_socket_address_is_read_back() {
    for a in [
        SocketAddress::new(0, 0, 0, 0, 0),
        SocketAddress::new(127, 0, 0, 1, 26658),
        SocketAddress::new(255, 255, 255, 255, 65535),
        SocketAddress::new(10, 100, 9, 99, 80),
    ] {
        assert_eq!(SocketAddress::parse(&a.to_text()), Some(a));
    }
    assert_eq!(SocketAddress::new(1, 2, 3, 4, 5).with_port(6), SocketAddress::new(1, 2, 3, 4, 6));
}

fn v6(g: [u16; 8], scope_id: u32, port: u16) -> SocketAddress {
    SocketAddress {
        host: Host::V6 {
            g0: g[0],
            g1: g[1],
            g2: g[2],
            g3: g[3],
            g4: g[4],
            g5: g[5],
            g6: g[6],
            g7: g[7],
            scope_id,
        },
        port,
    }
}

#[test]
fn ipv6_socket_addresses_are_read() {
    assert_eq!(SocketAddress::parse("[::1]:80"), Some(v6([0, 0, 0, 0, 0, 0, 0, 1], 0, 80)));
    assert_eq!(SocketAddress::parse("[::]:0"), Some(v6([0; 8], 0, 0)));
    assert_eq!(
        SocketAddress::parse("[2001:db8::ff00:42:8329]:26658"),
        Some(v6([0x2001, 0xdb8, 0, 0, 0, 0xff00, 0x42, 0x8329], 0, 26658))
    );
    assert_eq!(
        SocketAddress::parse("[1:2:3:4:5:6:7:8]:65535"),
        Some(v6([1, 2, 3, 4, 5, 6, 7, 8], 0, 65535))
    );
    assert_eq!(
        SocketAddress::parse("[::FFFF:1.2.3.4]:1"),
        Some(v6([0, 0, 0, 0, 0, 0xffff, 0x0102, 0x0304], 0, 1))
    );
    assert_eq!(
        SocketAddress::parse("[fe80::1%3]:80"),
        Some(v6([0xfe80, 0, 0, 0, 0, 0, 0, 1], 3, 80))
    );
    assert_eq!(
        SocketAddress::parse("[fe80::1%0004294967295]:080"),
        Some(v6([0xfe80, 0, 0, 0, 0, 0, 0, 1], u32::MAX, 80))
    );
}

#[test]
fn ipv6_socket_addresses_are_written() {
    assert_eq!(v6([0, 0, 0, 0, 0, 0, 0, 1], 0, 80).to_text(), "[::1]:80");
    assert_eq!(v6([0; 8], 0, 0).to_text(), "[::]:0");
    assert_eq!(
        v6([0x2001, 0xdb8, 0, 0, 0, 0xff00, 0x42, 0x8329], 0, 26658).to_text(),
        "[2001:db8::ff00:42:8329]:26658"
    );
    assert_eq!(v6([1, 0, 3, 4, 5, 6, 7, 8], 0, 1).to_text(), "[1:0:3:4:5:6:7:8]:1");
    assert_eq!(v6([1, 0, 0, 4, 0, 0, 7, 8], 0, 1).to_text(), "[1::4:0:0:7:8]:1");
    assert_eq!(v6([1, 0, 0, 4, 0, 0, 0, 8], 0, 1).to_text(), "[1:0:0:4::8]:1");
    assert_eq!(v6([0, 0, 0, 0, 0, 0xffff, 0x0102, 0x0304], 0, 1).to_text(), "[::ffff:1.2.3.4]:1");
    assert_eq!(v6([0xfe80, 0, 0, 0, 0, 0, 0, 1], 3, 80).to_text(), "[fe80::1%3]:80");
    assert_eq!(v6([0xabcd, 0xef01, 0x10, 0xf, 0, 1, 0xffff, 0x100], 0, 9).to_text(),
        "[abcd:ef01:10:f:0:1:ffff:100]:9");
}

#[test]
fn ipv6_addresses_are_read_and_written_as_libp2p_reads_and_writes_them() {
    for text in [
        "::", "::1", "1::", "1:2:3:4:5:6:7:8", "1:2:3:4:5:6:7::", "::2:3:4:5:6:7:8", "1::8",
        "1:0:0:2:0:0:0:3", "1:0:0:0:2:0:0:0", "0:0:1:0:0:1:0:0", "fe80::1", "FE80::ABCD",
        "::ffff:1.2.3.4", "::ffff:102:304", "::1.2.3.4", "1:2:3:4:5:6:1.2.3.4",
        "1:2:3:4:5:1.2.3.4", "1.2.3.4::", "::1.2.3", "1:2:3:4:5:6:7:8:9", "1:2:3:4:5:6:7", "",
        ":", ":::", "1:::2", "::1::", "12345::", "g::", "1::2::3", "0:0:0:0:0:0:0:0",
        "0:0:0:0:0:ffff:0:0", "::ffff:0:1", "1:2:3:4:5:6:7:0", "0:2:3:4:5:6:7:8",
        "1:0:3:4:5:6:7:8", "0001:0002::", "::01.2.3.4", "::256.1.1.1", "1::2:3:4:5:6:7:8",
        " ::1", "::1 ", "1:2:3:4:5:6:7:1.2.3.4", "::1.2.3.4:5", "1:2::1.2.3.4", "::0.0.0.0",
        "0:0:0:0:0:0:0:1", "1:0:0:0:0:0:0:0", "0:0:0:0:1:0:0:0", "a:b:c:d:e:f:0:0", "::f:0:0",
        "ffff:ffff:ffff:ffff:ffff:ffff:ffff:ffff", "::ffff:255.255.255.255", "1:2:3:4:5:6:7:",
        ":1:2:3:4:5:6:7", "1:2:3:4::5:6:7", "1:2:3::4:5:6:7:8", "::1:2:3:4:5:6:7",
        "1::1.2.3.4", "1:1.2.3.4::", "0::0", "0::0:0", "::0:ffff:1.2.3.4", "1.2.3.4",
        "::1.2.3.4.5", "::1.2..4", "1:2:3:4:5:6:0.0.0.1", "::ffff:1.2.3.04",
    ] {
        let theirs = format!("/ip6/{}", text)
            .parse::<Multiaddr>()
            .ok()
            .map(|m| format!("[{}]:8080", &m.to_string()["/ip6/".len()..]));
        let ours = SocketAddress::parse(&format!("[{}]:8080", text));
        assert_eq!(ours.map(|a| a.to_text()), theirs, "{:?}", text);
        if let Some(a) = ours {
            assert_eq!(SocketAddress::parse(&a.to_text()), Some(a), "{:?}", text);
        }
    }
}

#[test]
fn ipv4_addresses_are_read_and_written_as_libp2p_reads_and_writes_them() {
    for text in [
        "0.0.0.0", "127.0.0.1", "255.255.255.255", "1.2.3.4", "10.100.9.99", "01.2.3.4",
        "1.02.3.4", "1.2.3.04", "001.2.3.4", "00.0.0.0", "1.2.3.000", "256.0.0.1", "1.2.3.256",
        "1.2.3.999", "1.2.3.1000", "1.2.3", "1.2.3.4.5", "1..3.4", ".1.2.3", "1.2.3.", "",
        "1.2.3.4 ", " 1.2.3.4", "1.2.3.-4", "1.2.3.+4", "a.b.c.d", "0x1.2.3.4", "1.2.3.4a",
        "1,2,3,4", "::1", "192.168.0.1", "9.9.9.9", "99.99.99.99", "199.199.199.199",
        "200.249.250.255", "1.2.3.0",
    ] {
        let theirs = format!("/ip4/{}", text)
            .parse::<Multiaddr>()
            .ok()
            .map(|m| format!("{}:8080", &m.to_string()["/ip4/".len()..]));
        let ours = SocketAddress::parse(&format!("{}:8080", text));
        assert_eq!(ours.map(|a| a.to_text()), theirs, "{:?}", text);
        if let Some(a) = ours {
            assert_eq!(SocketAddress::parse(&a.to_text()), Some(a), "{:?}", text);
        }
    }
}

#[test]
fn every_ipv4_octet_is_written_as_libp2p_writes_it() {
    for n in 0..=255u8 {
        let ours = SocketAddress::new(n, 255 - n, n / 2, n.wrapping_mul(7), 1).to_text();
        let theirs = Multiaddr::empty()
            .with(libp2p::multiaddr::Protocol::Ip4([n, 255 - n, n / 2, n.wrapping_mul(7)].into()))
            .to_string();
        assert_eq!(ours, format!("{}:1", &theirs["/ip4/".len()..]));
    }
}

#[test]
fn ports_and_scope_ids_of_digits_are_the_numbers_that_std_reads() {
    for text in [
        "0", "00", "0080", "80", "65535", "65536", "065535", "0000000000000000000001", "99999",
        "4294967295", "4294967296", "04294967295", "18446744073709551616", "26658", "1", "10",
    ] {
        let port = text.parse::<u16>().ok();
        assert_eq!(
            SocketAddress::parse(&format!("1.2.3.4:{}", text)),
            port.map(|p| SocketAddress::new(1, 2, 3, 4, p)),
            "{:?}",
            text
        );
        assert_eq!(
            SocketAddress::parse(&format!("[::1]:{}", text)),
            port.map(|p| v6([0, 0, 0, 0, 0, 0, 0, 1], 0, p)),
            "{:?}",
            text
        );
        let scope = text.parse::<u32>().ok();
        assert_eq!(
            SocketAddress::parse(&format!("[fe80::1%{}]:80", text)),
            scope.map(|s| v6([0xfe80, 0, 0, 0, 0, 0, 0, 1], s, 80)),
            "{:?}",
            text
        );
        if let Some(p) = port {
            assert_eq!(SocketAddress::new(1, 2, 3, 4, p).to_text(), format!("1.2.3.4:{}", p));
        }
        if let Some(s) = scope {
            let written = v6([0xfe80, 0, 0, 0, 0, 0, 0, 1], s, 80).to_text();
            let expected = if s == 0 { "[fe80::1]:80".to_string() } else { format!("[fe80::1%{}]:80", s) };
            assert_eq!(written, expected);
        }
    }
    for text in ["", "+80", "-80", " 80", "80 ", "8_0", "0x50", "８０"] {
        assert_eq!(SocketAddress::parse(&format!("1.2.3.4:{}", text)), None, "{:?}", text);
        assert_eq!(SocketAddress::parse(&format!("[::1]:{}", text)), None, "{:?}", text);
        assert_eq!(SocketAddress::parse(&format!("[::1%{}]:80", text)), None, "{:?}", text);
    }
}

#[test]
fn a_mapped_address_is_written_with_its_dotted_end() {
    let a = SocketAddress::parse("[::ffff:1.2.3.4]:80").unwrap();
    assert_eq!(a, v6([0, 0, 0, 0, 0, 0xffff, 0x0102, 0x0304], 0, 80));
    assert_eq!(a.to_text(), "[::ffff:1.2.3.4]:80");
    assert_eq!(SocketAddress::parse("[::ffff:102:304]:80"), Some(a));
    assert_eq!(SocketAddress::parse("[::ffff:01.2.3.4]:80"), None);
    assert_eq!(SocketAddress::parse("[::ffff:1.2.3.4]:0080").map(|a| a.to_text()),
        Some("[::ffff:1.2.3.4]:80".to_string()));
}
