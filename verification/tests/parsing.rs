use raproxy::addr::{parse_sock_addr, IpAddr};
use raproxy::config::{ServiceSpec, ServiceSpecError, DEFAULT_BACKLOG};

#[test]
fn parses_v4_sock_addr() {
    let a = parse_sock_addr("127.0.0.1:8080").unwrap();
    assert_eq!(a.port, 8080);
    match a.ip {
        IpAddr::V4 { a, b, c, d } => assert_eq!((a, b, c, d), (127, 0, 0, 1)),
        _ => panic!("expected an IPv4 address"),
    }
    assert!(a.is_ipv4());
}

#[test]
fn parses_v4_extremes() {
    let a = parse_sock_addr("0.0.0.0:0").unwrap();
    assert_eq!(a.port, 0);
    let b = parse_sock_addr("255.255.255.255:65535").unwrap();
    assert_eq!(b.port, 65535);
    match b.ip {
        IpAddr::V4 { a, b, c, d } => assert_eq!((a, b, c, d), (255, 255, 255, 255)),
        _ => panic!("expected an IPv4 address"),
    }
}

#[test]
fn port_allows_leading_zeros() {
    let a = parse_sock_addr("1.2.3.4:08080").unwrap();
    assert_eq!(a.port, 8080);
}

#[test]
fn rejects_bad_v4() {
    assert!(parse_sock_addr("256.0.0.1:80").is_none());
    assert!(parse_sock_addr("01.2.3.4:80").is_none());
    assert!(parse_sock_addr("1.2.3:80").is_none());
    assert!(parse_sock_addr("1.2.3.4").is_none());
    assert!(parse_sock_addr("1.2.3.4:65536").is_none());
    assert!(parse_sock_addr("1.2.3.4.5:80").is_none());
    assert!(parse_sock_addr("").is_none());
    assert!(parse_sock_addr("a.b.c.d:80").is_none());
}

#[test]
fn parses_v6_loopback() {
    let a = parse_sock_addr("[::1]:80").unwrap();
    assert_eq!(a.port, 80);
    match a.ip {
        IpAddr::V6 { segs } => {
            assert_eq!(
                (segs.s0, segs.s1, segs.s2, segs.s3, segs.s4, segs.s5, segs.s6, segs.s7),
                (0, 0, 0, 0, 0, 0, 0, 1)
            );
        },
        _ => panic!("expected an IPv6 address"),
    }
    assert!(!a.is_ipv4());
}

#[test]
fn parses_v6_compressed() {
    let a = parse_sock_addr("[2001:db8::8a2e:370:7334]:443").unwrap();
    assert_eq!(a.port, 443);
    match a.ip {
        IpAddr::V6 { segs } => {
            assert_eq!(segs.s0, 0x2001);
            assert_eq!(segs.s1, 0xdb8);
            assert_eq!(segs.s2, 0);
            assert_eq!(segs.s3, 0);
            assert_eq!(segs.s4, 0);
            assert_eq!(segs.s5, 0x8a2e);
            assert_eq!(segs.s6, 0x370);
            assert_eq!(segs.s7, 0x7334);
        },
        _ => panic!("expected an IPv6 address"),
    }
}

#[test]
fn parses_v6_full_and_any() {
    let a = parse_sock_addr("[1:2:3:4:5:6:7:8]:1").unwrap();
    match a.ip {
        IpAddr::V6 { segs } => {
            assert_eq!(segs.s0, 1);
            assert_eq!(segs.s7, 8);
        },
        _ => panic!("expected an IPv6 address"),
    }
    let b = parse_sock_addr("[::]:53").unwrap();
    match b.ip {
        IpAddr::V6 { segs } => {
            assert_eq!(segs.s0, 0);
            assert_eq!(segs.s7, 0);
        },
        _ => panic!("expected an IPv6 address"),
    }
}

#[test]
fn rejects_bad_v6() {
    assert!(parse_sock_addr("[::1]80").is_none());
    assert!(parse_sock_addr("[12345::]:80").is_none());
    assert!(parse_sock_addr("[1::2::3]:80").is_none());
    assert!(parse_sock_addr("[1:2:3:4:5:6:7:8:9]:80").is_none());
    assert!(parse_sock_addr("[:::]:80").is_none());
    assert!(parse_sock_addr("[1:2:3:4:5:6:7]:80").is_none());
    assert!(parse_sock_addr("[]:80").is_none());
    assert!(parse_sock_addr("::1:80").is_none());
}

#[test]
fn parses_service_spec_with_backlog() {
    let sp = ServiceSpec::from_str("web=127.0.0.1:8080@511").unwrap();
    assert_eq!(sp.name, "web");
    assert_eq!(sp.backlog, 511);
    assert_eq!(sp.addr.port, 8080);
}

#[test]
fn service_spec_default_backlog() {
    let sp = ServiceSpec::from_str("api_1=10.0.0.2:9000").unwrap();
    assert_eq!(sp.name, "api_1");
    assert_eq!(sp.backlog, DEFAULT_BACKLOG);
}

#[test]
fn service_spec_v6_address() {
    let sp = ServiceSpec::from_str("six=[::1]:8443@64").unwrap();
    assert_eq!(sp.name, "six");
    assert!(!sp.addr.is_ipv4());
    assert_eq!(sp.addr.port, 8443);
    assert_eq!(sp.backlog, 64);
}

#[test]
fn rejects_bad_service_specs() {
    for bad in [
        "",
        "web",
        "=127.0.0.1:80",
        "web=abc",
        "we b=127.0.0.1:80",
        "web!=127.0.0.1:80",
        "web=127.0.0.1:80@",
        "web=127.0.0.1:80@12x",
        "web=127.0.0.1:80@7@8",
    ] {
        match ServiceSpec::from_str(bad) {
            Err(e) => assert!(matches!(e, ServiceSpecError::InvalidServiceSpec)),
            Ok(_) => panic!("accepted invalid spec"),
        }
    }
}

#[test]
fn service_spec_equality_is_the_full_tuple() {
    let a = ServiceSpec::from_str("web=127.0.0.1:80@5").unwrap();
    let b = ServiceSpec::from_str("web=127.0.0.1:80@5").unwrap();
    let c = ServiceSpec::from_str("web2=127.0.0.1:80@5").unwrap();
    let d = ServiceSpec::from_str("web=127.0.0.1:80@6").unwrap();
    assert!(a.same_spec(&b));
    assert!(!a.same_spec(&c));
    assert!(!a.same_spec(&d));
    assert!(a.same_spec(&a.duplicate()));
}

#[test]
fn backlog_boundaries() {
    let max = usize::MAX.to_string();
    let spec_text = format!("w=1.2.3.4:80@{}", max);
    let sp = ServiceSpec::from_str(&spec_text).unwrap();
    assert_eq!(sp.backlog, usize::MAX);
    assert!(ServiceSpec::from_str("w=1.2.3.4:80@18446744073709551616").is_err());
    assert_eq!(ServiceSpec::from_str("w=1.2.3.4:80@007").unwrap().backlog, 7);
}
