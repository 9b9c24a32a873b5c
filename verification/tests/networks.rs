use subnet_lease::ip::{
    next_ipv4_network, next_ipv6_network, Ipv4Network, Ipv6Network, NetworkError, MAX_V6,
};

fn v4(text: &str) -> Ipv4Network {
    let n: ipnetwork::Ipv4Network = text.parse().unwrap();
    Ipv4Network::new(n.ip().into(), n.prefix()).unwrap()
}

fn v6(text: &str) -> Ipv6Network {
    let n: ipnetwork::Ipv6Network = text.parse().unwrap();
    Ipv6Network::new(n.ip().into(), n.prefix()).unwrap()
}

#[test]
fn prefix_of_ipv4_is_at_most_32() {
    assert_eq!(
        Ipv4Network::new(0x0a01_0500, 32),
        Ok(Ipv4Network { addr: 0x0a01_0500, prefix: 32 })
    );
    assert_eq!(Ipv4Network::new(0x0a01_0500, 33), Err(NetworkError::InvalidPrefix));
}

#[test]
fn prefix_of_ipv6_is_at_most_128() {
    assert_eq!(Ipv6Network::new(1, 128), Ok(Ipv6Network { addr: 1, prefix: 128 }));
    assert_eq!(Ipv6Network::new(1, 129), Err(NetworkError::InvalidPrefix));
}

#[test]
fn ipv4_network_prints_in_dotted_decimal() {
    assert_eq!(v4("10.1.5.0/24").to_text(), "10.1.5.0/24");
    assert_eq!(Ipv4Network { addr: 0xffff_ff07, prefix: 0 }.to_text(), "255.255.255.7/0");
    assert_eq!(Ipv4Network { addr: 0, prefix: 32 }.to_text(), "0.0.0.0/32");
}

#[test]
fn ipv6_network_address_clears_what_is_behind_the_prefix() {
    assert_eq!(v6("fd00::1234/64").network(), v6("fd00::/64").addr);
    assert_eq!(v6("fd00::1234/128").network(), v6("fd00::1234/128").addr);
    assert_eq!(v6("fd00::1234/0").network(), 0);
    assert_eq!(v6("fd00::1237/126").network(), v6("fd00::1234/126").addr);
    assert_eq!(v6("fd00:0:0:7::/61").network(), v6("fd00::/61").addr);
}

#[test]
fn next_ipv4_network_is_one_size_further() {
    assert_eq!(next_ipv4_network(v4("10.1.5.0/24")), Ok(v4("10.1.6.0/24")));
    assert_eq!(next_ipv4_network(v4("10.1.255.0/24")), Ok(v4("10.2.0.0/24")));
    assert_eq!(next_ipv4_network(v4("10.1.5.7/32")), Ok(v4("10.1.5.8/32")));
    assert_eq!(next_ipv4_network(v4("10.1.5.7/28")), Ok(v4("10.1.5.23/28")));
}

#[test]
fn there_is_no_ipv4_network_past_the_last_address() {
    assert_eq!(next_ipv4_network(v4("255.255.255.0/24")), Err(NetworkError::PastLastAddress));
    assert_eq!(next_ipv4_network(v4("0.0.0.0/0")), Err(NetworkError::PastLastAddress));
    assert_eq!(next_ipv4_network(v4("255.255.254.0/24")), Ok(v4("255.255.255.0/24")));
}

#[test]
fn next_ipv6_network_is_one_size_further() {
    assert_eq!(next_ipv6_network(v6("fd00::/64")), Ok(v6("fd00:0:0:1::/64")));
    assert_eq!(next_ipv6_network(v6("::/1")), Ok(v6("8000::/1")));
    assert_eq!(next_ipv6_network(v6("fd00::7/128")), Ok(v6("fd00::8/128")));
}

#[test]
fn there_is_no_ipv6_network_past_the_last_address() {
    assert_eq!(next_ipv6_network(v6("::/0")), Err(NetworkError::PastLastAddress));
    assert_eq!(next_ipv6_network(v6("8000::/1")), Err(NetworkError::PastLastAddress));
    assert_eq!(
        next_ipv6_network(Ipv6Network { addr: MAX_V6, prefix: 128 }),
        Err(NetworkError::PastLastAddress)
    );
}
