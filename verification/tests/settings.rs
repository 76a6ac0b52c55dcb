use schwab_bot::settings::{ib_client_id, ib_endpoint, ib_port};

fn text(s: &str) -> Option<String> {
    Some(s.to_string())
}

#[test]
fn the_port_is_read_or_falls_back() {
    assert_eq!(ib_port(&text("4001")), 4001);
    assert_eq!(ib_port(&text("+7497")), 7497);
    assert_eq!(ib_port(&text("007")), 7);
    assert_eq!(ib_port(&text("65535")), 65535);
    assert_eq!(ib_port(&text("65536")), 4002);
    assert_eq!(ib_port(&text("-1")), 4002);
    assert_eq!(ib_port(&text(" 4001")), 4002);
    assert_eq!(ib_port(&text("")), 4002);
    assert_eq!(ib_port(&text("+")), 4002);
    assert_eq!(ib_port(&None), 4002);
}

#[test]
fn the_client_id_is_read_or_falls_back_to_zero() {
    assert_eq!(ib_client_id(&text("100")), 100);
    assert_eq!(ib_client_id(&text("-2147483648")), i32::MIN);
    assert_eq!(ib_client_id(&text("2147483647")), i32::MAX);
    assert_eq!(ib_client_id(&text("2147483648")), 0);
    assert_eq!(ib_client_id(&text("99999999999999999999999")), 0);
    assert_eq!(ib_client_id(&text("1x")), 0);
    assert_eq!(ib_client_id(&None), 0);
}

#[test]
fn settings_are_read_like_integers() {
    for s in ["0", "1", "-0", "+0", "--1", "12a", "4002", "70000", "-70000", "1_000"] {
        assert_eq!(ib_port(&text(s)), s.parse::<u16>().unwrap_or(4002));
        assert_eq!(ib_client_id(&text(s)), s.parse::<i32>().unwrap_or(0));
    }
}

#[test]
fn the_endpoint_joins_host_and_port() {
    assert_eq!(ib_endpoint(&None, &None), "127.0.0.1:4002");
    assert_eq!(ib_endpoint(&text("gateway"), &text("4001")), "gateway:4001");
}
