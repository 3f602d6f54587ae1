use presguel::addr::parse_address_file;
use presguel::addr::parse_x_display;

#[test]
fn parse_file() {
    let body = "# comment\n# another\nIBUS_ADDRESS=unix:path=/run/user/1000/ibus/dbus-AbC,guid=deadbeef\nIBUS_DAEMON_PID=123\n";
    assert_eq!(
        parse_address_file(body).as_deref(),
        Some("unix:path=/run/user/1000/ibus/dbus-AbC,guid=deadbeef")
    );
    assert_eq!(parse_address_file("# nothing here\n"), None);
}

#[test]
fn x_display_parsing() {
    assert_eq!(parse_x_display(":0"), ("unix".to_string(), "0".to_string()));
    assert_eq!(parse_x_display(":10.0"), ("unix".to_string(), "10".to_string()));
    assert_eq!(
        parse_x_display("localhost:10.0"),
        ("localhost".to_string(), "10".to_string())
    );
}
