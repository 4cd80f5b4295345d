use syncthing_status::discovery::{listen_address_from_lsof, listen_address_from_ss};

#[test]
fn ss_loopback_listener() {
    let out = "LISTEN 0      4096       127.0.0.1:8384      0.0.0.0:*\n";
    assert_eq!(listen_address_from_ss(out).as_deref(), Some("127.0.0.1"));
}

#[test]
fn ss_wildcard_listeners() {
    assert_eq!(listen_address_from_ss("LISTEN 0 4096 *:8384 *:*\n").as_deref(), Some("0.0.0.0"));
    assert_eq!(
        listen_address_from_ss("LISTEN 0 4096 0.0.0.0:8384 0.0.0.0:*").as_deref(),
        Some("0.0.0.0")
    );
    assert_eq!(listen_address_from_ss("LISTEN 0 4096 [::]:8384 [::]:*\n").as_deref(), Some("[::]"));
}

#[test]
fn ss_skips_lines_without_an_address() {
    let out = "short line\nLISTEN 0 4096 noport x\n\tLISTEN  0  4096  192.168.1.5:8384  0.0.0.0:*\n";
    assert_eq!(listen_address_from_ss(out).as_deref(), Some("192.168.1.5"));
    assert_eq!(listen_address_from_ss("").as_deref(), None);
}

#[test]
fn lsof_listener() {
    let out = "COMMAND   PID USER   FD   TYPE DEVICE SIZE/OFF NODE NAME\n\
               syncthing 123 ann   10u  IPv4 0x1234      0t0  TCP 127.0.0.1:8384 (LISTEN)\n";
    assert_eq!(listen_address_from_lsof(out).as_deref(), Some("127.0.0.1"));
}

#[test]
fn lsof_wildcard_and_header() {
    let out = "COMMAND PID USER FD TYPE DEVICE SIZE/OFF NODE *:1\n\
               syncthing 1 ann 10u IPv6 0x1 0t0 TCP *:8384 (LISTEN)\n";
    assert_eq!(listen_address_from_lsof(out).as_deref(), Some("0.0.0.0"));
    assert_eq!(listen_address_from_lsof("syncthing 1 ann 10u IPv6 0x1 0t0 TCP *:8384").as_deref(), None);
    assert_eq!(listen_address_from_lsof("H\nfew columns 1.2.3.4:8384\n").as_deref(), None);
}
