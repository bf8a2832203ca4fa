use subspace_conduit::cli::{is_affirmative, listing_line, resolve_target, Action, Target, TargetError};
use subspace_conduit::control::{ControlError, ServerControl};
use subspace_conduit::discovery::{
    advertised_host_name, endpoint, instance_name, resolved_entry, search_step, server_line, DiscoveredServer,
    SearchStep,
};
use subspace_conduit::protocol::FileEntry;
use subspace_conduit::text::decimal;

#[test]
fn decimal_cases() {
    assert_eq!(decimal(0), "0");
    assert_eq!(decimal(7), "7");
    assert_eq!(decimal(10), "10");
    assert_eq!(decimal(1234567890), "1234567890");
    assert_eq!(decimal(u64::MAX), u64::MAX.to_string());
}

#[test]
fn target_cases() {
    assert_eq!(resolve_target(Some("1.2.3.4:7878".into()), None), Ok(Target::Address("1.2.3.4:7878".into())));
    assert_eq!(resolve_target(None, Some("office".into())), Ok(Target::Name("office".into())));
    assert_eq!(resolve_target(Some("a".into()), Some("b".into())), Err(TargetError::Both));
    assert_eq!(resolve_target(None, None), Err(TargetError::Neither));
}

#[test]
fn listing_lines() {
    let f = FileEntry { name: "notes.txt".into(), size: 1234, is_dir: false };
    assert_eq!(listing_line(&f), format!("FILE  {:>10}  {}", 1234, "notes.txt"));
    let d = FileEntry { name: "photos".into(), size: 4096, is_dir: true };
    assert_eq!(listing_line(&d), "DIR         4096  photos");
    let huge = FileEntry { name: "x".into(), size: 123456789012, is_dir: false };
    assert_eq!(listing_line(&huge), "FILE  123456789012  x");
}

#[test]
fn affirmative_answers() {
    for yes in ["y", "Y", "yes", "YES", "Yes", "  y\n", "\tyEs \r\n"] {
        assert!(is_affirmative(yes), "{yes:?}");
    }
    for no in ["", "n", "no", "yess", "ye", "y y", "\n", "oui"] {
        assert!(!is_affirmative(no), "{no:?}");
    }
}

#[test]
fn action_is_plain_data() {
    let a = Action::Download { remote: "r".into(), local: "l".into(), resume: true };
    assert_eq!(a.clone(), a);
}

#[test]
fn instance_names() {
    assert_eq!(instance_name("office._subspace._tcp.local."), "office");
    assert_eq!(instance_name("nodots"), "nodots");
    assert_eq!(instance_name(".lead"), "");
}

#[test]
fn host_and_endpoint_text() {
    assert_eq!(advertised_host_name("office"), "office.local.");
    assert_eq!(endpoint("192.168.1.5", 7878), "192.168.1.5:7878");
    let s = DiscoveredServer { name: "office._subspace._tcp.local.".into(), addr: "10.0.0.2".into(), port: 80 };
    assert_eq!(server_line(&s), "office._subspace._tcp.local.  10.0.0.2:80");
}

#[test]
fn resolved_entries() {
    assert_eq!(resolved_entry("n", None, 1), None);
    assert_eq!(
        resolved_entry("n", Some("1.1.1.1".into()), 2),
        Some(DiscoveredServer { name: "n".into(), addr: "1.1.1.1".into(), port: 2 })
    );
}

#[test]
fn search_by_name() {
    assert_eq!(search_step("office", "den._subspace._tcp.local.", Some("a".into()), 1), SearchStep::Continue);
    assert_eq!(
        search_step("office", "office._subspace._tcp.local.", Some("a".into()), 1),
        SearchStep::Done(Some(DiscoveredServer { name: "office._subspace._tcp.local.".into(), addr: "a".into(), port: 1 }))
    );
    assert_eq!(search_step("office", "office._subspace._tcp.local.", None, 1), SearchStep::Done(None));
}

#[test]
fn one_hosted_server_at_a_time() {
    let mut c: ServerControl<u32> = ServerControl::new();
    assert!(!c.is_running());
    assert_eq!(c.stop(), Err(ControlError::NotRunning));
    assert_eq!(c.check_can_start(), Ok(()));
    c.install(7);
    assert!(c.is_running());
    assert_eq!(c.check_can_start(), Err(ControlError::AlreadyRunning));
    assert_eq!(c.stop(), Ok(7));
    assert!(!c.is_running());
    assert_eq!(c.stop(), Err(ControlError::NotRunning));
}
