use subspace_conduit::framing::Frame;
use subspace_conduit::paths::{path_components, path_within, plan_resolution, resolve_safe, PathError, Resolution};
use subspace_conduit::protocol::{Hello, HelloResponse, Message, PROTOCOL_VERSION};
use subspace_conduit::session::{
    answer_opening, command_of, download_opening, server_device_name, upload_verdict, Command, Opening, Session,
    SessionAction, UploadReceiver, UploadStep, Phase,
};

#[test]
fn components_skip_empty_and_dot() {
    assert_eq!(path_components("a//b/./c/"), vec!["a", "b", "c"]);
    assert_eq!(path_components("/srv/data"), vec!["srv", "data"]);
    assert!(path_components("").is_empty());
    assert!(path_components("./.").is_empty());
    assert_eq!(path_components("a/../b"), vec!["a", "..", "b"]);
}

#[test]
fn leading_slashes_do_not_matter() {
    for r in ["a.txt", "d/a.txt", "", "."] {
        for k in 0..4 {
            let req = format!("{}{}", "/".repeat(k), r);
            assert_eq!(resolve_safe("/srv", &req, Some("/srv/d")).ok(), resolve_safe("/srv", r, Some("/srv/d")).ok());
            assert_eq!(plan_resolution("/srv", &req), plan_resolution("/srv", r));
        }
    }
}

#[test]
fn parent_reference_escapes() {
    let r = resolve_safe("/srv", "../etc/passwd", Some("/"));
    assert_eq!(r, Err(PathError::Escapes { requested: "../etc/passwd".to_string() }));
    assert_eq!(r.unwrap_err().reason(), "path escapes server root: ../etc/passwd");
    assert!(resolve_safe("/srv", "a/../../x", Some("/srv")).is_err());
}

#[test]
fn empty_and_dot_name_the_root() {
    assert_eq!(resolve_safe("/srv", "", None), Ok("/srv".to_string()));
    assert_eq!(resolve_safe("/srv", ".", None), Ok("/srv".to_string()));
    assert_eq!(resolve_safe("/srv", "///", None), Ok("/srv".to_string()));
    assert_eq!(resolve_safe("/srv", "/./", None), Ok("/srv".to_string()));
}

#[test]
fn entry_is_joined_to_its_canonical_parent() {
    assert_eq!(resolve_safe("/srv", "/docs/a.txt", Some("/srv/docs")), Ok("/srv/docs/a.txt".to_string()));
    assert_eq!(resolve_safe("/srv", "a.txt", Some("/srv")), Ok("/srv/a.txt".to_string()));
    assert_eq!(resolve_safe("/", "a.txt", Some("/")), Ok("/a.txt".to_string()));
}

#[test]
fn missing_parent_is_reported() {
    let r = resolve_safe("/srv", "no/such/file", None);
    assert_eq!(r, Err(PathError::MissingParent { parent: "/srv/no/such".to_string() }));
    assert_eq!(r.unwrap_err().reason(), "parent directory does not exist: /srv/no/such");
    // the parent is shown as written, as Path::parent gives it
    for (req, parent) in [("a//b/c", "/srv/a//b"), ("./x", "/srv"), ("a/./b/", "/srv/a"), ("///a/b", "/srv/a"), ("a/b/.", "/srv/a")] {
        let expected = std::path::Path::new("/srv").join(req.trim_start_matches('/')).parent().unwrap().display().to_string();
        assert_eq!(expected, parent, "{req}");
        assert_eq!(resolve_safe("/srv", req, None), Err(PathError::MissingParent { parent: parent.to_string() }), "{req}");
    }
}

#[test]
fn parent_outside_root_escapes() {
    // a link inside the root that leads out of it
    let r = resolve_safe("/srv", "link/x", Some("/etc"));
    assert_eq!(r, Err(PathError::Escapes { requested: "link/x".to_string() }));
    // a parent that is not canonical and climbs out
    assert_eq!(
        resolve_safe("/r", "x", Some("/r/../e")),
        Err(PathError::Escapes { requested: "x".to_string() })
    );
    // a sibling whose name only starts like the root
    assert!(resolve_safe("/srv", "x/y", Some("/srvother")).is_err());
}

#[test]
fn plan_names_parent_and_entry() {
    assert_eq!(
        plan_resolution("/srv", "a/b/c.txt"),
        Ok(Resolution::Entry { parent: "/srv/a/b".to_string(), name: "c.txt".to_string() })
    );
    assert_eq!(plan_resolution("/srv", "."), Ok(Resolution::Root("/srv".to_string())));
}

#[test]
fn within_compares_components() {
    assert!(path_within("/srv/a", "/srv"));
    assert!(path_within("/srv", "/srv"));
    assert!(!path_within("/srvx", "/srv"));
    assert!(!path_within("/", "/srv"));
    assert!(!path_within("srv/a", "/srv"));
    assert!(!path_within("/srv/../etc", "/srv"));
}

#[test]
fn hello_of_this_version_is_accepted() {
    let hello = Message::Hello(Hello { version: PROTOCOL_VERSION, device_name: "laptop".to_string() });
    assert_eq!(
        answer_opening(&hello),
        Opening::Accept(Message::HelloResponse(HelloResponse::Accepted { server_name: "subspace_conduit".to_string() }))
    );
}

#[test]
fn hello_of_another_version_is_refused() {
    let hello = Message::Hello(Hello { version: 42, device_name: "laptop".to_string() });
    assert_eq!(
        answer_opening(&hello),
        Opening::Reject(Message::HelloResponse(HelloResponse::Rejected {
            reason: "unsupported protocol version 42".to_string()
        }))
    );
}

#[test]
fn other_opening_is_ignored() {
    assert_eq!(answer_opening(&Message::Ping), Opening::Ignore);
}

#[test]
fn commands_are_sorted() {
    assert_eq!(command_of(Message::ListDir { path: "x".into() }), Command::List { path: "x".into() });
    assert_eq!(
        command_of(Message::Download { path: "f".into(), offset: 3 }),
        Command::Download { path: "f".into(), offset: 3 }
    );
    assert_eq!(
        command_of(Message::Upload { path: "f".into(), size: 9, resume: true }),
        Command::Upload { path: "f".into(), size: 9, resume: true }
    );
    assert_eq!(command_of(Message::Pong), Command::Unexpected(Message::Pong));
}

#[test]
fn download_opening_cases() {
    assert_eq!(download_opening(0, 10), Message::DownloadStart { size: 10 });
    assert_eq!(download_opening(10, 10), Message::DownloadStart { size: 10 });
    assert_eq!(
        download_opening(11, 10),
        Message::DownloadError { reason: "resume offset 11 is past end of file (size 10)".to_string() }
    );
}

const SHA_ABC: &str = "ba7816bf8f01cfea414140de5dae2223b00361a396177a9cb410ff61f20015ad";

#[test]
fn upload_frames_are_sorted() {
    let mut r = UploadReceiver::new();
    assert_eq!(r.on_frame(Frame::Data(vec![1, 2])), UploadStep::Write(vec![1, 2]));
    assert_eq!(
        r.on_frame(Frame::Control(Message::UploadEnd { checksum: "c".into() })),
        UploadStep::Finish { checksum: "c".into() }
    );
    assert_eq!(r.on_frame(Frame::Control(Message::Ping)), UploadStep::Stop(Message::Ping));
}

#[test]
fn upload_verdict_hashes_kept_and_received_bytes() {
    let mut r = UploadReceiver::new();
    r.keep(b"a");
    r.on_frame(Frame::Data(b"bc".to_vec()));
    assert_eq!(r.verdict(&SHA_ABC.to_string()), Message::UploadAck);
    let mut r = UploadReceiver::new();
    r.on_frame(Frame::Data(b"abd".to_vec()));
    assert_eq!(
        r.verdict(&SHA_ABC.to_string()),
        Message::UploadError {
            reason: format!(
                "checksum mismatch: client sent {SHA_ABC}, server computed {}",
                subspace_conduit::digest::fingerprint(b"abd")
            )
        }
    );
}

#[test]
fn session_serves_only_after_accepted_hello() {
    let hello = Message::Hello(Hello { version: PROTOCOL_VERSION, device_name: "d".into() });
    let mut s = Session::new();
    assert!(matches!(s.on_message(hello), SessionAction::Reply(_)));
    assert_eq!(s.phase, Phase::Serving);
    assert_eq!(
        s.on_message(Message::ListDir { path: ".".into() }),
        SessionAction::Serve(Command::List { path: ".".into() })
    );

    let mut s = Session::new();
    assert_eq!(s.on_message(Message::ListDir { path: ".".into() }), SessionAction::Close(Message::ListDir { path: ".".into() }));
    assert_eq!(s.phase, Phase::Closed);
    assert_eq!(s.on_message(Message::Ping), SessionAction::Close(Message::Ping));

    let mut s = Session::new();
    let old = Message::Hello(Hello { version: 9, device_name: "d".into() });
    assert!(matches!(s.on_message(old), SessionAction::ReplyAndClose(_)));
    assert_eq!(s.phase, Phase::Closed);
}

#[test]
fn upload_verdict_cases() {
    assert_eq!(upload_verdict(&"ab".into(), &"ab".into()), Message::UploadAck);
    assert_eq!(
        upload_verdict(&"ab".into(), &"cd".into()),
        Message::UploadError { reason: "checksum mismatch: client sent ab, server computed cd".to_string() }
    );
}

#[test]
fn server_device_name_fallbacks() {
    assert_eq!(server_device_name(Some("box".into()), Some("host".into())), "box");
    assert_eq!(server_device_name(None, Some("host".into())), "host");
    assert_eq!(server_device_name(None, None), "subspace-conduit-server");
}
