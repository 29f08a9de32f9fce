use interprocess::cmsg::buffer::{Cmsg, CmsgVecBuf};
use interprocess::cmsg::context::Collector;
use interprocess::cmsg::credentials::{
    Credentials, CredentialsContext, CredentialsDecodeError, ScmCredsShape, LEVEL_SOCKET,
    TYPE_SCM_CREDENTIALS, TYPE_SCM_CREDS,
};

#[test]
fn min_ancillary_size_is_one_kernel_block() {
    assert_eq!(Credentials::MIN_ANCILLARY_SIZE, 12);
}

#[test]
fn ucred_round_trip() {
    let creds = Credentials::new_ucred(1234, 1000, 2000);
    let cmsg = creds.to_cmsg();
    assert_eq!(cmsg.cmsg_level(), LEVEL_SOCKET);
    assert_eq!(cmsg.cmsg_type(), TYPE_SCM_CREDENTIALS);
    assert_eq!(cmsg.data().len(), 12);
    let back = Credentials::from_cmsg(&cmsg, ScmCredsShape::Cmsgcred).unwrap();
    assert_eq!(back, creds);
    assert_eq!(back.pid(), Some(1234));
    assert_eq!(back.best_effort_ruid(), 1000);
    assert_eq!(back.best_effort_rgid(), 2000);
}

#[test]
fn ucred_with_negative_pid_round_trips() {
    let creds = Credentials::new_ucred(-5, 1, 2);
    let cmsg = creds.to_cmsg();
    let back = Credentials::from_cmsg(&cmsg, ScmCredsShape::Sockcred).unwrap();
    assert_eq!(back.pid(), Some(-5));
}

#[test]
fn cmsgcred_round_trip() {
    let creds = Credentials::new_cmsgcred(77, 10, 11, 20, vec![20, 21, 22]);
    let cmsg = creds.to_cmsg();
    assert_eq!(cmsg.cmsg_type(), TYPE_SCM_CREDS);
    assert_eq!(cmsg.data().len(), 20 + 4 * 3);
    let back = Credentials::from_cmsg(&cmsg, ScmCredsShape::Cmsgcred).unwrap();
    assert_eq!(back, creds);
    assert_eq!(back.pid(), Some(77));
    assert_eq!(back.best_effort_ruid(), 10);
    assert_eq!(back.best_effort_rgid(), 20);
}

#[test]
fn sockcred_round_trip() {
    let creds = Credentials::new_sockcred(10, 11, 20, 21, vec![30]);
    let cmsg = creds.to_cmsg();
    assert_eq!(cmsg.cmsg_type(), TYPE_SCM_CREDS);
    let back = Credentials::from_cmsg(&cmsg, ScmCredsShape::Sockcred).unwrap();
    assert_eq!(back, creds);
    assert_eq!(back.pid(), None);
    assert_eq!(back.best_effort_ruid(), 10);
    assert_eq!(back.best_effort_rgid(), 20);
}

#[test]
fn sockcred_with_empty_groups_round_trips() {
    let creds = Credentials::new_sockcred(1, 2, 3, 4, Vec::new());
    let back = Credentials::from_cmsg(&creds.to_cmsg(), ScmCredsShape::Sockcred).unwrap();
    assert_eq!(back, creds);
}

#[test]
fn classification_follows_connection_state_only() {
    // One record under the shared identifier; its bytes never decide the
    // shape — only the connection-local state does.
    let cmsg = Credentials::new_cmsgcred(77, 10, 11, 20, vec![5]).to_cmsg();
    let as_cmsgcred = Credentials::from_cmsg(&cmsg, ScmCredsShape::Cmsgcred).unwrap();
    let as_sockcred = Credentials::from_cmsg(&cmsg, ScmCredsShape::Sockcred).unwrap();
    assert!(matches!(as_cmsgcred, Credentials::Cmsgcred { .. }));
    assert!(matches!(as_sockcred, Credentials::Sockcred { .. }));
}

#[test]
fn context_records_continuous_toggle() {
    let mut ctx = CredentialsContext::new();
    assert_eq!(ctx.shape(), ScmCredsShape::Cmsgcred);
    ctx.note_continuous_credentials(true);
    assert_eq!(ctx.shape(), ScmCredsShape::Sockcred);
    ctx.note_continuous_credentials(false);
    assert_eq!(ctx.shape(), ScmCredsShape::Cmsgcred);
}

#[test]
fn context_hooks_leave_state_alone() {
    let mut ctx = CredentialsContext::new();
    ctx.note_continuous_credentials(true);
    ctx.pre_op_collect(3);
    ctx.post_op_collect(3, 0);
    assert_eq!(ctx.shape(), ScmCredsShape::Sockcred);
}

#[test]
fn wrong_level_is_reported() {
    let cmsg = Cmsg::new(LEVEL_SOCKET + 1, TYPE_SCM_CREDENTIALS, vec![0; 12]);
    let r = Credentials::from_cmsg(&cmsg, ScmCredsShape::Cmsgcred);
    assert_eq!(r.unwrap_err(), CredentialsDecodeError::WrongLevel);
}

#[test]
fn wrong_type_is_reported() {
    let cmsg = Cmsg::new(LEVEL_SOCKET, 99, vec![0; 12]);
    let r = Credentials::from_cmsg(&cmsg, ScmCredsShape::Cmsgcred);
    assert_eq!(r.unwrap_err(), CredentialsDecodeError::WrongType);
}

#[test]
fn short_ucred_payload_is_reported() {
    let cmsg = Cmsg::new(LEVEL_SOCKET, TYPE_SCM_CREDENTIALS, vec![0; 11]);
    let r = Credentials::from_cmsg(&cmsg, ScmCredsShape::Cmsgcred);
    assert_eq!(r.unwrap_err(), CredentialsDecodeError::MalformedPayload);
}

#[test]
fn group_count_mismatch_is_reported() {
    // fixed fields claim two groups but only one follows
    let mut payload = vec![0u8; 24];
    payload[16] = 2;
    let cmsg = Cmsg::new(LEVEL_SOCKET, TYPE_SCM_CREDS, payload);
    let r = Credentials::from_cmsg(&cmsg, ScmCredsShape::Sockcred);
    assert_eq!(r.unwrap_err(), CredentialsDecodeError::MalformedPayload);
}

#[test]
fn data_and_credentials_travel_together() {
    // The codec half of one exchange: a sender composes main data and one
    // credentials record; the receiver gets exactly those bytes and exactly
    // one decodable record with the sender's identity.
    let main_data = b"hello from client".to_vec();
    let sender = Credentials::new_ucred(4321, 1000, 1000);

    let mut outgoing = CmsgVecBuf::new(0);
    outgoing.add_message(&sender.to_cmsg());

    // the kernel transfers both regions of one message intact
    let received_data = main_data.clone();
    let received_anc = outgoing.as_bytes().to_vec();
    let used = received_anc.len();

    assert_eq!(received_data.len(), main_data.len());
    let records = interprocess::cmsg::buffer::CmsgRef::new(&received_anc, used)
        .decode_all()
        .expect("decode failed");
    assert_eq!(records.len(), 1);
    let creds = Credentials::from_cmsg(&records[0], ScmCredsShape::Cmsgcred).unwrap();
    assert_eq!(creds.best_effort_ruid(), 1000);
    assert_eq!(creds.best_effort_rgid(), 1000);
    assert_eq!(creds.pid(), Some(4321));
}
