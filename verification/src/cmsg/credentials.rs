//! The credentials control-message variant set: per-platform wire shapes for
//! process/user/group identity, and the collector-driven disambiguation for
//! the platform where two wire shapes share one message identifier.
//!
//! # Wire shapes
//! Three payload layouts exist, all little-endian with 4-byte fields:
//!
//! - *kernel-credential block* (ucred-style): process id, user id, group id —
//!   12 bytes, under its own message type identifier;
//! - *sender-asserted block* (cmsgcred-style): process id, real and effective
//!   user id, real group id, then a count-prefixed supplementary group list;
//! - *socket-option-derived block* (sockcred-style): real and effective user
//!   id, real and effective group id, then a count-prefixed group list — and
//!   no process id.
//!
//! The last two share one message type identifier on the platform that has
//! them both, so a decoder cannot classify such a record from the record
//! alone. [`CredentialsContext`] carries the connection-local answer: which
//! shape this connection configured the kernel to emit when it last toggled
//! continuous credential attachment. Classification uses only that state —
//! never a fresh kernel query, which could race with a concurrent
//! reconfiguration.

use vstd::prelude::*;

use crate::cmsg::buffer::{
    read_uint_le, spec_le_bytes, spec_le_val, write_uint_le, Cmsg, CmsgModel,
};
use crate::cmsg::buffer::{lemma_le_bytes_len, lemma_le_bytes_val, lemma_le_val_bound,
    lemma_pow256_values, pow256};
use crate::cmsg::context::Collector;

verus! {

/// The level identifier of socket-level control messages.
pub const LEVEL_SOCKET: u32 = 1;

/// The message type identifier of the kernel-credential (ucred-style) wire
/// shape.
pub const TYPE_SCM_CREDENTIALS: u32 = 2;

/// The message type identifier shared — ambiguously, on one platform — by
/// the sender-asserted (cmsgcred-style) and socket-option-derived
/// (sockcred-style) wire shapes.
pub const TYPE_SCM_CREDS: u32 = 3;

/// The largest supplementary group count a sender-asserted block carries.
pub const CMGROUP_MAX: usize = 16;

/// The largest supplementary group count a socket-option-derived block
/// carries.
pub const SOCKCRED_MAX_GROUPS: usize = 1024;

/// The mathematical model of a decoded or composed credentials record.
pub enum CredentialsModel {
    /// A kernel-credential block: pid, uid and gid, all kernel-checked.
    Ucred { pid: i32, uid: u32, gid: u32 },
    /// A sender-asserted block: pid, real/effective uid, real gid and
    /// supplementary groups.
    Cmsgcred { pid: i32, ruid: u32, euid: u32, rgid: u32, groups: Seq<u32> },
    /// A socket-option-derived block: real/effective uid and gid and
    /// supplementary groups; no pid.
    Sockcred { ruid: u32, euid: u32, rgid: u32, egid: u32, groups: Seq<u32> },
}

impl CredentialsModel {
    /// A record whose group list fits the platform bound of its shape.
    pub open spec fn wf(self) -> bool {
        match self {
            CredentialsModel::Ucred { .. } => true,
            CredentialsModel::Cmsgcred { groups, .. } => groups.len() <= CMGROUP_MAX,
            CredentialsModel::Sockcred { groups, .. } => groups.len() <= SOCKCRED_MAX_GROUPS,
        }
    }

    /// The process id the record carries, if its shape has one.
    pub open spec fn spec_pid(self) -> Option<i32> {
        match self {
            CredentialsModel::Ucred { pid, .. } => Some(pid),
            CredentialsModel::Cmsgcred { pid, .. } => Some(pid),
            CredentialsModel::Sockcred { .. } => None,
        }
    }

    /// The closest thing to a real user id the record carries; every shape
    /// has one.
    pub open spec fn spec_ruid(self) -> u32 {
        match self {
            CredentialsModel::Ucred { uid, .. } => uid,
            CredentialsModel::Cmsgcred { ruid, .. } => ruid,
            CredentialsModel::Sockcred { ruid, .. } => ruid,
        }
    }

    /// The closest thing to a real group id the record carries; every shape
    /// has one.
    pub open spec fn spec_rgid(self) -> u32 {
        match self {
            CredentialsModel::Ucred { gid, .. } => gid,
            CredentialsModel::Cmsgcred { rgid, .. } => rgid,
            CredentialsModel::Sockcred { rgid, .. } => rgid,
        }
    }

    /// The message type identifier under which the record travels.
    pub open spec fn spec_msg_type(self) -> u32 {
        match self {
            CredentialsModel::Ucred { .. } => TYPE_SCM_CREDENTIALS,
            CredentialsModel::Cmsgcred { .. } => TYPE_SCM_CREDS,
            CredentialsModel::Sockcred { .. } => TYPE_SCM_CREDS,
        }
    }
}

/// The byte encoding of a group list: each id as 4 little-endian bytes.
pub open spec fn spec_groups_bytes(gs: Seq<u32>) -> Seq<u8>
    decreases gs.len(),
{
    if gs.len() == 0 {
        Seq::empty()
    } else {
        spec_le_bytes(gs[0] as int, 4) + spec_groups_bytes(gs.drop_first())
    }
}

/// The group list a byte region denotes: every full 4-byte field, in order.
pub open spec fn spec_decode_groups(b: Seq<u8>) -> Seq<u32>
    decreases b.len(),
{
    if b.len() < 4 {
        Seq::empty()
    } else {
        seq![spec_le_val(b.subrange(0, 4)) as u32] + spec_decode_groups(b.skip(4))
    }
}

/// The payload bytes of a credentials record, per its shape.
pub open spec fn spec_credentials_payload(c: CredentialsModel) -> Seq<u8> {
    match c {
        CredentialsModel::Ucred { pid, uid, gid } => spec_le_bytes((pid as u32) as int, 4)
            + spec_le_bytes(uid as int, 4) + spec_le_bytes(gid as int, 4),
        CredentialsModel::Cmsgcred { pid, ruid, euid, rgid, groups } => spec_le_bytes(
            (pid as u32) as int,
            4,
        ) + spec_le_bytes(ruid as int, 4) + spec_le_bytes(euid as int, 4) + spec_le_bytes(
            rgid as int,
            4,
        ) + spec_le_bytes(groups.len() as int, 4) + spec_groups_bytes(groups),
        CredentialsModel::Sockcred { ruid, euid, rgid, egid, groups } => spec_le_bytes(
            ruid as int,
            4,
        ) + spec_le_bytes(euid as int, 4) + spec_le_bytes(rgid as int, 4) + spec_le_bytes(
            egid as int,
            4,
        ) + spec_le_bytes(groups.len() as int, 4) + spec_groups_bytes(groups),
    }
}

/// The whole control-message record a credentials value composes to.
pub open spec fn spec_credentials_cmsg(c: CredentialsModel) -> CmsgModel {
    CmsgModel { level: LEVEL_SOCKET, ty: c.spec_msg_type(), data: spec_credentials_payload(c) }
}

/// Which of the two ambiguous wire shapes this connection configured the
/// kernel to emit.
#[derive(Clone, Copy, Debug, PartialEq, Eq, Structural)]
pub enum ScmCredsShape {
    /// Continuous credential attachment is off: records under the shared
    /// identifier are sender-asserted blocks.
    Cmsgcred,
    /// Continuous credential attachment is on: records under the shared
    /// identifier are socket-option-derived blocks.
    Sockcred,
}

/// Structured failures of credentials decoding, distinct from the
/// absence of a record.
#[derive(Clone, Copy, Debug, PartialEq, Eq, Structural)]
pub enum CredentialsDecodeError {
    /// The record is not a socket-level control message.
    WrongLevel,
    /// The record is a socket-level message of some other type.
    WrongType,
    /// The payload does not have the exact size its shape dictates.
    MalformedPayload,
}

/// The credentials value a control-message record denotes, classifying
/// records under the shared identifier solely by the connection-local
/// `shape` — never by a kernel query, which could race.
pub open spec fn spec_decode_credentials(m: CmsgModel, shape: ScmCredsShape) -> Result<
    CredentialsModel,
    CredentialsDecodeError,
> {
    if m.level != LEVEL_SOCKET {
        Err(CredentialsDecodeError::WrongLevel)
    } else if m.ty == TYPE_SCM_CREDENTIALS {
        if m.data.len() == 12 {
            Ok(
                CredentialsModel::Ucred {
                    pid: (spec_le_val(m.data.subrange(0, 4)) as u32) as i32,
                    uid: spec_le_val(m.data.subrange(4, 8)) as u32,
                    gid: spec_le_val(m.data.subrange(8, 12)) as u32,
                },
            )
        } else {
            Err(CredentialsDecodeError::MalformedPayload)
        }
    } else if m.ty == TYPE_SCM_CREDS {
        if m.data.len() < 20 || m.data.len() != 20 + 4 * spec_le_val(m.data.subrange(16, 20)) {
            Err(CredentialsDecodeError::MalformedPayload)
        } else {
            match shape {
                ScmCredsShape::Cmsgcred => Ok(
                    CredentialsModel::Cmsgcred {
                        pid: (spec_le_val(m.data.subrange(0, 4)) as u32) as i32,
                        ruid: spec_le_val(m.data.subrange(4, 8)) as u32,
                        euid: spec_le_val(m.data.subrange(8, 12)) as u32,
                        rgid: spec_le_val(m.data.subrange(12, 16)) as u32,
                        groups: spec_decode_groups(m.data.skip(20)),
                    },
                ),
                ScmCredsShape::Sockcred => Ok(
                    CredentialsModel::Sockcred {
                        ruid: spec_le_val(m.data.subrange(0, 4)) as u32,
                        euid: spec_le_val(m.data.subrange(4, 8)) as u32,
                        rgid: spec_le_val(m.data.subrange(8, 12)) as u32,
                        egid: spec_le_val(m.data.subrange(12, 16)) as u32,
                        groups: spec_decode_groups(m.data.skip(20)),
                    },
                ),
            }
        }
    } else {
        Err(CredentialsDecodeError::WrongType)
    }
}

/// A credentials record: process/user/group identity in one of the
/// platform wire shapes.
#[derive(Clone, Debug, PartialEq, Eq)]
pub enum Credentials {
    /// A kernel-credential block: pid, uid and gid, all kernel-checked.
    Ucred { pid: i32, uid: u32, gid: u32 },
    /// A sender-asserted block: pid, real/effective uid, real gid and
    /// supplementary groups.
    Cmsgcred { pid: i32, ruid: u32, euid: u32, rgid: u32, groups: Vec<u32> },
    /// A socket-option-derived block: real/effective uid and gid and
    /// supplementary groups; no pid.
    Sockcred { ruid: u32, euid: u32, rgid: u32, egid: u32, groups: Vec<u32> },
}

impl View for Credentials {
    type V = CredentialsModel;

    closed spec fn view(&self) -> CredentialsModel {
        match self {
            Credentials::Ucred { pid, uid, gid } => CredentialsModel::Ucred {
                pid: *pid,
                uid: *uid,
                gid: *gid,
            },
            Credentials::Cmsgcred { pid, ruid, euid, rgid, groups } => CredentialsModel::Cmsgcred {
                pid: *pid,
                ruid: *ruid,
                euid: *euid,
                rgid: *rgid,
                groups: groups@,
            },
            Credentials::Sockcred { ruid, euid, rgid, egid, groups } => CredentialsModel::Sockcred {
                ruid: *ruid,
                euid: *euid,
                rgid: *rgid,
                egid: *egid,
                groups: groups@,
            },
        }
    }
}

impl Credentials {
    /// The smallest payload size a credentials record can have: used to size
    /// receive buffers for an expected number of records.
    pub const MIN_ANCILLARY_SIZE: usize = 12;

    /// Creates a kernel-credential block from explicit identity values.
    pub fn new_ucred(pid: i32, uid: u32, gid: u32) -> (r: Self)
        ensures
            r@ == (CredentialsModel::Ucred { pid, uid, gid }),
    {
        Credentials::Ucred { pid, uid, gid }
    }

    /// Creates a sender-asserted block from explicit identity values.
    pub fn new_cmsgcred(pid: i32, ruid: u32, euid: u32, rgid: u32, groups: Vec<u32>) -> (r: Self)
        requires
            groups@.len() <= CMGROUP_MAX,
        ensures
            r@ == (CredentialsModel::Cmsgcred { pid, ruid, euid, rgid, groups: groups@ }),
            r@.wf(),
    {
        Credentials::Cmsgcred { pid, ruid, euid, rgid, groups }
    }

    /// Creates a socket-option-derived block from explicit identity values.
    pub fn new_sockcred(ruid: u32, euid: u32, rgid: u32, egid: u32, groups: Vec<u32>) -> (r: Self)
        requires
            groups@.len() <= SOCKCRED_MAX_GROUPS,
        ensures
            r@ == (CredentialsModel::Sockcred { ruid, euid, rgid, egid, groups: groups@ }),
            r@.wf(),
    {
        Credentials::Sockcred { ruid, euid, rgid, egid, groups }
    }

    /// The process id of the sender, for wire shapes that carry one; never
    /// fabricated for shapes that do not.
    pub fn pid(&self) -> (r: Option<i32>)
        ensures
            r == self@.spec_pid(),
    {
        match self {
            Credentials::Ucred { pid, .. } => Some(*pid),
            Credentials::Cmsgcred { pid, .. } => Some(*pid),
            Credentials::Sockcred { .. } => None,
        }
    }

    /// The real user id of the sender, as close as the wire shape gets to
    /// one; every shape carries it.
    pub fn best_effort_ruid(&self) -> (r: u32)
        ensures
            r == self@.spec_ruid(),
    {
        match self {
            Credentials::Ucred { uid, .. } => *uid,
            Credentials::Cmsgcred { ruid, .. } => *ruid,
            Credentials::Sockcred { ruid, .. } => *ruid,
        }
    }

    /// The real group id of the sender, as close as the wire shape gets to
    /// one; every shape carries it.
    pub fn best_effort_rgid(&self) -> (r: u32)
        ensures
            r == self@.spec_rgid(),
    {
        match self {
            Credentials::Ucred { gid, .. } => *gid,
            Credentials::Cmsgcred { rgid, .. } => *rgid,
            Credentials::Sockcred { rgid, .. } => *rgid,
        }
    }
}

/// A group-list encoding is 4 bytes per id.
pub proof fn lemma_groups_bytes_len(gs: Seq<u32>)
    ensures
        spec_groups_bytes(gs).len() == 4 * gs.len(),
    decreases gs.len(),
{
    if gs.len() > 0 {
        lemma_le_bytes_len(gs[0] as int, 4);
        lemma_groups_bytes_len(gs.drop_first());
    }
}

/// Appending a group id appends its 4-byte encoding.
pub proof fn lemma_groups_bytes_push(gs: Seq<u32>, g: u32)
    ensures
        spec_groups_bytes(gs.push(g)) == spec_groups_bytes(gs) + spec_le_bytes(g as int, 4),
    decreases gs.len(),
{
    if gs.len() == 0 {
        assert(gs.push(g)[0] == g);
        assert(gs.push(g).drop_first() =~= Seq::<u32>::empty());
        assert(spec_groups_bytes(gs.push(g)) == spec_le_bytes(g as int, 4) + spec_groups_bytes(
            Seq::<u32>::empty(),
        ));
        assert(spec_le_bytes(g as int, 4) + Seq::<u8>::empty() =~= spec_le_bytes(g as int, 4));
        assert(spec_groups_bytes(gs) + spec_le_bytes(g as int, 4) =~= spec_le_bytes(g as int, 4));
    } else {
        lemma_groups_bytes_push(gs.drop_first(), g);
        assert(gs.push(g)[0] == gs[0]);
        assert(gs.push(g).drop_first() =~= gs.drop_first().push(g));
        assert(spec_le_bytes(gs[0] as int, 4) + (spec_groups_bytes(gs.drop_first())
            + spec_le_bytes(g as int, 4)) =~= (spec_le_bytes(gs[0] as int, 4)
            + spec_groups_bytes(gs.drop_first())) + spec_le_bytes(g as int, 4));
    }
}

/// Decoding an encoded group list yields the original ids.
pub proof fn lemma_groups_round_trip(gs: Seq<u32>)
    ensures
        spec_decode_groups(spec_groups_bytes(gs)) == gs,
    decreases gs.len(),
{
    lemma_pow256_values();
    if gs.len() == 0 {
        assert(gs =~= Seq::<u32>::empty());
    } else {
        let b = spec_groups_bytes(gs);
        lemma_le_bytes_len(gs[0] as int, 4);
        lemma_groups_bytes_len(gs.drop_first());
        assert(b.subrange(0, 4) =~= spec_le_bytes(gs[0] as int, 4));
        lemma_le_bytes_val(gs[0] as int, 4);
        assert(b.skip(4) =~= spec_groups_bytes(gs.drop_first()));
        lemma_groups_round_trip(gs.drop_first());
        assert(seq![gs[0]] + gs.drop_first() =~= gs);
    }
}

/// The bit pattern of a process id survives the unsigned wire field.
pub proof fn lemma_pid_bits_round_trip(pid: i32)
    ensures
        ((pid as u32) as i32) == pid,
{
    assert(((pid as u32) as i32) == pid) by (bit_vector);
}

/// Whether the connection-local shape state names the wire shape a record
/// actually uses; the kernel-credential shape travels under its own
/// identifier and matches either state.
pub open spec fn shape_matches(c: CredentialsModel, shape: ScmCredsShape) -> bool {
    match c {
        CredentialsModel::Ucred { .. } => true,
        CredentialsModel::Cmsgcred { .. } => shape == ScmCredsShape::Cmsgcred,
        CredentialsModel::Sockcred { .. } => shape == ScmCredsShape::Sockcred,
    }
}

/// Round-trip law: a credentials record composed into a control message and
/// decoded back under the matching connection-local shape yields exactly the
/// original identity values.
pub proof fn lemma_credentials_round_trip(c: CredentialsModel, shape: ScmCredsShape)
    requires
        c.wf(),
        shape_matches(c, shape),
    ensures
        spec_decode_credentials(spec_credentials_cmsg(c), shape) == Ok::<
            CredentialsModel,
            CredentialsDecodeError,
        >(c),
{
    lemma_pow256_values();
    let data = spec_credentials_payload(c);
    match c {
        CredentialsModel::Ucred { pid, uid, gid } => {
            lemma_le_bytes_len((pid as u32) as int, 4);
            lemma_le_bytes_len(uid as int, 4);
            lemma_le_bytes_len(gid as int, 4);
            assert(data.subrange(0, 4) =~= spec_le_bytes((pid as u32) as int, 4));
            assert(data.subrange(4, 8) =~= spec_le_bytes(uid as int, 4));
            assert(data.subrange(8, 12) =~= spec_le_bytes(gid as int, 4));
            lemma_le_bytes_val((pid as u32) as int, 4);
            lemma_le_bytes_val(uid as int, 4);
            lemma_le_bytes_val(gid as int, 4);
            lemma_pid_bits_round_trip(pid);
        },
        CredentialsModel::Cmsgcred { pid, ruid, euid, rgid, groups } => {
            lemma_le_bytes_len((pid as u32) as int, 4);
            lemma_le_bytes_len(ruid as int, 4);
            lemma_le_bytes_len(euid as int, 4);
            lemma_le_bytes_len(rgid as int, 4);
            lemma_le_bytes_len(groups.len() as int, 4);
            lemma_groups_bytes_len(groups);
            assert(data.subrange(0, 4) =~= spec_le_bytes((pid as u32) as int, 4));
            assert(data.subrange(4, 8) =~= spec_le_bytes(ruid as int, 4));
            assert(data.subrange(8, 12) =~= spec_le_bytes(euid as int, 4));
            assert(data.subrange(12, 16) =~= spec_le_bytes(rgid as int, 4));
            assert(data.subrange(16, 20) =~= spec_le_bytes(groups.len() as int, 4));
            assert(data.skip(20) =~= spec_groups_bytes(groups));
            lemma_le_bytes_val((pid as u32) as int, 4);
            lemma_le_bytes_val(ruid as int, 4);
            lemma_le_bytes_val(euid as int, 4);
            lemma_le_bytes_val(rgid as int, 4);
            lemma_le_bytes_val(groups.len() as int, 4);
            lemma_groups_round_trip(groups);
            lemma_pid_bits_round_trip(pid);
        },
        CredentialsModel::Sockcred { ruid, euid, rgid, egid, groups } => {
            lemma_le_bytes_len(ruid as int, 4);
            lemma_le_bytes_len(euid as int, 4);
            lemma_le_bytes_len(rgid as int, 4);
            lemma_le_bytes_len(egid as int, 4);
            lemma_le_bytes_len(groups.len() as int, 4);
            lemma_groups_bytes_len(groups);
            assert(data.subrange(0, 4) =~= spec_le_bytes(ruid as int, 4));
            assert(data.subrange(4, 8) =~= spec_le_bytes(euid as int, 4));
            assert(data.subrange(8, 12) =~= spec_le_bytes(rgid as int, 4));
            assert(data.subrange(12, 16) =~= spec_le_bytes(egid as int, 4));
            assert(data.subrange(16, 20) =~= spec_le_bytes(groups.len() as int, 4));
            assert(data.skip(20) =~= spec_groups_bytes(groups));
            lemma_le_bytes_val(ruid as int, 4);
            lemma_le_bytes_val(euid as int, 4);
            lemma_le_bytes_val(rgid as int, 4);
            lemma_le_bytes_val(egid as int, 4);
            lemma_le_bytes_val(groups.len() as int, 4);
            lemma_groups_round_trip(groups);
        },
    }
}

/// Classification law for the shared identifier: a successful decode yields
/// exactly the variant the connection-local shape state names, whatever the
/// record's bytes are. Misclassification by a concurrent reconfiguration
/// elsewhere is therefore impossible: no kernel state enters the decision.
pub proof fn lemma_ambiguous_classification(m: CmsgModel, shape: ScmCredsShape)
    requires
        m.level == LEVEL_SOCKET,
        m.ty == TYPE_SCM_CREDS,
    ensures
        match spec_decode_credentials(m, shape) {
            Ok(c) => (c is Sockcred <==> shape is Sockcred) && (c is Cmsgcred <==> shape
                is Cmsgcred),
            Err(_) => true,
        },
{
}


impl Credentials {
    /// Composes the record into a control message under the level and type
    /// identifiers of its wire shape.
    pub fn to_cmsg(&self) -> (r: Cmsg)
        requires
            self@.wf(),
        ensures
            r@ == spec_credentials_cmsg(self@),
            r@.wf(),
    {
        proof {
            lemma_pow256_values();
        }
        let mut payload: Vec<u8> = Vec::new();
        let ty: u32;
        match self {
            Credentials::Ucred { pid, uid, gid } => {
                write_uint_le(&mut payload, (#[verifier::truncate] (*pid as u32)) as u64, 4);
                write_uint_le(&mut payload, *uid as u64, 4);
                write_uint_le(&mut payload, *gid as u64, 4);
                ty = TYPE_SCM_CREDENTIALS;
            },
            Credentials::Cmsgcred { pid, ruid, euid, rgid, groups } => {
                write_uint_le(&mut payload, (#[verifier::truncate] (*pid as u32)) as u64, 4);
                write_uint_le(&mut payload, *ruid as u64, 4);
                write_uint_le(&mut payload, *euid as u64, 4);
                write_uint_le(&mut payload, *rgid as u64, 4);
                write_uint_le(&mut payload, groups.len() as u64, 4);
                append_groups(&mut payload, groups);
                ty = TYPE_SCM_CREDS;
            },
            Credentials::Sockcred { ruid, euid, rgid, egid, groups } => {
                write_uint_le(&mut payload, *ruid as u64, 4);
                write_uint_le(&mut payload, *euid as u64, 4);
                write_uint_le(&mut payload, *rgid as u64, 4);
                write_uint_le(&mut payload, *egid as u64, 4);
                write_uint_le(&mut payload, groups.len() as u64, 4);
                append_groups(&mut payload, groups);
                ty = TYPE_SCM_CREDS;
            },
        }
        proof {
            assert(payload@ =~= spec_credentials_payload(self@));
        }
        let r = Cmsg::new(LEVEL_SOCKET, ty, payload);
        proof {
            assert(r@ =~~= spec_credentials_cmsg(self@));
        }
        r
    }

    /// Decodes a control-message record into a credentials value,
    /// classifying a record under the shared identifier solely by the
    /// connection-local `shape` — never by a kernel query, which could race.
    pub fn from_cmsg(cmsg: &Cmsg, shape: ScmCredsShape) -> (r: Result<
        Credentials,
        CredentialsDecodeError,
    >)
        ensures
            match r {
                Ok(c) => spec_decode_credentials(cmsg@, shape) == Ok::<
                    CredentialsModel,
                    CredentialsDecodeError,
                >(c@),
                Err(e) => spec_decode_credentials(cmsg@, shape) == Err::<
                    CredentialsModel,
                    CredentialsDecodeError,
                >(e),
            },
    {
        proof {
            lemma_pow256_values();
        }
        if cmsg.cmsg_level() != LEVEL_SOCKET {
            return Err(CredentialsDecodeError::WrongLevel);
        }
        let ty = cmsg.cmsg_type();
        let data = cmsg.data();
        let dlen = data.len();
        if ty == TYPE_SCM_CREDENTIALS {
            if dlen != 12 {
                return Err(CredentialsDecodeError::MalformedPayload);
            }
            proof {
                lemma_le_val_bound(data@.subrange(0, 4));
                lemma_le_val_bound(data@.subrange(4, 8));
                lemma_le_val_bound(data@.subrange(8, 12));
            }
            let pid = (read_uint_le(data, 0, 4) as u32) as i32;
            let uid = read_uint_le(data, 4, 4) as u32;
            let gid = read_uint_le(data, 8, 4) as u32;
            return Ok(Credentials::Ucred { pid, uid, gid });
        }
        if ty != TYPE_SCM_CREDS {
            return Err(CredentialsDecodeError::WrongType);
        }
        if dlen < 20 {
            return Err(CredentialsDecodeError::MalformedPayload);
        }
        proof {
            lemma_le_val_bound(data@.subrange(16, 20));
        }
        let n64 = read_uint_le(data, 16, 4);
        let rest = dlen - 20;
        if rest % 4 != 0 || (rest / 4) as u64 != n64 {
            return Err(CredentialsDecodeError::MalformedPayload);
        }
        let n = rest / 4;
        proof {
            lemma_le_val_bound(data@.subrange(0, 4));
            lemma_le_val_bound(data@.subrange(4, 8));
            lemma_le_val_bound(data@.subrange(8, 12));
            lemma_le_val_bound(data@.subrange(12, 16));
        }
        let f0 = read_uint_le(data, 0, 4) as u32;
        let f1 = read_uint_le(data, 4, 4) as u32;
        let f2 = read_uint_le(data, 8, 4) as u32;
        let f3 = read_uint_le(data, 12, 4) as u32;
        let groups = decode_groups(data, n);
        match shape {
            ScmCredsShape::Cmsgcred => Ok(
                Credentials::Cmsgcred {
                    pid: f0 as i32,
                    ruid: f1,
                    euid: f2,
                    rgid: f3,
                    groups,
                },
            ),
            ScmCredsShape::Sockcred => Ok(
                Credentials::Sockcred { ruid: f0, euid: f1, rgid: f2, egid: f3, groups },
            ),
        }
    }
}

/// Appends the 4-byte encodings of every group id to `payload`.
fn append_groups(payload: &mut Vec<u8>, groups: &Vec<u32>)
    requires
        old(payload)@.len() + 4 * groups@.len() <= usize::MAX,
    ensures
        final(payload)@ == old(payload)@ + spec_groups_bytes(groups@),
        final(payload)@.len() == old(payload)@.len() + 4 * groups@.len(),
{
    proof {
        lemma_pow256_values();
        lemma_groups_bytes_len(groups@);
    }
    let mut i: usize = 0;
    while i < groups.len()
        invariant
            i <= groups@.len(),
            old(payload)@.len() + 4 * groups@.len() <= usize::MAX,
            payload@ == old(payload)@ + spec_groups_bytes(groups@.take(i as int)),
            pow256(4) == 0x1_0000_0000,
        decreases groups@.len() - i,
    {
        proof {
            lemma_groups_bytes_len(groups@.take(i as int));
            lemma_groups_bytes_push(groups@.take(i as int), groups@[i as int]);
            assert(groups@.take(i as int).push(groups@[i as int]) =~= groups@.take(i + 1));
            assert((old(payload)@ + spec_groups_bytes(groups@.take(i as int))) + spec_le_bytes(
                groups@[i as int] as int,
                4,
            ) =~= old(payload)@ + (spec_groups_bytes(groups@.take(i as int)) + spec_le_bytes(
                groups@[i as int] as int,
                4,
            )));
        }
        let g = groups[i];
        write_uint_le(payload, g as u64, 4);
        i += 1;
    }
    proof {
        assert(groups@.take(groups@.len() as int) =~= groups@);
    }
}

/// Reads `n` 4-byte group ids that begin 20 bytes into `data`.
fn decode_groups(data: &[u8], n: usize) -> (r: Vec<u32>)
    requires
        data@.len() == 20 + 4 * n,
    ensures
        r@ == spec_decode_groups(data@.skip(20)),
        r@.len() == n,
    {
    proof {
        lemma_pow256_values();
    }
    let dl = data.len();
    let mut groups: Vec<u32> = Vec::new();
    let mut i: usize = 0;
    while i < n
        invariant
            i <= n,
            data@.len() == 20 + 4 * n,
            dl == data@.len(),
            groups@.len() == i,
            spec_decode_groups(data@.skip(20)) == groups@ + spec_decode_groups(
                data@.skip(20 + 4 * i),
            ),
            pow256(4) == 0x1_0000_0000,
        decreases n - i,
    {
        proof {
            let region = data@.skip(20 + 4 * i);
            assert(region.len() == 4 * (n - i));
            assert(region.subrange(0, 4) =~= data@.subrange(20 + 4 * i, 24 + 4 * i));
            lemma_le_val_bound(data@.subrange(20 + 4 * i, 24 + 4 * i));
            assert(region.skip(4) =~= data@.skip(20 + 4 * (i + 1)));
        }
        let g = read_uint_le(data, 20 + 4 * i, 4) as u32;
        proof {
            let region = data@.skip(20 + 4 * i);
            assert(groups@ + (seq![g] + spec_decode_groups(region.skip(4))) =~= groups@.push(g)
                + spec_decode_groups(region.skip(4)));
        }
        groups.push(g);
        i += 1;
    }
    proof {
        assert(data@.skip(20 + 4 * n).len() == 0);
        assert(groups@ + spec_decode_groups(data@.skip(20 + 4 * n)) =~= groups@);
    }
    groups
}

/// Connection-local credential-shape state, usable as a [`Collector`].
///
/// The stream that owns a connection records here — at the moment it toggles
/// continuous credential attachment — which wire shape the kernel will emit
/// under the shared identifier from then on. The decode path reads the
/// answer from this value alone, so a configuration change on an unrelated
/// socket or thread can never affect how this connection's records are
/// classified.
#[derive(Clone, Copy, Debug, PartialEq, Eq, Structural)]
pub struct CredentialsContext {
    /// The wire shape this connection last configured the kernel to emit.
    pub shape: ScmCredsShape,
}

impl CredentialsContext {
    /// A fresh connection: continuous attachment starts out off, so records
    /// under the shared identifier are sender-asserted blocks.
    pub fn new() -> (r: Self)
        ensures
            r.shape == ScmCredsShape::Cmsgcred,
    {
        CredentialsContext { shape: ScmCredsShape::Cmsgcred }
    }

    /// Records that this connection toggled continuous credential
    /// attachment: on means the kernel emits socket-option-derived blocks
    /// from now on, off means sender-asserted blocks.
    pub fn note_continuous_credentials(&mut self, enabled: bool)
        ensures
            final(self).shape == (if enabled {
                ScmCredsShape::Sockcred
            } else {
                ScmCredsShape::Cmsgcred
            }),
    {
        self.shape = if enabled {
            ScmCredsShape::Sockcred
        } else {
            ScmCredsShape::Cmsgcred
        };
    }

    /// The wire shape to decode records of the shared identifier with.
    pub fn shape(&self) -> (r: ScmCredsShape)
        ensures
            r == self.shape,
    {
        self.shape
    }
}

impl Collector for CredentialsContext {
    /// The pre-operation hook has nothing to query: the shape is already
    /// pinned by this connection's own last toggle.
    fn pre_op_collect(&mut self, _socket: i32)
        ensures
            *final(self) == *old(self),
    {
    }

    /// The post-operation hook likewise leaves the recorded shape alone.
    fn post_op_collect(&mut self, _socket: i32, _msghdr_flags: i32)
        ensures
            *final(self) == *old(self),
    {
    }
}


} // verus!
