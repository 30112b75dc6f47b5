//! The DHCPv6 wire codec: a bit-exact parser and serializer for the
//! message format of RFC 8415 (fixed header plus a stream of nested TLV
//! options), restricted to the option subset this client consumes.
//!
//! Every executable function is specified against total spec-level
//! functions over byte sequences: [`spec_repr_bytes`] says which bytes a
//! representation serializes to, and [`spec_parse_repr`] says what a byte
//! sequence parses to.  [`lemma_parse_emit_roundtrip`] proves that parsing
//! an emitted packet gives back the representation (normalized: opaque
//! pass-through options are not re-read, and the transaction id keeps its
//! low 24 bits).

use vstd::prelude::*;

use crate::bytes::{
    append_bytes, be16v, be24v, be32v, push_be16, push_be24, push_be32, read_be16, read_be24,
    read_be32, spec_be16, spec_be24, spec_be32,
};
use crate::ip::Ipv6Address;
use crate::Error;

verus! {

/// UDP port a DHCPv6 server listens on.
pub const SERVER_PORT: u16 = 547;

/// UDP port a DHCPv6 client listens on.
pub const CLIENT_PORT: u16 = 546;

/// Cap on the number of requested option codes carried in an ORO option.
pub const MAX_REQUEST_OPTIONS: usize = 16;

/// Cap on the number of addresses kept from an IA_NA or IA_TA option.
pub const MAX_IA_ADDRESSES: usize = 16;

/// Cap on the number of DNS server addresses kept.
pub const MAX_DNS_ADDRESSES: usize = 16;

/// Client Identifier option code.
pub const OPT_CLIENTID: u16 = 1;

/// Server Identifier option code.
pub const OPT_SERVERID: u16 = 2;

/// Identity Association for Non-temporary Addresses option code.
pub const OPT_IA_NA: u16 = 3;

/// Identity Association for Temporary Addresses option code.
pub const OPT_IA_TA: u16 = 4;

/// Option Request option code.
pub const OPT_ORO: u16 = 6;

/// Elapsed Time option code.
pub const OPT_ELAPSED_TIME: u16 = 8;

/// Status Code option code.
pub const OPT_STATUS_CODE: u16 = 13;

/// DNS Recursive Name Server option code.
pub const OPT_DNS_SERVERS: u16 = 23;

/// Option code this codec uses for the address entries nested inside an
/// IA_NA or IA_TA option (the IA prefix code, 25).
pub const OPT_IA_PD: u16 = 25;

/// The message types of a DHCPv6 packet.
#[derive(Clone, Copy, Debug, PartialEq, Eq, Structural)]
pub enum MessageType {
    Solicit,
    Advertise,
    Request,
    Confirm,
    Renew,
    Rebind,
    Reply,
    Release,
    Decline,
    Reconfigure,
    InformationRequest,
    RelayForw,
    RelayRepl,
    LeaseQuery,
    LeaseQueryReply,
    LeaseQueryDone,
    LeaseQueryData,
    Unknown(u8),
}

/// The wire value of a message type.
pub open spec fn spec_msg_type_to_u8(t: MessageType) -> u8 {
    match t {
        MessageType::Solicit => 1,
        MessageType::Advertise => 2,
        MessageType::Request => 3,
        MessageType::Confirm => 4,
        MessageType::Renew => 5,
        MessageType::Rebind => 6,
        MessageType::Reply => 7,
        MessageType::Release => 8,
        MessageType::Decline => 9,
        MessageType::Reconfigure => 10,
        MessageType::InformationRequest => 11,
        MessageType::RelayForw => 12,
        MessageType::RelayRepl => 13,
        MessageType::LeaseQuery => 14,
        MessageType::LeaseQueryReply => 15,
        MessageType::LeaseQueryDone => 16,
        MessageType::LeaseQueryData => 17,
        MessageType::Unknown(x) => x,
    }
}

/// The message type a wire value decodes to.
pub open spec fn spec_msg_type_from_u8(x: u8) -> MessageType {
    if x == 1 {
        MessageType::Solicit
    } else if x == 2 {
        MessageType::Advertise
    } else if x == 3 {
        MessageType::Request
    } else if x == 4 {
        MessageType::Confirm
    } else if x == 5 {
        MessageType::Renew
    } else if x == 6 {
        MessageType::Rebind
    } else if x == 7 {
        MessageType::Reply
    } else if x == 8 {
        MessageType::Release
    } else if x == 9 {
        MessageType::Decline
    } else if x == 10 {
        MessageType::Reconfigure
    } else if x == 11 {
        MessageType::InformationRequest
    } else if x == 12 {
        MessageType::RelayForw
    } else if x == 13 {
        MessageType::RelayRepl
    } else if x == 14 {
        MessageType::LeaseQuery
    } else if x == 15 {
        MessageType::LeaseQueryReply
    } else if x == 16 {
        MessageType::LeaseQueryDone
    } else if x == 17 {
        MessageType::LeaseQueryData
    } else {
        MessageType::Unknown(x)
    }
}

/// A message type is canonical when an `Unknown` tag does not shadow a
/// named variant, so that decoding its wire value gives it back.
pub open spec fn msg_type_wf(t: MessageType) -> bool {
    match t {
        MessageType::Unknown(x) => !(1 <= x <= 17),
        _ => true,
    }
}

/// Decoding the wire value of a canonical message type gives it back.
pub proof fn lemma_msg_type_roundtrip(t: MessageType)
    requires
        msg_type_wf(t),
    ensures
        spec_msg_type_from_u8(spec_msg_type_to_u8(t)) == t,
{
}

impl MessageType {
    /// The wire value of this message type.
    pub fn to_u8(self) -> (r: u8)
        ensures
            r == spec_msg_type_to_u8(self),
    {
        match self {
            MessageType::Solicit => 1,
            MessageType::Advertise => 2,
            MessageType::Request => 3,
            MessageType::Confirm => 4,
            MessageType::Renew => 5,
            MessageType::Rebind => 6,
            MessageType::Reply => 7,
            MessageType::Release => 8,
            MessageType::Decline => 9,
            MessageType::Reconfigure => 10,
            MessageType::InformationRequest => 11,
            MessageType::RelayForw => 12,
            MessageType::RelayRepl => 13,
            MessageType::LeaseQuery => 14,
            MessageType::LeaseQueryReply => 15,
            MessageType::LeaseQueryDone => 16,
            MessageType::LeaseQueryData => 17,
            MessageType::Unknown(x) => x,
        }
    }

    /// The message type a wire value decodes to.
    pub fn from_u8(x: u8) -> (r: MessageType)
        ensures
            r == spec_msg_type_from_u8(x),
            msg_type_wf(r),
    {
        if x == 1 {
            MessageType::Solicit
        } else if x == 2 {
            MessageType::Advertise
        } else if x == 3 {
            MessageType::Request
        } else if x == 4 {
            MessageType::Confirm
        } else if x == 5 {
            MessageType::Renew
        } else if x == 6 {
            MessageType::Rebind
        } else if x == 7 {
            MessageType::Reply
        } else if x == 8 {
            MessageType::Release
        } else if x == 9 {
            MessageType::Decline
        } else if x == 10 {
            MessageType::Reconfigure
        } else if x == 11 {
            MessageType::InformationRequest
        } else if x == 12 {
            MessageType::RelayForw
        } else if x == 13 {
            MessageType::RelayRepl
        } else if x == 14 {
            MessageType::LeaseQuery
        } else if x == 15 {
            MessageType::LeaseQueryReply
        } else if x == 16 {
            MessageType::LeaseQueryDone
        } else if x == 17 {
            MessageType::LeaseQueryData
        } else {
            MessageType::Unknown(x)
        }
    }
}

/// The status codes a server can attach to an IA.
#[derive(Clone, Copy, Debug, PartialEq, Eq, Structural)]
pub enum StatusCode {
    Success,
    UnspecFail,
    NoAddrsAvail,
    NoBinding,
    NotOnLink,
    UseMulticast,
    NoPrefixAvail,
    Unknown(u16),
}

/// The wire value of a status code.
pub open spec fn spec_status_to_u16(s: StatusCode) -> u16 {
    match s {
        StatusCode::Success => 0,
        StatusCode::UnspecFail => 1,
        StatusCode::NoAddrsAvail => 2,
        StatusCode::NoBinding => 3,
        StatusCode::NotOnLink => 4,
        StatusCode::UseMulticast => 5,
        StatusCode::NoPrefixAvail => 6,
        StatusCode::Unknown(x) => x,
    }
}

/// The status code a wire value decodes to.
pub open spec fn spec_status_from_u16(x: u16) -> StatusCode {
    if x == 0 {
        StatusCode::Success
    } else if x == 1 {
        StatusCode::UnspecFail
    } else if x == 2 {
        StatusCode::NoAddrsAvail
    } else if x == 3 {
        StatusCode::NoBinding
    } else if x == 4 {
        StatusCode::NotOnLink
    } else if x == 5 {
        StatusCode::UseMulticast
    } else if x == 6 {
        StatusCode::NoPrefixAvail
    } else {
        StatusCode::Unknown(x)
    }
}

/// A status code is canonical when an `Unknown` tag does not shadow a
/// named variant.
pub open spec fn status_wf(s: StatusCode) -> bool {
    match s {
        StatusCode::Unknown(x) => x > 6,
        _ => true,
    }
}

/// Decoding the wire value of a canonical status code gives it back.
pub proof fn lemma_status_roundtrip(s: StatusCode)
    requires
        status_wf(s),
    ensures
        spec_status_from_u16(spec_status_to_u16(s)) == s,
{
}

impl StatusCode {
    /// The wire value of this status code.
    pub fn to_u16(self) -> (r: u16)
        ensures
            r == spec_status_to_u16(self),
    {
        match self {
            StatusCode::Success => 0,
            StatusCode::UnspecFail => 1,
            StatusCode::NoAddrsAvail => 2,
            StatusCode::NoBinding => 3,
            StatusCode::NotOnLink => 4,
            StatusCode::UseMulticast => 5,
            StatusCode::NoPrefixAvail => 6,
            StatusCode::Unknown(x) => x,
        }
    }

    /// The status code a wire value decodes to.
    pub fn from_u16(x: u16) -> (r: StatusCode)
        ensures
            r == spec_status_from_u16(x),
            status_wf(r),
    {
        if x == 0 {
            StatusCode::Success
        } else if x == 1 {
            StatusCode::UnspecFail
        } else if x == 2 {
            StatusCode::NoAddrsAvail
        } else if x == 3 {
            StatusCode::NoBinding
        } else if x == 4 {
            StatusCode::NotOnLink
        } else if x == 5 {
            StatusCode::UseMulticast
        } else if x == 6 {
            StatusCode::NoPrefixAvail
        } else {
            StatusCode::Unknown(x)
        }
    }
}

// ---------------------------------------------------------------------
// Mathematical models.
//
// Each executable representation type below has a model made of `Seq` and
// plain values; the codec's contracts are stated over these.
// ---------------------------------------------------------------------

/// Model of a single TLV option: its code and its data bytes.
pub ghost struct OptModel {
    pub kind: u16,
    pub data: Seq<u8>,
}

/// Model of an IA address entry.
pub ghost struct IaAddrModel {
    pub addr: Seq<u8>,
    pub preferred_lifetime: u32,
    pub valid_lifetime: u32,
    pub additional_options: Seq<OptModel>,
}

/// Model of a status-code option.
pub ghost struct StatusCodeModel {
    pub status_code: StatusCode,
    pub status_message: Seq<u8>,
}

/// Model of an IA_NA option.
pub ghost struct IaNaModel {
    pub iaid: u32,
    pub t1: u32,
    pub t2: u32,
    pub addresses: Seq<IaAddrModel>,
    pub status_code: Option<StatusCodeModel>,
    pub additional_options: Seq<OptModel>,
}

/// Model of an IA_TA option.
pub ghost struct IaTaModel {
    pub iaid: u32,
    pub addresses: Seq<IaAddrModel>,
    pub status_code: Option<StatusCodeModel>,
    pub additional_options: Seq<OptModel>,
}

/// Model of a DNS-servers option: the address list, 16 bytes each.
pub ghost struct DnsServersModel {
    pub addresses: Seq<Seq<u8>>,
}

/// Model of a whole DHCPv6 message.
pub ghost struct ReprModel {
    pub message_type: MessageType,
    pub transaction_id: u32,
    pub client_id: Option<Seq<u8>>,
    pub server_id: Option<Seq<u8>>,
    pub elapsed_time: Option<u16>,
    pub request_options: Option<Seq<u16>>,
    pub ia_na: Option<IaNaModel>,
    pub ia_ta: Option<IaTaModel>,
    pub dns_servers: Option<DnsServersModel>,
    pub additional_options: Seq<OptModel>,
}

// ---------------------------------------------------------------------
// Serialization: total spec functions from models to byte sequences.
// ---------------------------------------------------------------------

/// The bytes of one TLV option: code, length, data.
pub open spec fn spec_opt_bytes(o: OptModel) -> Seq<u8>
    recommends
        o.data.len() <= 0xffff,
{
    spec_be16(o.kind) + spec_be16(o.data.len() as u16) + o.data
}

/// The bytes of a run of TLV options, back to back.
pub open spec fn spec_opts_bytes(s: Seq<OptModel>) -> Seq<u8>
    decreases s.len(),
{
    if s.len() == 0 {
        Seq::empty()
    } else {
        spec_opt_bytes(s[0]) + spec_opts_bytes(s.drop_first())
    }
}

/// The data area of an IA address entry.
pub open spec fn spec_ia_addr_data(a: IaAddrModel) -> Seq<u8>
    recommends
        a.addr.len() == 16,
{
    a.addr + spec_be32(a.preferred_lifetime) + spec_be32(a.valid_lifetime) + spec_opts_bytes(
        a.additional_options,
    )
}

/// The data area of a status-code option.
pub open spec fn spec_status_data(s: StatusCodeModel) -> Seq<u8> {
    spec_be16(spec_status_to_u16(s.status_code)) + s.status_message
}

/// The option run nested inside an IA_NA or IA_TA option: one address
/// entry per address, then the status code if present, then the opaque
/// pass-through options.
pub open spec fn spec_ia_opt_models(
    addresses: Seq<IaAddrModel>,
    status_code: Option<StatusCodeModel>,
    additional_options: Seq<OptModel>,
) -> Seq<OptModel> {
    addresses.map_values(|a: IaAddrModel| OptModel { kind: OPT_IA_PD, data: spec_ia_addr_data(a) })
        + (match status_code {
        Some(s) => seq![OptModel { kind: OPT_STATUS_CODE, data: spec_status_data(s) }],
        None => Seq::empty(),
    }) + additional_options
}

/// The data area of an IA_NA option.
pub open spec fn spec_ia_na_data(m: IaNaModel) -> Seq<u8> {
    spec_be32(m.iaid) + spec_be32(m.t1) + spec_be32(m.t2) + spec_opts_bytes(
        spec_ia_opt_models(m.addresses, m.status_code, m.additional_options),
    )
}

/// The data area of an IA_TA option.
pub open spec fn spec_ia_ta_data(m: IaTaModel) -> Seq<u8> {
    spec_be32(m.iaid) + spec_opts_bytes(
        spec_ia_opt_models(m.addresses, m.status_code, m.additional_options),
    )
}

/// The data area of a DNS-servers option: the addresses back to back.
pub open spec fn spec_dns_data(s: Seq<Seq<u8>>) -> Seq<u8>
    decreases s.len(),
{
    if s.len() == 0 {
        Seq::empty()
    } else {
        s[0] + spec_dns_data(s.drop_first())
    }
}

/// The data area of an ORO option: packed 16-bit codes.
pub open spec fn spec_oro_data(s: Seq<u16>) -> Seq<u8>
    decreases s.len(),
{
    if s.len() == 0 {
        Seq::empty()
    } else {
        spec_be16(s[0]) + spec_oro_data(s.drop_first())
    }
}

/// A present optional field as a singleton option run.
pub open spec fn spec_maybe_opt(kind: u16, data: Option<Seq<u8>>) -> Seq<OptModel> {
    match data {
        Some(d) => seq![OptModel { kind, data: d }],
        None => Seq::empty(),
    }
}

/// The full top-level option run a representation serializes to, in emit
/// order: client id, server id, elapsed time, IA_NA, IA_TA, DNS servers,
/// requested options, then the opaque pass-through options.
pub open spec fn spec_repr_opt_models(m: ReprModel) -> Seq<OptModel> {
    spec_maybe_opt(OPT_CLIENTID, m.client_id) + spec_maybe_opt(OPT_SERVERID, m.server_id)
        + spec_maybe_opt(
        OPT_ELAPSED_TIME,
        match m.elapsed_time {
            Some(x) => Some(spec_be16(x)),
            None => None,
        },
    ) + spec_maybe_opt(
        OPT_IA_NA,
        match m.ia_na {
            Some(ia) => Some(spec_ia_na_data(ia)),
            None => None,
        },
    ) + spec_maybe_opt(
        OPT_IA_TA,
        match m.ia_ta {
            Some(ia) => Some(spec_ia_ta_data(ia)),
            None => None,
        },
    ) + spec_maybe_opt(
        OPT_DNS_SERVERS,
        match m.dns_servers {
            Some(d) => Some(spec_dns_data(d.addresses)),
            None => None,
        },
    ) + spec_maybe_opt(
        OPT_ORO,
        match m.request_options {
            Some(s) => Some(spec_oro_data(s)),
            None => None,
        },
    ) + m.additional_options
}

/// The bytes a representation serializes to: message type, the low 24
/// bits of the transaction id in network byte order, then the options.
pub open spec fn spec_repr_bytes(m: ReprModel) -> Seq<u8> {
    seq![spec_msg_type_to_u8(m.message_type)] + spec_be24(
        (m.transaction_id % 0x100_0000) as u32,
    ) + spec_opts_bytes(spec_repr_opt_models(m))
}

// ---------------------------------------------------------------------
// Emittability: the length checks under which serialization succeeds.
// ---------------------------------------------------------------------

/// Every option in the run has data that fits its 16-bit length field.
pub open spec fn spec_opt_list_ok(s: Seq<OptModel>) -> bool {
    forall|i: int| 0 <= i < s.len() ==> (#[trigger] s[i]).data.len() <= 0xffff
}

/// An IA address entry can be serialized: its nested options and its own
/// data area fit their length fields.
pub open spec fn spec_ia_addr_emit_ok(a: IaAddrModel) -> bool {
    &&& spec_opt_list_ok(a.additional_options)
    &&& spec_ia_addr_data(a).len() <= 0xffff
}

/// A status code can be serialized.
pub open spec fn spec_status_emit_ok(s: StatusCodeModel) -> bool {
    spec_status_data(s).len() <= 0xffff
}

/// The shared emittability condition of an IA_NA or IA_TA body.
pub open spec fn spec_ia_body_emit_ok(
    addresses: Seq<IaAddrModel>,
    status_code: Option<StatusCodeModel>,
    additional_options: Seq<OptModel>,
) -> bool {
    &&& forall|i: int| 0 <= i < addresses.len() ==> spec_ia_addr_emit_ok(#[trigger] addresses[i])
    &&& match status_code {
        Some(s) => spec_status_emit_ok(s),
        None => true,
    }
    &&& spec_opt_list_ok(additional_options)
}

/// An IA_NA option can be serialized.
pub open spec fn spec_ia_na_emit_ok(m: IaNaModel) -> bool {
    &&& spec_ia_body_emit_ok(m.addresses, m.status_code, m.additional_options)
    &&& spec_ia_na_data(m).len() <= 0xffff
}

/// An IA_TA option can be serialized.
pub open spec fn spec_ia_ta_emit_ok(m: IaTaModel) -> bool {
    &&& spec_ia_body_emit_ok(m.addresses, m.status_code, m.additional_options)
    &&& spec_ia_ta_data(m).len() <= 0xffff
}

/// A whole representation can be serialized: every length fits its
/// 16-bit length field.
pub open spec fn spec_repr_emit_ok(m: ReprModel) -> bool {
    &&& match m.client_id {
        Some(d) => d.len() <= 0xffff,
        None => true,
    }
    &&& match m.server_id {
        Some(d) => d.len() <= 0xffff,
        None => true,
    }
    &&& match m.ia_na {
        Some(ia) => spec_ia_na_emit_ok(ia),
        None => true,
    }
    &&& match m.ia_ta {
        Some(ia) => spec_ia_ta_emit_ok(ia),
        None => true,
    }
    &&& match m.dns_servers {
        Some(d) => spec_dns_data(d.addresses).len() <= 0xffff,
        None => true,
    }
    &&& match m.request_options {
        Some(s) => spec_oro_data(s).len() <= 0xffff,
        None => true,
    }
    &&& spec_opt_list_ok(m.additional_options)
}

// ---------------------------------------------------------------------
// Parsing: total spec functions from byte sequences to models.
// ---------------------------------------------------------------------

/// The option walker: split a byte sequence into `(code, data)` pairs.
/// It stops at the first truncated option, silently dropping the tail.
pub open spec fn spec_options_list(b: Seq<u8>) -> Seq<OptModel>
    decreases b.len(),
{
    if b.len() < 4 {
        Seq::empty()
    } else {
        let kind = be16v(b[0], b[1]);
        let len = be16v(b[2], b[3]);
        if b.len() < 4 + len {
            Seq::empty()
        } else {
            seq![OptModel { kind: kind as u16, data: b.subrange(4, 4 + len) }]
                + spec_options_list(b.skip(4 + len))
        }
    }
}

/// Parse an IA address entry: 16 address bytes and two lifetimes; any
/// trailing nested options are ignored.  Fails on a short buffer.
pub open spec fn spec_parse_ia_addr(d: Seq<u8>) -> Option<IaAddrModel> {
    if d.len() < 24 {
        None
    } else {
        Some(
            IaAddrModel {
                addr: d.subrange(0, 16),
                preferred_lifetime: be32v(d[16], d[17], d[18], d[19]) as u32,
                valid_lifetime: be32v(d[20], d[21], d[22], d[23]) as u32,
                additional_options: Seq::empty(),
            },
        )
    }
}

/// Parse a status-code option: a 16-bit code and the message bytes.
/// Fails on a short buffer.
pub open spec fn spec_parse_status(d: Seq<u8>) -> Option<StatusCodeModel> {
    if d.len() < 2 {
        None
    } else {
        Some(
            StatusCodeModel {
                status_code: spec_status_from_u16(be16v(d[0], d[1]) as u16),
                status_message: d.skip(2),
            },
        )
    }
}

/// Walk the option run inside an IA, collecting up to
/// [`MAX_IA_ADDRESSES`] address entries (extra ones are silently
/// dropped) and the last status code.  A malformed address entry or
/// status code fails the whole parse.
pub open spec fn spec_ia_fold(
    opts: Seq<OptModel>,
    addrs: Seq<IaAddrModel>,
    status: Option<StatusCodeModel>,
) -> Option<(Seq<IaAddrModel>, Option<StatusCodeModel>)>
    decreases opts.len(),
{
    if opts.len() == 0 {
        Some((addrs, status))
    } else {
        let o = opts[0];
        if o.kind == OPT_IA_PD {
            match spec_parse_ia_addr(o.data) {
                None => None,
                Some(a) => spec_ia_fold(
                    opts.drop_first(),
                    if addrs.len() < MAX_IA_ADDRESSES {
                        addrs.push(a)
                    } else {
                        addrs
                    },
                    status,
                ),
            }
        } else if o.kind == OPT_STATUS_CODE {
            match spec_parse_status(o.data) {
                None => None,
                Some(s) => spec_ia_fold(opts.drop_first(), addrs, Some(s)),
            }
        } else {
            spec_ia_fold(opts.drop_first(), addrs, status)
        }
    }
}

/// Parse an IA_NA option: iaid, T1, T2, then the nested option run.
pub open spec fn spec_parse_ia_na(d: Seq<u8>) -> Option<IaNaModel> {
    if d.len() < 12 {
        None
    } else {
        match spec_ia_fold(spec_options_list(d.skip(12)), Seq::empty(), None) {
            None => None,
            Some(r) => Some(
                IaNaModel {
                    iaid: be32v(d[0], d[1], d[2], d[3]) as u32,
                    t1: be32v(d[4], d[5], d[6], d[7]) as u32,
                    t2: be32v(d[8], d[9], d[10], d[11]) as u32,
                    addresses: r.0,
                    status_code: r.1,
                    additional_options: Seq::empty(),
                },
            ),
        }
    }
}

/// Parse an IA_TA option: iaid, then the nested option run.
pub open spec fn spec_parse_ia_ta(d: Seq<u8>) -> Option<IaTaModel> {
    if d.len() < 4 {
        None
    } else {
        match spec_ia_fold(spec_options_list(d.skip(4)), Seq::empty(), None) {
            None => None,
            Some(r) => Some(
                IaTaModel {
                    iaid: be32v(d[0], d[1], d[2], d[3]) as u32,
                    addresses: r.0,
                    status_code: r.1,
                    additional_options: Seq::empty(),
                },
            ),
        }
    }
}

/// Walk the data of a DNS-servers option, keeping up to
/// [`MAX_DNS_ADDRESSES`] 16-byte addresses; a trailing fragment shorter
/// than 16 bytes is ignored.
pub open spec fn spec_dns_fold(d: Seq<u8>, acc: Seq<Seq<u8>>) -> Seq<Seq<u8>>
    decreases d.len(),
{
    if d.len() < 16 {
        acc
    } else {
        spec_dns_fold(
            d.skip(16),
            if acc.len() < MAX_DNS_ADDRESSES {
                acc.push(d.subrange(0, 16))
            } else {
                acc
            },
        )
    }
}

/// Walk the data of an ORO option in 2-byte strides, keeping up to
/// [`MAX_REQUEST_OPTIONS`] codes; a trailing odd byte is ignored.
pub open spec fn spec_oro_fold(d: Seq<u8>, acc: Seq<u16>) -> Seq<u16>
    decreases d.len(),
{
    if d.len() < 2 {
        acc
    } else {
        spec_oro_fold(
            d.skip(2),
            if acc.len() < MAX_REQUEST_OPTIONS {
                acc.push(be16v(d[0], d[1]) as u16)
            } else {
                acc
            },
        )
    }
}

/// Apply one top-level option to the representation being built.
/// Recognized codes populate the typed fields, the last occurrence
/// winning; an elapsed-time option of the wrong length and all unknown
/// codes are ignored; a malformed IA fails the whole parse.
pub open spec fn spec_apply_opt(m: ReprModel, o: OptModel) -> Option<ReprModel> {
    if o.kind == OPT_CLIENTID {
        Some(ReprModel { client_id: Some(o.data), ..m })
    } else if o.kind == OPT_SERVERID {
        Some(ReprModel { server_id: Some(o.data), ..m })
    } else if o.kind == OPT_ELAPSED_TIME {
        if o.data.len() == 2 {
            Some(ReprModel { elapsed_time: Some(be16v(o.data[0], o.data[1]) as u16), ..m })
        } else {
            Some(m)
        }
    } else if o.kind == OPT_IA_NA {
        match spec_parse_ia_na(o.data) {
            None => None,
            Some(ia) => Some(ReprModel { ia_na: Some(ia), ..m }),
        }
    } else if o.kind == OPT_IA_TA {
        match spec_parse_ia_ta(o.data) {
            None => None,
            Some(ia) => Some(ReprModel { ia_ta: Some(ia), ..m }),
        }
    } else if o.kind == OPT_DNS_SERVERS {
        Some(
            ReprModel {
                dns_servers: Some(
                    DnsServersModel { addresses: spec_dns_fold(o.data, Seq::empty()) },
                ),
                ..m
            },
        )
    } else if o.kind == OPT_ORO {
        Some(ReprModel { request_options: Some(spec_oro_fold(o.data, Seq::empty())), ..m })
    } else {
        Some(m)
    }
}

/// Fold a top-level option run over a representation.
pub open spec fn spec_repr_fold(opts: Seq<OptModel>, m: ReprModel) -> Option<ReprModel>
    decreases opts.len(),
{
    if opts.len() == 0 {
        Some(m)
    } else {
        match spec_apply_opt(m, opts[0]) {
            None => None,
            Some(m2) => spec_repr_fold(opts.drop_first(), m2),
        }
    }
}

/// The representation all fields start from when parsing a packet.
pub open spec fn spec_parse_init(b: Seq<u8>) -> ReprModel
    recommends
        b.len() >= 4,
{
    ReprModel {
        message_type: spec_msg_type_from_u8(b[0]),
        transaction_id: be24v(b[1], b[2], b[3]) as u32,
        client_id: None,
        server_id: None,
        elapsed_time: None,
        request_options: None,
        ia_na: None,
        ia_ta: None,
        dns_servers: None,
        additional_options: Seq::empty(),
    }
}

/// Parse a whole packet: fails only when the header is missing or a
/// recognized option is malformed.
pub open spec fn spec_parse_repr(b: Seq<u8>) -> Option<ReprModel> {
    if b.len() < 4 {
        None
    } else {
        spec_repr_fold(spec_options_list(b.skip(4)), spec_parse_init(b))
    }
}

// ---------------------------------------------------------------------
// Executable representation types.
// ---------------------------------------------------------------------

/// A single TLV option, owned.
#[derive(Clone, Debug, PartialEq, Eq)]
pub struct Dhcpv6Option {
    pub kind: u16,
    pub data: Vec<u8>,
}

impl View for Dhcpv6Option {
    type V = OptModel;

    open spec fn view(&self) -> OptModel {
        OptModel { kind: self.kind, data: self.data@ }
    }
}

/// The option models of a run of executable options.
pub open spec fn view_opts(s: Seq<Dhcpv6Option>) -> Seq<OptModel> {
    s.map_values(|o: Dhcpv6Option| o@)
}

/// The byte sequences of a run of addresses.
pub open spec fn view_addrs16(s: Seq<Ipv6Address>) -> Seq<Seq<u8>> {
    s.map_values(|a: Ipv6Address| a@)
}

/// An IA address entry (IPv6 address plus lifetimes).
#[derive(Clone, Debug, PartialEq, Eq)]
pub struct ReprIaAddr {
    pub addr: Ipv6Address,
    pub preferred_lifetime: u32,
    pub valid_lifetime: u32,
    pub additional_options: Vec<Dhcpv6Option>,
}

impl View for ReprIaAddr {
    type V = IaAddrModel;

    open spec fn view(&self) -> IaAddrModel {
        IaAddrModel {
            addr: self.addr@,
            preferred_lifetime: self.preferred_lifetime,
            valid_lifetime: self.valid_lifetime,
            additional_options: view_opts(self.additional_options@),
        }
    }
}

/// The address models of a run of executable IA address entries.
pub open spec fn view_ia_addrs(s: Seq<ReprIaAddr>) -> Seq<IaAddrModel> {
    s.map_values(|a: ReprIaAddr| a@)
}

/// A status code with its message bytes.  The message is kept as raw
/// bytes; on the wire it is UTF-8 text without a terminator.
#[derive(Clone, Debug, PartialEq, Eq)]
pub struct ReprStatusCode {
    pub status_code: StatusCode,
    pub status_message: Vec<u8>,
}

impl View for ReprStatusCode {
    type V = StatusCodeModel;

    open spec fn view(&self) -> StatusCodeModel {
        StatusCodeModel { status_code: self.status_code, status_message: self.status_message@ }
    }
}

/// An IA_NA option: identity association for non-temporary addresses.
#[derive(Clone, Debug, PartialEq, Eq)]
pub struct ReprIaNa {
    pub iaid: u32,
    pub t1: u32,
    pub t2: u32,
    pub addresses: Vec<ReprIaAddr>,
    pub status_code: Option<ReprStatusCode>,
    pub additional_options: Vec<Dhcpv6Option>,
}

impl View for ReprIaNa {
    type V = IaNaModel;

    open spec fn view(&self) -> IaNaModel {
        IaNaModel {
            iaid: self.iaid,
            t1: self.t1,
            t2: self.t2,
            addresses: view_ia_addrs(self.addresses@),
            status_code: match self.status_code {
                Some(s) => Some(s@),
                None => None,
            },
            additional_options: view_opts(self.additional_options@),
        }
    }
}

/// An IA_TA option: identity association for temporary addresses.
#[derive(Clone, Debug, PartialEq, Eq)]
pub struct ReprIaTa {
    pub iaid: u32,
    pub addresses: Vec<ReprIaAddr>,
    pub status_code: Option<ReprStatusCode>,
    pub additional_options: Vec<Dhcpv6Option>,
}

impl View for ReprIaTa {
    type V = IaTaModel;

    open spec fn view(&self) -> IaTaModel {
        IaTaModel {
            iaid: self.iaid,
            addresses: view_ia_addrs(self.addresses@),
            status_code: match self.status_code {
                Some(s) => Some(s@),
                None => None,
            },
            additional_options: view_opts(self.additional_options@),
        }
    }
}

/// A DNS-servers option: the advertised resolver addresses.
#[derive(Clone, Debug, PartialEq, Eq)]
pub struct ReprDnsServers {
    pub addresses: Vec<Ipv6Address>,
}

impl View for ReprDnsServers {
    type V = DnsServersModel;

    open spec fn view(&self) -> DnsServersModel {
        DnsServersModel { addresses: view_addrs16(self.addresses@) }
    }
}

/// A parsed (or to-be-emitted) DHCPv6 message.
///
/// After [`Repr::parse`] the `additional_options` field is always empty;
/// on [`Repr::emit`] it may carry options this codec does not otherwise
/// know, which are appended verbatim.
#[derive(Clone, Debug, PartialEq, Eq)]
pub struct Repr {
    pub message_type: MessageType,
    pub transaction_id: u32,
    pub client_id: Option<Vec<u8>>,
    pub server_id: Option<Vec<u8>>,
    pub elapsed_time: Option<u16>,
    pub request_options: Option<Vec<u16>>,
    pub ia_na: Option<ReprIaNa>,
    pub ia_ta: Option<ReprIaTa>,
    pub dns_servers: Option<ReprDnsServers>,
    pub additional_options: Vec<Dhcpv6Option>,
}

impl View for Repr {
    type V = ReprModel;

    open spec fn view(&self) -> ReprModel {
        ReprModel {
            message_type: self.message_type,
            transaction_id: self.transaction_id,
            client_id: match self.client_id {
                Some(ref d) => Some(d@),
                None => None,
            },
            server_id: match self.server_id {
                Some(ref d) => Some(d@),
                None => None,
            },
            elapsed_time: self.elapsed_time,
            request_options: match self.request_options {
                Some(ref s) => Some(s@),
                None => None,
            },
            ia_na: match self.ia_na {
                Some(ref ia) => Some(ia@),
                None => None,
            },
            ia_ta: match self.ia_ta {
                Some(ref ia) => Some(ia@),
                None => None,
            },
            dns_servers: match self.dns_servers {
                Some(ref d) => Some(d@),
                None => None,
            },
            additional_options: view_opts(self.additional_options@),
        }
    }
}

// ---------------------------------------------------------------------
// The packet view and the option walker.
// ---------------------------------------------------------------------

/// A read/write view of a raw DHCPv6 packet buffer.
#[derive(Clone, Debug, PartialEq, Eq)]
pub struct Packet {
    pub buffer: Vec<u8>,
}

impl View for Packet {
    type V = Seq<u8>;

    open spec fn view(&self) -> Seq<u8> {
        self.buffer@
    }
}

impl Packet {
    /// Imbue a raw octet buffer with DHCPv6 packet structure.
    pub fn new_unchecked(buffer: Vec<u8>) -> (r: Packet)
        ensures
            r@ == buffer@,
    {
        Packet { buffer }
    }

    /// Shorthand for a combination of `new_unchecked` and `check_len`.
    pub fn new_checked(buffer: Vec<u8>) -> (r: Result<Packet, Error>)
        ensures
            buffer@.len() >= 4 <==> r is Ok,
            r matches Ok(p) ==> p@ == buffer@,
    {
        let packet = Self::new_unchecked(buffer);
        match packet.check_len() {
            Ok(_) => Ok(packet),
            Err(e) => Err(e),
        }
    }

    /// Ensure that no accessor method will panic: the buffer must hold at
    /// least the four header bytes.
    pub fn check_len(&self) -> (r: Result<(), Error>)
        ensures
            self@.len() >= 4 <==> r is Ok,
    {
        if self.buffer.len() < 4 {
            Err(Error)
        } else {
            Ok(())
        }
    }

    /// Consume the packet, returning the underlying buffer.
    pub fn into_inner(self) -> (r: Vec<u8>)
        ensures
            r@ == self@,
    {
        self.buffer
    }

    /// The transaction id: the 24-bit quantity in bytes 1 to 3, read in
    /// network byte order.
    pub fn transaction_id(&self) -> (r: u32)
        requires
            self@.len() >= 4,
        ensures
            r as int == be24v(self@[1], self@[2], self@[3]),
            r < 0x100_0000,
    {
        read_be24(self.buffer[1], self.buffer[2], self.buffer[3])
    }

    /// The message type byte.
    pub fn message_type(&self) -> (r: MessageType)
        requires
            self@.len() >= 4,
        ensures
            r == spec_msg_type_from_u8(self@[0]),
    {
        MessageType::from_u8(self.buffer[0])
    }

    /// The options area split into `(code, data)` pairs.
    pub fn options(&self) -> (r: Vec<Dhcpv6Option>)
        requires
            self@.len() >= 4,
        ensures
            view_opts(r@) == spec_options_list(self@.skip(4)),
    {
        let tail = vstd::slice::slice_subrange(self.buffer.as_slice(), 4, self.buffer.len());
        parse_options(tail)
    }

    /// Set the message type byte.
    pub fn set_message_type(&mut self, value: MessageType)
        requires
            old(self)@.len() >= 4,
        ensures
            final(self)@ == old(self)@.update(0, spec_msg_type_to_u8(value)),
    {
        let b = value.to_u8();
        self.buffer.set(0, b);
    }

    /// Set the transaction id; the high 8 bits of the value are masked
    /// off, so bytes 1 to 3 hold `value % 0x100_0000`.
    pub fn set_transaction_id(&mut self, value: u32)
        requires
            old(self)@.len() >= 4,
        ensures
            final(self)@.len() == old(self)@.len(),
            final(self)@.subrange(1, 4) == spec_be24((value % 0x100_0000) as u32),
            final(self)@[0] == old(self)@[0],
            forall|i: int| 4 <= i < old(self)@.len() ==> final(self)@[i] == old(self)@[i],
    {
        let v = value % 0x100_0000;
        self.buffer.set(1, (v / 0x10000) as u8);
        self.buffer.set(2, (v / 0x100 % 0x100) as u8);
        self.buffer.set(3, (v % 0x100) as u8);
        assert(self.buffer@.subrange(1, 4) =~= spec_be24(v));
    }
}

/// Split an option stream into `(code, data)` pairs, stopping at the
/// first truncated option.
pub fn parse_options(buf: &[u8]) -> (r: Vec<Dhcpv6Option>)
    ensures
        view_opts(r@) == spec_options_list(buf@),
{
    let mut r: Vec<Dhcpv6Option> = Vec::new();
    let mut pos: usize = 0;
    proof {
        assert(view_opts(r@) =~= Seq::<OptModel>::empty());
        assert(buf@.skip(0) =~= buf@);
        assert(spec_options_list(buf@) =~= view_opts(r@) + spec_options_list(buf@.skip(0)));
    }
    while pos <= buf.len()
        invariant
            pos <= buf@.len(),
            spec_options_list(buf@) == view_opts(r@) + spec_options_list(buf@.skip(pos as int)),
        decreases buf@.len() - pos,
    {
        let remaining = buf.len() - pos;
        if remaining < 4 {
            assert(spec_options_list(buf@.skip(pos as int)) =~= Seq::<OptModel>::empty());
            assert(spec_options_list(buf@) =~= view_opts(r@));
            return r;
        }
        let kind = read_be16(buf[pos], buf[pos + 1]);
        let len = read_be16(buf[pos + 2], buf[pos + 3]) as usize;
        if remaining < 4 + len {
            assert(spec_options_list(buf@.skip(pos as int)) =~= Seq::<OptModel>::empty());
            assert(spec_options_list(buf@) =~= view_opts(r@));
            return r;
        }
        let data_slice = vstd::slice::slice_subrange(buf, pos + 4, pos + 4 + len);
        let data = vstd::slice::slice_to_vec(data_slice);
        let ghost tail = buf@.skip(pos as int);
        let ghost opt_model = OptModel { kind, data: data@ };
        proof {
            assert(tail.len() >= 4 + len);
            assert(tail[0] == buf@[pos as int]);
            assert(tail[1] == buf@[pos as int + 1]);
            assert(tail[2] == buf@[pos as int + 2]);
            assert(tail[3] == buf@[pos as int + 3]);
            assert(tail.subrange(4, 4 + len as int) =~= buf@.subrange(
                pos as int + 4,
                pos as int + 4 + len as int,
            ));
            assert(tail.skip(4 + len as int) =~= buf@.skip(pos as int + 4 + len as int));
            assert(spec_options_list(tail) == seq![opt_model] + spec_options_list(
                buf@.skip(pos as int + 4 + len as int),
            ));
        }
        let ghost prev = r@;
        r.push(Dhcpv6Option { kind, data });
        proof {
            assert(view_opts(r@) =~= view_opts(prev) + seq![opt_model]);
            assert(view_opts(prev) + (seq![opt_model] + spec_options_list(
                buf@.skip(pos as int + 4 + len as int),
            )) =~= (view_opts(prev) + seq![opt_model]) + spec_options_list(
                buf@.skip(pos as int + 4 + len as int),
            ));
        }
        pos = pos + 4 + len;
    }
    assert(spec_options_list(buf@.skip(pos as int)) =~= Seq::<OptModel>::empty());
    assert(spec_options_list(buf@) =~= view_opts(r@));
    r
}


/// The model of an optional status code.
pub open spec fn view_opt_status(o: Option<ReprStatusCode>) -> Option<StatusCodeModel> {
    match o {
        Some(s) => Some(s@),
        None => None,
    }
}

impl ReprIaAddr {
    /// Parse an IA address entry from the data area of its option.
    /// Fails when fewer than 24 bytes are present; trailing nested
    /// options are ignored.
    pub fn parse(data: &[u8]) -> (r: Result<ReprIaAddr, Error>)
        ensures
            r is Ok <==> spec_parse_ia_addr(data@) is Some,
            r matches Ok(a) ==> Some(a@) == spec_parse_ia_addr(data@),
    {
        if data.len() < 24 {
            return Err(Error);
        }
        let addr = Ipv6Address::from_bytes(data);
        let preferred_lifetime = read_be32(data[16], data[17], data[18], data[19]);
        let valid_lifetime = read_be32(data[20], data[21], data[22], data[23]);
        let a = ReprIaAddr {
            addr,
            preferred_lifetime,
            valid_lifetime,
            additional_options: Vec::new(),
        };
        proof {
            assert(view_opts(a.additional_options@) =~= Seq::<OptModel>::empty());
        }
        Ok(a)
    }
}

impl ReprStatusCode {
    /// Parse a status-code option from its data area.  Fails when fewer
    /// than 2 bytes are present; the remainder is the message.
    pub fn parse(data: &[u8]) -> (r: Result<ReprStatusCode, Error>)
        ensures
            r is Ok <==> spec_parse_status(data@) is Some,
            r matches Ok(s) ==> Some(s@) == spec_parse_status(data@),
    {
        if data.len() < 2 {
            return Err(Error);
        }
        let code = read_be16(data[0], data[1]);
        let msg_slice = vstd::slice::slice_subrange(data, 2, data.len());
        let status_message = vstd::slice::slice_to_vec(msg_slice);
        proof {
            assert(status_message@ =~= data@.skip(2));
        }
        Ok(ReprStatusCode { status_code: StatusCode::from_u16(code), status_message })
    }
}

/// Walk the option run nested in an IA, collecting bounded addresses and
/// the last status code, as [`spec_ia_fold`] describes.
fn parse_ia_options(opts: &Vec<Dhcpv6Option>) -> (r: Result<
    (Vec<ReprIaAddr>, Option<ReprStatusCode>),
    Error,
>)
    ensures
        r is Ok <==> spec_ia_fold(view_opts(opts@), Seq::empty(), None) is Some,
        r matches Ok(p) ==> Some((view_ia_addrs(p.0@), view_opt_status(p.1))) == spec_ia_fold(
            view_opts(opts@),
            Seq::empty(),
            None,
        ),
{
    let ghost full = view_opts(opts@);
    let mut addresses: Vec<ReprIaAddr> = Vec::new();
    let mut status_code: Option<ReprStatusCode> = None;
    let mut i: usize = 0;
    proof {
        assert(view_ia_addrs(addresses@) =~= Seq::<IaAddrModel>::empty());
        assert(full.skip(0) =~= full);
    }
    while i < opts.len()
        invariant
            i <= opts@.len(),
            full == view_opts(opts@),
            spec_ia_fold(full, Seq::empty(), None) == spec_ia_fold(
                full.skip(i as int),
                view_ia_addrs(addresses@),
                view_opt_status(status_code),
            ),
        decreases opts@.len() - i,
    {
        let ghost rem = full.skip(i as int);
        proof {
            assert(rem.len() > 0);
            assert(rem[0] == full[i as int]);
            assert(rem.drop_first() =~= full.skip(i as int + 1));
        }
        let opt = &opts[i];
        if opt.kind == OPT_IA_PD {
            match ReprIaAddr::parse(opt.data.as_slice()) {
                Ok(a) => {
                    let ghost prev = view_ia_addrs(addresses@);
                    if addresses.len() < MAX_IA_ADDRESSES {
                        addresses.push(a);
                        proof {
                            assert(view_ia_addrs(addresses@) =~= prev.push(a@));
                        }
                    }
                },
                Err(_) => {
                    return Err(Error);
                },
            }
        } else if opt.kind == OPT_STATUS_CODE {
            match ReprStatusCode::parse(opt.data.as_slice()) {
                Ok(s) => {
                    status_code = Some(s);
                },
                Err(_) => {
                    return Err(Error);
                },
            }
        }
        i = i + 1;
    }
    proof {
        assert(full.skip(i as int) =~= Seq::<OptModel>::empty());
    }
    Ok((addresses, status_code))
}

impl ReprIaNa {
    /// Parse an IA_NA option from its data area: iaid, T1, T2, then the
    /// nested option run.  Fails when fewer than 12 bytes are present or
    /// a nested address or status entry is malformed.
    pub fn parse(data: &[u8]) -> (r: Result<ReprIaNa, Error>)
        ensures
            r is Ok <==> spec_parse_ia_na(data@) is Some,
            r matches Ok(ia) ==> Some(ia@) == spec_parse_ia_na(data@),
    {
        if data.len() < 12 {
            return Err(Error);
        }
        let iaid = read_be32(data[0], data[1], data[2], data[3]);
        let t1 = read_be32(data[4], data[5], data[6], data[7]);
        let t2 = read_be32(data[8], data[9], data[10], data[11]);
        let tail = vstd::slice::slice_subrange(data, 12, data.len());
        proof {
            assert(tail@ =~= data@.skip(12));
        }
        let opts = parse_options(tail);
        match parse_ia_options(&opts) {
            Ok(p) => {
                let ia = ReprIaNa {
                    iaid,
                    t1,
                    t2,
                    addresses: p.0,
                    status_code: p.1,
                    additional_options: Vec::new(),
                };
                proof {
                    assert(view_opts(ia.additional_options@) =~= Seq::<OptModel>::empty());
                }
                Ok(ia)
            },
            Err(_) => Err(Error),
        }
    }
}

impl ReprIaTa {
    /// Parse an IA_TA option from its data area: iaid, then the nested
    /// option run.  Fails when fewer than 4 bytes are present or a nested
    /// address or status entry is malformed.
    pub fn parse(data: &[u8]) -> (r: Result<ReprIaTa, Error>)
        ensures
            r is Ok <==> spec_parse_ia_ta(data@) is Some,
            r matches Ok(ia) ==> Some(ia@) == spec_parse_ia_ta(data@),
    {
        if data.len() < 4 {
            return Err(Error);
        }
        let iaid = read_be32(data[0], data[1], data[2], data[3]);
        let tail = vstd::slice::slice_subrange(data, 4, data.len());
        proof {
            assert(tail@ =~= data@.skip(4));
        }
        let opts = parse_options(tail);
        match parse_ia_options(&opts) {
            Ok(p) => {
                let ia = ReprIaTa {
                    iaid,
                    addresses: p.0,
                    status_code: p.1,
                    additional_options: Vec::new(),
                };
                proof {
                    assert(view_opts(ia.additional_options@) =~= Seq::<OptModel>::empty());
                }
                Ok(ia)
            },
            Err(_) => Err(Error),
        }
    }
}

impl ReprDnsServers {
    /// Parse a DNS-servers option from its data area: 16-byte addresses
    /// back to back, keeping at most [`MAX_DNS_ADDRESSES`]; a trailing
    /// fragment is ignored.  Never fails.
    pub fn parse(data: &[u8]) -> (r: Result<ReprDnsServers, Error>)
        ensures
            r is Ok,
            r matches Ok(d) ==> d@.addresses == spec_dns_fold(data@, Seq::empty()),
    {
        let mut addresses: Vec<Ipv6Address> = Vec::new();
        let mut pos: usize = 0;
        proof {
            assert(view_addrs16(addresses@) =~= Seq::<Seq<u8>>::empty());
            assert(data@.skip(0) =~= data@);
        }
        while pos <= data.len()
            invariant
                pos <= data@.len(),
                spec_dns_fold(data@, Seq::empty()) == spec_dns_fold(
                    data@.skip(pos as int),
                    view_addrs16(addresses@),
                ),
            decreases data@.len() - pos,
        {
            if data.len() - pos < 16 {
                proof {
                    assert(spec_dns_fold(data@.skip(pos as int), view_addrs16(addresses@))
                        == view_addrs16(addresses@));
                }
                return Ok(ReprDnsServers { addresses });
            }
            let ghost rem = data@.skip(pos as int);
            let chunk = vstd::slice::slice_subrange(data, pos, pos + 16);
            let a = Ipv6Address::from_bytes(chunk);
            proof {
                assert(rem.subrange(0, 16) =~= data@.subrange(pos as int, pos as int + 16));
                assert(a@ =~= rem.subrange(0, 16));
                assert(rem.skip(16) =~= data@.skip(pos as int + 16));
            }
            let ghost prev = view_addrs16(addresses@);
            if addresses.len() < MAX_DNS_ADDRESSES {
                addresses.push(a);
                proof {
                    assert(view_addrs16(addresses@) =~= prev.push(a@));
                }
            }
            pos = pos + 16;
        }
        Ok(ReprDnsServers { addresses })
    }
}

/// Read the packed 16-bit codes of an ORO option in 2-byte strides,
/// keeping at most [`MAX_REQUEST_OPTIONS`]; a trailing odd byte is
/// ignored.
fn parse_request_options(data: &[u8]) -> (r: Vec<u16>)
    ensures
        r@ == spec_oro_fold(data@, Seq::empty()),
{
    let mut codes: Vec<u16> = Vec::new();
    let mut pos: usize = 0;
    proof {
        assert(data@.skip(0) =~= data@);
    }
    while pos <= data.len()
        invariant
            pos <= data@.len(),
            spec_oro_fold(data@, Seq::empty()) == spec_oro_fold(data@.skip(pos as int), codes@),
        decreases data@.len() - pos,
    {
        if data.len() - pos < 2 {
            proof {
                assert(spec_oro_fold(data@.skip(pos as int), codes@) == codes@);
            }
            return codes;
        }
        let ghost rem = data@.skip(pos as int);
        proof {
            assert(rem[0] == data@[pos as int]);
            assert(rem[1] == data@[pos as int + 1]);
            assert(rem.skip(2) =~= data@.skip(pos as int + 2));
        }
        let code = read_be16(data[pos], data[pos + 1]);
        if codes.len() < MAX_REQUEST_OPTIONS {
            codes.push(code);
        }
        pos = pos + 2;
    }
    codes
}

impl Repr {
    /// Parse a packet into its high-level representation, as
    /// [`spec_parse_repr`] describes: recognized options populate the
    /// typed fields (the last occurrence winning), unknown options are
    /// ignored, and a malformed recognized option fails the parse.
    pub fn parse(packet: &Packet) -> (r: Result<Repr, Error>)
        ensures
            r is Ok <==> spec_parse_repr(packet@) is Some,
            r matches Ok(rep) ==> Some(rep@) == spec_parse_repr(packet@),
    {
        if packet.buffer.len() < 4 {
            return Err(Error);
        }
        let transaction_id = packet.transaction_id();
        let message_type = packet.message_type();
        let opts = packet.options();
        let ghost full = view_opts(opts@);
        let mut rep = Repr {
            message_type,
            transaction_id,
            client_id: None,
            server_id: None,
            elapsed_time: None,
            request_options: None,
            ia_na: None,
            ia_ta: None,
            dns_servers: None,
            additional_options: Vec::new(),
        };
        proof {
            assert(view_opts(rep.additional_options@) =~= Seq::<OptModel>::empty());
            assert(rep@ == spec_parse_init(packet@));
            assert(full.skip(0) =~= full);
        }
        let mut i: usize = 0;
        while i < opts.len()
            invariant
                i <= opts@.len(),
                full == view_opts(opts@),
                packet@.len() >= 4,
                full == spec_options_list(packet@.skip(4)),
                spec_repr_fold(full, spec_parse_init(packet@)) == spec_repr_fold(
                    full.skip(i as int),
                    rep@,
                ),
            decreases opts@.len() - i,
        {
            let ghost rem = full.skip(i as int);
            proof {
                assert(rem.len() > 0);
                assert(rem[0] == full[i as int]);
                assert(rem.drop_first() =~= full.skip(i as int + 1));
            }
            let opt = &opts[i];
            let ghost prev_rep = rep@;
            proof {
                assert(rem[0] == opt@);
            }
            if opt.kind == OPT_CLIENTID {
                rep.client_id = Some(crate::bytes::clone_bytes(&opt.data));
            } else if opt.kind == OPT_SERVERID {
                rep.server_id = Some(crate::bytes::clone_bytes(&opt.data));
            } else if opt.kind == OPT_ELAPSED_TIME {
                if opt.data.len() == 2 {
                    rep.elapsed_time = Some(read_be16(opt.data[0], opt.data[1]));
                }
            } else if opt.kind == OPT_IA_NA {
                match ReprIaNa::parse(opt.data.as_slice()) {
                    Ok(ia) => {
                        rep.ia_na = Some(ia);
                    },
                    Err(_) => {
                        proof {
                            assert(spec_apply_opt(rep@, rem[0]) is None);
                            assert(spec_repr_fold(rem, rep@) is None);
                        }
                        return Err(Error);
                    },
                }
            } else if opt.kind == OPT_IA_TA {
                match ReprIaTa::parse(opt.data.as_slice()) {
                    Ok(ia) => {
                        rep.ia_ta = Some(ia);
                    },
                    Err(_) => {
                        proof {
                            assert(spec_apply_opt(rep@, rem[0]) is None);
                            assert(spec_repr_fold(rem, rep@) is None);
                        }
                        return Err(Error);
                    },
                }
            } else if opt.kind == OPT_DNS_SERVERS {
                match ReprDnsServers::parse(opt.data.as_slice()) {
                    Ok(d) => {
                        rep.dns_servers = Some(d);
                    },
                    Err(_) => {
                        return Err(Error);
                    },
                }
            } else if opt.kind == OPT_ORO {
                rep.request_options = Some(parse_request_options(opt.data.as_slice()));
            }
            proof {
                assert(spec_apply_opt(prev_rep, rem[0]) == Some(rep@));
                assert(spec_repr_fold(rem, prev_rep) == spec_repr_fold(
                    full.skip(i as int + 1),
                    rep@,
                ));
            }
            i = i + 1;
        }
        proof {
            assert(full.skip(i as int) =~= Seq::<OptModel>::empty());
        }
        Ok(rep)
    }
}


// ---------------------------------------------------------------------
// Wire lengths, and how serialized pieces compose.
// ---------------------------------------------------------------------

/// The wire length of a run of options: four header bytes plus the data
/// for each.
pub open spec fn spec_opts_wire_len(s: Seq<OptModel>) -> int
    decreases s.len(),
{
    if s.len() == 0 {
        0
    } else {
        4 + s[0].data.len() + spec_opts_wire_len(s.drop_first())
    }
}

/// The bytes of an option run have exactly the summed wire length, and
/// that length is never negative.
pub proof fn lemma_opts_bytes_len(s: Seq<OptModel>)
    ensures
        spec_opts_bytes(s).len() == spec_opts_wire_len(s),
        spec_opts_wire_len(s) >= 0,
    decreases s.len(),
{
    if s.len() > 0 {
        lemma_opts_bytes_len(s.drop_first());
    }
}

/// Serializing a concatenation of option runs concatenates their bytes.
pub proof fn lemma_opts_bytes_concat(a: Seq<OptModel>, b: Seq<OptModel>)
    ensures
        spec_opts_bytes(a + b) == spec_opts_bytes(a) + spec_opts_bytes(b),
    decreases a.len(),
{
    if a.len() == 0 {
        assert(a + b =~= b);
        assert(spec_opts_bytes(a) + spec_opts_bytes(b) =~= spec_opts_bytes(b));
    } else {
        assert((a + b).drop_first() =~= a.drop_first() + b);
        lemma_opts_bytes_concat(a.drop_first(), b);
        assert((a + b)[0] == a[0]);
        assert((a + b).len() > 0);
        assert(spec_opts_bytes(a + b) == spec_opt_bytes(a[0]) + (spec_opts_bytes(a.drop_first())
            + spec_opts_bytes(b)));
        assert(spec_opt_bytes(a[0]) + (spec_opts_bytes(a.drop_first()) + spec_opts_bytes(b)) =~= (
        spec_opt_bytes(a[0]) + spec_opts_bytes(a.drop_first())) + spec_opts_bytes(b));
    }
}

/// Appending one option to a run appends its bytes.
pub proof fn lemma_opts_bytes_push(s: Seq<OptModel>, o: OptModel)
    ensures
        spec_opts_bytes(s.push(o)) == spec_opts_bytes(s) + spec_opt_bytes(o),
{
    assert(s.push(o) =~= s + seq![o]);
    lemma_opts_bytes_concat(s, seq![o]);
    assert(seq![o].drop_first() =~= Seq::<OptModel>::empty());
    assert(spec_opts_bytes(Seq::<OptModel>::empty()) =~= Seq::<u8>::empty());
    assert(spec_opts_bytes(seq![o]) == spec_opt_bytes(o) + Seq::<u8>::empty());
    assert(spec_opt_bytes(o) + Seq::<u8>::empty() =~= spec_opt_bytes(o));
}

/// Appending one address to a DNS list appends its bytes.
pub proof fn lemma_dns_data_push(s: Seq<Seq<u8>>, a: Seq<u8>)
    ensures
        spec_dns_data(s.push(a)) == spec_dns_data(s) + a,
    decreases s.len(),
{
    if s.len() == 0 {
        assert(s.push(a).drop_first() =~= Seq::<Seq<u8>>::empty());
        assert(spec_dns_data(Seq::<Seq<u8>>::empty()) =~= Seq::<u8>::empty());
        assert(s.push(a)[0] == a);
        assert(spec_dns_data(s.push(a)) == a + Seq::<u8>::empty());
        assert(a + Seq::<u8>::empty() =~= a);
        assert(spec_dns_data(s) + a =~= a);
    } else {
        assert(s.push(a).drop_first() =~= s.drop_first().push(a));
        lemma_dns_data_push(s.drop_first(), a);
        assert(s[0] + (spec_dns_data(s.drop_first()) + a) =~= (s[0] + spec_dns_data(
            s.drop_first(),
        )) + a);
    }
}

/// Appending one code to a requested-options list appends its bytes.
pub proof fn lemma_oro_data_push(s: Seq<u16>, x: u16)
    ensures
        spec_oro_data(s.push(x)) == spec_oro_data(s) + spec_be16(x),
    decreases s.len(),
{
    if s.len() == 0 {
        assert(s.push(x).drop_first() =~= Seq::<u16>::empty());
        assert(spec_oro_data(Seq::<u16>::empty()) =~= Seq::<u8>::empty());
        assert(s.push(x)[0] == x);
        assert(spec_oro_data(s.push(x)) == spec_be16(x) + Seq::<u8>::empty());
        assert(spec_be16(x) + Seq::<u8>::empty() =~= spec_be16(x));
        assert(spec_oro_data(s) + spec_be16(x) =~= spec_be16(x));
    } else {
        assert(s.push(x).drop_first() =~= s.drop_first().push(x));
        lemma_oro_data_push(s.drop_first(), x);
        assert(spec_be16(s[0]) + (spec_oro_data(s.drop_first()) + spec_be16(x)) =~= (spec_be16(
            s[0],
        ) + spec_oro_data(s.drop_first())) + spec_be16(x));
    }
}

/// The DNS data area is 16 bytes per address.
pub proof fn lemma_dns_data_len(s: Seq<Seq<u8>>)
    requires
        forall|i: int| 0 <= i < s.len() ==> (#[trigger] s[i]).len() == 16,
    ensures
        spec_dns_data(s).len() == 16 * s.len(),
    decreases s.len(),
{
    if s.len() > 0 {
        assert(forall|i: int|
            0 <= i < s.drop_first().len() ==> (#[trigger] s.drop_first()[i]).len() == 16);
        lemma_dns_data_len(s.drop_first());
    }
}

/// The ORO data area is 2 bytes per requested code.
pub proof fn lemma_oro_data_len(s: Seq<u16>)
    ensures
        spec_oro_data(s).len() == 2 * s.len(),
    decreases s.len(),
{
    if s.len() > 0 {
        lemma_oro_data_len(s.drop_first());
    }
}

// ---------------------------------------------------------------------
// Serialization: executable builders, proved against the spec functions.
// ---------------------------------------------------------------------

/// Append one TLV option (header and data) to a byte vector.
fn push_opt(out: &mut Vec<u8>, kind: u16, data: &[u8])
    requires
        data@.len() <= 0xffff,
    ensures
        final(out)@ == old(out)@ + spec_opt_bytes(OptModel { kind, data: data@ }),
{
    push_be16(out, kind);
    push_be16(out, data.len() as u16);
    append_bytes(out, data);
    assert(out@ =~= old(out)@ + spec_opt_bytes(OptModel { kind, data: data@ }));
}

/// Append a run of opaque options, failing (with the output unspecified)
/// when one of them has data too long for its length field.
fn push_opts(out: &mut Vec<u8>, opts: &Vec<Dhcpv6Option>) -> (r: Result<(), Error>)
    ensures
        r is Ok <==> spec_opt_list_ok(view_opts(opts@)),
        r is Ok ==> final(out)@ == old(out)@ + spec_opts_bytes(view_opts(opts@)),
{
    let ghost full = view_opts(opts@);
    let mut i: usize = 0;
    proof {
        assert(full.subrange(0, 0) =~= Seq::<OptModel>::empty());
        assert(out@ =~= old(out)@ + spec_opts_bytes(full.subrange(0, 0)));
    }
    while i < opts.len()
        invariant
            i <= opts@.len(),
            full == view_opts(opts@),
            out@ == old(out)@ + spec_opts_bytes(full.subrange(0, i as int)),
            forall|j: int| 0 <= j < i ==> (#[trigger] full[j]).data.len() <= 0xffff,
        decreases opts@.len() - i,
    {
        let opt = &opts[i];
        if opt.data.len() > 0xffff {
            proof {
                assert(full[i as int].data.len() > 0xffff);
            }
            return Err(Error);
        }
        push_opt(out, opt.kind, opt.data.as_slice());
        proof {
            assert(full.subrange(0, i as int + 1) =~= full.subrange(0, i as int).push(
                full[i as int],
            ));
            lemma_opts_bytes_push(full.subrange(0, i as int), full[i as int]);
            assert(old(out)@ + spec_opts_bytes(full.subrange(0, i as int)) + spec_opt_bytes(
                full[i as int],
            ) =~= old(out)@ + spec_opts_bytes(full.subrange(0, i as int + 1)));
        }
        i = i + 1;
    }
    proof {
        assert(full.subrange(0, i as int) =~= full);
    }
    Ok(())
}

impl ReprStatusCode {
    /// The wire length of this option's data area: two code bytes plus
    /// the message.
    pub fn data_len(&self) -> (r: usize)
        requires
            spec_status_data(self@).len() <= usize::MAX,
        ensures
            r == spec_status_data(self@).len(),
    {
        2 + self.status_message.len()
    }

    /// The data area of this option.
    fn data_bytes(&self) -> (r: Vec<u8>)
        ensures
            r@ == spec_status_data(self@),
    {
        let mut out: Vec<u8> = Vec::new();
        push_be16(&mut out, self.status_code.to_u16());
        append_bytes(&mut out, self.status_message.as_slice());
        assert(out@ =~= spec_status_data(self@));
        out
    }
}

impl ReprIaAddr {
    /// The wire length of this entry's data area: address, two
    /// lifetimes, and any nested options.
    pub fn data_len(&self) -> (r: usize)
        requires
            spec_ia_addr_data(self@).len() <= usize::MAX,
        ensures
            r == spec_ia_addr_data(self@).len(),
    {
        proof {
            lemma_opts_bytes_len(view_opts(self.additional_options@));
        }
        let opts_len = opts_wire_len(&self.additional_options);
        24 + opts_len
    }

    /// The data area of this entry; fails when a nested option has data
    /// too long for its length field.
    fn data_bytes(&self) -> (r: Result<Vec<u8>, Error>)
        ensures
            r is Ok <==> spec_opt_list_ok(view_opts(self.additional_options@)),
            r matches Ok(v) ==> v@ == spec_ia_addr_data(self@),
    {
        let mut out: Vec<u8> = Vec::new();
        append_bytes(&mut out, self.addr.octets.as_slice());
        push_be32(&mut out, self.preferred_lifetime);
        push_be32(&mut out, self.valid_lifetime);
        match push_opts(&mut out, &self.additional_options) {
            Ok(_) => {
                assert(out@ =~= spec_ia_addr_data(self@));
                Ok(out)
            },
            Err(_) => Err(Error),
        }
    }
}

/// The summed wire length of a run of options, requiring it to fit.
fn opts_wire_len(opts: &Vec<Dhcpv6Option>) -> (r: usize)
    requires
        spec_opts_wire_len(view_opts(opts@)) <= usize::MAX,
    ensures
        r == spec_opts_wire_len(view_opts(opts@)),
{
    let ghost full = view_opts(opts@);
    let mut acc: usize = 0;
    let mut i: usize = 0;
    proof {
        lemma_opts_wire_len_split(full, 0);
        assert(full.subrange(0, 0) =~= Seq::<OptModel>::empty());
    }
    while i < opts.len()
        invariant
            i <= opts@.len(),
            full == view_opts(opts@),
            spec_opts_wire_len(full) <= usize::MAX,
            acc == spec_opts_wire_len(full.subrange(0, i as int)),
        decreases opts@.len() - i,
    {
        proof {
            lemma_opts_wire_len_split(full, i as int + 1);
            lemma_opts_bytes_len(full.skip(i as int + 1));
            lemma_opts_wire_len_last(full.subrange(0, i as int + 1));
            assert(full.subrange(0, i as int + 1).drop_last() =~= full.subrange(0, i as int));
            assert(full.subrange(0, i as int + 1).last() == full[i as int]);
        }
        acc = acc + 4 + opts[i].data.len();
        i = i + 1;
    }
    proof {
        assert(full.subrange(0, i as int) =~= full);
    }
    acc
}

/// An option run's wire length splits at any index.
pub proof fn lemma_opts_wire_len_split(s: Seq<OptModel>, i: int)
    requires
        0 <= i <= s.len(),
    ensures
        spec_opts_wire_len(s) == spec_opts_wire_len(s.subrange(0, i)) + spec_opts_wire_len(
            s.skip(i),
        ),
    decreases i,
{
    if i == 0 {
        assert(s.subrange(0, 0) =~= Seq::<OptModel>::empty());
        assert(s.skip(0) =~= s);
    } else {
        assert(s.len() > 0);
        lemma_opts_wire_len_split(s.drop_first(), i - 1);
        assert(s.subrange(0, i).drop_first() =~= s.drop_first().subrange(0, i - 1));
        assert(s.skip(i) =~= s.drop_first().skip(i - 1));
        assert(s.subrange(0, i).len() > 0);
        assert(s.subrange(0, i)[0] == s[0]);
    }
}

/// An option run's wire length counts its last element once.
pub proof fn lemma_opts_wire_len_last(s: Seq<OptModel>)
    requires
        s.len() > 0,
    ensures
        spec_opts_wire_len(s) == spec_opts_wire_len(s.drop_last()) + 4 + s.last().data.len(),
    decreases s.len(),
{
    if s.len() == 1 {
        assert(s.drop_last() =~= Seq::<OptModel>::empty());
        assert(s.drop_first() =~= Seq::<OptModel>::empty());
    } else {
        lemma_opts_wire_len_last(s.drop_first());
        assert(s.drop_last().drop_first() =~= s.drop_first().drop_last());
        assert(s.drop_first().last() == s.last());
        assert(s.drop_last().len() > 0);
        assert(s.drop_last()[0] == s[0]);
    }
}


/// Wire length distributes over concatenation of option runs.
pub proof fn lemma_opts_wire_len_concat(a: Seq<OptModel>, b: Seq<OptModel>)
    ensures
        spec_opts_wire_len(a + b) == spec_opts_wire_len(a) + spec_opts_wire_len(b),
{
    lemma_opts_bytes_concat(a, b);
    lemma_opts_bytes_len(a + b);
    lemma_opts_bytes_len(a);
    lemma_opts_bytes_len(b);
}

/// The wire length of a present optional field's singleton run.
pub proof fn lemma_maybe_opt_len(kind: u16, d: Seq<u8>)
    ensures
        spec_opts_wire_len(spec_maybe_opt(kind, Some(d))) == 4 + d.len(),
{
    let s = spec_maybe_opt(kind, Some(d));
    assert(s.drop_first() =~= Seq::<OptModel>::empty());
    assert(spec_opts_wire_len(Seq::<OptModel>::empty()) == 0);
    assert(s.len() == 1 && s[0].data == d);
}

/// The data area of a DNS-servers option, serialized.
fn dns_data_bytes(v: &Vec<Ipv6Address>) -> (r: Vec<u8>)
    ensures
        r@ == spec_dns_data(view_addrs16(v@)),
{
    let mut out: Vec<u8> = Vec::new();
    let ghost full = view_addrs16(v@);
    let mut i: usize = 0;
    proof {
        assert(full.subrange(0, 0) =~= Seq::<Seq<u8>>::empty());
        assert(out@ =~= spec_dns_data(full.subrange(0, 0)));
    }
    while i < v.len()
        invariant
            i <= v@.len(),
            full == view_addrs16(v@),
            out@ == spec_dns_data(full.subrange(0, i as int)),
        decreases v@.len() - i,
    {
        append_bytes(&mut out, v[i].octets.as_slice());
        proof {
            assert(full.subrange(0, i as int + 1) =~= full.subrange(0, i as int).push(
                full[i as int],
            ));
            lemma_dns_data_push(full.subrange(0, i as int), full[i as int]);
        }
        i = i + 1;
    }
    proof {
        assert(full.subrange(0, i as int) =~= full);
    }
    out
}

/// The data area of an ORO option, serialized.
fn oro_data_bytes(v: &Vec<u16>) -> (r: Vec<u8>)
    ensures
        r@ == spec_oro_data(v@),
{
    let mut out: Vec<u8> = Vec::new();
    let mut i: usize = 0;
    proof {
        assert(v@.subrange(0, 0) =~= Seq::<u16>::empty());
        assert(out@ =~= spec_oro_data(v@.subrange(0, 0)));
    }
    while i < v.len()
        invariant
            i <= v@.len(),
            out@ == spec_oro_data(v@.subrange(0, i as int)),
        decreases v@.len() - i,
    {
        push_be16(&mut out, v[i]);
        proof {
            assert(v@.subrange(0, i as int + 1) =~= v@.subrange(0, i as int).push(v@[i as int]));
            lemma_oro_data_push(v@.subrange(0, i as int), v@[i as int]);
        }
        i = i + 1;
    }
    proof {
        assert(v@.subrange(0, i as int) =~= v@);
    }
    out
}

/// Append the option run nested in an IA: one option per address entry,
/// the status code if present, then the opaque pass-through options.
/// Fails exactly when some piece does not fit its length field.
fn push_ia_body_opts(
    out: &mut Vec<u8>,
    addresses: &Vec<ReprIaAddr>,
    status_code: &Option<ReprStatusCode>,
    additional: &Vec<Dhcpv6Option>,
) -> (r: Result<(), Error>)
    ensures
        r is Ok <==> spec_ia_body_emit_ok(
            view_ia_addrs(addresses@),
            view_opt_status(*status_code),
            view_opts(additional@),
        ),
        r is Ok ==> final(out)@ == old(out)@ + spec_opts_bytes(
            spec_ia_opt_models(
                view_ia_addrs(addresses@),
                view_opt_status(*status_code),
                view_opts(additional@),
            ),
        ),
{
    let ghost addr_models = view_ia_addrs(addresses@);
    let ghost addr_opts = addr_models.map_values(
        |a: IaAddrModel| OptModel { kind: OPT_IA_PD, data: spec_ia_addr_data(a) },
    );
    let mut i: usize = 0;
    proof {
        assert(addr_opts.subrange(0, 0) =~= Seq::<OptModel>::empty());
        assert(out@ =~= old(out)@ + spec_opts_bytes(addr_opts.subrange(0, 0)));
    }
    while i < addresses.len()
        invariant
            i <= addresses@.len(),
            addr_models == view_ia_addrs(addresses@),
            addr_opts == addr_models.map_values(
                |a: IaAddrModel| OptModel { kind: OPT_IA_PD, data: spec_ia_addr_data(a) },
            ),
            out@ == old(out)@ + spec_opts_bytes(addr_opts.subrange(0, i as int)),
            forall|j: int| 0 <= j < i ==> spec_ia_addr_emit_ok(#[trigger] addr_models[j]),
        decreases addresses@.len() - i,
    {
        let ab = match addresses[i].data_bytes() {
            Ok(b) => b,
            Err(_) => {
                proof {
                    assert(!spec_ia_addr_emit_ok(addr_models[i as int]));
                }
                return Err(Error);
            },
        };
        if ab.len() > 0xffff {
            proof {
                assert(!spec_ia_addr_emit_ok(addr_models[i as int]));
            }
            return Err(Error);
        }
        push_opt(out, OPT_IA_PD, ab.as_slice());
        proof {
            assert(addr_opts[i as int] == OptModel {
                kind: OPT_IA_PD,
                data: spec_ia_addr_data(addr_models[i as int]),
            });
            assert(addr_opts.subrange(0, i as int + 1) =~= addr_opts.subrange(0, i as int).push(
                addr_opts[i as int],
            ));
            lemma_opts_bytes_push(addr_opts.subrange(0, i as int), addr_opts[i as int]);
            assert(old(out)@ + spec_opts_bytes(addr_opts.subrange(0, i as int)) + spec_opt_bytes(
                addr_opts[i as int],
            ) =~= old(out)@ + spec_opts_bytes(addr_opts.subrange(0, i as int + 1)));
        }
        i = i + 1;
    }
    proof {
        assert(addr_opts.subrange(0, i as int) =~= addr_opts);
    }
    let ghost status_opts = match view_opt_status(*status_code) {
        Some(sm) => seq![OptModel { kind: OPT_STATUS_CODE, data: spec_status_data(sm) }],
        None => Seq::<OptModel>::empty(),
    };
    match status_code {
        Some(sc) => {
            let sd = sc.data_bytes();
            if sd.len() > 0xffff {
                proof {
                    assert(!spec_status_emit_ok(sc@));
                }
                return Err(Error);
            }
            push_opt(out, OPT_STATUS_CODE, sd.as_slice());
            proof {
                assert(status_opts.drop_first() =~= Seq::<OptModel>::empty());
                assert(spec_opts_bytes(status_opts) == spec_opt_bytes(status_opts[0])
                    + spec_opts_bytes(Seq::<OptModel>::empty()));
                assert(spec_opts_bytes(Seq::<OptModel>::empty()) =~= Seq::<u8>::empty());
                assert(spec_opt_bytes(status_opts[0]) + Seq::<u8>::empty() =~= spec_opt_bytes(
                    status_opts[0],
                ));
                assert(out@ =~= old(out)@ + (spec_opts_bytes(addr_opts) + spec_opts_bytes(
                    status_opts,
                )));
            }
        },
        None => {
            proof {
                assert(spec_opts_bytes(status_opts) =~= Seq::<u8>::empty());
                assert(out@ =~= old(out)@ + (spec_opts_bytes(addr_opts) + spec_opts_bytes(
                    status_opts,
                )));
            }
        },
    }
    match push_opts(out, additional) {
        Ok(_) => {
            proof {
                lemma_opts_bytes_concat(addr_opts, status_opts);
                lemma_opts_bytes_concat(addr_opts + status_opts, view_opts(additional@));
                assert(spec_ia_opt_models(
                    addr_models,
                    view_opt_status(*status_code),
                    view_opts(additional@),
                ) =~= (addr_opts + status_opts) + view_opts(additional@));
                assert(out@ =~= old(out)@ + spec_opts_bytes(
                    spec_ia_opt_models(
                        addr_models,
                        view_opt_status(*status_code),
                        view_opts(additional@),
                    ),
                ));
            }
            Ok(())
        },
        Err(_) => Err(Error),
    }
}

impl ReprIaNa {
    /// The wire length of this option's data area: iaid, T1, T2, and
    /// the nested option run.
    pub fn data_len(&self) -> (r: usize)
        requires
            spec_ia_na_data(self@).len() <= usize::MAX,
        ensures
            r == spec_ia_na_data(self@).len(),
    {
        proof {
            lemma_opts_bytes_len(
                spec_ia_opt_models(
                    view_ia_addrs(self.addresses@),
                    view_opt_status(self.status_code),
                    view_opts(self.additional_options@),
                ),
            );
        }
        12 + ia_body_opts_len(&self.addresses, &self.status_code, &self.additional_options)
    }

    /// The data area of this option; fails when some nested piece does
    /// not fit its length field.
    fn data_bytes(&self) -> (r: Result<Vec<u8>, Error>)
        ensures
            r is Ok <==> spec_ia_body_emit_ok(
                view_ia_addrs(self.addresses@),
                view_opt_status(self.status_code),
                view_opts(self.additional_options@),
            ),
            r matches Ok(v) ==> v@ == spec_ia_na_data(self@),
    {
        let mut out: Vec<u8> = Vec::new();
        push_be32(&mut out, self.iaid);
        push_be32(&mut out, self.t1);
        push_be32(&mut out, self.t2);
        match push_ia_body_opts(&mut out, &self.addresses, &self.status_code, &self.additional_options) {
            Ok(_) => {
                assert(out@ =~= spec_ia_na_data(self@));
                Ok(out)
            },
            Err(_) => Err(Error),
        }
    }

    /// Emit this IA_NA as one option through the writer.
    pub fn emit(&self, w: &mut Dhcpv6OptionWriter) -> (r: Result<(), Error>)
        requires
            old(w).wf(),
        ensures
            final(w).wf(),
            r is Ok <==> spec_ia_na_emit_ok(self@) && old(w).buffer@.len() - old(w).pos >= 4
                + spec_ia_na_data(self@).len(),
            r is Ok ==> final(w).buffer@ == old(w).buffer@.subrange(0, old(w).pos as int)
                + spec_opt_bytes(OptModel { kind: OPT_IA_NA, data: spec_ia_na_data(self@) })
                + old(w).buffer@.skip(old(w).pos + 4 + spec_ia_na_data(self@).len()),
            r is Ok ==> final(w).pos == old(w).pos + 4 + spec_ia_na_data(self@).len(),
            r is Err ==> *final(w) == *old(w),
            final(w).buffer@.len() == old(w).buffer@.len(),
    {
        let data = match self.data_bytes() {
            Ok(d) => d,
            Err(_) => {
                return Err(Error);
            },
        };
        w.emit(&Dhcpv6Option { kind: OPT_IA_NA, data })
    }
}

impl ReprIaTa {
    /// The wire length of this option's data area: iaid and the nested
    /// option run.
    pub fn data_len(&self) -> (r: usize)
        requires
            spec_ia_ta_data(self@).len() <= usize::MAX,
        ensures
            r == spec_ia_ta_data(self@).len(),
    {
        proof {
            lemma_opts_bytes_len(
                spec_ia_opt_models(
                    view_ia_addrs(self.addresses@),
                    view_opt_status(self.status_code),
                    view_opts(self.additional_options@),
                ),
            );
        }
        4 + ia_body_opts_len(&self.addresses, &self.status_code, &self.additional_options)
    }

    /// The data area of this option; fails when some nested piece does
    /// not fit its length field.
    fn data_bytes(&self) -> (r: Result<Vec<u8>, Error>)
        ensures
            r is Ok <==> spec_ia_body_emit_ok(
                view_ia_addrs(self.addresses@),
                view_opt_status(self.status_code),
                view_opts(self.additional_options@),
            ),
            r matches Ok(v) ==> v@ == spec_ia_ta_data(self@),
    {
        let mut out: Vec<u8> = Vec::new();
        push_be32(&mut out, self.iaid);
        match push_ia_body_opts(&mut out, &self.addresses, &self.status_code, &self.additional_options) {
            Ok(_) => {
                assert(out@ =~= spec_ia_ta_data(self@));
                Ok(out)
            },
            Err(_) => Err(Error),
        }
    }

    /// Emit this IA_TA as one option through the writer.
    pub fn emit(&self, w: &mut Dhcpv6OptionWriter) -> (r: Result<(), Error>)
        requires
            old(w).wf(),
        ensures
            final(w).wf(),
            r is Ok <==> spec_ia_ta_emit_ok(self@) && old(w).buffer@.len() - old(w).pos >= 4
                + spec_ia_ta_data(self@).len(),
            r is Ok ==> final(w).buffer@ == old(w).buffer@.subrange(0, old(w).pos as int)
                + spec_opt_bytes(OptModel { kind: OPT_IA_TA, data: spec_ia_ta_data(self@) })
                + old(w).buffer@.skip(old(w).pos + 4 + spec_ia_ta_data(self@).len()),
            r is Ok ==> final(w).pos == old(w).pos + 4 + spec_ia_ta_data(self@).len(),
            r is Err ==> *final(w) == *old(w),
            final(w).buffer@.len() == old(w).buffer@.len(),
    {
        let data = match self.data_bytes() {
            Ok(d) => d,
            Err(_) => {
                return Err(Error);
            },
        };
        w.emit(&Dhcpv6Option { kind: OPT_IA_TA, data })
    }
}

/// The summed wire length of the option run nested in an IA.
fn ia_body_opts_len(
    addresses: &Vec<ReprIaAddr>,
    status_code: &Option<ReprStatusCode>,
    additional: &Vec<Dhcpv6Option>,
) -> (r: usize)
    requires
        spec_opts_wire_len(
            spec_ia_opt_models(
                view_ia_addrs(addresses@),
                view_opt_status(*status_code),
                view_opts(additional@),
            ),
        ) <= usize::MAX,
    ensures
        r == spec_opts_wire_len(
            spec_ia_opt_models(
                view_ia_addrs(addresses@),
                view_opt_status(*status_code),
                view_opts(additional@),
            ),
        ),
{
    let ghost addr_models = view_ia_addrs(addresses@);
    let ghost addr_opts = addr_models.map_values(
        |a: IaAddrModel| OptModel { kind: OPT_IA_PD, data: spec_ia_addr_data(a) },
    );
    let ghost status_opts = match view_opt_status(*status_code) {
        Some(sm) => seq![OptModel { kind: OPT_STATUS_CODE, data: spec_status_data(sm) }],
        None => Seq::<OptModel>::empty(),
    };
    let ghost add_opts = view_opts(additional@);
    let ghost whole = spec_ia_opt_models(addr_models, view_opt_status(*status_code), add_opts);
    proof {
        assert(whole =~= (addr_opts + status_opts) + add_opts);
        lemma_opts_wire_len_concat(addr_opts + status_opts, add_opts);
        lemma_opts_wire_len_concat(addr_opts, status_opts);
        lemma_opts_bytes_len(addr_opts);
        lemma_opts_bytes_len(status_opts);
        lemma_opts_bytes_len(add_opts);
    }
    let mut acc: usize = 0;
    let mut i: usize = 0;
    proof {
        lemma_opts_wire_len_split(addr_opts, 0);
        assert(addr_opts.subrange(0, 0) =~= Seq::<OptModel>::empty());
    }
    while i < addresses.len()
        invariant
            i <= addresses@.len(),
            addr_models == view_ia_addrs(addresses@),
            addr_opts == addr_models.map_values(
                |a: IaAddrModel| OptModel { kind: OPT_IA_PD, data: spec_ia_addr_data(a) },
            ),
            spec_opts_wire_len(addr_opts) <= usize::MAX,
            spec_opts_wire_len(addr_opts) >= 0,
            acc == spec_opts_wire_len(addr_opts.subrange(0, i as int)),
        decreases addresses@.len() - i,
    {
        proof {
            lemma_opts_wire_len_split(addr_opts, i as int + 1);
            lemma_opts_bytes_len(addr_opts.skip(i as int + 1));
            lemma_opts_wire_len_last(addr_opts.subrange(0, i as int + 1));
            assert(addr_opts.subrange(0, i as int + 1).drop_last() =~= addr_opts.subrange(
                0,
                i as int,
            ));
            assert(addr_opts.subrange(0, i as int + 1).last() == addr_opts[i as int]);
            assert(addr_opts[i as int].data == spec_ia_addr_data(addr_models[i as int]));
            lemma_opts_bytes_len(view_opts(addresses@[i as int].additional_options@));
        }
        let al = addresses[i].data_len();
        acc = acc + 4 + al;
        i = i + 1;
    }
    proof {
        assert(addr_opts.subrange(0, i as int) =~= addr_opts);
    }
    match status_code {
        Some(sc) => {
            proof {
                assert(status_opts.drop_first() =~= Seq::<OptModel>::empty());
                assert(spec_opts_wire_len(status_opts) == 4 + spec_status_data(sc@).len());
            }
            let sl = sc.data_len();
            acc = acc + 4 + sl;
        },
        None => {
        },
    }
    let addl = opts_wire_len(additional);
    acc + addl
}

impl ReprIaAddr {
    /// Emit this address entry as one option through the writer.
    pub fn emit(&self, w: &mut Dhcpv6OptionWriter) -> (r: Result<(), Error>)
        requires
            old(w).wf(),
        ensures
            final(w).wf(),
            r is Ok <==> spec_ia_addr_emit_ok(self@) && old(w).buffer@.len() - old(w).pos >= 4
                + spec_ia_addr_data(self@).len(),
            r is Ok ==> final(w).buffer@ == old(w).buffer@.subrange(0, old(w).pos as int)
                + spec_opt_bytes(OptModel { kind: OPT_IA_PD, data: spec_ia_addr_data(self@) })
                + old(w).buffer@.skip(old(w).pos + 4 + spec_ia_addr_data(self@).len()),
            r is Ok ==> final(w).pos == old(w).pos + 4 + spec_ia_addr_data(self@).len(),
            r is Err ==> *final(w) == *old(w),
            final(w).buffer@.len() == old(w).buffer@.len(),
    {
        let data = match self.data_bytes() {
            Ok(d) => d,
            Err(_) => {
                return Err(Error);
            },
        };
        w.emit(&Dhcpv6Option { kind: OPT_IA_PD, data })
    }
}

impl ReprStatusCode {
    /// Emit this status code as one option through the writer.
    pub fn emit(&self, w: &mut Dhcpv6OptionWriter) -> (r: Result<(), Error>)
        requires
            old(w).wf(),
        ensures
            final(w).wf(),
            r is Ok <==> spec_status_emit_ok(self@) && old(w).buffer@.len() - old(w).pos >= 4
                + spec_status_data(self@).len(),
            r is Ok ==> final(w).buffer@ == old(w).buffer@.subrange(0, old(w).pos as int)
                + spec_opt_bytes(OptModel { kind: OPT_STATUS_CODE, data: spec_status_data(self@) })
                + old(w).buffer@.skip(old(w).pos + 4 + spec_status_data(self@).len()),
            r is Ok ==> final(w).pos == old(w).pos + 4 + spec_status_data(self@).len(),
            r is Err ==> *final(w) == *old(w),
            final(w).buffer@.len() == old(w).buffer@.len(),
    {
        let data = self.data_bytes();
        w.emit(&Dhcpv6Option { kind: OPT_STATUS_CODE, data })
    }
}

impl ReprDnsServers {
    /// The wire length of this option's data area: 16 bytes per address.
    pub fn data_len(&self) -> (r: usize)
        requires
            spec_dns_data(view_addrs16(self.addresses@)).len() <= usize::MAX,
        ensures
            r == spec_dns_data(view_addrs16(self.addresses@)).len(),
    {
        proof {
            lemma_dns_data_len(view_addrs16(self.addresses@));
        }
        16 * self.addresses.len()
    }

    /// Emit this DNS-servers list as one option through the writer.
    pub fn emit(&self, w: &mut Dhcpv6OptionWriter) -> (r: Result<(), Error>)
        requires
            old(w).wf(),
        ensures
            final(w).wf(),
            r is Ok <==> spec_dns_data(view_addrs16(self.addresses@)).len() <= 0xffff && old(
                w,
            ).buffer@.len() - old(w).pos >= 4 + spec_dns_data(view_addrs16(self.addresses@)).len(),
            r is Ok ==> final(w).buffer@ == old(w).buffer@.subrange(0, old(w).pos as int)
                + spec_opt_bytes(
                OptModel {
                    kind: OPT_DNS_SERVERS,
                    data: spec_dns_data(view_addrs16(self.addresses@)),
                },
            ) + old(w).buffer@.skip(
                old(w).pos + 4 + spec_dns_data(view_addrs16(self.addresses@)).len(),
            ),
            r is Ok ==> final(w).pos == old(w).pos + 4 + spec_dns_data(
                view_addrs16(self.addresses@),
            ).len(),
            r is Err ==> *final(w) == *old(w),
            final(w).buffer@.len() == old(w).buffer@.len(),
    {
        let data = dns_data_bytes(&self.addresses);
        w.emit(&Dhcpv6Option { kind: OPT_DNS_SERVERS, data })
    }
}


/// A cursor that writes TLV options into a fixed-size buffer, consuming
/// it from the front: each successful `emit` advances the position.
#[derive(Debug)]
pub struct Dhcpv6OptionWriter {
    pub buffer: Vec<u8>,
    pub pos: usize,
}

impl Dhcpv6OptionWriter {
    /// The cursor never passes the end of the buffer.
    pub open spec fn wf(self) -> bool {
        self.pos <= self.buffer@.len()
    }

    /// A writer over the whole of `buffer`, starting at the front.
    pub fn new(buffer: Vec<u8>) -> (r: Dhcpv6OptionWriter)
        ensures
            r.buffer@ == buffer@,
            r.pos == 0,
            r.wf(),
    {
        Dhcpv6OptionWriter { buffer, pos: 0 }
    }

    /// Give back the underlying buffer.
    pub fn into_inner(self) -> (r: Vec<u8>)
        ensures
            r@ == self.buffer@,
    {
        self.buffer
    }

    /// Write one option at the cursor.  Fails, leaving the writer
    /// untouched, when the option's data is longer than its 16-bit
    /// length field allows or the remaining buffer is shorter than the
    /// option; on success the cursor advances past the option.
    pub fn emit(&mut self, option: &Dhcpv6Option) -> (r: Result<(), Error>)
        requires
            old(self).wf(),
        ensures
            final(self).wf(),
            final(self).buffer@.len() == old(self).buffer@.len(),
            r is Ok <==> option@.data.len() <= 0xffff && old(self).buffer@.len() - old(self).pos
                >= 4 + option@.data.len(),
            r is Ok ==> final(self).pos == old(self).pos + 4 + option@.data.len(),
            r is Ok ==> final(self).buffer@ == old(self).buffer@.subrange(0, old(self).pos as int)
                + spec_opt_bytes(option@) + old(self).buffer@.skip(
                old(self).pos + 4 + option@.data.len(),
            ),
            r is Err ==> *final(self) == *old(self),
    {
        if option.data.len() > 0xffff {
            return Err(Error);
        }
        if self.buffer.len() - self.pos < 4 + option.data.len() {
            return Err(Error);
        }
        let mut piece: Vec<u8> = Vec::new();
        push_be16(&mut piece, option.kind);
        push_be16(&mut piece, option.data.len() as u16);
        append_bytes(&mut piece, option.data.as_slice());
        assert(piece@ =~= spec_opt_bytes(option@));
        crate::bytes::write_at(&mut self.buffer, self.pos, piece.as_slice());
        self.pos = self.pos + 4 + option.data.len();
        Ok(())
    }
}

impl Packet {
    /// A writer over this packet's options area: the packet is consumed
    /// and the writer holds its buffer, positioned past the header.
    pub fn options_mut(self) -> (w: Dhcpv6OptionWriter)
        requires
            self@.len() >= 4,
        ensures
            w.buffer@ == self@,
            w.pos == 4,
            w.wf(),
    {
        Dhcpv6OptionWriter { buffer: self.buffer, pos: 4 }
    }
}


/// Option-run well-formedness splits over concatenation.
pub proof fn lemma_opt_list_ok_concat(a: Seq<OptModel>, b: Seq<OptModel>)
    ensures
        spec_opt_list_ok(a + b) <==> (spec_opt_list_ok(a) && spec_opt_list_ok(b)),
{
    if spec_opt_list_ok(a + b) {
        assert forall|i: int| 0 <= i < a.len() implies (#[trigger] a[i]).data.len() <= 0xffff by {
            assert((a + b)[i] == a[i]);
        }
        assert forall|i: int| 0 <= i < b.len() implies (#[trigger] b[i]).data.len() <= 0xffff by {
            assert((a + b)[i + a.len()] == b[i]);
        }
    }
    if spec_opt_list_ok(a) && spec_opt_list_ok(b) {
        assert forall|i: int| 0 <= i < (a + b).len() implies (#[trigger] (a + b)[i]).data.len()
            <= 0xffff by {
            if i < a.len() {
                assert((a + b)[i] == a[i]);
            } else {
                assert((a + b)[i] == b[i - a.len()]);
            }
        }
    }
}

/// A run of at most one option is well formed exactly when its option,
/// if any, fits its length field.
pub proof fn lemma_single_maybe_ok(s: Seq<OptModel>)
    requires
        s.len() <= 1,
    ensures
        spec_opt_list_ok(s) <==> (s.len() == 0 || s[0].data.len() <= 0xffff),
{
}

/// The length of an emitted packet, field by field.
#[verifier::rlimit(80)]
#[verifier::spinoff_prover]
pub proof fn lemma_repr_len_decomp(m: ReprModel)
    ensures
        spec_repr_bytes(m).len() == 4 + (match m.client_id {
            Some(d) => 4 + d.len(),
            None => 0,
        }) + (match m.server_id {
            Some(d) => 4 + d.len(),
            None => 0,
        }) + (match m.elapsed_time {
            Some(_) => 6int,
            None => 0,
        }) + (match m.ia_na {
            Some(ia) => 4 + spec_ia_na_data(ia).len(),
            None => 0,
        }) + (match m.ia_ta {
            Some(ia) => 4 + spec_ia_ta_data(ia).len(),
            None => 0,
        }) + (match m.dns_servers {
            Some(d) => 4 + spec_dns_data(d.addresses).len(),
            None => 0,
        }) + (match m.request_options {
            Some(s) => 4 + 2 * s.len(),
            None => 0,
        }) + spec_opts_wire_len(m.additional_options),
        spec_opts_wire_len(m.additional_options) >= 0,
{
    let p1 = spec_maybe_opt(OPT_CLIENTID, m.client_id);
    let p2 = spec_maybe_opt(OPT_SERVERID, m.server_id);
    let p3 = spec_maybe_opt(
        OPT_ELAPSED_TIME,
        match m.elapsed_time {
            Some(x) => Some(spec_be16(x)),
            None => None,
        },
    );
    let p4 = spec_maybe_opt(
        OPT_IA_NA,
        match m.ia_na {
            Some(ia) => Some(spec_ia_na_data(ia)),
            None => None,
        },
    );
    let p5 = spec_maybe_opt(
        OPT_IA_TA,
        match m.ia_ta {
            Some(ia) => Some(spec_ia_ta_data(ia)),
            None => None,
        },
    );
    let p6 = spec_maybe_opt(
        OPT_DNS_SERVERS,
        match m.dns_servers {
            Some(d) => Some(spec_dns_data(d.addresses)),
            None => None,
        },
    );
    let p7 = spec_maybe_opt(
        OPT_ORO,
        match m.request_options {
            Some(s) => Some(spec_oro_data(s)),
            None => None,
        },
    );
    let p8 = m.additional_options;
    let models = spec_repr_opt_models(m);
    lemma_opts_bytes_len(models);
    assert(models =~= p1 + p2 + p3 + p4 + p5 + p6 + p7 + p8);
    lemma_opts_wire_len_concat(p1 + p2 + p3 + p4 + p5 + p6 + p7, p8);
    lemma_opts_wire_len_concat(p1 + p2 + p3 + p4 + p5 + p6, p7);
    lemma_opts_wire_len_concat(p1 + p2 + p3 + p4 + p5, p6);
    lemma_opts_wire_len_concat(p1 + p2 + p3 + p4, p5);
    lemma_opts_wire_len_concat(p1 + p2 + p3, p4);
    lemma_opts_wire_len_concat(p1 + p2, p3);
    lemma_opts_wire_len_concat(p1, p2);
    lemma_opts_bytes_len(p8);
    assert(spec_repr_bytes(m).len() == 4 + spec_opts_wire_len(models));
    match m.client_id {
        Some(d) => {
            lemma_maybe_opt_len(OPT_CLIENTID, d);
        },
        None => {
            assert(spec_opts_wire_len(p1) == 0);
        },
    }
    match m.server_id {
        Some(d) => {
            lemma_maybe_opt_len(OPT_SERVERID, d);
        },
        None => {
            assert(spec_opts_wire_len(p2) == 0);
        },
    }
    match m.elapsed_time {
        Some(x) => {
            lemma_maybe_opt_len(OPT_ELAPSED_TIME, spec_be16(x));
        },
        None => {
            assert(spec_opts_wire_len(p3) == 0);
        },
    }
    match m.ia_na {
        Some(ia) => {
            lemma_maybe_opt_len(OPT_IA_NA, spec_ia_na_data(ia));
        },
        None => {
            assert(spec_opts_wire_len(p4) == 0);
        },
    }
    match m.ia_ta {
        Some(ia) => {
            lemma_maybe_opt_len(OPT_IA_TA, spec_ia_ta_data(ia));
        },
        None => {
            assert(spec_opts_wire_len(p5) == 0);
        },
    }
    match m.dns_servers {
        Some(d) => {
            lemma_maybe_opt_len(OPT_DNS_SERVERS, spec_dns_data(d.addresses));
        },
        None => {
            assert(spec_opts_wire_len(p6) == 0);
        },
    }
    match m.request_options {
        Some(s) => {
            lemma_maybe_opt_len(OPT_ORO, spec_oro_data(s));
            lemma_oro_data_len(s);
        },
        None => {
            assert(spec_opts_wire_len(p7) == 0);
        },
    }
}

/// A representation is emittable exactly when each IA body is emittable
/// and every top-level option it serializes to fits its length field.
#[verifier::rlimit(80)]
#[verifier::spinoff_prover]
pub proof fn lemma_repr_emit_ok_decomp(m: ReprModel)
    ensures
        spec_repr_emit_ok(m) <==> ((match m.ia_na {
            Some(ia) => spec_ia_body_emit_ok(ia.addresses, ia.status_code, ia.additional_options),
            None => true,
        }) && (match m.ia_ta {
            Some(ia) => spec_ia_body_emit_ok(ia.addresses, ia.status_code, ia.additional_options),
            None => true,
        }) && spec_opt_list_ok(spec_repr_opt_models(m))),
{
    let p1 = spec_maybe_opt(OPT_CLIENTID, m.client_id);
    let p2 = spec_maybe_opt(OPT_SERVERID, m.server_id);
    let p3 = spec_maybe_opt(
        OPT_ELAPSED_TIME,
        match m.elapsed_time {
            Some(x) => Some(spec_be16(x)),
            None => None,
        },
    );
    let p4 = spec_maybe_opt(
        OPT_IA_NA,
        match m.ia_na {
            Some(ia) => Some(spec_ia_na_data(ia)),
            None => None,
        },
    );
    let p5 = spec_maybe_opt(
        OPT_IA_TA,
        match m.ia_ta {
            Some(ia) => Some(spec_ia_ta_data(ia)),
            None => None,
        },
    );
    let p6 = spec_maybe_opt(
        OPT_DNS_SERVERS,
        match m.dns_servers {
            Some(d) => Some(spec_dns_data(d.addresses)),
            None => None,
        },
    );
    let p7 = spec_maybe_opt(
        OPT_ORO,
        match m.request_options {
            Some(s) => Some(spec_oro_data(s)),
            None => None,
        },
    );
    let p8 = m.additional_options;
    let models = spec_repr_opt_models(m);
    assert(models =~= p1 + p2 + p3 + p4 + p5 + p6 + p7 + p8);
    lemma_opt_list_ok_concat(p1 + p2 + p3 + p4 + p5 + p6 + p7, p8);
    lemma_opt_list_ok_concat(p1 + p2 + p3 + p4 + p5 + p6, p7);
    lemma_opt_list_ok_concat(p1 + p2 + p3 + p4 + p5, p6);
    lemma_opt_list_ok_concat(p1 + p2 + p3 + p4, p5);
    lemma_opt_list_ok_concat(p1 + p2 + p3, p4);
    lemma_opt_list_ok_concat(p1 + p2, p3);
    lemma_opt_list_ok_concat(p1, p2);
    lemma_single_maybe_ok(p1);
    lemma_single_maybe_ok(p2);
    lemma_single_maybe_ok(p3);
    lemma_single_maybe_ok(p4);
    lemma_single_maybe_ok(p5);
    lemma_single_maybe_ok(p6);
    lemma_single_maybe_ok(p7);
}

/// The bytes of a singleton option run are the option's bytes.
pub proof fn lemma_single_opt_bytes(o: OptModel)
    ensures
        spec_opts_bytes(seq![o]) == spec_opt_bytes(o),
{
    assert(seq![o].drop_first() =~= Seq::<OptModel>::empty());
    assert(spec_opts_bytes(Seq::<OptModel>::empty()) =~= Seq::<u8>::empty());
    assert(spec_opts_bytes(seq![o]) == spec_opt_bytes(o) + Seq::<u8>::empty());
    assert(spec_opt_bytes(o) + Seq::<u8>::empty() =~= spec_opt_bytes(o));
}

impl Repr {
    /// The length of a packet emitted from this representation: the
    /// four header bytes plus every option it will carry.
    #[verifier::rlimit(80)]
    #[verifier::spinoff_prover]
    pub fn buffer_len(&self) -> (r: usize)
        requires
            spec_repr_bytes(self@).len() <= usize::MAX,
        ensures
            r == spec_repr_bytes(self@).len(),
    {
        proof {
            lemma_repr_len_decomp(self@);
        }
        let mut acc: usize = 4;
        match &self.client_id {
            Some(d) => {
                acc = acc + 4 + d.len();
            },
            None => {},
        }
        match &self.server_id {
            Some(d) => {
                acc = acc + 4 + d.len();
            },
            None => {},
        }
        match &self.elapsed_time {
            Some(_) => {
                acc = acc + 6;
            },
            None => {},
        }
        match &self.ia_na {
            Some(ia) => {
                let l = ia.data_len();
                acc = acc + 4 + l;
            },
            None => {},
        }
        match &self.ia_ta {
            Some(ia) => {
                let l = ia.data_len();
                acc = acc + 4 + l;
            },
            None => {},
        }
        match &self.dns_servers {
            Some(d) => {
                let l = d.data_len();
                acc = acc + 4 + l;
            },
            None => {},
        }
        match &self.request_options {
            Some(v) => {
                proof {
                    lemma_oro_data_len(v@);
                }
                acc = acc + 4 + 2 * v.len();
            },
            None => {},
        }
        let addl = opts_wire_len(&self.additional_options);
        acc + addl
    }

    /// Collect every option this representation serializes to, in emit
    /// order, each with its data area already built.  Fails exactly when
    /// a nested IA piece does not fit its length field.
    #[verifier::rlimit(80)]
    #[verifier::spinoff_prover]
    fn build_options(&self) -> (r: Result<Vec<Dhcpv6Option>, Error>)
        ensures
            r is Ok <==> (match self@.ia_na {
                Some(ia) => spec_ia_body_emit_ok(
                    ia.addresses,
                    ia.status_code,
                    ia.additional_options,
                ),
                None => true,
            } && match self@.ia_ta {
                Some(ia) => spec_ia_body_emit_ok(
                    ia.addresses,
                    ia.status_code,
                    ia.additional_options,
                ),
                None => true,
            }),
            r matches Ok(v) ==> view_opts(v@) == spec_repr_opt_models(self@),
    {
        let ghost m = self@;
        let mut out: Vec<Dhcpv6Option> = Vec::new();
        proof {
            assert(view_opts(out@) =~= Seq::<OptModel>::empty());
        }
        let ghost c0 = view_opts(out@);
        match &self.client_id {
            Some(d) => {
                let ghost prev = view_opts(out@);
                out.push(Dhcpv6Option { kind: OPT_CLIENTID, data: crate::bytes::clone_bytes(d) });
                proof {
                    assert(view_opts(out@) =~= prev + spec_maybe_opt(OPT_CLIENTID, m.client_id));
                }
            },
            None => {
                proof {
                    assert(view_opts(out@) =~= c0 + spec_maybe_opt(OPT_CLIENTID, m.client_id));
                }
            },
        }
        let ghost c1 = view_opts(out@);
        match &self.server_id {
            Some(d) => {
                let ghost prev = view_opts(out@);
                out.push(Dhcpv6Option { kind: OPT_SERVERID, data: crate::bytes::clone_bytes(d) });
                proof {
                    assert(view_opts(out@) =~= prev + spec_maybe_opt(OPT_SERVERID, m.server_id));
                }
            },
            None => {
                proof {
                    assert(view_opts(out@) =~= c1 + spec_maybe_opt(OPT_SERVERID, m.server_id));
                }
            },
        }
        let ghost c2 = view_opts(out@);
        let ghost p3 = spec_maybe_opt(
            OPT_ELAPSED_TIME,
            match m.elapsed_time {
                Some(x) => Some(spec_be16(x)),
                None => None,
            },
        );
        match &self.elapsed_time {
            Some(x) => {
                let mut ed: Vec<u8> = Vec::new();
                push_be16(&mut ed, *x);
                let ghost prev = view_opts(out@);
                out.push(Dhcpv6Option { kind: OPT_ELAPSED_TIME, data: ed });
                proof {
                    assert(Seq::<u8>::empty() + spec_be16(*x) =~= spec_be16(*x));
                    assert(view_opts(out@) =~= prev + p3);
                }
            },
            None => {
                proof {
                    assert(view_opts(out@) =~= c2 + p3);
                }
            },
        }
        let ghost c3 = view_opts(out@);
        let ghost p4 = spec_maybe_opt(
            OPT_IA_NA,
            match m.ia_na {
                Some(ia) => Some(spec_ia_na_data(ia)),
                None => None,
            },
        );
        match &self.ia_na {
            Some(ia) => {
                let d = match ia.data_bytes() {
                    Ok(d) => d,
                    Err(_) => {
                        return Err(Error);
                    },
                };
                let ghost prev = view_opts(out@);
                out.push(Dhcpv6Option { kind: OPT_IA_NA, data: d });
                proof {
                    assert(view_opts(out@) =~= prev + p4);
                }
            },
            None => {
                proof {
                    assert(view_opts(out@) =~= c3 + p4);
                }
            },
        }
        let ghost c4 = view_opts(out@);
        let ghost p5 = spec_maybe_opt(
            OPT_IA_TA,
            match m.ia_ta {
                Some(ia) => Some(spec_ia_ta_data(ia)),
                None => None,
            },
        );
        match &self.ia_ta {
            Some(ia) => {
                let d = match ia.data_bytes() {
                    Ok(d) => d,
                    Err(_) => {
                        return Err(Error);
                    },
                };
                let ghost prev = view_opts(out@);
                out.push(Dhcpv6Option { kind: OPT_IA_TA, data: d });
                proof {
                    assert(view_opts(out@) =~= prev + p5);
                }
            },
            None => {
                proof {
                    assert(view_opts(out@) =~= c4 + p5);
                }
            },
        }
        let ghost c5 = view_opts(out@);
        let ghost p6 = spec_maybe_opt(
            OPT_DNS_SERVERS,
            match m.dns_servers {
                Some(d) => Some(spec_dns_data(d.addresses)),
                None => None,
            },
        );
        match &self.dns_servers {
            Some(dns) => {
                let d = dns_data_bytes(&dns.addresses);
                let ghost prev = view_opts(out@);
                out.push(Dhcpv6Option { kind: OPT_DNS_SERVERS, data: d });
                proof {
                    assert(view_opts(out@) =~= prev + p6);
                }
            },
            None => {
                proof {
                    assert(view_opts(out@) =~= c5 + p6);
                }
            },
        }
        let ghost c6 = view_opts(out@);
        let ghost p7 = spec_maybe_opt(
            OPT_ORO,
            match m.request_options {
                Some(s) => Some(spec_oro_data(s)),
                None => None,
            },
        );
        match &self.request_options {
            Some(v) => {
                let d = oro_data_bytes(v);
                let ghost prev = view_opts(out@);
                out.push(Dhcpv6Option { kind: OPT_ORO, data: d });
                proof {
                    assert(view_opts(out@) =~= prev + p7);
                }
            },
            None => {
                proof {
                    assert(view_opts(out@) =~= c6 + p7);
                }
            },
        }
        let ghost c7 = view_opts(out@);
        let mut i: usize = 0;
        proof {
            assert(view_opts(self.additional_options@.subrange(0, 0)) =~= Seq::<OptModel>::empty());
            assert(view_opts(out@) =~= c7 + view_opts(self.additional_options@.subrange(0, 0)));
        }
        while i < self.additional_options.len()
            invariant
                i <= self.additional_options@.len(),
                c7 == c6 + p7,
                view_opts(out@) == c7 + view_opts(self.additional_options@.subrange(0, i as int)),
            decreases self.additional_options@.len() - i,
        {
            let ghost prev = view_opts(out@);
            let o = &self.additional_options[i];
            out.push(Dhcpv6Option { kind: o.kind, data: crate::bytes::clone_bytes(&o.data) });
            proof {
                assert(view_opts(out@) =~= prev.push(self.additional_options@[i as int]@));
                assert(view_opts(self.additional_options@.subrange(0, i as int + 1)) =~= view_opts(
                    self.additional_options@.subrange(0, i as int),
                ).push(self.additional_options@[i as int]@));
                assert((c7 + view_opts(self.additional_options@.subrange(0, i as int))).push(
                    self.additional_options@[i as int]@,
                ) =~= c7 + view_opts(self.additional_options@.subrange(0, i as int)).push(
                    self.additional_options@[i as int]@,
                ));
            }
            i = i + 1;
        }
        proof {
            assert(self.additional_options@.subrange(0, i as int) =~= self.additional_options@);
            assert(view_opts(out@) =~= spec_repr_opt_models(m));
        }
        Ok(out)
    }

    /// Serialize this representation into a fresh byte vector.  Fails
    /// exactly when some option's data does not fit its 16-bit length
    /// field.
    fn encode(&self) -> (r: Result<Vec<u8>, Error>)
        ensures
            r is Ok <==> spec_repr_emit_ok(self@),
            r matches Ok(v) ==> v@ == spec_repr_bytes(self@),
    {
        proof {
            lemma_repr_emit_ok_decomp(self@);
        }
        let opts = match self.build_options() {
            Ok(o) => o,
            Err(_) => {
                return Err(Error);
            },
        };
        let mut out: Vec<u8> = Vec::new();
        out.push(self.message_type.to_u8());
        push_be24(&mut out, self.transaction_id % 0x100_0000);
        match push_opts(&mut out, &opts) {
            Ok(_) => {
                assert(out@ =~= spec_repr_bytes(self@));
                Ok(out)
            },
            Err(_) => Err(Error),
        }
    }

    /// Serialize this representation into the packet's buffer.  The
    /// whole packet is written atomically: on failure (an option too
    /// long for its length field, or a buffer shorter than
    /// [`Repr::buffer_len`]) the buffer is untouched.
    pub fn emit(&self, packet: &mut Packet) -> (r: Result<(), Error>)
        ensures
            final(packet)@.len() == old(packet)@.len(),
            r is Ok <==> spec_repr_emit_ok(self@) && old(packet)@.len() >= spec_repr_bytes(
                self@,
            ).len(),
            r is Ok ==> final(packet)@ == spec_repr_bytes(self@) + old(packet)@.skip(
                spec_repr_bytes(self@).len() as int,
            ),
            r is Err ==> final(packet)@ == old(packet)@,
    {
        let bytes = match self.encode() {
            Ok(b) => b,
            Err(_) => {
                return Err(Error);
            },
        };
        if packet.buffer.len() < bytes.len() {
            return Err(Error);
        }
        crate::bytes::write_at(&mut packet.buffer, 0, bytes.as_slice());
        proof {
            assert(packet.buffer@.subrange(0, 0) =~= Seq::<u8>::empty());
            assert(Seq::<u8>::empty() + bytes@ =~= bytes@);
            assert(packet.buffer@ =~= bytes@ + old(packet)@.skip(bytes@.len() as int));
        }
        Ok(())
    }

    /// Request one more option code from the server, creating the list
    /// when absent; codes past [`MAX_REQUEST_OPTIONS`] are dropped.
    pub fn add_request_option(&mut self, option: u16)
        ensures
            final(self)@ == (ReprModel {
                request_options: Some(
                    {
                        let cur = match old(self)@.request_options {
                            Some(s) => s,
                            None => Seq::<u16>::empty(),
                        };
                        if cur.len() < MAX_REQUEST_OPTIONS {
                            cur.push(option)
                        } else {
                            cur
                        }
                    },
                ),
                ..old(self)@
            }),
    {
        if self.request_options.is_none() {
            let fresh: Vec<u16> = Vec::new();
            assert(fresh@ =~= Seq::<u16>::empty());
            self.request_options = Some(fresh);
        }
        match &mut self.request_options {
            Some(v) => {
                if v.len() < MAX_REQUEST_OPTIONS {
                    v.push(option);
                }
            },
            None => {
            },
        }
    }
}


// ---------------------------------------------------------------------
// The codec round trip: parsing an emitted packet gives back the
// representation, normalized.
// ---------------------------------------------------------------------

/// What the codec does not re-read when parsing its own output: opaque
/// pass-through options come back empty, and nested options of an
/// address entry are dropped.
pub open spec fn spec_norm_ia_addr(a: IaAddrModel) -> IaAddrModel {
    IaAddrModel { additional_options: Seq::empty(), ..a }
}

/// An IA body normalized as parsing returns it.
pub open spec fn spec_norm_ia_na(ia: IaNaModel) -> IaNaModel {
    IaNaModel {
        addresses: ia.addresses.map_values(|a: IaAddrModel| spec_norm_ia_addr(a)),
        additional_options: Seq::empty(),
        ..ia
    }
}

/// An IA body normalized as parsing returns it.
pub open spec fn spec_norm_ia_ta(ia: IaTaModel) -> IaTaModel {
    IaTaModel {
        addresses: ia.addresses.map_values(|a: IaAddrModel| spec_norm_ia_addr(a)),
        additional_options: Seq::empty(),
        ..ia
    }
}

/// A whole representation normalized as parsing returns it: the
/// transaction id keeps its low 24 bits, IA bodies are normalized, and
/// pass-through options come back empty.
pub open spec fn spec_norm_repr(m: ReprModel) -> ReprModel {
    ReprModel {
        transaction_id: (m.transaction_id % 0x100_0000) as u32,
        ia_na: match m.ia_na {
            Some(ia) => Some(spec_norm_ia_na(ia)),
            None => None,
        },
        ia_ta: match m.ia_ta {
            Some(ia) => Some(spec_norm_ia_ta(ia)),
            None => None,
        },
        additional_options: Seq::empty(),
        ..m
    }
}

/// The round-trippable IA bodies: bounded address lists whose entries
/// and status code are canonical and emittable, and pass-through
/// options that do not reuse the codes the parser recognizes there.
pub open spec fn spec_ia_rt_wf(
    addresses: Seq<IaAddrModel>,
    status_code: Option<StatusCodeModel>,
    additional_options: Seq<OptModel>,
) -> bool {
    &&& addresses.len() <= MAX_IA_ADDRESSES
    &&& forall|i: int|
        0 <= i < addresses.len() ==> (#[trigger] addresses[i]).addr.len() == 16
            && spec_ia_addr_emit_ok(addresses[i])
    &&& match status_code {
        Some(s) => status_wf(s.status_code) && spec_status_emit_ok(s),
        None => true,
    }
    &&& forall|i: int|
        0 <= i < additional_options.len() ==> (#[trigger] additional_options[i]).kind != OPT_IA_PD
            && additional_options[i].kind != OPT_STATUS_CODE
}

/// The round-trippable representations: canonical message type,
/// emittable, bounded lists, and pass-through options that do not reuse
/// the codes the parser recognizes at the top level.
pub open spec fn spec_repr_rt_wf(m: ReprModel) -> bool {
    &&& msg_type_wf(m.message_type)
    &&& spec_repr_emit_ok(m)
    &&& match m.ia_na {
        Some(ia) => spec_ia_rt_wf(ia.addresses, ia.status_code, ia.additional_options),
        None => true,
    }
    &&& match m.ia_ta {
        Some(ia) => spec_ia_rt_wf(ia.addresses, ia.status_code, ia.additional_options),
        None => true,
    }
    &&& match m.dns_servers {
        Some(d) => d.addresses.len() <= MAX_DNS_ADDRESSES && forall|i: int|
            0 <= i < d.addresses.len() ==> (#[trigger] d.addresses[i]).len() == 16,
        None => true,
    }
    &&& match m.request_options {
        Some(s) => s.len() <= MAX_REQUEST_OPTIONS,
        None => true,
    }
    &&& forall|i: int|
        0 <= i < m.additional_options.len() ==> !spec_top_level_kind(
            (#[trigger] m.additional_options[i]).kind,
        )
}

/// The option codes the top-level parser recognizes.
pub open spec fn spec_top_level_kind(k: u16) -> bool {
    k == OPT_CLIENTID || k == OPT_SERVERID || k == OPT_ELAPSED_TIME || k == OPT_IA_NA || k
        == OPT_IA_TA || k == OPT_DNS_SERVERS || k == OPT_ORO
}

/// The option walker takes one serialized option off the front.
pub proof fn lemma_options_list_cons(o: OptModel, rest: Seq<u8>)
    requires
        o.data.len() <= 0xffff,
    ensures
        spec_options_list(spec_opt_bytes(o) + rest) == seq![o] + spec_options_list(rest),
{
    let b = spec_opt_bytes(o) + rest;
    let dlen = o.data.len() as int;
    assert(b.len() == 4 + dlen + rest.len());
    assert(b[0] == spec_be16(o.kind)[0]);
    assert(b[1] == spec_be16(o.kind)[1]);
    assert(b[2] == spec_be16(dlen as u16)[0]);
    assert(b[3] == spec_be16(dlen as u16)[1]);
    crate::bytes::lemma_be16_roundtrip(o.kind);
    crate::bytes::lemma_be16_roundtrip(dlen as u16);
    assert(be16v(b[0], b[1]) == o.kind);
    assert(be16v(b[2], b[3]) == dlen);
    assert(b.subrange(4, 4 + dlen) =~= o.data);
    assert(b.skip(4 + dlen) =~= rest);
    assert(spec_options_list(b) == seq![OptModel { kind: o.kind, data: o.data }]
        + spec_options_list(rest));
    assert(OptModel { kind: o.kind, data: o.data } == o);
}

/// The option walker inverts serialization of a well-formed option run.
pub proof fn lemma_options_list_of_bytes(s: Seq<OptModel>)
    requires
        spec_opt_list_ok(s),
    ensures
        spec_options_list(spec_opts_bytes(s)) == s,
    decreases s.len(),
{
    if s.len() == 0 {
        assert(spec_opts_bytes(s) =~= Seq::<u8>::empty());
        assert(spec_options_list(Seq::<u8>::empty()) =~= Seq::<OptModel>::empty());
        assert(s =~= Seq::<OptModel>::empty());
    } else {
        assert(spec_opt_list_ok(s.drop_first())) by {
            assert(forall|i: int|
                0 <= i < s.drop_first().len() ==> s.drop_first()[i] == s[i + 1]);
        }
        lemma_options_list_of_bytes(s.drop_first());
        assert(s[0].data.len() <= 0xffff);
        lemma_options_list_cons(s[0], spec_opts_bytes(s.drop_first()));
        assert(seq![s[0]] + s.drop_first() =~= s);
    }
}

/// Parsing the data area of an address entry gives the entry back,
/// normalized.
pub proof fn lemma_parse_ia_addr_of_data(a: IaAddrModel)
    requires
        a.addr.len() == 16,
    ensures
        spec_parse_ia_addr(spec_ia_addr_data(a)) == Some(spec_norm_ia_addr(a)),
{
    let d = spec_ia_addr_data(a);
    lemma_opts_bytes_len(a.additional_options);
    assert(d.len() >= 24);
    assert(d.subrange(0, 16) =~= a.addr);
    crate::bytes::lemma_be32_roundtrip(a.preferred_lifetime);
    crate::bytes::lemma_be32_roundtrip(a.valid_lifetime);
    assert(d[16] == spec_be32(a.preferred_lifetime)[0]);
    assert(d[17] == spec_be32(a.preferred_lifetime)[1]);
    assert(d[18] == spec_be32(a.preferred_lifetime)[2]);
    assert(d[19] == spec_be32(a.preferred_lifetime)[3]);
    assert(d[20] == spec_be32(a.valid_lifetime)[0]);
    assert(d[21] == spec_be32(a.valid_lifetime)[1]);
    assert(d[22] == spec_be32(a.valid_lifetime)[2]);
    assert(d[23] == spec_be32(a.valid_lifetime)[3]);
}

/// Parsing the data area of a status code gives it back.
pub proof fn lemma_parse_status_of_data(s: StatusCodeModel)
    requires
        status_wf(s.status_code),
    ensures
        spec_parse_status(spec_status_data(s)) == Some(s),
{
    let d = spec_status_data(s);
    let code = spec_status_to_u16(s.status_code);
    assert(d[0] == spec_be16(code)[0]);
    assert(d[1] == spec_be16(code)[1]);
    crate::bytes::lemma_be16_roundtrip(code);
    lemma_status_roundtrip(s.status_code);
    assert(d.skip(2) =~= s.status_message);
}

/// The IA fold splits over concatenation of its option run.
pub proof fn lemma_ia_fold_append(
    l1: Seq<OptModel>,
    l2: Seq<OptModel>,
    addrs: Seq<IaAddrModel>,
    status: Option<StatusCodeModel>,
)
    ensures
        spec_ia_fold(l1 + l2, addrs, status) == (match spec_ia_fold(l1, addrs, status) {
            None => None,
            Some(p) => spec_ia_fold(l2, p.0, p.1),
        }),
    decreases l1.len(),
{
    if l1.len() == 0 {
        assert(l1 + l2 =~= l2);
    } else {
        assert((l1 + l2)[0] == l1[0]);
        assert((l1 + l2).drop_first() =~= l1.drop_first() + l2);
        let o = l1[0];
        if o.kind == OPT_IA_PD {
            match spec_parse_ia_addr(o.data) {
                None => {},
                Some(a) => {
                    lemma_ia_fold_append(
                        l1.drop_first(),
                        l2,
                        if addrs.len() < MAX_IA_ADDRESSES {
                            addrs.push(a)
                        } else {
                            addrs
                        },
                        status,
                    );
                },
            }
        } else if o.kind == OPT_STATUS_CODE {
            match spec_parse_status(o.data) {
                None => {},
                Some(st) => {
                    lemma_ia_fold_append(l1.drop_first(), l2, addrs, Some(st));
                },
            }
        } else {
            lemma_ia_fold_append(l1.drop_first(), l2, addrs, status);
        }
    }
}

/// Folding the serialized address entries collects them, normalized.
pub proof fn lemma_ia_fold_addresses(
    addresses: Seq<IaAddrModel>,
    acc: Seq<IaAddrModel>,
    status: Option<StatusCodeModel>,
)
    requires
        acc.len() + addresses.len() <= MAX_IA_ADDRESSES,
        forall|i: int|
            0 <= i < addresses.len() ==> (#[trigger] addresses[i]).addr.len() == 16,
    ensures
        spec_ia_fold(
            addresses.map_values(
                |a: IaAddrModel| OptModel { kind: OPT_IA_PD, data: spec_ia_addr_data(a) },
            ),
            acc,
            status,
        ) == Some(
            (acc + addresses.map_values(|a: IaAddrModel| spec_norm_ia_addr(a)), status),
        ),
    decreases addresses.len(),
{
    let opts = addresses.map_values(
        |a: IaAddrModel| OptModel { kind: OPT_IA_PD, data: spec_ia_addr_data(a) },
    );
    let norms = addresses.map_values(|a: IaAddrModel| spec_norm_ia_addr(a));
    if addresses.len() == 0 {
        assert(opts =~= Seq::<OptModel>::empty());
        assert(acc + norms =~= acc);
    } else {
        let a0 = addresses[0];
        lemma_parse_ia_addr_of_data(a0);
        assert(opts[0] == OptModel { kind: OPT_IA_PD, data: spec_ia_addr_data(a0) });
        assert(opts.drop_first() =~= addresses.drop_first().map_values(
            |a: IaAddrModel| OptModel { kind: OPT_IA_PD, data: spec_ia_addr_data(a) },
        ));
        assert(acc.len() < MAX_IA_ADDRESSES);
        lemma_ia_fold_addresses(addresses.drop_first(), acc.push(spec_norm_ia_addr(a0)), status);
        assert(acc.push(spec_norm_ia_addr(a0)) + addresses.drop_first().map_values(
            |a: IaAddrModel| spec_norm_ia_addr(a),
        ) =~= acc + norms);
    }
}

/// Options with codes the IA parser does not recognize leave the fold
/// state unchanged.
pub proof fn lemma_ia_fold_unrecognized(
    l: Seq<OptModel>,
    addrs: Seq<IaAddrModel>,
    status: Option<StatusCodeModel>,
)
    requires
        forall|i: int|
            0 <= i < l.len() ==> (#[trigger] l[i]).kind != OPT_IA_PD && l[i].kind
                != OPT_STATUS_CODE,
    ensures
        spec_ia_fold(l, addrs, status) == Some((addrs, status)),
    decreases l.len(),
{
    if l.len() > 0 {
        assert(forall|i: int|
            0 <= i < l.drop_first().len() ==> l.drop_first()[i] == l[i + 1]);
        lemma_ia_fold_unrecognized(l.drop_first(), addrs, status);
    }
}

/// Folding a serialized IA body collects its addresses, its status
/// code, and nothing else.
pub proof fn lemma_ia_body_fold(
    addresses: Seq<IaAddrModel>,
    status_code: Option<StatusCodeModel>,
    additional_options: Seq<OptModel>,
)
    requires
        spec_ia_rt_wf(addresses, status_code, additional_options),
    ensures
        spec_ia_fold(
            spec_ia_opt_models(addresses, status_code, additional_options),
            Seq::empty(),
            None,
        ) == Some(
            (addresses.map_values(|a: IaAddrModel| spec_norm_ia_addr(a)), status_code),
        ),
{
    let addr_opts = addresses.map_values(
        |a: IaAddrModel| OptModel { kind: OPT_IA_PD, data: spec_ia_addr_data(a) },
    );
    let status_opts: Seq<OptModel> = match status_code {
        Some(s) => seq![OptModel { kind: OPT_STATUS_CODE, data: spec_status_data(s) }],
        None => Seq::empty(),
    };
    let norms = addresses.map_values(|a: IaAddrModel| spec_norm_ia_addr(a));
    let whole = spec_ia_opt_models(addresses, status_code, additional_options);
    assert(whole =~= addr_opts + (status_opts + additional_options));
    lemma_ia_fold_append(addr_opts, status_opts + additional_options, Seq::empty(), None);
    lemma_ia_fold_addresses(addresses, Seq::empty(), None);
    assert(Seq::<IaAddrModel>::empty() + norms =~= norms);
    match status_code {
        Some(s) => {
            lemma_ia_fold_append(status_opts, additional_options, norms, None);
            lemma_parse_status_of_data(s);
            assert(status_opts[0] == OptModel {
                kind: OPT_STATUS_CODE,
                data: spec_status_data(s),
            });
            assert(status_opts.drop_first() =~= Seq::<OptModel>::empty());
            assert(spec_parse_status(status_opts[0].data) == Some(s));
            assert(spec_ia_fold(Seq::<OptModel>::empty(), norms, Some(s)) == Some((
                norms,
                Some(s),
            )));
            assert(spec_ia_fold(status_opts, norms, None) == Some((norms, Some(s))));
            lemma_ia_fold_unrecognized(additional_options, norms, Some(s));
        },
        None => {
            assert(status_opts + additional_options =~= additional_options);
            lemma_ia_fold_unrecognized(additional_options, norms, None);
        },
    }
}

/// Parsing the data area of an IA_NA gives it back, normalized.
pub proof fn lemma_parse_ia_na_of_data(ia: IaNaModel)
    requires
        spec_ia_rt_wf(ia.addresses, ia.status_code, ia.additional_options),
        spec_ia_body_emit_ok(ia.addresses, ia.status_code, ia.additional_options),
    ensures
        spec_parse_ia_na(spec_ia_na_data(ia)) == Some(spec_norm_ia_na(ia)),
{
    let d = spec_ia_na_data(ia);
    let models = spec_ia_opt_models(ia.addresses, ia.status_code, ia.additional_options);
    lemma_opts_bytes_len(models);
    assert(d.len() >= 12);
    crate::bytes::lemma_be32_roundtrip(ia.iaid);
    crate::bytes::lemma_be32_roundtrip(ia.t1);
    crate::bytes::lemma_be32_roundtrip(ia.t2);
    assert(d[0] == spec_be32(ia.iaid)[0]);
    assert(d[1] == spec_be32(ia.iaid)[1]);
    assert(d[2] == spec_be32(ia.iaid)[2]);
    assert(d[3] == spec_be32(ia.iaid)[3]);
    assert(d[4] == spec_be32(ia.t1)[0]);
    assert(d[5] == spec_be32(ia.t1)[1]);
    assert(d[6] == spec_be32(ia.t1)[2]);
    assert(d[7] == spec_be32(ia.t1)[3]);
    assert(d[8] == spec_be32(ia.t2)[0]);
    assert(d[9] == spec_be32(ia.t2)[1]);
    assert(d[10] == spec_be32(ia.t2)[2]);
    assert(d[11] == spec_be32(ia.t2)[3]);
    assert(d.skip(12) =~= spec_opts_bytes(models));
    assert(spec_opt_list_ok(models)) by {
        lemma_ia_models_ok(ia.addresses, ia.status_code, ia.additional_options);
    }
    lemma_options_list_of_bytes(models);
    lemma_ia_body_fold(ia.addresses, ia.status_code, ia.additional_options);
}

/// Parsing the data area of an IA_TA gives it back, normalized.
pub proof fn lemma_parse_ia_ta_of_data(ia: IaTaModel)
    requires
        spec_ia_rt_wf(ia.addresses, ia.status_code, ia.additional_options),
        spec_ia_body_emit_ok(ia.addresses, ia.status_code, ia.additional_options),
    ensures
        spec_parse_ia_ta(spec_ia_ta_data(ia)) == Some(spec_norm_ia_ta(ia)),
{
    let d = spec_ia_ta_data(ia);
    let models = spec_ia_opt_models(ia.addresses, ia.status_code, ia.additional_options);
    lemma_opts_bytes_len(models);
    assert(d.len() >= 4);
    crate::bytes::lemma_be32_roundtrip(ia.iaid);
    assert(d[0] == spec_be32(ia.iaid)[0]);
    assert(d[1] == spec_be32(ia.iaid)[1]);
    assert(d[2] == spec_be32(ia.iaid)[2]);
    assert(d[3] == spec_be32(ia.iaid)[3]);
    assert(d.skip(4) =~= spec_opts_bytes(models));
    assert(spec_opt_list_ok(models)) by {
        lemma_ia_models_ok(ia.addresses, ia.status_code, ia.additional_options);
    }
    lemma_options_list_of_bytes(models);
    lemma_ia_body_fold(ia.addresses, ia.status_code, ia.additional_options);
}

/// An emittable IA body serializes to options that all fit their length
/// fields.
pub proof fn lemma_ia_models_ok(
    addresses: Seq<IaAddrModel>,
    status_code: Option<StatusCodeModel>,
    additional_options: Seq<OptModel>,
)
    requires
        spec_ia_body_emit_ok(addresses, status_code, additional_options),
    ensures
        spec_opt_list_ok(spec_ia_opt_models(addresses, status_code, additional_options)),
{
    let addr_opts = addresses.map_values(
        |a: IaAddrModel| OptModel { kind: OPT_IA_PD, data: spec_ia_addr_data(a) },
    );
    let status_opts: Seq<OptModel> = match status_code {
        Some(s) => seq![OptModel { kind: OPT_STATUS_CODE, data: spec_status_data(s) }],
        None => Seq::empty(),
    };
    let whole = spec_ia_opt_models(addresses, status_code, additional_options);
    assert forall|i: int| 0 <= i < whole.len() implies (#[trigger] whole[i]).data.len()
        <= 0xffff by {
        if i < addr_opts.len() {
            assert(whole[i] == addr_opts[i]);
            assert(spec_ia_addr_emit_ok(addresses[i]));
        } else if i < addr_opts.len() + status_opts.len() {
            assert(whole[i] == status_opts[i - addr_opts.len()]);
        } else {
            assert(whole[i] == additional_options[i - addr_opts.len() - status_opts.len()]);
        }
    }
}

/// Folding serialized DNS addresses collects them.
pub proof fn lemma_dns_fold_of_data(s: Seq<Seq<u8>>, acc: Seq<Seq<u8>>)
    requires
        acc.len() + s.len() <= MAX_DNS_ADDRESSES,
        forall|i: int| 0 <= i < s.len() ==> (#[trigger] s[i]).len() == 16,
    ensures
        spec_dns_fold(spec_dns_data(s), acc) == acc + s,
    decreases s.len(),
{
    if s.len() == 0 {
        assert(spec_dns_data(s) =~= Seq::<u8>::empty());
        assert(acc + s =~= acc);
    } else {
        let d = spec_dns_data(s);
        assert(d == s[0] + spec_dns_data(s.drop_first()));
        assert(d.len() >= 16);
        assert(d.subrange(0, 16) =~= s[0]);
        assert(d.skip(16) =~= spec_dns_data(s.drop_first()));
        assert(acc.len() < MAX_DNS_ADDRESSES);
        assert(forall|i: int|
            0 <= i < s.drop_first().len() ==> s.drop_first()[i] == s[i + 1]);
        lemma_dns_fold_of_data(s.drop_first(), acc.push(s[0]));
        assert(acc.push(s[0]) + s.drop_first() =~= acc + s);
    }
}

/// Folding serialized requested-option codes collects them.
pub proof fn lemma_oro_fold_of_data(s: Seq<u16>, acc: Seq<u16>)
    requires
        acc.len() + s.len() <= MAX_REQUEST_OPTIONS,
    ensures
        spec_oro_fold(spec_oro_data(s), acc) == acc + s,
    decreases s.len(),
{
    if s.len() == 0 {
        assert(spec_oro_data(s) =~= Seq::<u8>::empty());
        assert(acc + s =~= acc);
    } else {
        let d = spec_oro_data(s);
        assert(d == spec_be16(s[0]) + spec_oro_data(s.drop_first()));
        assert(d.len() >= 2);
        assert(d[0] == spec_be16(s[0])[0]);
        assert(d[1] == spec_be16(s[0])[1]);
        crate::bytes::lemma_be16_roundtrip(s[0]);
        assert(d.skip(2) =~= spec_oro_data(s.drop_first()));
        lemma_oro_fold_of_data(s.drop_first(), acc.push(s[0]));
        assert(acc.push(s[0]) + s.drop_first() =~= acc + s);
    }
}

/// The top-level fold splits over concatenation of its option run.
pub proof fn lemma_repr_fold_append(l1: Seq<OptModel>, l2: Seq<OptModel>, m: ReprModel)
    ensures
        spec_repr_fold(l1 + l2, m) == (match spec_repr_fold(l1, m) {
            None => None,
            Some(m2) => spec_repr_fold(l2, m2),
        }),
    decreases l1.len(),
{
    if l1.len() == 0 {
        assert(l1 + l2 =~= l2);
    } else {
        assert((l1 + l2)[0] == l1[0]);
        assert((l1 + l2).drop_first() =~= l1.drop_first() + l2);
        match spec_apply_opt(m, l1[0]) {
            None => {},
            Some(m2) => {
                lemma_repr_fold_append(l1.drop_first(), l2, m2);
            },
        }
    }
}

/// Options with codes the top-level parser does not recognize leave the
/// representation unchanged.
pub proof fn lemma_repr_fold_unrecognized(l: Seq<OptModel>, m: ReprModel)
    requires
        forall|i: int| 0 <= i < l.len() ==> !spec_top_level_kind((#[trigger] l[i]).kind),
    ensures
        spec_repr_fold(l, m) == Some(m),
    decreases l.len(),
{
    if l.len() > 0 {
        assert(forall|i: int|
            0 <= i < l.drop_first().len() ==> l.drop_first()[i] == l[i + 1]);
        lemma_repr_fold_unrecognized(l.drop_first(), m);
    }
}

/// A singleton option run folds as one application.
pub proof fn lemma_repr_fold_single(o: OptModel, m: ReprModel)
    ensures
        spec_repr_fold(seq![o], m) == (match spec_apply_opt(m, o) {
            None => None,
            Some(m2) => Some(m2),
        }),
{
    assert(seq![o].drop_first() =~= Seq::<OptModel>::empty());
    assert(seq![o][0] == o);
    match spec_apply_opt(m, o) {
        None => {},
        Some(m2) => {
            assert(spec_repr_fold(Seq::<OptModel>::empty(), m2) == Some(m2));
        },
    }
}

/// The first four serialized pieces (client id, server id, elapsed
/// time, IA_NA), folded over any starting representation.
#[verifier::rlimit(80)]
#[verifier::spinoff_prover]
proof fn lemma_repr_fold_pieces1(m: ReprModel, m0: ReprModel)
    requires
        spec_repr_rt_wf(m),
    ensures
        spec_repr_fold(
            spec_maybe_opt(OPT_CLIENTID, m.client_id) + (spec_maybe_opt(OPT_SERVERID, m.server_id)
                + (spec_maybe_opt(
                OPT_ELAPSED_TIME,
                match m.elapsed_time {
                    Some(x) => Some(spec_be16(x)),
                    None => None,
                },
            ) + spec_maybe_opt(
                OPT_IA_NA,
                match m.ia_na {
                    Some(ia) => Some(spec_ia_na_data(ia)),
                    None => None,
                },
            ))),
            m0,
        ) == Some(
            ReprModel {
                client_id: match m.client_id {
                    Some(d) => Some(d),
                    None => m0.client_id,
                },
                server_id: match m.server_id {
                    Some(d) => Some(d),
                    None => m0.server_id,
                },
                elapsed_time: match m.elapsed_time {
                    Some(x) => Some(x),
                    None => m0.elapsed_time,
                },
                ia_na: match m.ia_na {
                    Some(ia) => Some(spec_norm_ia_na(ia)),
                    None => m0.ia_na,
                },
                ..m0
            },
        ),
{
    let p1 = spec_maybe_opt(OPT_CLIENTID, m.client_id);
    let p2 = spec_maybe_opt(OPT_SERVERID, m.server_id);
    let p3 = spec_maybe_opt(
        OPT_ELAPSED_TIME,
        match m.elapsed_time {
            Some(x) => Some(spec_be16(x)),
            None => None,
        },
    );
    let p4 = spec_maybe_opt(
        OPT_IA_NA,
        match m.ia_na {
            Some(ia) => Some(spec_ia_na_data(ia)),
            None => None,
        },
    );
    let m1 = ReprModel {
        client_id: match m.client_id {
            Some(d) => Some(d),
            None => m0.client_id,
        },
        ..m0
    };
    lemma_repr_fold_append(p1, p2 + (p3 + p4), m0);
    assert(spec_repr_fold(p1, m0) == Some(m1)) by {
        match m.client_id {
            Some(d) => {
                lemma_repr_fold_single(OptModel { kind: OPT_CLIENTID, data: d }, m0);
            },
            None => {
                assert(p1 =~= Seq::<OptModel>::empty());
                assert(m1 == m0);
            },
        }
    }
    let m2 = ReprModel {
        server_id: match m.server_id {
            Some(d) => Some(d),
            None => m1.server_id,
        },
        ..m1
    };
    lemma_repr_fold_append(p2, p3 + p4, m1);
    assert(spec_repr_fold(p2, m1) == Some(m2)) by {
        match m.server_id {
            Some(d) => {
                lemma_repr_fold_single(OptModel { kind: OPT_SERVERID, data: d }, m1);
            },
            None => {
                assert(p2 =~= Seq::<OptModel>::empty());
                assert(m2 == m1);
            },
        }
    }
    let m3 = ReprModel {
        elapsed_time: match m.elapsed_time {
            Some(x) => Some(x),
            None => m2.elapsed_time,
        },
        ..m2
    };
    lemma_repr_fold_append(p3, p4, m2);
    assert(spec_repr_fold(p3, m2) == Some(m3)) by {
        match m.elapsed_time {
            Some(x) => {
                lemma_repr_fold_single(OptModel { kind: OPT_ELAPSED_TIME, data: spec_be16(x) }, m2);
                crate::bytes::lemma_be16_roundtrip(x);
            },
            None => {
                assert(p3 =~= Seq::<OptModel>::empty());
                assert(m3 == m2);
            },
        }
    }
    let m4 = ReprModel {
        ia_na: match m.ia_na {
            Some(ia) => Some(spec_norm_ia_na(ia)),
            None => m3.ia_na,
        },
        ..m3
    };
    assert(spec_repr_fold(p4, m3) == Some(m4)) by {
        match m.ia_na {
            Some(ia) => {
                lemma_repr_fold_single(OptModel { kind: OPT_IA_NA, data: spec_ia_na_data(ia) }, m3);
                lemma_parse_ia_na_of_data(ia);
            },
            None => {
                assert(p4 =~= Seq::<OptModel>::empty());
                assert(m4 == m3);
            },
        }
    }
}

/// The last four serialized pieces (IA_TA, DNS servers, requested
/// options, pass-through options), folded over any starting
/// representation.
#[verifier::rlimit(80)]
#[verifier::spinoff_prover]
proof fn lemma_repr_fold_pieces2(m: ReprModel, m4: ReprModel)
    requires
        spec_repr_rt_wf(m),
    ensures
        spec_repr_fold(
            spec_maybe_opt(
                OPT_IA_TA,
                match m.ia_ta {
                    Some(ia) => Some(spec_ia_ta_data(ia)),
                    None => None,
                },
            ) + (spec_maybe_opt(
                OPT_DNS_SERVERS,
                match m.dns_servers {
                    Some(d) => Some(spec_dns_data(d.addresses)),
                    None => None,
                },
            ) + (spec_maybe_opt(
                OPT_ORO,
                match m.request_options {
                    Some(s) => Some(spec_oro_data(s)),
                    None => None,
                },
            ) + m.additional_options)),
            m4,
        ) == Some(
            ReprModel {
                ia_ta: match m.ia_ta {
                    Some(ia) => Some(spec_norm_ia_ta(ia)),
                    None => m4.ia_ta,
                },
                dns_servers: match m.dns_servers {
                    Some(d) => Some(d),
                    None => m4.dns_servers,
                },
                request_options: match m.request_options {
                    Some(s) => Some(s),
                    None => m4.request_options,
                },
                ..m4
            },
        ),
{
    let p5 = spec_maybe_opt(
        OPT_IA_TA,
        match m.ia_ta {
            Some(ia) => Some(spec_ia_ta_data(ia)),
            None => None,
        },
    );
    let p6 = spec_maybe_opt(
        OPT_DNS_SERVERS,
        match m.dns_servers {
            Some(d) => Some(spec_dns_data(d.addresses)),
            None => None,
        },
    );
    let p7 = spec_maybe_opt(
        OPT_ORO,
        match m.request_options {
            Some(s) => Some(spec_oro_data(s)),
            None => None,
        },
    );
    let p8 = m.additional_options;
    let m5 = ReprModel {
        ia_ta: match m.ia_ta {
            Some(ia) => Some(spec_norm_ia_ta(ia)),
            None => m4.ia_ta,
        },
        ..m4
    };
    lemma_repr_fold_append(p5, p6 + (p7 + p8), m4);
    assert(spec_repr_fold(p5, m4) == Some(m5)) by {
        match m.ia_ta {
            Some(ia) => {
                lemma_repr_fold_single(OptModel { kind: OPT_IA_TA, data: spec_ia_ta_data(ia) }, m4);
                lemma_parse_ia_ta_of_data(ia);
            },
            None => {
                assert(p5 =~= Seq::<OptModel>::empty());
                assert(m5 == m4);
            },
        }
    }
    let m6 = ReprModel {
        dns_servers: match m.dns_servers {
            Some(d) => Some(d),
            None => m5.dns_servers,
        },
        ..m5
    };
    lemma_repr_fold_append(p6, p7 + p8, m5);
    assert(spec_repr_fold(p6, m5) == Some(m6)) by {
        match m.dns_servers {
            Some(d) => {
                lemma_repr_fold_single(
                    OptModel { kind: OPT_DNS_SERVERS, data: spec_dns_data(d.addresses) },
                    m5,
                );
                lemma_dns_fold_of_data(d.addresses, Seq::empty());
                assert(Seq::<Seq<u8>>::empty() + d.addresses =~= d.addresses);
                assert(DnsServersModel { addresses: spec_dns_fold(
                    spec_dns_data(d.addresses),
                    Seq::empty(),
                ) } == d);
            },
            None => {
                assert(p6 =~= Seq::<OptModel>::empty());
                assert(m6 == m5);
            },
        }
    }
    let m7 = ReprModel {
        request_options: match m.request_options {
            Some(s) => Some(s),
            None => m6.request_options,
        },
        ..m6
    };
    lemma_repr_fold_append(p7, p8, m6);
    assert(spec_repr_fold(p7, m6) == Some(m7)) by {
        match m.request_options {
            Some(s) => {
                lemma_repr_fold_single(OptModel { kind: OPT_ORO, data: spec_oro_data(s) }, m6);
                lemma_oro_fold_of_data(s, Seq::empty());
                assert(Seq::<u16>::empty() + s =~= s);
            },
            None => {
                assert(p7 =~= Seq::<OptModel>::empty());
                assert(m7 == m6);
            },
        }
    }
    lemma_repr_fold_unrecognized(p8, m7);
}

/// The serialized option run regrouped into the two halves the fold
/// lemmas consume.
#[verifier::rlimit(100)]
#[verifier::spinoff_prover]
proof fn lemma_models_split(m: ReprModel)
    ensures
        spec_repr_opt_models(m) == (spec_maybe_opt(OPT_CLIENTID, m.client_id) + (spec_maybe_opt(
            OPT_SERVERID,
            m.server_id,
        ) + (spec_maybe_opt(
            OPT_ELAPSED_TIME,
            match m.elapsed_time {
                Some(x) => Some(spec_be16(x)),
                None => None,
            },
        ) + spec_maybe_opt(
            OPT_IA_NA,
            match m.ia_na {
                Some(ia) => Some(spec_ia_na_data(ia)),
                None => None,
            },
        )))) + (spec_maybe_opt(
            OPT_IA_TA,
            match m.ia_ta {
                Some(ia) => Some(spec_ia_ta_data(ia)),
                None => None,
            },
        ) + (spec_maybe_opt(
            OPT_DNS_SERVERS,
            match m.dns_servers {
                Some(d) => Some(spec_dns_data(d.addresses)),
                None => None,
            },
        ) + (spec_maybe_opt(
            OPT_ORO,
            match m.request_options {
                Some(s) => Some(spec_oro_data(s)),
                None => None,
            },
        ) + m.additional_options))),
{
    assert(spec_repr_opt_models(m) =~= (spec_maybe_opt(OPT_CLIENTID, m.client_id) + (
    spec_maybe_opt(OPT_SERVERID, m.server_id) + (spec_maybe_opt(
        OPT_ELAPSED_TIME,
        match m.elapsed_time {
            Some(x) => Some(spec_be16(x)),
            None => None,
        },
    ) + spec_maybe_opt(
        OPT_IA_NA,
        match m.ia_na {
            Some(ia) => Some(spec_ia_na_data(ia)),
            None => None,
        },
    )))) + (spec_maybe_opt(
        OPT_IA_TA,
        match m.ia_ta {
            Some(ia) => Some(spec_ia_ta_data(ia)),
            None => None,
        },
    ) + (spec_maybe_opt(
        OPT_DNS_SERVERS,
        match m.dns_servers {
            Some(d) => Some(spec_dns_data(d.addresses)),
            None => None,
        },
    ) + (spec_maybe_opt(
        OPT_ORO,
        match m.request_options {
            Some(s) => Some(spec_oro_data(s)),
            None => None,
        },
    ) + m.additional_options))));
}

/// The representation that folding all of `m`'s serialized options
/// over `m0` produces: `m`'s present fields win, normalized.
pub open spec fn spec_fold_result(m: ReprModel, m0: ReprModel) -> ReprModel {
    ReprModel {
        client_id: match m.client_id {
            Some(d) => Some(d),
            None => m0.client_id,
        },
        server_id: match m.server_id {
            Some(d) => Some(d),
            None => m0.server_id,
        },
        elapsed_time: match m.elapsed_time {
            Some(x) => Some(x),
            None => m0.elapsed_time,
        },
        ia_na: match m.ia_na {
            Some(ia) => Some(spec_norm_ia_na(ia)),
            None => m0.ia_na,
        },
        ia_ta: match m.ia_ta {
            Some(ia) => Some(spec_norm_ia_ta(ia)),
            None => m0.ia_ta,
        },
        dns_servers: match m.dns_servers {
            Some(d) => Some(d),
            None => m0.dns_servers,
        },
        request_options: match m.request_options {
            Some(s) => Some(s),
            None => m0.request_options,
        },
        ..m0
    }
}

/// Folding all the serialized options of a round-trippable
/// representation over any starting representation.
#[verifier::rlimit(100)]
#[verifier::spinoff_prover]
proof fn lemma_repr_fold_models(m: ReprModel, m0: ReprModel)
    requires
        spec_repr_rt_wf(m),
    ensures
        spec_repr_fold(spec_repr_opt_models(m), m0) == Some(spec_fold_result(m, m0)),
{
    let p1 = spec_maybe_opt(OPT_CLIENTID, m.client_id);
    let p2 = spec_maybe_opt(OPT_SERVERID, m.server_id);
    let p3 = spec_maybe_opt(
        OPT_ELAPSED_TIME,
        match m.elapsed_time {
            Some(x) => Some(spec_be16(x)),
            None => None,
        },
    );
    let p4 = spec_maybe_opt(
        OPT_IA_NA,
        match m.ia_na {
            Some(ia) => Some(spec_ia_na_data(ia)),
            None => None,
        },
    );
    let p5 = spec_maybe_opt(
        OPT_IA_TA,
        match m.ia_ta {
            Some(ia) => Some(spec_ia_ta_data(ia)),
            None => None,
        },
    );
    let p6 = spec_maybe_opt(
        OPT_DNS_SERVERS,
        match m.dns_servers {
            Some(d) => Some(spec_dns_data(d.addresses)),
            None => None,
        },
    );
    let p7 = spec_maybe_opt(
        OPT_ORO,
        match m.request_options {
            Some(s) => Some(spec_oro_data(s)),
            None => None,
        },
    );
    let p8 = m.additional_options;
    let first = p1 + (p2 + (p3 + p4));
    let second = p5 + (p6 + (p7 + p8));
    lemma_models_split(m);
    lemma_repr_fold_append(first, second, m0);
    lemma_repr_fold_pieces1(m, m0);
    let m4 = ReprModel {
        client_id: match m.client_id {
            Some(d) => Some(d),
            None => m0.client_id,
        },
        server_id: match m.server_id {
            Some(d) => Some(d),
            None => m0.server_id,
        },
        elapsed_time: match m.elapsed_time {
            Some(x) => Some(x),
            None => m0.elapsed_time,
        },
        ia_na: match m.ia_na {
            Some(ia) => Some(spec_norm_ia_na(ia)),
            None => m0.ia_na,
        },
        ..m0
    };
    lemma_repr_fold_pieces2(m, m4);
}

/// The codec round trip: parsing an emitted packet yields the
/// representation it was emitted from, normalized as
/// [`spec_norm_repr`] describes.
#[verifier::rlimit(100)]
#[verifier::spinoff_prover]
pub proof fn lemma_parse_emit_roundtrip(m: ReprModel)
    requires
        spec_repr_rt_wf(m),
    ensures
        spec_parse_repr(spec_repr_bytes(m)) == Some(spec_norm_repr(m)),
{
    let b = spec_repr_bytes(m);
    let models = spec_repr_opt_models(m);
    let xid = (m.transaction_id % 0x100_0000) as u32;
    lemma_opts_bytes_len(models);
    assert(b.len() >= 4);
    assert(b[0] == spec_msg_type_to_u8(m.message_type));
    lemma_msg_type_roundtrip(m.message_type);
    assert(b[1] == spec_be24(xid)[0]);
    assert(b[2] == spec_be24(xid)[1]);
    assert(b[3] == spec_be24(xid)[2]);
    crate::bytes::lemma_be24_roundtrip(xid);
    assert(b.skip(4) =~= spec_opts_bytes(models));
    lemma_repr_emit_ok_decomp(m);
    lemma_options_list_of_bytes(models);
    let m0 = spec_parse_init(b);
    assert(m0.message_type == m.message_type);
    assert(m0.transaction_id == xid);
    lemma_repr_fold_models(m, m0);
    assert(spec_fold_result(m, m0) == spec_norm_repr(m));
}

/// For every transaction id, what is parsed back from an emitted packet
/// is the id's low 24 bits.
pub proof fn lemma_transaction_id_mask(m: ReprModel)
    requires
        spec_repr_rt_wf(m),
    ensures
        spec_parse_repr(spec_repr_bytes(m)) matches Some(p) && p.transaction_id
            == m.transaction_id % 0x100_0000,
{
    lemma_parse_emit_roundtrip(m);
}


/// The data area of an IA_NA carrying one bare address entry is 40
/// bytes: twelve header bytes and one 28-byte address option.
pub proof fn lemma_single_addr_ia_len(ia: IaNaModel)
    requires
        ia.addresses.len() == 1,
        ia.addresses[0].addr.len() == 16,
        ia.addresses[0].additional_options.len() == 0,
        ia.status_code is None,
        ia.additional_options.len() == 0,
    ensures
        spec_ia_na_data(ia).len() == 40,
        spec_ia_na_emit_ok(ia),
{
    let a = ia.addresses[0];
    let models = spec_ia_opt_models(ia.addresses, ia.status_code, ia.additional_options);
    assert(spec_opts_bytes(a.additional_options) =~= Seq::<u8>::empty());
    assert(spec_ia_addr_data(a).len() == 24);
    assert(models =~= seq![OptModel { kind: OPT_IA_PD, data: spec_ia_addr_data(a) }]);
    lemma_single_opt_bytes(OptModel { kind: OPT_IA_PD, data: spec_ia_addr_data(a) });
    assert(spec_ia_na_data(ia).len() == 40);
    assert(spec_ia_addr_emit_ok(a));
    assert(spec_opt_list_ok(ia.additional_options));
}


} // verus!
