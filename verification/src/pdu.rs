//! Building the wire PDUs from configuration, and reading incoming ones.
//!
//! The library validates every string against the wire type it lands in
//! before handing it to the codec: a C-octet string field of `MAX` octets
//! takes an ASCII string of at most `MAX - 1` characters with no NUL, and
//! the message body takes at most 255 octets.  Construction itself, and the
//! reading of TLVs out of an incoming `deliver_sm`, are thin trusted calls
//! into the codec.

use vstd::prelude::*;
use vstd::string::StrSliceExecFns;
use vstd::utf8::encode_utf8;
use vstd::utf8::is_ascii_chars;

use std::str::FromStr;

use rusmpp::pdus::{BindTransceiver, BindTransmitter, DeliverSm, SubmitSm, SubmitSmResp};
use rusmpp::tlvs::TlvValue;
use rusmpp::types::{COctetString, OctetString};
use rusmpp::values::{DataCoding, EsmClass, MessageState, Npi, RegisteredDelivery, ServiceType, Ton};

use crate::config::{Config, MessageConfig};
use crate::dlr::DlrState;
use crate::metrics::Metrics;
use crate::session::{DeliverView, DeliverViewModel, SessionCore, SubmitOutcome};

verus! {

// The codec types that appear in the library's signatures.  Verus treats a
// value of each as opaque: the contracts below say nothing of what is
// inside one, only how the library moves it along.
#[verifier::external_type_specification]
#[verifier::external_body]
pub struct ExSubmitSm(SubmitSm);

#[verifier::external_type_specification]
#[verifier::external_body]
pub struct ExSubmitSmResp(SubmitSmResp);

#[verifier::external_type_specification]
#[verifier::external_body]
pub struct ExBindTransceiver(BindTransceiver);

#[verifier::external_type_specification]
#[verifier::external_body]
pub struct ExBindTransmitter(BindTransmitter);

#[verifier::external_type_specification]
#[verifier::external_body]
pub struct ExDeliverSm(DeliverSm);

#[verifier::external_type_specification]
#[verifier::external_body]
pub struct ExMessageState(MessageState);

#[verifier::external_type_specification]
#[verifier::external_body]
pub struct ExRegisteredDelivery(RegisteredDelivery);

#[verifier::external_type_specification]
#[verifier::external_body]
pub struct ExClientError(rusmppc::error::Error);

/// A string acceptable for a C-octet string field of `max` octets including
/// the terminator: ASCII, free of NUL, and at most `max - 1` characters.
pub open spec fn c_octet_ok(s: Seq<char>, max: int) -> bool {
    &&& s.len() + 1 <= max
    &&& is_ascii_chars(s)
    &&& forall|i: int| 0 <= i < s.len() ==> s[i] != '\0'
}

/// Check a string against a C-octet string field of `max` octets.
pub fn c_octet_str_ok(s: &str, max: usize) -> (r: bool)
    requires
        max >= 1,
    ensures
        r == c_octet_ok(s@, max as int),
{
    if !s.is_ascii() {
        return false;
    }
    let n = s.unicode_len();
    if n >= max {
        return false;
    }
    let mut i: usize = 0;
    while i < n
        invariant
            i <= n,
            n == s@.len(),
            forall|k: int| 0 <= k < i ==> s@[k] != '\0',
        decreases n - i,
    {
        if s.get_char(i) == '\0' {
            return false;
        }
        i += 1;
    }
    true
}

/// Which field of the configuration cannot be placed into its PDU field.
#[derive(Clone, Copy, Debug, PartialEq, Eq, Structural)]
pub enum PduBuildError {
    SystemId,
    Password,
    SystemType,
    ServiceType,
    SourceAddr,
    DestinationAddr,
    Body,
}

/// The configured service type, with "absent" read as the empty string.
pub open spec fn service_type_view(m: MessageConfig) -> Seq<char> {
    match m.service_type {
        Option::Some(st) => st@,
        Option::None => Seq::empty(),
    }
}

/// Whether the message template fits the `submit_sm` wire fields.
pub open spec fn submit_fields_ok(m: MessageConfig) -> bool {
    &&& c_octet_ok(service_type_view(m), 6)
    &&& c_octet_ok(m.source_addr@, 21)
    &&& c_octet_ok(m.destination_addr@, 21)
    &&& encode_utf8(m.body@).len() <= 255
}

/// The `submit_sm` PDU that rusmpp's builder yields for these template
/// fields: a function of the arguments alone.
pub uninterp spec fn submit_sm_of(
    service_type: Seq<char>,
    source_ton: u8,
    source_npi: u8,
    source_addr: Seq<char>,
    dest_ton: u8,
    dest_npi: u8,
    dest_addr: Seq<char>,
    data_coding: u8,
    request_dlr: bool,
    body: Seq<char>,
) -> SubmitSm;

/// Relies on rusmpp's SubmitSm builder, COctetString and OctetString
/// construction, and RegisteredDelivery::request_all / Default: places each
/// argument into its PDU field; the requires match the wire types' own
/// validation, so no conversion can fail.
#[verifier::external_body]
fn mk_submit_sm(
    service_type: &str,
    source_ton: u8,
    source_npi: u8,
    source_addr: &str,
    dest_ton: u8,
    dest_npi: u8,
    dest_addr: &str,
    data_coding: u8,
    request_dlr: bool,
    body: &str,
) -> (r: SubmitSm)
    requires
        c_octet_ok(service_type@, 6),
        c_octet_ok(source_addr@, 21),
        c_octet_ok(dest_addr@, 21),
        encode_utf8(body@).len() <= 255,
    ensures
        r == submit_sm_of(
            service_type@,
            source_ton,
            source_npi,
            source_addr@,
            dest_ton,
            dest_npi,
            dest_addr@,
            data_coding,
            request_dlr,
            body@,
        ),
{
    SubmitSm::builder()
        .service_type(ServiceType::new(COctetString::from_str(service_type).unwrap_or_default()))
        .source_addr_ton(Ton::from(source_ton))
        .source_addr_npi(Npi::from(source_npi))
        .source_addr(COctetString::from_str(source_addr).unwrap_or_default())
        .dest_addr_ton(Ton::from(dest_ton))
        .dest_addr_npi(Npi::from(dest_npi))
        .destination_addr(COctetString::from_str(dest_addr).unwrap_or_default())
        .esm_class(EsmClass::default())
        .data_coding(DataCoding::from(data_coding))
        .registered_delivery(if request_dlr { RegisteredDelivery::request_all() } else { RegisteredDelivery::default() })
        .short_message(OctetString::from_str(body).unwrap_or_default())
        .build()
}

/// Build the immutable `submit_sm` template from the message configuration,
/// or name the first field that does not fit its wire type.
pub fn build_submit_sm(message: &MessageConfig) -> (r: Result<SubmitSm, PduBuildError>)
    ensures
        r is Ok <==> submit_fields_ok(*message),
        r == Result::<SubmitSm, PduBuildError>::Err(PduBuildError::ServiceType) <==> !c_octet_ok(
            service_type_view(*message),
            6,
        ),
        r == Result::<SubmitSm, PduBuildError>::Err(PduBuildError::SourceAddr) <==> (c_octet_ok(
            service_type_view(*message),
            6,
        ) && !c_octet_ok(message.source_addr@, 21)),
        r == Result::<SubmitSm, PduBuildError>::Err(PduBuildError::DestinationAddr) <==> (
        c_octet_ok(service_type_view(*message), 6) && c_octet_ok(message.source_addr@, 21)
            && !c_octet_ok(message.destination_addr@, 21)),
        r == Result::<SubmitSm, PduBuildError>::Err(PduBuildError::Body) <==> (c_octet_ok(
            service_type_view(*message),
            6,
        ) && c_octet_ok(message.source_addr@, 21) && c_octet_ok(message.destination_addr@, 21)
            && encode_utf8(message.body@).len() > 255),
        r matches Ok(p) ==> p == submit_sm_of(
            service_type_view(*message),
            message.source_ton,
            message.source_npi,
            message.source_addr@,
            message.destination_ton,
            message.destination_npi,
            message.destination_addr@,
            message.data_coding,
            message.request_dlr,
            message.body@,
        ),
{
    let service_type: &str = match &message.service_type {
        Some(st) => st.as_str(),
        None => "",
    };
    proof {
        reveal_strlit("");
        assert(""@ =~= Seq::<char>::empty());
    }
    if !c_octet_str_ok(service_type, 6) {
        return Err(PduBuildError::ServiceType);
    }
    if !c_octet_str_ok(message.source_addr.as_str(), 21) {
        return Err(PduBuildError::SourceAddr);
    }
    if !c_octet_str_ok(message.destination_addr.as_str(), 21) {
        return Err(PduBuildError::DestinationAddr);
    }
    if message.body.as_str().as_bytes().len() > 255 {
        return Err(PduBuildError::Body);
    }
    Ok(
        mk_submit_sm(
            service_type,
            message.source_ton,
            message.source_npi,
            message.source_addr.as_str(),
            message.destination_ton,
            message.destination_npi,
            message.destination_addr.as_str(),
            message.data_coding,
            message.request_dlr,
            message.body.as_str(),
        ),
    )
}

/// The configured system type, with "absent" read as the empty string.
pub open spec fn system_type_view(c: Config) -> Seq<char> {
    match c.smpp.system_type {
        Option::Some(st) => st@,
        Option::None => Seq::empty(),
    }
}

/// Whether the connection credentials fit the bind PDU's wire fields.
pub open spec fn bind_fields_ok(c: Config) -> bool {
    &&& c_octet_ok(c.smpp.system_id@, 16)
    &&& c_octet_ok(c.smpp.password@, 9)
    &&& c_octet_ok(system_type_view(c), 13)
}

/// The transceiver bind PDU that rusmpp's builder yields for these
/// credentials: a function of the arguments alone.
pub uninterp spec fn bind_trx_of(
    system_id: Seq<char>,
    password: Seq<char>,
    system_type: Seq<char>,
    addr_ton: u8,
    addr_npi: u8,
) -> BindTransceiver;

/// Relies on rusmpp's BindTransceiver builder and COctetString
/// construction; the requires match the wire types' own validation.
#[verifier::external_body]
fn mk_bind_trx(
    system_id: &str,
    password: &str,
    system_type: &str,
    addr_ton: u8,
    addr_npi: u8,
) -> (r: BindTransceiver)
    requires
        c_octet_ok(system_id@, 16),
        c_octet_ok(password@, 9),
        c_octet_ok(system_type@, 13),
    ensures
        r == bind_trx_of(system_id@, password@, system_type@, addr_ton, addr_npi),
{
    BindTransceiver::builder()
        .system_id(COctetString::from_str(system_id).unwrap_or_default())
        .password(COctetString::from_str(password).unwrap_or_default())
        .system_type(COctetString::from_str(system_type).unwrap_or_default())
        .addr_ton(Ton::from(addr_ton))
        .addr_npi(Npi::from(addr_npi))
        .address_range(COctetString::empty())
        .build()
}

/// The transmitter bind PDU that rusmpp's builder yields for these
/// credentials: a function of the arguments alone.
pub uninterp spec fn bind_tx_of(
    system_id: Seq<char>,
    password: Seq<char>,
    system_type: Seq<char>,
    addr_ton: u8,
    addr_npi: u8,
) -> BindTransmitter;

/// Relies on rusmpp's BindTransmitter builder and COctetString
/// construction; the requires match the wire types' own validation.
#[verifier::external_body]
fn mk_bind_tx(
    system_id: &str,
    password: &str,
    system_type: &str,
    addr_ton: u8,
    addr_npi: u8,
) -> (r: BindTransmitter)
    requires
        c_octet_ok(system_id@, 16),
        c_octet_ok(password@, 9),
        c_octet_ok(system_type@, 13),
    ensures
        r == bind_tx_of(system_id@, password@, system_type@, addr_ton, addr_npi),
{
    BindTransmitter::builder()
        .system_id(COctetString::from_str(system_id).unwrap_or_default())
        .password(COctetString::from_str(password).unwrap_or_default())
        .system_type(COctetString::from_str(system_type).unwrap_or_default())
        .addr_ton(Ton::from(addr_ton))
        .addr_npi(Npi::from(addr_npi))
        .address_range(COctetString::empty())
        .build()
}

fn check_bind_fields(config: &Config) -> (r: Result<(), PduBuildError>)
    ensures
        r is Ok <==> bind_fields_ok(*config),
        r == Result::<(), PduBuildError>::Err(PduBuildError::SystemId) <==> !c_octet_ok(
            config.smpp.system_id@,
            16,
        ),
        r == Result::<(), PduBuildError>::Err(PduBuildError::Password) <==> (c_octet_ok(
            config.smpp.system_id@,
            16,
        ) && !c_octet_ok(config.smpp.password@, 9)),
        r == Result::<(), PduBuildError>::Err(PduBuildError::SystemType) <==> (c_octet_ok(
            config.smpp.system_id@,
            16,
        ) && c_octet_ok(config.smpp.password@, 9) && !c_octet_ok(system_type_view(*config), 13)),
{
    proof {
        reveal_strlit("");
        assert(""@ =~= Seq::<char>::empty());
    }
    if !c_octet_str_ok(config.smpp.system_id.as_str(), 16) {
        return Err(PduBuildError::SystemId);
    }
    if !c_octet_str_ok(config.smpp.password.as_str(), 9) {
        return Err(PduBuildError::Password);
    }
    let system_type: &str = match &config.smpp.system_type {
        Some(st) => st.as_str(),
        None => "",
    };
    if !c_octet_str_ok(system_type, 13) {
        return Err(PduBuildError::SystemType);
    }
    Ok(())
}

/// Build the transceiver bind request from the configuration, or name the
/// first credential that does not fit its wire field.
pub fn build_bind_trx_pdu(config: &Config) -> (r: Result<BindTransceiver, PduBuildError>)
    ensures
        r is Ok <==> bind_fields_ok(*config),
        r matches Err(e) ==> check_bind_error(*config, e),
        r matches Ok(p) ==> p == bind_trx_of(
            config.smpp.system_id@,
            config.smpp.password@,
            system_type_view(*config),
            config.message.source_ton,
            config.message.source_npi,
        ),
{
    if let Err(e) = check_bind_fields(config) {
        return Err(e);
    }
    let system_type: &str = match &config.smpp.system_type {
        Some(st) => st.as_str(),
        None => "",
    };
    proof {
        reveal_strlit("");
        assert(""@ =~= Seq::<char>::empty());
    }
    Ok(
        mk_bind_trx(
            config.smpp.system_id.as_str(),
            config.smpp.password.as_str(),
            system_type,
            config.message.source_ton,
            config.message.source_npi,
        ),
    )
}

/// Which bind credential an error names, mirroring the check order.
pub open spec fn check_bind_error(c: Config, e: PduBuildError) -> bool {
    match e {
        PduBuildError::SystemId => !c_octet_ok(c.smpp.system_id@, 16),
        PduBuildError::Password => c_octet_ok(c.smpp.system_id@, 16) && !c_octet_ok(
            c.smpp.password@,
            9,
        ),
        PduBuildError::SystemType => c_octet_ok(c.smpp.system_id@, 16) && c_octet_ok(
            c.smpp.password@,
            9,
        ) && !c_octet_ok(system_type_view(c), 13),
        _ => false,
    }
}

/// Build the transmitter bind request from the configuration, or name the
/// first credential that does not fit its wire field.
pub fn build_bind_tx_pdu(config: &Config) -> (r: Result<BindTransmitter, PduBuildError>)
    ensures
        r is Ok <==> bind_fields_ok(*config),
        r matches Err(e) ==> check_bind_error(*config, e),
        r matches Ok(p) ==> p == bind_tx_of(
            config.smpp.system_id@,
            config.smpp.password@,
            system_type_view(*config),
            config.message.source_ton,
            config.message.source_npi,
        ),
{
    if let Err(e) = check_bind_fields(config) {
        return Err(e);
    }
    let system_type: &str = match &config.smpp.system_type {
        Some(st) => st.as_str(),
        None => "",
    };
    proof {
        reveal_strlit("");
        assert(""@ =~= Seq::<char>::empty());
    }
    Ok(
        mk_bind_tx(
            config.smpp.system_id.as_str(),
            config.smpp.password.as_str(),
            system_type,
            config.message.source_ton,
            config.message.source_npi,
        ),
    )
}

/// The value of the first `receipted_message_id` TLV of a `deliver_sm`,
/// when one is present: a function of the PDU alone.
pub uninterp spec fn receipted_id_of(d: DeliverSm) -> Option<Seq<char>>;

/// The value of the first `message_state` TLV of a `deliver_sm`, when one
/// is present: a function of the PDU alone.
pub uninterp spec fn message_state_of(d: DeliverSm) -> Option<MessageState>;

/// The textual short message body of a `deliver_sm`, when it decodes as
/// text: a function of the PDU alone.
pub uninterp spec fn text_of(d: DeliverSm) -> Option<Seq<char>>;

/// The library's receipt state standing for a codec message state: the
/// variant of the same name, a function of the value alone.
pub uninterp spec fn state_kind_of(ms: MessageState) -> DlrState;

/// Relies on rusmpp's DeliverSm::tlvs: the value of the first
/// `receipted_message_id` TLV, as a string.
#[verifier::external_body]
fn deliver_receipted_id(d: &DeliverSm) -> (r: Option<String>)
    ensures
        r matches Some(id) ==> receipted_id_of(*d) == Option::Some(id@),
        r is None ==> receipted_id_of(*d) is None,
{
    d.tlvs().iter().find_map(
        |t| match t.value() {
            Some(TlvValue::ReceiptedMessageId(co)) => Some(co.as_str().to_string()),
            _ => None,
        },
    )
}

/// Relies on rusmpp's DeliverSm::tlvs: the value of the first
/// `message_state` TLV.
#[verifier::external_body]
fn deliver_message_state(d: &DeliverSm) -> (r: Option<MessageState>)
    ensures
        r == message_state_of(*d),
{
    d.tlvs().iter().find_map(
        |t| match t.value() {
            Some(TlvValue::MessageState(ms)) => Some(*ms),
            _ => None,
        },
    )
}

/// Relies on rusmpp's OctetString::to_str: the short message body when it
/// decodes as text.
#[verifier::external_body]
fn deliver_text(d: &DeliverSm) -> (r: Option<String>)
    ensures
        r matches Some(t) ==> text_of(*d) == Option::Some(t@),
        r is None ==> text_of(*d) is None,
{
    d.short_message().to_str().ok().map(|s| s.to_string())
}

/// Relies on rusmpp's MessageState variants: each maps to the library's
/// state of the same name, one arm each.
#[verifier::external_body]
fn dlr_state_of(ms: MessageState) -> (r: DlrState)
    ensures
        r == state_kind_of(ms),
{
    match ms {
        MessageState::Scheduled => DlrState::Scheduled,
        MessageState::Enroute => DlrState::Enroute,
        MessageState::Delivered => DlrState::Delivered,
        MessageState::Expired => DlrState::Expired,
        MessageState::Deleted => DlrState::Deleted,
        MessageState::Undeliverable => DlrState::Undeliverable,
        MessageState::Accepted => DlrState::Accepted,
        MessageState::Unknown => DlrState::Unknown,
        MessageState::Rejected => DlrState::Rejected,
        MessageState::Skipped => DlrState::Skipped,
        MessageState::Other(v) => DlrState::Other(v),
    }
}

/// The library's receipt state for an optional codec message state.
pub open spec fn state_view_of(o: Option<MessageState>) -> Option<DlrState> {
    match o {
        Option::Some(ms) => Option::Some(state_kind_of(ms)),
        Option::None => Option::None,
    }
}

/// What the dispatcher reads out of a `deliver_sm`, over the named
/// extraction results.
pub open spec fn deliver_view_of(d: DeliverSm) -> DeliverViewModel {
    DeliverViewModel {
        receipted_id: receipted_id_of(d),
        tlv_state: state_view_of(message_state_of(d)),
        text: text_of(d),
    }
}

/// Read the receipt-bearing parts out of one incoming `deliver_sm`.
pub fn deliver_view(d: &DeliverSm) -> (v: DeliverView)
    ensures
        v@ == deliver_view_of(*d),
{
    let tlv_state = match deliver_message_state(d) {
        Some(ms) => Some(dlr_state_of(ms)),
        None => None,
    };
    let v = DeliverView { receipted_id: deliver_receipted_id(d), tlv_state, text: deliver_text(d) };
    proof {
        assert(v@ =~= deliver_view_of(*d));
    }
    v
}

/// Apply one incoming `deliver_sm` to a session: exactly the receipt
/// effect of the PDU's named extraction results, on top of the session's
/// accounting guarantees.
pub fn process_deliver_sm(
    core: &mut SessionCore,
    metrics: &mut Metrics,
    d: &DeliverSm,
    now_micros: u64,
)
    requires
        old(core).inv(*old(metrics)),
        old(metrics).wf(),
        old(metrics).total_attempts < u64::MAX,
        old(metrics).bind(old(core).idx() as int).dlr_state_sum() + 2 <= u64::MAX,
    ensures
        final(core).inv(*final(metrics)),
        final(metrics).wf(),
        final(core).idx() == old(core).idx(),
        old(metrics).le(*final(metrics)),
        final(metrics).total_attempts == old(metrics).total_attempts,
        final(metrics).total_success == old(metrics).total_success,
        final(metrics).total_error == old(metrics).total_error,
        final(metrics).total_latency_micros == old(metrics).total_latency_micros,
        ({
            let (c2, s2, k2) = crate::session::deliver_effect(
                old(core).corr_map(),
                old(metrics).bind(old(core).idx() as int),
                old(core).classified_count(),
                deliver_view_of(*d),
                now_micros,
            );
            &&& final(core).corr_map() == c2
            &&& final(metrics).per_bind@ == old(metrics).per_bind@.update(
                old(core).idx() as int,
                s2,
            )
            &&& final(core).classified_count() == k2
        }),
{
    let v = deliver_view(d);
    core.process_deliver(metrics, &v, now_micros);
}

/// The server-issued message id carried by a `submit_sm_resp`: a function
/// of the response alone.
pub uninterp spec fn resp_id_of(resp: SubmitSmResp) -> Seq<char>;

/// Relies on rusmpp's SubmitSmResp::message_id: the server-issued id as a
/// string.
#[verifier::external_body]
fn resp_message_id(resp: &SubmitSmResp) -> (r: String)
    ensures
        r@ == resp_id_of(*resp),
{
    resp.message_id().as_str().to_string()
}

/// Relies on the client error's Display implementation for a short
/// description of the failure.
#[verifier::external_body]
fn client_error_message(e: &rusmppc::error::Error) -> String {
    format!("{e}")
}

/// Turn the codec's response to one submission into the outcome the
/// session records: a success carrying the server's message id, or a
/// failure carrying the error's description.
pub fn outcome_of(
    result: Result<SubmitSmResp, rusmppc::error::Error>,
    latency_micros: u64,
) -> (r: SubmitOutcome)
    ensures
        (r is Success) == (result is Ok),
        result matches Ok(resp) ==> (r matches SubmitOutcome::Success {
            message_id,
            latency_micros: l,
        } && message_id@ == resp_id_of(resp) && l == latency_micros),
        r matches SubmitOutcome::Failure { error: _, latency_micros: l } ==> l == latency_micros,
{
    match result {
        Ok(resp) => SubmitOutcome::Success {
            message_id: resp_message_id(&resp),
            latency_micros,
        },
        Err(e) => SubmitOutcome::Failure { error: client_error_message(&e), latency_micros },
    }
}

} // verus!
