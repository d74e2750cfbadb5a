//! Negative response codes of ISO 14229, one byte each on the wire.

use vstd::prelude::*;

verus! {

/// First byte of every negative response.
pub const NEGATIVE_RESPONSE: u8 = 0x7F;

#[derive(Copy, Clone, Debug, PartialEq, Eq, Structural)]
pub enum Nrc {
    GeneralReject,
    ServiceNotSupported,
    SubFunctionNotSupported,
    IncorrectMessageLengthOrInvalidFormat,
    ResponseTooLong,
    BusyRepeatRequest,
    ConditionsNotCorrect,
    RequestSequenceError,
    NoResponseFromSubnetComponent,
    FailurePreventsExecutionOfRequestedAction,
    RequestOutOfRange,
    SecurityAccessDenied,
    AuthenticationRequired,
    InvalidKey,
    ExceededNumberOfAttempts,
    RequiredTimeDelayNotExpired,
    UploadDownloadNotAccepted,
    TransferDataSuspended,
    GeneralProgrammingFailure,
    WrongBlockSequenceNumber,
    IllegalByteCountInBlockTransfer,
    RequestCorrectlyReceivedResponsePending,
    SubFunctionNotSupportedInActiveSession,
    ServiceNotSupportedInActiveSession,
}

impl Nrc {
    /// The byte that stands for this code.
    pub open spec fn byte(self) -> u8 {
        match self {
            Nrc::GeneralReject => 0x10,
            Nrc::ServiceNotSupported => 0x11,
            Nrc::SubFunctionNotSupported => 0x12,
            Nrc::IncorrectMessageLengthOrInvalidFormat => 0x13,
            Nrc::ResponseTooLong => 0x14,
            Nrc::BusyRepeatRequest => 0x21,
            Nrc::ConditionsNotCorrect => 0x22,
            Nrc::RequestSequenceError => 0x24,
            Nrc::NoResponseFromSubnetComponent => 0x25,
            Nrc::FailurePreventsExecutionOfRequestedAction => 0x26,
            Nrc::RequestOutOfRange => 0x31,
            Nrc::SecurityAccessDenied => 0x33,
            Nrc::AuthenticationRequired => 0x34,
            Nrc::InvalidKey => 0x35,
            Nrc::ExceededNumberOfAttempts => 0x36,
            Nrc::RequiredTimeDelayNotExpired => 0x37,
            Nrc::UploadDownloadNotAccepted => 0x70,
            Nrc::TransferDataSuspended => 0x71,
            Nrc::GeneralProgrammingFailure => 0x72,
            Nrc::WrongBlockSequenceNumber => 0x73,
            Nrc::IllegalByteCountInBlockTransfer => 0x75,
            Nrc::RequestCorrectlyReceivedResponsePending => 0x78,
            Nrc::SubFunctionNotSupportedInActiveSession => 0x7E,
            Nrc::ServiceNotSupportedInActiveSession => 0x7F,
        }
    }

    /// The name that ISO 14229 gives this code.
    pub open spec fn standard_name(self) -> Seq<char> {
        match self {
            Nrc::GeneralReject => "generalReject"@,
            Nrc::ServiceNotSupported => "serviceNotSupported"@,
            Nrc::SubFunctionNotSupported => "subFunctionNotSupported"@,
            Nrc::IncorrectMessageLengthOrInvalidFormat => "incorrectMessageLengthOrInvalidFormat"@,
            Nrc::ResponseTooLong => "responseTooLong"@,
            Nrc::BusyRepeatRequest => "busyRepeatRequest"@,
            Nrc::ConditionsNotCorrect => "conditionsNotCorrect"@,
            Nrc::RequestSequenceError => "requestSequenceError"@,
            Nrc::NoResponseFromSubnetComponent => "noResponseFromSubnetComponent"@,
            Nrc::FailurePreventsExecutionOfRequestedAction => "failurePreventsExecutionOfRequestedAction"@,
            Nrc::RequestOutOfRange => "requestOutOfRange"@,
            Nrc::SecurityAccessDenied => "securityAccessDenied"@,
            Nrc::AuthenticationRequired => "authenticationRequired"@,
            Nrc::InvalidKey => "invalidKey"@,
            Nrc::ExceededNumberOfAttempts => "exceededNumberOfAttempts"@,
            Nrc::RequiredTimeDelayNotExpired => "requiredTimeDelayNotExpired"@,
            Nrc::UploadDownloadNotAccepted => "uploadDownloadNotAccepted"@,
            Nrc::TransferDataSuspended => "transferDataSuspended"@,
            Nrc::GeneralProgrammingFailure => "generalProgrammingFailure"@,
            Nrc::WrongBlockSequenceNumber => "wrongBlockSequenceNumber"@,
            Nrc::IllegalByteCountInBlockTransfer => "illegalByteCountInBlockTransfer"@,
            Nrc::RequestCorrectlyReceivedResponsePending => "requestCorrectlyReceivedResponsePending"@,
            Nrc::SubFunctionNotSupportedInActiveSession => "subFunctionNotSupportedInActiveSession"@,
            Nrc::ServiceNotSupportedInActiveSession => "serviceNotSupportedInActiveSession"@,
        }
    }

    /// The negative response to service `sid` with this code.
    pub open spec fn refusal(self, sid: u8) -> Seq<u8> {
        seq![NEGATIVE_RESPONSE, sid, self.byte()]
    }

    pub fn code(self) -> (c: u8)
        ensures
            c == self.byte(),
    {
        match self {
            Nrc::GeneralReject => 0x10,
            Nrc::ServiceNotSupported => 0x11,
            Nrc::SubFunctionNotSupported => 0x12,
            Nrc::IncorrectMessageLengthOrInvalidFormat => 0x13,
            Nrc::ResponseTooLong => 0x14,
            Nrc::BusyRepeatRequest => 0x21,
            Nrc::ConditionsNotCorrect => 0x22,
            Nrc::RequestSequenceError => 0x24,
            Nrc::NoResponseFromSubnetComponent => 0x25,
            Nrc::FailurePreventsExecutionOfRequestedAction => 0x26,
            Nrc::RequestOutOfRange => 0x31,
            Nrc::SecurityAccessDenied => 0x33,
            Nrc::AuthenticationRequired => 0x34,
            Nrc::InvalidKey => 0x35,
            Nrc::ExceededNumberOfAttempts => 0x36,
            Nrc::RequiredTimeDelayNotExpired => 0x37,
            Nrc::UploadDownloadNotAccepted => 0x70,
            Nrc::TransferDataSuspended => 0x71,
            Nrc::GeneralProgrammingFailure => 0x72,
            Nrc::WrongBlockSequenceNumber => 0x73,
            Nrc::IllegalByteCountInBlockTransfer => 0x75,
            Nrc::RequestCorrectlyReceivedResponsePending => 0x78,
            Nrc::SubFunctionNotSupportedInActiveSession => 0x7E,
            Nrc::ServiceNotSupportedInActiveSession => 0x7F,
        }
    }

    /// Standard negative response: `[0x7F, sid, nrc]`.
    pub fn negative_response(self, sid: u8) -> (r: [u8; 3])
        ensures
            r@ == self.refusal(sid),
    {
        [NEGATIVE_RESPONSE, sid, self.code()]
    }

    /// The code's name, for logs and consoles.
    pub fn name(self) -> (s: &'static str)
        ensures
            s@ == self.standard_name(),
    {
        match self {
            Nrc::GeneralReject => "generalReject",
            Nrc::ServiceNotSupported => "serviceNotSupported",
            Nrc::SubFunctionNotSupported => "subFunctionNotSupported",
            Nrc::IncorrectMessageLengthOrInvalidFormat => "incorrectMessageLengthOrInvalidFormat",
            Nrc::ResponseTooLong => "responseTooLong",
            Nrc::BusyRepeatRequest => "busyRepeatRequest",
            Nrc::ConditionsNotCorrect => "conditionsNotCorrect",
            Nrc::RequestSequenceError => "requestSequenceError",
            Nrc::NoResponseFromSubnetComponent => "noResponseFromSubnetComponent",
            Nrc::FailurePreventsExecutionOfRequestedAction => "failurePreventsExecutionOfRequestedAction",
            Nrc::RequestOutOfRange => "requestOutOfRange",
            Nrc::SecurityAccessDenied => "securityAccessDenied",
            Nrc::AuthenticationRequired => "authenticationRequired",
            Nrc::InvalidKey => "invalidKey",
            Nrc::ExceededNumberOfAttempts => "exceededNumberOfAttempts",
            Nrc::RequiredTimeDelayNotExpired => "requiredTimeDelayNotExpired",
            Nrc::UploadDownloadNotAccepted => "uploadDownloadNotAccepted",
            Nrc::TransferDataSuspended => "transferDataSuspended",
            Nrc::GeneralProgrammingFailure => "generalProgrammingFailure",
            Nrc::WrongBlockSequenceNumber => "wrongBlockSequenceNumber",
            Nrc::IllegalByteCountInBlockTransfer => "illegalByteCountInBlockTransfer",
            Nrc::RequestCorrectlyReceivedResponsePending => "requestCorrectlyReceivedResponsePending",
            Nrc::SubFunctionNotSupportedInActiveSession => "subFunctionNotSupportedInActiveSession",
            Nrc::ServiceNotSupportedInActiveSession => "serviceNotSupportedInActiveSession",
        }
    }
}

/// A negative response is 0x7F, the service and the code of ISO 14229.
pub proof fn law_refusals_are_standard(nrc: Nrc, sid: u8)
    ensures
        nrc.refusal(sid).len() == 3,
        nrc.refusal(sid)[0] == 0x7F,
        nrc.refusal(sid)[1] == sid,
        nrc is GeneralReject <==> nrc.refusal(sid)[2] == 0x10,
        nrc is ServiceNotSupported <==> nrc.refusal(sid)[2] == 0x11,
        nrc is SubFunctionNotSupported <==> nrc.refusal(sid)[2] == 0x12,
        nrc is IncorrectMessageLengthOrInvalidFormat <==> nrc.refusal(sid)[2] == 0x13,
        nrc is ResponseTooLong <==> nrc.refusal(sid)[2] == 0x14,
        nrc is BusyRepeatRequest <==> nrc.refusal(sid)[2] == 0x21,
        nrc is ConditionsNotCorrect <==> nrc.refusal(sid)[2] == 0x22,
        nrc is RequestSequenceError <==> nrc.refusal(sid)[2] == 0x24,
        nrc is NoResponseFromSubnetComponent <==> nrc.refusal(sid)[2] == 0x25,
        nrc is FailurePreventsExecutionOfRequestedAction <==> nrc.refusal(sid)[2] == 0x26,
        nrc is RequestOutOfRange <==> nrc.refusal(sid)[2] == 0x31,
        nrc is SecurityAccessDenied <==> nrc.refusal(sid)[2] == 0x33,
        nrc is AuthenticationRequired <==> nrc.refusal(sid)[2] == 0x34,
        nrc is InvalidKey <==> nrc.refusal(sid)[2] == 0x35,
        nrc is ExceededNumberOfAttempts <==> nrc.refusal(sid)[2] == 0x36,
        nrc is RequiredTimeDelayNotExpired <==> nrc.refusal(sid)[2] == 0x37,
        nrc is UploadDownloadNotAccepted <==> nrc.refusal(sid)[2] == 0x70,
        nrc is TransferDataSuspended <==> nrc.refusal(sid)[2] == 0x71,
        nrc is GeneralProgrammingFailure <==> nrc.refusal(sid)[2] == 0x72,
        nrc is WrongBlockSequenceNumber <==> nrc.refusal(sid)[2] == 0x73,
        nrc is IllegalByteCountInBlockTransfer <==> nrc.refusal(sid)[2] == 0x75,
        nrc is RequestCorrectlyReceivedResponsePending <==> nrc.refusal(sid)[2] == 0x78,
        nrc is SubFunctionNotSupportedInActiveSession <==> nrc.refusal(sid)[2] == 0x7E,
        nrc is ServiceNotSupportedInActiveSession <==> nrc.refusal(sid)[2] == 0x7F,
{
}

/// No two codes share a byte.
pub proof fn law_codes_are_distinct(a: Nrc, b: Nrc)
    requires
        a.byte() == b.byte(),
    ensures
        a == b,
{
}

/// A negative response names the service it refuses and the reason.
pub proof fn law_refusal_is_readable(a: Nrc, b: Nrc, sid: u8, other: u8)
    requires
        a.refusal(sid) == b.refusal(other),
    ensures
        a == b,
        sid == other,
{
    assert(a.refusal(sid)[1] == b.refusal(other)[1]);
    assert(a.refusal(sid)[2] == b.refusal(other)[2]);
    law_codes_are_distinct(a, b);
}

/// The names of ISO 14229.
pub proof fn law_names_are_standard(nrc: Nrc)
    ensures
        nrc is GeneralReject ==> nrc.standard_name() == "generalReject"@,
        nrc is ServiceNotSupported ==> nrc.standard_name() == "serviceNotSupported"@,
        nrc is SubFunctionNotSupported ==> nrc.standard_name() == "subFunctionNotSupported"@,
        nrc is IncorrectMessageLengthOrInvalidFormat ==> nrc.standard_name()
            == "incorrectMessageLengthOrInvalidFormat"@,
        nrc is ResponseTooLong ==> nrc.standard_name() == "responseTooLong"@,
        nrc is BusyRepeatRequest ==> nrc.standard_name() == "busyRepeatRequest"@,
        nrc is ConditionsNotCorrect ==> nrc.standard_name() == "conditionsNotCorrect"@,
        nrc is RequestSequenceError ==> nrc.standard_name() == "requestSequenceError"@,
        nrc is NoResponseFromSubnetComponent ==> nrc.standard_name()
            == "noResponseFromSubnetComponent"@,
        nrc is FailurePreventsExecutionOfRequestedAction ==> nrc.standard_name()
            == "failurePreventsExecutionOfRequestedAction"@,
        nrc is RequestOutOfRange ==> nrc.standard_name() == "requestOutOfRange"@,
        nrc is SecurityAccessDenied ==> nrc.standard_name() == "securityAccessDenied"@,
        nrc is AuthenticationRequired ==> nrc.standard_name() == "authenticationRequired"@,
        nrc is InvalidKey ==> nrc.standard_name() == "invalidKey"@,
        nrc is ExceededNumberOfAttempts ==> nrc.standard_name() == "exceededNumberOfAttempts"@,
        nrc is RequiredTimeDelayNotExpired ==> nrc.standard_name()
            == "requiredTimeDelayNotExpired"@,
        nrc is UploadDownloadNotAccepted ==> nrc.standard_name() == "uploadDownloadNotAccepted"@,
        nrc is TransferDataSuspended ==> nrc.standard_name() == "transferDataSuspended"@,
        nrc is GeneralProgrammingFailure ==> nrc.standard_name() == "generalProgrammingFailure"@,
        nrc is WrongBlockSequenceNumber ==> nrc.standard_name() == "wrongBlockSequenceNumber"@,
        nrc is IllegalByteCountInBlockTransfer ==> nrc.standard_name()
            == "illegalByteCountInBlockTransfer"@,
        nrc is RequestCorrectlyReceivedResponsePending ==> nrc.standard_name()
            == "requestCorrectlyReceivedResponsePending"@,
        nrc is SubFunctionNotSupportedInActiveSession ==> nrc.standard_name()
            == "subFunctionNotSupportedInActiveSession"@,
        nrc is ServiceNotSupportedInActiveSession ==> nrc.standard_name()
            == "serviceNotSupportedInActiveSession"@,
{
}

} // verus!
