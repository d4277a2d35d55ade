//! SDK method names — the `method="…"` attribute on every `<in>` / `<out>`.

use vstd::prelude::*;
use crate::error::ProtoError;
use crate::fmt::str_eq;

verus! {

/// Every SDK 2.0 method name this crate knows how to build or read.
#[derive(Debug, Clone, Copy, PartialEq, Eq, Structural)]
pub enum SdkMethod {
    GetIfVersion,
    GetDeviceInfo,
    GetEth0Info,
    SetEth0Info,
    GetWifiInfo,
    SetWifiInfo,
    AddProgram,
    UpdateProgram,
    DeleteProgram,
    GetProgram,
    GetTimeInfo,
    SetTimeInfo,
    GetLuminancePloy,
    SetLuminancePloy,
    GetSwitchTime,
    SetSwitchTime,
    GetFiles,
    DeleteFiles,
    GetBootLogo,
    SetBootLogoName,
    ClearBootLogo,
    GetSdkTcpServer,
    SetSdkTcpServer,
    OpenScreen,
    CloseScreen,
}

/// The exact method string the device expects on the wire.
pub open spec fn method_name(m: SdkMethod) -> Seq<char> {
    match m {
        SdkMethod::GetIfVersion => "GetIFVersion"@,
        SdkMethod::GetDeviceInfo => "GetDeviceInfo"@,
        SdkMethod::GetEth0Info => "GetEth0Info"@,
        SdkMethod::SetEth0Info => "SetEth0Info"@,
        SdkMethod::GetWifiInfo => "GetWifiInfo"@,
        SdkMethod::SetWifiInfo => "SetWifiInfo"@,
        SdkMethod::AddProgram => "AddProgram"@,
        SdkMethod::UpdateProgram => "UpdateProgram"@,
        SdkMethod::DeleteProgram => "DeleteProgram"@,
        SdkMethod::GetProgram => "GetProgram"@,
        SdkMethod::GetTimeInfo => "GetTimeInfo"@,
        SdkMethod::SetTimeInfo => "SetTimeInfo"@,
        SdkMethod::GetLuminancePloy => "GetLuminancePloy"@,
        SdkMethod::SetLuminancePloy => "SetLuminancePloy"@,
        SdkMethod::GetSwitchTime => "GetSwitchTime"@,
        SdkMethod::SetSwitchTime => "SetSwitchTime"@,
        SdkMethod::GetFiles => "GetFiles"@,
        SdkMethod::DeleteFiles => "DeleteFiles"@,
        SdkMethod::GetBootLogo => "GetBootLogo"@,
        SdkMethod::SetBootLogoName => "SetBootLogoName"@,
        SdkMethod::ClearBootLogo => "ClearBootLogo"@,
        SdkMethod::GetSdkTcpServer => "GetSDKTcpServer"@,
        SdkMethod::SetSdkTcpServer => "SetSDKTcpServer"@,
        SdkMethod::OpenScreen => "OpenScreen"@,
        SdkMethod::CloseScreen => "CloseScreen"@,
    }
}

/// The text of the error for a method name this crate does not model.
pub open spec fn unknown_method_msg(s: Seq<char>) -> Seq<char> {
    "unknown SDK method: "@ + s
}

/// Every method, in declaration order.
pub open spec fn sdk_methods() -> Seq<SdkMethod> {
    seq![
        SdkMethod::GetIfVersion,
        SdkMethod::GetDeviceInfo,
        SdkMethod::GetEth0Info,
        SdkMethod::SetEth0Info,
        SdkMethod::GetWifiInfo,
        SdkMethod::SetWifiInfo,
        SdkMethod::AddProgram,
        SdkMethod::UpdateProgram,
        SdkMethod::DeleteProgram,
        SdkMethod::GetProgram,
        SdkMethod::GetTimeInfo,
        SdkMethod::SetTimeInfo,
        SdkMethod::GetLuminancePloy,
        SdkMethod::SetLuminancePloy,
        SdkMethod::GetSwitchTime,
        SdkMethod::SetSwitchTime,
        SdkMethod::GetFiles,
        SdkMethod::DeleteFiles,
        SdkMethod::GetBootLogo,
        SdkMethod::SetBootLogoName,
        SdkMethod::ClearBootLogo,
        SdkMethod::GetSdkTcpServer,
        SdkMethod::SetSdkTcpServer,
        SdkMethod::OpenScreen,
        SdkMethod::CloseScreen,
    ]
}

/// The wire name of each method, in declaration order: its variant name,
/// with the acronyms `IF` and `SDK` in capitals as the firmware spells them.
pub proof fn lemma_method_name_table()
    ensures
        forall|x: SdkMethod| sdk_methods().contains(x),
        forall|k: int| 0 <= k < sdk_methods().len() ==> method_name(#[trigger] sdk_methods()[k]) == seq!["GetIFVersion"@, "GetDeviceInfo"@, "GetEth0Info"@, "SetEth0Info"@, "GetWifiInfo"@, "SetWifiInfo"@, "AddProgram"@, "UpdateProgram"@, "DeleteProgram"@, "GetProgram"@, "GetTimeInfo"@, "SetTimeInfo"@, "GetLuminancePloy"@, "SetLuminancePloy"@, "GetSwitchTime"@, "SetSwitchTime"@, "GetFiles"@, "DeleteFiles"@, "GetBootLogo"@, "SetBootLogoName"@, "ClearBootLogo"@, "GetSDKTcpServer"@, "SetSDKTcpServer"@, "OpenScreen"@, "CloseScreen"@][k],
{
    assert forall|x: SdkMethod| sdk_methods().contains(x) by {
        let k: int = match x {
            SdkMethod::GetIfVersion => 0,
            SdkMethod::GetDeviceInfo => 1,
            SdkMethod::GetEth0Info => 2,
            SdkMethod::SetEth0Info => 3,
            SdkMethod::GetWifiInfo => 4,
            SdkMethod::SetWifiInfo => 5,
            SdkMethod::AddProgram => 6,
            SdkMethod::UpdateProgram => 7,
            SdkMethod::DeleteProgram => 8,
            SdkMethod::GetProgram => 9,
            SdkMethod::GetTimeInfo => 10,
            SdkMethod::SetTimeInfo => 11,
            SdkMethod::GetLuminancePloy => 12,
            SdkMethod::SetLuminancePloy => 13,
            SdkMethod::GetSwitchTime => 14,
            SdkMethod::SetSwitchTime => 15,
            SdkMethod::GetFiles => 16,
            SdkMethod::DeleteFiles => 17,
            SdkMethod::GetBootLogo => 18,
            SdkMethod::SetBootLogoName => 19,
            SdkMethod::ClearBootLogo => 20,
            SdkMethod::GetSdkTcpServer => 21,
            SdkMethod::SetSdkTcpServer => 22,
            SdkMethod::OpenScreen => 23,
            SdkMethod::CloseScreen => 24,
        };
        assert(sdk_methods()[k] == x);
    }
}

/// Distinct methods have distinct names.
pub proof fn lemma_method_names_distinct(a: SdkMethod, b: SdkMethod)
    ensures
        method_name(a) == method_name(b) ==> a == b,
{
        reveal_strlit("GetIFVersion");
        reveal_strlit("GetDeviceInfo");
        reveal_strlit("GetEth0Info");
        reveal_strlit("SetEth0Info");
        reveal_strlit("GetWifiInfo");
        reveal_strlit("SetWifiInfo");
        reveal_strlit("AddProgram");
        reveal_strlit("UpdateProgram");
        reveal_strlit("DeleteProgram");
        reveal_strlit("GetProgram");
        reveal_strlit("GetTimeInfo");
        reveal_strlit("SetTimeInfo");
        reveal_strlit("GetLuminancePloy");
        reveal_strlit("SetLuminancePloy");
        reveal_strlit("GetSwitchTime");
        reveal_strlit("SetSwitchTime");
        reveal_strlit("GetFiles");
        reveal_strlit("DeleteFiles");
        reveal_strlit("GetBootLogo");
        reveal_strlit("SetBootLogoName");
        reveal_strlit("ClearBootLogo");
        reveal_strlit("GetSDKTcpServer");
        reveal_strlit("SetSDKTcpServer");
        reveal_strlit("OpenScreen");
        reveal_strlit("CloseScreen");
    assert(method_name(SdkMethod::GetIfVersion).len() == 12);
    assert(method_name(SdkMethod::GetDeviceInfo).len() == 13);
    assert(method_name(SdkMethod::GetEth0Info).len() == 11);
    assert(method_name(SdkMethod::SetEth0Info).len() == 11);
    assert(method_name(SdkMethod::GetWifiInfo).len() == 11);
    assert(method_name(SdkMethod::SetWifiInfo).len() == 11);
    assert(method_name(SdkMethod::AddProgram).len() == 10);
    assert(method_name(SdkMethod::UpdateProgram).len() == 13);
    assert(method_name(SdkMethod::DeleteProgram).len() == 13);
    assert(method_name(SdkMethod::GetProgram).len() == 10);
    assert(method_name(SdkMethod::GetTimeInfo).len() == 11);
    assert(method_name(SdkMethod::SetTimeInfo).len() == 11);
    assert(method_name(SdkMethod::GetLuminancePloy).len() == 16);
    assert(method_name(SdkMethod::SetLuminancePloy).len() == 16);
    assert(method_name(SdkMethod::GetSwitchTime).len() == 13);
    assert(method_name(SdkMethod::SetSwitchTime).len() == 13);
    assert(method_name(SdkMethod::GetFiles).len() == 8);
    assert(method_name(SdkMethod::DeleteFiles).len() == 11);
    assert(method_name(SdkMethod::GetBootLogo).len() == 11);
    assert(method_name(SdkMethod::SetBootLogoName).len() == 15);
    assert(method_name(SdkMethod::ClearBootLogo).len() == 13);
    assert(method_name(SdkMethod::GetSdkTcpServer).len() == 15);
    assert(method_name(SdkMethod::SetSdkTcpServer).len() == 15);
    assert(method_name(SdkMethod::OpenScreen).len() == 10);
    assert(method_name(SdkMethod::CloseScreen).len() == 11);
    assert(method_name(SdkMethod::GetDeviceInfo)[0] != method_name(SdkMethod::UpdateProgram)[0]);
    assert(method_name(SdkMethod::GetDeviceInfo)[0] != method_name(SdkMethod::DeleteProgram)[0]);
    assert(method_name(SdkMethod::GetDeviceInfo)[3] != method_name(SdkMethod::GetSwitchTime)[3]);
    assert(method_name(SdkMethod::GetDeviceInfo)[0] != method_name(SdkMethod::SetSwitchTime)[0]);
    assert(method_name(SdkMethod::GetDeviceInfo)[0] != method_name(SdkMethod::ClearBootLogo)[0]);
    assert(method_name(SdkMethod::GetEth0Info)[0] != method_name(SdkMethod::SetEth0Info)[0]);
    assert(method_name(SdkMethod::GetEth0Info)[3] != method_name(SdkMethod::GetWifiInfo)[3]);
    assert(method_name(SdkMethod::GetEth0Info)[0] != method_name(SdkMethod::SetWifiInfo)[0]);
    assert(method_name(SdkMethod::GetEth0Info)[3] != method_name(SdkMethod::GetTimeInfo)[3]);
    assert(method_name(SdkMethod::GetEth0Info)[0] != method_name(SdkMethod::SetTimeInfo)[0]);
    assert(method_name(SdkMethod::GetEth0Info)[0] != method_name(SdkMethod::DeleteFiles)[0]);
    assert(method_name(SdkMethod::GetEth0Info)[3] != method_name(SdkMethod::GetBootLogo)[3]);
    assert(method_name(SdkMethod::GetEth0Info)[0] != method_name(SdkMethod::CloseScreen)[0]);
    assert(method_name(SdkMethod::SetEth0Info)[0] != method_name(SdkMethod::GetWifiInfo)[0]);
    assert(method_name(SdkMethod::SetEth0Info)[3] != method_name(SdkMethod::SetWifiInfo)[3]);
    assert(method_name(SdkMethod::SetEth0Info)[0] != method_name(SdkMethod::GetTimeInfo)[0]);
    assert(method_name(SdkMethod::SetEth0Info)[3] != method_name(SdkMethod::SetTimeInfo)[3]);
    assert(method_name(SdkMethod::SetEth0Info)[0] != method_name(SdkMethod::DeleteFiles)[0]);
    assert(method_name(SdkMethod::SetEth0Info)[0] != method_name(SdkMethod::GetBootLogo)[0]);
    assert(method_name(SdkMethod::SetEth0Info)[0] != method_name(SdkMethod::CloseScreen)[0]);
    assert(method_name(SdkMethod::GetWifiInfo)[0] != method_name(SdkMethod::SetWifiInfo)[0]);
    assert(method_name(SdkMethod::GetWifiInfo)[3] != method_name(SdkMethod::GetTimeInfo)[3]);
    assert(method_name(SdkMethod::GetWifiInfo)[0] != method_name(SdkMethod::SetTimeInfo)[0]);
    assert(method_name(SdkMethod::GetWifiInfo)[0] != method_name(SdkMethod::DeleteFiles)[0]);
    assert(method_name(SdkMethod::GetWifiInfo)[3] != method_name(SdkMethod::GetBootLogo)[3]);
    assert(method_name(SdkMethod::GetWifiInfo)[0] != method_name(SdkMethod::CloseScreen)[0]);
    assert(method_name(SdkMethod::SetWifiInfo)[0] != method_name(SdkMethod::GetTimeInfo)[0]);
    assert(method_name(SdkMethod::SetWifiInfo)[3] != method_name(SdkMethod::SetTimeInfo)[3]);
    assert(method_name(SdkMethod::SetWifiInfo)[0] != method_name(SdkMethod::DeleteFiles)[0]);
    assert(method_name(SdkMethod::SetWifiInfo)[0] != method_name(SdkMethod::GetBootLogo)[0]);
    assert(method_name(SdkMethod::SetWifiInfo)[0] != method_name(SdkMethod::CloseScreen)[0]);
    assert(method_name(SdkMethod::AddProgram)[0] != method_name(SdkMethod::GetProgram)[0]);
    assert(method_name(SdkMethod::AddProgram)[0] != method_name(SdkMethod::OpenScreen)[0]);
    assert(method_name(SdkMethod::UpdateProgram)[0] != method_name(SdkMethod::DeleteProgram)[0]);
    assert(method_name(SdkMethod::UpdateProgram)[0] != method_name(SdkMethod::GetSwitchTime)[0]);
    assert(method_name(SdkMethod::UpdateProgram)[0] != method_name(SdkMethod::SetSwitchTime)[0]);
    assert(method_name(SdkMethod::UpdateProgram)[0] != method_name(SdkMethod::ClearBootLogo)[0]);
    assert(method_name(SdkMethod::DeleteProgram)[0] != method_name(SdkMethod::GetSwitchTime)[0]);
    assert(method_name(SdkMethod::DeleteProgram)[0] != method_name(SdkMethod::SetSwitchTime)[0]);
    assert(method_name(SdkMethod::DeleteProgram)[0] != method_name(SdkMethod::ClearBootLogo)[0]);
    assert(method_name(SdkMethod::GetProgram)[0] != method_name(SdkMethod::OpenScreen)[0]);
    assert(method_name(SdkMethod::GetTimeInfo)[0] != method_name(SdkMethod::SetTimeInfo)[0]);
    assert(method_name(SdkMethod::GetTimeInfo)[0] != method_name(SdkMethod::DeleteFiles)[0]);
    assert(method_name(SdkMethod::GetTimeInfo)[3] != method_name(SdkMethod::GetBootLogo)[3]);
    assert(method_name(SdkMethod::GetTimeInfo)[0] != method_name(SdkMethod::CloseScreen)[0]);
    assert(method_name(SdkMethod::SetTimeInfo)[0] != method_name(SdkMethod::DeleteFiles)[0]);
    assert(method_name(SdkMethod::SetTimeInfo)[0] != method_name(SdkMethod::GetBootLogo)[0]);
    assert(method_name(SdkMethod::SetTimeInfo)[0] != method_name(SdkMethod::CloseScreen)[0]);
    assert(method_name(SdkMethod::GetLuminancePloy)[0] != method_name(SdkMethod::SetLuminancePloy)[0]);
    assert(method_name(SdkMethod::GetSwitchTime)[0] != method_name(SdkMethod::SetSwitchTime)[0]);
    assert(method_name(SdkMethod::GetSwitchTime)[0] != method_name(SdkMethod::ClearBootLogo)[0]);
    assert(method_name(SdkMethod::SetSwitchTime)[0] != method_name(SdkMethod::ClearBootLogo)[0]);
    assert(method_name(SdkMethod::DeleteFiles)[0] != method_name(SdkMethod::GetBootLogo)[0]);
    assert(method_name(SdkMethod::DeleteFiles)[0] != method_name(SdkMethod::CloseScreen)[0]);
    assert(method_name(SdkMethod::GetBootLogo)[0] != method_name(SdkMethod::CloseScreen)[0]);
    assert(method_name(SdkMethod::SetBootLogoName)[0] != method_name(SdkMethod::GetSdkTcpServer)[0]);
    assert(method_name(SdkMethod::SetBootLogoName)[3] != method_name(SdkMethod::SetSdkTcpServer)[3]);
    assert(method_name(SdkMethod::GetSdkTcpServer)[0] != method_name(SdkMethod::SetSdkTcpServer)[0]);
}

impl SdkMethod {
    /// The exact method string the device expects on the wire.
    pub fn as_str(self) -> (s: &'static str)
        ensures
            s@ == method_name(self),
    {
        match self {
            SdkMethod::GetIfVersion => "GetIFVersion",
            SdkMethod::GetDeviceInfo => "GetDeviceInfo",
            SdkMethod::GetEth0Info => "GetEth0Info",
            SdkMethod::SetEth0Info => "SetEth0Info",
            SdkMethod::GetWifiInfo => "GetWifiInfo",
            SdkMethod::SetWifiInfo => "SetWifiInfo",
            SdkMethod::AddProgram => "AddProgram",
            SdkMethod::UpdateProgram => "UpdateProgram",
            SdkMethod::DeleteProgram => "DeleteProgram",
            SdkMethod::GetProgram => "GetProgram",
            SdkMethod::GetTimeInfo => "GetTimeInfo",
            SdkMethod::SetTimeInfo => "SetTimeInfo",
            SdkMethod::GetLuminancePloy => "GetLuminancePloy",
            SdkMethod::SetLuminancePloy => "SetLuminancePloy",
            SdkMethod::GetSwitchTime => "GetSwitchTime",
            SdkMethod::SetSwitchTime => "SetSwitchTime",
            SdkMethod::GetFiles => "GetFiles",
            SdkMethod::DeleteFiles => "DeleteFiles",
            SdkMethod::GetBootLogo => "GetBootLogo",
            SdkMethod::SetBootLogoName => "SetBootLogoName",
            SdkMethod::ClearBootLogo => "ClearBootLogo",
            SdkMethod::GetSdkTcpServer => "GetSDKTcpServer",
            SdkMethod::SetSdkTcpServer => "SetSDKTcpServer",
            SdkMethod::OpenScreen => "OpenScreen",
            SdkMethod::CloseScreen => "CloseScreen",
        }
    }

    /// Parse a method string from a reply, rejecting names we don't model.
    pub fn from_str(s: &str) -> (res: Result<SdkMethod, ProtoError>)
        ensures
            match res {
                Ok(m) => method_name(m) == s@,
                Err(e) => (forall|m: SdkMethod| #[trigger] method_name(m) != s@) && (e matches ProtoError::Xml(msg)
                    && msg@ == unknown_method_msg(s@)),
            },
    {
        if str_eq(s, "GetIFVersion") {
            return Ok(SdkMethod::GetIfVersion);
        }
        if str_eq(s, "GetDeviceInfo") {
            return Ok(SdkMethod::GetDeviceInfo);
        }
        if str_eq(s, "GetEth0Info") {
            return Ok(SdkMethod::GetEth0Info);
        }
        if str_eq(s, "SetEth0Info") {
            return Ok(SdkMethod::SetEth0Info);
        }
        if str_eq(s, "GetWifiInfo") {
            return Ok(SdkMethod::GetWifiInfo);
        }
        if str_eq(s, "SetWifiInfo") {
            return Ok(SdkMethod::SetWifiInfo);
        }
        if str_eq(s, "AddProgram") {
            return Ok(SdkMethod::AddProgram);
        }
        if str_eq(s, "UpdateProgram") {
            return Ok(SdkMethod::UpdateProgram);
        }
        if str_eq(s, "DeleteProgram") {
            return Ok(SdkMethod::DeleteProgram);
        }
        if str_eq(s, "GetProgram") {
            return Ok(SdkMethod::GetProgram);
        }
        if str_eq(s, "GetTimeInfo") {
            return Ok(SdkMethod::GetTimeInfo);
        }
        if str_eq(s, "SetTimeInfo") {
            return Ok(SdkMethod::SetTimeInfo);
        }
        if str_eq(s, "GetLuminancePloy") {
            return Ok(SdkMethod::GetLuminancePloy);
        }
        if str_eq(s, "SetLuminancePloy") {
            return Ok(SdkMethod::SetLuminancePloy);
        }
        if str_eq(s, "GetSwitchTime") {
            return Ok(SdkMethod::GetSwitchTime);
        }
        if str_eq(s, "SetSwitchTime") {
            return Ok(SdkMethod::SetSwitchTime);
        }
        if str_eq(s, "GetFiles") {
            return Ok(SdkMethod::GetFiles);
        }
        if str_eq(s, "DeleteFiles") {
            return Ok(SdkMethod::DeleteFiles);
        }
        if str_eq(s, "GetBootLogo") {
            return Ok(SdkMethod::GetBootLogo);
        }
        if str_eq(s, "SetBootLogoName") {
            return Ok(SdkMethod::SetBootLogoName);
        }
        if str_eq(s, "ClearBootLogo") {
            return Ok(SdkMethod::ClearBootLogo);
        }
        if str_eq(s, "GetSDKTcpServer") {
            return Ok(SdkMethod::GetSdkTcpServer);
        }
        if str_eq(s, "SetSDKTcpServer") {
            return Ok(SdkMethod::SetSdkTcpServer);
        }
        if str_eq(s, "OpenScreen") {
            return Ok(SdkMethod::OpenScreen);
        }
        if str_eq(s, "CloseScreen") {
            return Ok(SdkMethod::CloseScreen);
        }
        proof {
            reveal_strlit("GetIFVersion");
            reveal_strlit("GetDeviceInfo");
            reveal_strlit("GetEth0Info");
            reveal_strlit("SetEth0Info");
            reveal_strlit("GetWifiInfo");
            reveal_strlit("SetWifiInfo");
            reveal_strlit("AddProgram");
            reveal_strlit("UpdateProgram");
            reveal_strlit("DeleteProgram");
            reveal_strlit("GetProgram");
            reveal_strlit("GetTimeInfo");
            reveal_strlit("SetTimeInfo");
            reveal_strlit("GetLuminancePloy");
            reveal_strlit("SetLuminancePloy");
            reveal_strlit("GetSwitchTime");
            reveal_strlit("SetSwitchTime");
            reveal_strlit("GetFiles");
            reveal_strlit("DeleteFiles");
            reveal_strlit("GetBootLogo");
            reveal_strlit("SetBootLogoName");
            reveal_strlit("ClearBootLogo");
            reveal_strlit("GetSDKTcpServer");
            reveal_strlit("SetSDKTcpServer");
            reveal_strlit("OpenScreen");
            reveal_strlit("CloseScreen");
        }
        let mut msg = String::from_str("unknown SDK method: ");
        msg.append(s);
        Err(ProtoError::Xml(msg))
    }
}

impl std::str::FromStr for SdkMethod {
    type Err = ProtoError;

    fn from_str(s: &str) -> (res: Result<SdkMethod, ProtoError>)
        ensures
            match res {
                Ok(m) => method_name(m) == s@,
                Err(e) => (forall|m: SdkMethod| #[trigger] method_name(m) != s@) && (e matches ProtoError::Xml(msg)
                    && msg@ == unknown_method_msg(s@)),
            },
    {
        SdkMethod::from_str(s)
    }
}

/// A method's name reads back as that method.
pub proof fn lemma_method_roundtrip(m: SdkMethod)
    ensures
        forall|m2: SdkMethod| method_name(m2) == method_name(m) ==> m2 == m,
{
    assert forall|m2: SdkMethod| method_name(m2) == method_name(m) implies m2 == m by {
        lemma_method_names_distinct(m2, m);
    }
}

} // verus!
