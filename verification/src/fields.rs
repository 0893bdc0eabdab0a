//! Field types shared by the three packet families: authentication method,
//! type and service, privilege level, and the user information triple.

use vstd::prelude::*;
use crate::header::MinorVersion;
use crate::text::{FieldText, text_bytes_ok};
use vstd::string::StringSliceAdditionalSpecFns;

verus! {

/// The method by which a user was authenticated, reported in authorization
/// and accounting requests.
#[derive(Debug, Clone, Copy, PartialEq, Eq, Structural)]
pub enum AuthenticationMethod {
    /// Unknown method.
    NotSet,
    /// No authentication was performed (the RFC's NONE value).
    NotPerformed,
    /// Kerberos version 5.
    Kerberos5,
    /// Fixed password associated with the access line.
    Line,
    /// Granting of new privileges, as with `su(1)`.
    Enable,
    /// Client-local user database.
    Local,
    /// The TACACS+ protocol itself.
    TacacsPlus,
    /// Unqualified guest authentication.
    Guest,
    /// RADIUS.
    Radius,
    /// Kerberos version 4.
    Kerberos4,
    /// An r-command, such as `rlogin(1)`.
    RCommand,
}

impl AuthenticationMethod {
    /// The method's byte value on the wire.
    pub open spec fn spec_byte(self) -> u8 {
        match self {
            AuthenticationMethod::NotSet => 0x00,
            AuthenticationMethod::NotPerformed => 0x01,
            AuthenticationMethod::Kerberos5 => 0x02,
            AuthenticationMethod::Line => 0x03,
            AuthenticationMethod::Enable => 0x04,
            AuthenticationMethod::Local => 0x05,
            AuthenticationMethod::TacacsPlus => 0x06,
            AuthenticationMethod::Guest => 0x08,
            AuthenticationMethod::Radius => 0x10,
            AuthenticationMethod::Kerberos4 => 0x11,
            AuthenticationMethod::RCommand => 0x20,
        }
    }

    /// The method's byte value on the wire.
    pub fn wire_byte(&self) -> (b: u8)
        ensures
            b == self.spec_byte(),
    {
        match self {
            AuthenticationMethod::NotSet => 0x00,
            AuthenticationMethod::NotPerformed => 0x01,
            AuthenticationMethod::Kerberos5 => 0x02,
            AuthenticationMethod::Line => 0x03,
            AuthenticationMethod::Enable => 0x04,
            AuthenticationMethod::Local => 0x05,
            AuthenticationMethod::TacacsPlus => 0x06,
            AuthenticationMethod::Guest => 0x08,
            AuthenticationMethod::Radius => 0x10,
            AuthenticationMethod::Kerberos4 => 0x11,
            AuthenticationMethod::RCommand => 0x20,
        }
    }
}

/// A privilege level, an integer between 0 and 15 inclusive.
#[derive(Debug, Clone, Copy, PartialEq, Eq, Structural)]
pub struct PrivilegeLevel {
    level: u8,
}

impl PrivilegeLevel {
    /// The level as an integer.
    pub closed spec fn spec_level(self) -> u8 {
        self.level
    }

    /// Wraps an integer as a privilege level; refuses values above 15.
    pub fn of(level: u8) -> (r: Option<PrivilegeLevel>)
        ensures
            r is Some <==> level <= 15,
            r is Some ==> r.unwrap().spec_level() == level,
    {
        if level <= 15 {
            Some(PrivilegeLevel { level })
        } else {
            None
        }
    }

    /// Wraps an integer as a privilege level; refuses values above 15.
    pub fn new(level: u8) -> (r: Option<PrivilegeLevel>)
        ensures
            r is Some <==> level <= 15,
            r is Some ==> r.unwrap().spec_level() == level,
    {
        Self::of(level)
    }

    /// The level as an integer, always at most 15.
    pub fn level(&self) -> (r: u8)
        ensures
            r == self.spec_level(),
    {
        self.level
    }
}

impl Default for PrivilegeLevel {
    /// The minimum privilege level, zero.
    fn default() -> (r: Self)
        ensures
            r.spec_level() == 0,
    {
        PrivilegeLevel { level: 0 }
    }
}

/// The authentication flavors the protocol defines.
#[derive(Debug, Clone, Copy, PartialEq, Eq, Structural)]
pub enum AuthenticationType {
    /// Not set; only valid in authorization and accounting requests.
    NotSet,
    /// Interactive username and password exchange.
    Ascii,
    /// The Password Authentication Protocol (RFC 1334).
    Pap,
    /// The Challenge-Handshake Authentication Protocol (RFC 1334).
    Chap,
    /// Version 1 of Microsoft's CHAP extension.
    MsChap,
    /// Version 2 of Microsoft's CHAP extension.
    MsChapV2,
}

impl AuthenticationType {
    /// The type's byte value on the wire.
    pub open spec fn spec_byte(self) -> u8 {
        match self {
            AuthenticationType::NotSet => 0x00,
            AuthenticationType::Ascii => 0x01,
            AuthenticationType::Pap => 0x02,
            AuthenticationType::Chap => 0x03,
            AuthenticationType::MsChap => 0x05,
            AuthenticationType::MsChapV2 => 0x06,
        }
    }

    /// The minor protocol version this authentication flavor demands:
    /// ASCII needs the default version, every other set flavor needs
    /// version 1.
    pub open spec fn spec_required_minor_version(self) -> Option<MinorVersion> {
        match self {
            AuthenticationType::NotSet => None,
            AuthenticationType::Ascii => Some(MinorVersion::Default),
            _ => Some(MinorVersion::V1),
        }
    }

    /// The type's byte value on the wire.
    pub fn wire_byte(&self) -> (b: u8)
        ensures
            b == self.spec_byte(),
    {
        match self {
            AuthenticationType::NotSet => 0x00,
            AuthenticationType::Ascii => 0x01,
            AuthenticationType::Pap => 0x02,
            AuthenticationType::Chap => 0x03,
            AuthenticationType::MsChap => 0x05,
            AuthenticationType::MsChapV2 => 0x06,
        }
    }

    /// The minor protocol version this authentication flavor demands.
    pub fn required_minor_version(&self) -> (r: Option<MinorVersion>)
        ensures
            r == self.spec_required_minor_version(),
    {
        match self {
            AuthenticationType::NotSet => None,
            AuthenticationType::Ascii => Some(MinorVersion::Default),
            _ => Some(MinorVersion::V1),
        }
    }
}

/// The service on whose behalf authentication happens.
#[derive(Debug, Clone, Copy, PartialEq, Eq, Structural)]
pub enum AuthenticationService {
    /// No service (the RFC's NONE value).
    NoService,
    /// Regular login to a client device.
    Login,
    /// Request for a change in privileges, as with `su(1)`.
    Enable,
    /// The Point-to-Point Protocol.
    Ppp,
    /// The PT service, kept for backwards compatibility.
    Pt,
    /// A command of the r-command suite, such as `rlogin(1)`.
    RCommand,
    /// The X.25 suite.
    X25,
    /// The NetWare Asynchronous Support Interface.
    Nasi,
    /// A firewall proxy.
    FwProxy,
}

impl AuthenticationService {
    /// The service's byte value on the wire.
    pub open spec fn spec_byte(self) -> u8 {
        match self {
            AuthenticationService::NoService => 0x00,
            AuthenticationService::Login => 0x01,
            AuthenticationService::Enable => 0x02,
            AuthenticationService::Ppp => 0x03,
            AuthenticationService::Pt => 0x05,
            AuthenticationService::RCommand => 0x06,
            AuthenticationService::X25 => 0x07,
            AuthenticationService::Nasi => 0x08,
            AuthenticationService::FwProxy => 0x09,
        }
    }

    /// The service's byte value on the wire.
    pub fn wire_byte(&self) -> (b: u8)
        ensures
            b == self.spec_byte(),
    {
        match self {
            AuthenticationService::NoService => 0x00,
            AuthenticationService::Login => 0x01,
            AuthenticationService::Enable => 0x02,
            AuthenticationService::Ppp => 0x03,
            AuthenticationService::Pt => 0x05,
            AuthenticationService::RCommand => 0x06,
            AuthenticationService::X25 => 0x07,
            AuthenticationService::Nasi => 0x08,
            AuthenticationService::FwProxy => 0x09,
        }
    }
}

/// The authentication context sent in request bodies: privilege level,
/// authentication type and service.
#[derive(Debug, Clone, Copy, PartialEq, Eq, Structural)]
pub struct AuthenticationContext {
    /// The privilege level of the request.
    pub privilege_level: PrivilegeLevel,
    /// The authentication flavor.
    pub authentication_type: AuthenticationType,
    /// The service authenticated for.
    pub service: AuthenticationService,
}

impl AuthenticationContext {
    /// The three bytes of the context inside a request body: privilege
    /// level, authentication type, service.
    pub open spec fn encoding(self) -> Seq<u8> {
        seq![
            self.privilege_level.spec_level(),
            self.authentication_type.spec_byte(),
            self.service.spec_byte(),
        ]
    }

    /// Appends the context's three body bytes to `out`.
    pub fn serialize_header_information(&self, out: &mut Vec<u8>)
        ensures
            final(out)@ == old(out)@ + self.encoding(),
    {
        out.push(self.privilege_level.level());
        out.push(self.authentication_type.wire_byte());
        out.push(self.service.wire_byte());
        proof {
            assert(out@ =~= old(out)@ + self.encoding());
        }
    }
}

/// Information about the user a request concerns: user name, port and
/// remote address. The user name may be any UTF-8 text; port and remote
/// address must be printable ASCII. Each field is at most 255 bytes.
#[derive(Debug)]
pub struct UserInformation {
    user: Vec<u8>,
    port: FieldText,
    remote_address: FieldText,
}

/// The historical name of [`UserInformation`].
pub type ClientInformation = UserInformation;

impl UserInformation {
    /// The user name's bytes.
    pub closed spec fn spec_user(self) -> Seq<u8> {
        self.user@
    }

    /// The port's bytes.
    pub closed spec fn spec_port(self) -> Seq<u8> {
        self.port@
    }

    /// The remote address's bytes.
    pub closed spec fn spec_remote_address(self) -> Seq<u8> {
        self.remote_address@
    }

    /// Every field fits its one-byte length and the text fields hold
    /// printable ASCII.
    pub open spec fn valid(self) -> bool {
        &&& self.spec_user().len() <= 255
        &&& self.spec_port().len() <= 255
        &&& self.spec_remote_address().len() <= 255
        &&& text_bytes_ok(self.spec_port())
        &&& text_bytes_ok(self.spec_remote_address())
    }

    /// The three length bytes inside a request body's fixed part.
    pub open spec fn lengths_encoding(self) -> Seq<u8> {
        seq![
            self.spec_user().len() as u8,
            self.spec_port().len() as u8,
            self.spec_remote_address().len() as u8,
        ]
    }

    /// The variable part: user, port and remote address back to back.
    pub open spec fn body_encoding(self) -> Seq<u8> {
        self.spec_user() + self.spec_port() + self.spec_remote_address()
    }

    /// Bundles user information, refusing any field longer than 255 bytes.
    pub fn new(user: &str, port: FieldText, remote_address: FieldText) -> (r: Option<
        UserInformation,
    >)
        requires
            port.valid(),
            remote_address.valid(),
        ensures
            r is Some <==> user.spec_bytes().len() <= 255 && port@.len() <= 255
                && remote_address@.len() <= 255,
            r is Some ==> {
                &&& r.unwrap().spec_user() == user.spec_bytes()
                &&& r.unwrap().spec_port() == port@
                &&& r.unwrap().spec_remote_address() == remote_address@
                &&& r.unwrap().valid()
            },
    {
        let user_bytes = user.as_bytes();
        if user_bytes.len() <= 255 && port.len() <= 255 && remote_address.len() <= 255 {
            Some(
                UserInformation {
                    user: vstd::slice::slice_to_vec(user_bytes),
                    port,
                    remote_address,
                },
            )
        } else {
            None
        }
    }

    /// Bundles user information from raw user bytes and checked text
    /// fields, refusing any field longer than 255 bytes.
    pub fn from_parts(user: &[u8], port: FieldText, remote_address: FieldText) -> (r: Option<
        UserInformation,
    >)
        requires
            port.valid(),
            remote_address.valid(),
        ensures
            r is Some <==> user@.len() <= 255 && port@.len() <= 255 && remote_address@.len()
                <= 255,
            r is Some ==> {
                &&& r.unwrap().spec_user() == user@
                &&& r.unwrap().spec_port() == port@
                &&& r.unwrap().spec_remote_address() == remote_address@
                &&& r.unwrap().valid()
            },
    {
        if user.len() <= 255 && port.len() <= 255 && remote_address.len() <= 255 {
            Some(
                UserInformation {
                    user: vstd::slice::slice_to_vec(user),
                    port,
                    remote_address,
                },
            )
        } else {
            None
        }
    }

    /// The number of bytes the triple occupies in a request body: three
    /// length bytes plus the three fields.
    pub fn wire_size(&self) -> (n: usize)
        requires
            self.valid(),
        ensures
            n == 3 + self.spec_user().len() + self.spec_port().len()
                + self.spec_remote_address().len(),
            n == 3 + self.body_encoding().len(),
    {
        3 + self.user.len() + self.port.len() + self.remote_address.len()
    }

    /// Appends the three length bytes to `out`.
    pub fn serialize_header_information(&self, out: &mut Vec<u8>)
        requires
            self.valid(),
        ensures
            final(out)@ == old(out)@ + self.lengths_encoding(),
    {
        out.push(self.user.len() as u8);
        out.push(self.port.len() as u8);
        out.push(self.remote_address.len() as u8);
        proof {
            assert(out@ =~= old(out)@ + self.lengths_encoding());
        }
    }

    /// Appends user, port and remote address to `out`.
    pub fn serialize_body_information(&self, out: &mut Vec<u8>)
        ensures
            final(out)@ == old(out)@ + self.body_encoding(),
    {
        let mut user = self.user.clone();
        out.append(&mut user);
        let mut port = vstd::slice::slice_to_vec(self.port.as_bytes());
        out.append(&mut port);
        let mut remote = vstd::slice::slice_to_vec(self.remote_address.as_bytes());
        out.append(&mut remote);
        proof {
            assert(out@ =~= old(out)@ + self.body_encoding());
        }
    }
}

} // verus!
