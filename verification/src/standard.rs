//! The header names that the protocol standard defines.

use crate::name::HeaderName;
use vstd::prelude::*;
use vstd::string::*;

verus! {

/// A header name of the standard. Each stands for its canonical text, so that no
/// caller has to spell a standard name out.
#[derive(Debug, Clone, Copy, PartialEq, Eq, Structural)]
pub enum StandardHeader {
    /// `Accept`
    Accept,
    /// `Accept-Credentials`
    AcceptCredentials,
    /// `Accept-Encoding`
    AcceptEncoding,
    /// `Accept-Language`
    AcceptLanguage,
    /// `Accept-Ranges`
    AcceptRanges,
    /// `Allow`
    Allow,
    /// `Authentication-Info`
    AuthenticationInfo,
    /// `Authorization`
    Authorization,
    /// `Bandwidth`
    Bandwidth,
    /// `Blocksize`
    Blocksize,
    /// `Cache-Control`
    CacheControl,
    /// `Connection`
    Connection,
    /// `Connection-Credentials`
    ConnectionCredentials,
    /// `Content-Base`
    ContentBase,
    /// `Content-Encoding`
    ContentEncoding,
    /// `Content-Language`
    ContentLanguage,
    /// `Content-Length`
    ContentLength,
    /// `Content-Location`
    ContentLocation,
    /// `Content-Type`
    ContentType,
    /// `CSeq`
    CSeq,
    /// `Date`
    Date,
    /// `Expires`
    Expires,
    /// `From`
    From,
    /// `If-Match`
    IfMatch,
    /// `If-Modified-Since`
    IfModifiedSince,
    /// `If-None-Match`
    IfNoneMatch,
    /// `Last-Modified`
    LastModified,
    /// `Location`
    Location,
    /// `Media-Properties`
    MediaProperties,
    /// `Media-Range`
    MediaRange,
    /// `MTag`
    MTag,
    /// `Notify-Reason`
    NotifyReason,
    /// `Pipelined-Requests`
    PipelinedRequests,
    /// `Proxy-Authenticate`
    ProxyAuthenticate,
    /// `Proxy-Authentication-Info`
    ProxyAuthenticationInfo,
    /// `Proxy-Authorization`
    ProxyAuthorization,
    /// `Proxy-Require`
    ProxyRequire,
    /// `Proxy-Supported`
    ProxySupported,
    /// `Public`
    Public,
    /// `Range`
    Range,
    /// `Referrer`
    Referrer,
    /// `Request-Status`
    RequestStatus,
    /// `Require`
    Require,
    /// `Retry-After`
    RetryAfter,
    /// `RTP-Info`
    RtpInfo,
    /// `Scale`
    Scale,
    /// `Seek-Style`
    SeekStyle,
    /// `Server`
    Server,
    /// `Session`
    Session,
    /// `Speed`
    Speed,
    /// `Supported`
    Supported,
    /// `Terminate-Reason`
    TerminateReason,
    /// `Timestamp`
    Timestamp,
    /// `Transport`
    Transport,
    /// `Unsupported`
    Unsupported,
    /// `User-Agent`
    UserAgent,
    /// `Via`
    Via,
    /// `WWW-Authenticate`
    WwwAuthenticate,
}

impl StandardHeader {
    /// The canonical text of the name.
    pub open spec fn text(self) -> Seq<char> {
        match self {
            StandardHeader::Accept => "Accept"@,
            StandardHeader::AcceptCredentials => "Accept-Credentials"@,
            StandardHeader::AcceptEncoding => "Accept-Encoding"@,
            StandardHeader::AcceptLanguage => "Accept-Language"@,
            StandardHeader::AcceptRanges => "Accept-Ranges"@,
            StandardHeader::Allow => "Allow"@,
            StandardHeader::AuthenticationInfo => "Authentication-Info"@,
            StandardHeader::Authorization => "Authorization"@,
            StandardHeader::Bandwidth => "Bandwidth"@,
            StandardHeader::Blocksize => "Blocksize"@,
            StandardHeader::CacheControl => "Cache-Control"@,
            StandardHeader::Connection => "Connection"@,
            StandardHeader::ConnectionCredentials => "Connection-Credentials"@,
            StandardHeader::ContentBase => "Content-Base"@,
            StandardHeader::ContentEncoding => "Content-Encoding"@,
            StandardHeader::ContentLanguage => "Content-Language"@,
            StandardHeader::ContentLength => "Content-Length"@,
            StandardHeader::ContentLocation => "Content-Location"@,
            StandardHeader::ContentType => "Content-Type"@,
            StandardHeader::CSeq => "CSeq"@,
            StandardHeader::Date => "Date"@,
            StandardHeader::Expires => "Expires"@,
            StandardHeader::From => "From"@,
            StandardHeader::IfMatch => "If-Match"@,
            StandardHeader::IfModifiedSince => "If-Modified-Since"@,
            StandardHeader::IfNoneMatch => "If-None-Match"@,
            StandardHeader::LastModified => "Last-Modified"@,
            StandardHeader::Location => "Location"@,
            StandardHeader::MediaProperties => "Media-Properties"@,
            StandardHeader::MediaRange => "Media-Range"@,
            StandardHeader::MTag => "MTag"@,
            StandardHeader::NotifyReason => "Notify-Reason"@,
            StandardHeader::PipelinedRequests => "Pipelined-Requests"@,
            StandardHeader::ProxyAuthenticate => "Proxy-Authenticate"@,
            StandardHeader::ProxyAuthenticationInfo => "Proxy-Authentication-Info"@,
            StandardHeader::ProxyAuthorization => "Proxy-Authorization"@,
            StandardHeader::ProxyRequire => "Proxy-Require"@,
            StandardHeader::ProxySupported => "Proxy-Supported"@,
            StandardHeader::Public => "Public"@,
            StandardHeader::Range => "Range"@,
            StandardHeader::Referrer => "Referrer"@,
            StandardHeader::RequestStatus => "Request-Status"@,
            StandardHeader::Require => "Require"@,
            StandardHeader::RetryAfter => "Retry-After"@,
            StandardHeader::RtpInfo => "RTP-Info"@,
            StandardHeader::Scale => "Scale"@,
            StandardHeader::SeekStyle => "Seek-Style"@,
            StandardHeader::Server => "Server"@,
            StandardHeader::Session => "Session"@,
            StandardHeader::Speed => "Speed"@,
            StandardHeader::Supported => "Supported"@,
            StandardHeader::TerminateReason => "Terminate-Reason"@,
            StandardHeader::Timestamp => "Timestamp"@,
            StandardHeader::Transport => "Transport"@,
            StandardHeader::Unsupported => "Unsupported"@,
            StandardHeader::UserAgent => "User-Agent"@,
            StandardHeader::Via => "Via"@,
            StandardHeader::WwwAuthenticate => "WWW-Authenticate"@,
        }
    }

    /// The canonical text of the name, which is ASCII.
    pub fn as_str(self) -> (s: &'static str)
        ensures
            s@ == self.text(),
            is_ascii(s),
    {
        match self {
            StandardHeader::Accept => {
                proof {
                    reveal_strlit("Accept");
                }
                "Accept"
            },
            StandardHeader::AcceptCredentials => {
                proof {
                    reveal_strlit("Accept-Credentials");
                }
                "Accept-Credentials"
            },
            StandardHeader::AcceptEncoding => {
                proof {
                    reveal_strlit("Accept-Encoding");
                }
                "Accept-Encoding"
            },
            StandardHeader::AcceptLanguage => {
                proof {
                    reveal_strlit("Accept-Language");
                }
                "Accept-Language"
            },
            StandardHeader::AcceptRanges => {
                proof {
                    reveal_strlit("Accept-Ranges");
                }
                "Accept-Ranges"
            },
            StandardHeader::Allow => {
                proof {
                    reveal_strlit("Allow");
                }
                "Allow"
            },
            StandardHeader::AuthenticationInfo => {
                proof {
                    reveal_strlit("Authentication-Info");
                }
                "Authentication-Info"
            },
            StandardHeader::Authorization => {
                proof {
                    reveal_strlit("Authorization");
                }
                "Authorization"
            },
            StandardHeader::Bandwidth => {
                proof {
                    reveal_strlit("Bandwidth");
                }
                "Bandwidth"
            },
            StandardHeader::Blocksize => {
                proof {
                    reveal_strlit("Blocksize");
                }
                "Blocksize"
            },
            StandardHeader::CacheControl => {
                proof {
                    reveal_strlit("Cache-Control");
                }
                "Cache-Control"
            },
            StandardHeader::Connection => {
                proof {
                    reveal_strlit("Connection");
                }
                "Connection"
            },
            StandardHeader::ConnectionCredentials => {
                proof {
                    reveal_strlit("Connection-Credentials");
                }
                "Connection-Credentials"
            },
            StandardHeader::ContentBase => {
                proof {
                    reveal_strlit("Content-Base");
                }
                "Content-Base"
            },
            StandardHeader::ContentEncoding => {
                proof {
                    reveal_strlit("Content-Encoding");
                }
                "Content-Encoding"
            },
            StandardHeader::ContentLanguage => {
                proof {
                    reveal_strlit("Content-Language");
                }
                "Content-Language"
            },
            StandardHeader::ContentLength => {
                proof {
                    reveal_strlit("Content-Length");
                }
                "Content-Length"
            },
            StandardHeader::ContentLocation => {
                proof {
                    reveal_strlit("Content-Location");
                }
                "Content-Location"
            },
            StandardHeader::ContentType => {
                proof {
                    reveal_strlit("Content-Type");
                }
                "Content-Type"
            },
            StandardHeader::CSeq => {
                proof {
                    reveal_strlit("CSeq");
                }
                "CSeq"
            },
            StandardHeader::Date => {
                proof {
                    reveal_strlit("Date");
                }
                "Date"
            },
            StandardHeader::Expires => {
                proof {
                    reveal_strlit("Expires");
                }
                "Expires"
            },
            StandardHeader::From => {
                proof {
                    reveal_strlit("From");
                }
                "From"
            },
            StandardHeader::IfMatch => {
                proof {
                    reveal_strlit("If-Match");
                }
                "If-Match"
            },
            StandardHeader::IfModifiedSince => {
                proof {
                    reveal_strlit("If-Modified-Since");
                }
                "If-Modified-Since"
            },
            StandardHeader::IfNoneMatch => {
                proof {
                    reveal_strlit("If-None-Match");
                }
                "If-None-Match"
            },
            StandardHeader::LastModified => {
                proof {
                    reveal_strlit("Last-Modified");
                }
                "Last-Modified"
            },
            StandardHeader::Location => {
                proof {
                    reveal_strlit("Location");
                }
                "Location"
            },
            StandardHeader::MediaProperties => {
                proof {
                    reveal_strlit("Media-Properties");
                }
                "Media-Properties"
            },
            StandardHeader::MediaRange => {
                proof {
                    reveal_strlit("Media-Range");
                }
                "Media-Range"
            },
            StandardHeader::MTag => {
                proof {
                    reveal_strlit("MTag");
                }
                "MTag"
            },
            StandardHeader::NotifyReason => {
                proof {
                    reveal_strlit("Notify-Reason");
                }
                "Notify-Reason"
            },
            StandardHeader::PipelinedRequests => {
                proof {
                    reveal_strlit("Pipelined-Requests");
                }
                "Pipelined-Requests"
            },
            StandardHeader::ProxyAuthenticate => {
                proof {
                    reveal_strlit("Proxy-Authenticate");
                }
                "Proxy-Authenticate"
            },
            StandardHeader::ProxyAuthenticationInfo => {
                proof {
                    reveal_strlit("Proxy-Authentication-Info");
                }
                "Proxy-Authentication-Info"
            },
            StandardHeader::ProxyAuthorization => {
                proof {
                    reveal_strlit("Proxy-Authorization");
                }
                "Proxy-Authorization"
            },
            StandardHeader::ProxyRequire => {
                proof {
                    reveal_strlit("Proxy-Require");
                }
                "Proxy-Require"
            },
            StandardHeader::ProxySupported => {
                proof {
                    reveal_strlit("Proxy-Supported");
                }
                "Proxy-Supported"
            },
            StandardHeader::Public => {
                proof {
                    reveal_strlit("Public");
                }
                "Public"
            },
            StandardHeader::Range => {
                proof {
                    reveal_strlit("Range");
                }
                "Range"
            },
            StandardHeader::Referrer => {
                proof {
                    reveal_strlit("Referrer");
                }
                "Referrer"
            },
            StandardHeader::RequestStatus => {
                proof {
                    reveal_strlit("Request-Status");
                }
                "Request-Status"
            },
            StandardHeader::Require => {
                proof {
                    reveal_strlit("Require");
                }
                "Require"
            },
            StandardHeader::RetryAfter => {
                proof {
                    reveal_strlit("Retry-After");
                }
                "Retry-After"
            },
            StandardHeader::RtpInfo => {
                proof {
                    reveal_strlit("RTP-Info");
                }
                "RTP-Info"
            },
            StandardHeader::Scale => {
                proof {
                    reveal_strlit("Scale");
                }
                "Scale"
            },
            StandardHeader::SeekStyle => {
                proof {
                    reveal_strlit("Seek-Style");
                }
                "Seek-Style"
            },
            StandardHeader::Server => {
                proof {
                    reveal_strlit("Server");
                }
                "Server"
            },
            StandardHeader::Session => {
                proof {
                    reveal_strlit("Session");
                }
                "Session"
            },
            StandardHeader::Speed => {
                proof {
                    reveal_strlit("Speed");
                }
                "Speed"
            },
            StandardHeader::Supported => {
                proof {
                    reveal_strlit("Supported");
                }
                "Supported"
            },
            StandardHeader::TerminateReason => {
                proof {
                    reveal_strlit("Terminate-Reason");
                }
                "Terminate-Reason"
            },
            StandardHeader::Timestamp => {
                proof {
                    reveal_strlit("Timestamp");
                }
                "Timestamp"
            },
            StandardHeader::Transport => {
                proof {
                    reveal_strlit("Transport");
                }
                "Transport"
            },
            StandardHeader::Unsupported => {
                proof {
                    reveal_strlit("Unsupported");
                }
                "Unsupported"
            },
            StandardHeader::UserAgent => {
                proof {
                    reveal_strlit("User-Agent");
                }
                "User-Agent"
            },
            StandardHeader::Via => {
                proof {
                    reveal_strlit("Via");
                }
                "Via"
            },
            StandardHeader::WwwAuthenticate => {
                proof {
                    reveal_strlit("WWW-Authenticate");
                }
                "WWW-Authenticate"
            },
        }
    }

    /// The name itself, written canonically. Nothing is copied.
    pub fn name(self) -> (name: HeaderName)
        ensures
            name@ == self.text(),
    {
        HeaderName::from_static_str_unchecked(self.as_str())
    }
}

} // verus!
