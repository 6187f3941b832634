//! Requests and responses of the framed protocol.
use vstd::prelude::*;

verus! {

/// A request: the two halves of its protocol key, and its body.
#[derive(Debug, PartialEq, Eq)]
pub struct ProtocolRequest {
    /// What stands before the colon of the key, such as `c`.
    pub namespace: String,
    /// What stands behind the colon of the key, such as `ping`.
    pub request_type: String,
    /// The body; its meaning depends on the key.
    pub body: Vec<u8>,
}

/// A response: a status, and a body.
#[derive(Debug, PartialEq, Eq)]
pub struct ProtocolResponse {
    /// Zero for success; 255 for a failure with a message in the body.
    pub status: u8,
    /// The body; its meaning depends on the key and the status.
    pub body: Vec<u8>,
}

/// What a request holds.
#[verifier::ext_equal]
pub struct RequestView {
    pub namespace: Seq<char>,
    pub request_type: Seq<char>,
    pub body: Seq<u8>,
}

/// What a response holds.
#[verifier::ext_equal]
pub struct ResponseView {
    pub status: u8,
    pub body: Seq<u8>,
}

impl View for ProtocolRequest {
    type V = RequestView;

    open spec fn view(&self) -> RequestView {
        RequestView {
            namespace: self.namespace@,
            request_type: self.request_type@,
            body: self.body@,
        }
    }
}

impl View for ProtocolResponse {
    type V = ResponseView;

    open spec fn view(&self) -> ResponseView {
        ResponseView { status: self.status, body: self.body@ }
    }
}

fn copied(bytes: &Vec<u8>) -> (copy: Vec<u8>)
    ensures
        copy@ == bytes@,
{
    let mut copy: Vec<u8> = Vec::new();
    copy.extend_from_slice(bytes.as_slice());
    assert(copy@ =~= bytes@);
    copy
}

impl Clone for ProtocolRequest {
    fn clone(&self) -> (copy: Self)
        ensures
            copy@ == self@,
    {
        ProtocolRequest {
            namespace: self.namespace.clone(),
            request_type: self.request_type.clone(),
            body: copied(&self.body),
        }
    }
}

impl Clone for ProtocolResponse {
    fn clone(&self) -> (copy: Self)
        ensures
            copy@ == self@,
    {
        ProtocolResponse { status: self.status, body: copied(&self.body) }
    }
}

impl Default for ProtocolRequest {
    fn default() -> (request: Self)
        ensures
            request@ == (RequestView {
                namespace: Seq::empty(),
                request_type: Seq::empty(),
                body: Seq::empty(),
            }),
    {
        ProtocolRequest { namespace: String::new(), request_type: String::new(), body: Vec::new() }
    }
}

impl Default for ProtocolResponse {
    fn default() -> (response: Self)
        ensures
            response@ == (ResponseView { status: 0, body: Seq::empty() }),
    {
        ProtocolResponse { status: 0, body: Vec::new() }
    }
}

impl RequestView {
    /// The protocol key: namespace, colon, type.
    pub open spec fn key(self) -> Seq<char> {
        self.namespace.push(':') + self.request_type
    }
}

impl ProtocolResponse {
    /// Whether the response reports success.
    pub fn is_success(&self) -> (success: bool)
        ensures
            success == (self@.status == 0),
    {
        self.status == 0
    }
}

impl ProtocolRequest {
    /// The protocol key: namespace, colon, type.
    pub fn key(&self) -> (key: String)
        ensures
            key@ == self@.key(),
    {
        let mut key = self.namespace.clone();
        key.push(':');
        key.append(self.request_type.as_str());
        key
    }
}

} // verus!
