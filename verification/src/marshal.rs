//! Conversion between the native host representation and the boundary
//! records.
//!
//! Outbound, every string field of a [`crate::model::Host`] is encoded
//! to its UTF-8 bytes.  Inbound, byte strings supplied by a plugin are
//! decoded and copied into freshly owned storage, so no reference into
//! plugin memory survives the call; decoding rejects ill-formed UTF-8
//! instead of propagating it.

use vstd::prelude::*;
use vstd::string::StrSliceExecFns;
use vstd::string::StringSliceAdditionalSpecFns;
use vstd::utf8::decode_utf8;
use vstd::utf8::encode_utf8;
use vstd::utf8::encode_utf8_decode_utf8;
use vstd::utf8::encode_utf8_valid_utf8;
use vstd::utf8::valid_utf8;

use crate::abi;
use crate::model::Host;
use crate::model::HostView;
use crate::model::OptionsMap;
use crate::abi::MarshalError;

verus! {

#[verifier::external_type_specification]
#[verifier::external_body]
pub struct ExUtf8Error(core::str::Utf8Error);

/// Relies on `core::str::from_utf8`: it succeeds exactly on
/// well-formed UTF-8 and returns the text whose encoding is the input.
pub assume_specification[ core::str::from_utf8 ](v: &[u8]) -> (r: Result<
    &str,
    core::str::Utf8Error,
>)
    ensures
        match r {
            Ok(s) => s.spec_bytes() == v@,
            Err(_) => !valid_utf8(v@),
        },
;

/// Decodes one boundary byte string into owned text.
pub fn decode_field(bytes: &[u8]) -> (r: Result<String, MarshalError>)
    ensures
        match r {
            Ok(s) => valid_utf8(bytes@) && s@ == decode_utf8(bytes@),
            Err(e) => e == MarshalError::InvalidUtf8 && !valid_utf8(bytes@),
        },
{
    match core::str::from_utf8(bytes) {
        Ok(s) => {
            proof {
                encode_utf8_valid_utf8(s@);
                encode_utf8_decode_utf8(s@);
            }
            Ok(s.to_owned())
        },
        Err(_) => Err(MarshalError::InvalidUtf8),
    }
}

/// Byte encoding of an optional text field; an absent value stays
/// absent rather than becoming sentinel bytes.
pub open spec fn encoded_opt(o: Option<Seq<char>>) -> Option<Seq<u8>> {
    match o {
        Some(s) => Some(encode_utf8(s)),
        None => None,
    }
}

/// Every byte string of the record is well-formed UTF-8.
pub open spec fn record_decodes(r: abi::HostView) -> bool {
    &&& valid_utf8(r.name)
    &&& match r.host_name {
        Some(b) => valid_utf8(b),
        None => true,
    }
    &&& match r.user {
        Some(b) => valid_utf8(b),
        None => true,
    }
}

/// The native value described by a decodable record, given the
/// contents of the options map its handle names.
pub open spec fn decoded_record(r: abi::HostView, other: Map<Seq<char>, Seq<char>>) -> HostView {
    HostView {
        name: decode_utf8(r.name),
        host_name: match r.host_name {
            Some(b) => Some(decode_utf8(b)),
            None => None,
        },
        user: match r.user {
            Some(b) => Some(decode_utf8(b)),
            None => None,
        },
        other,
    }
}

/// The boundary record describing a native host, with `other_id` the
/// slot of the options map exposed for it.
pub open spec fn encoded_record(h: HostView, other_id: int) -> abi::HostView {
    abi::HostView {
        name: encode_utf8(h.name),
        host_name: encoded_opt(h.host_name),
        user: encoded_opt(h.user),
        other: other_id,
    }
}

/// Encodes a native host into its boundary record; `other` is the
/// handle under which the host's unrecognized options are exposed.
pub fn encode_host(host: &Host, other: abi::OptionsMapHandle) -> (r: abi::Host)
    ensures
        r@ == encoded_record(host@, other.id()),
{
    let name = host.name.as_str().as_bytes_vec();
    let host_name = match &host.host_name {
        Some(s) => Some(s.as_str().as_bytes_vec()),
        None => None,
    };
    let user = match &host.user {
        Some(s) => Some(s.as_str().as_bytes_vec()),
        None => None,
    };
    let r = abi::Host { name, host_name, user, other };
    proof {
        assert(r@ =~= encoded_record(host@, other.id()));
    }
    r
}

/// Decodes a boundary record into a freshly owned native host; `other`
/// is the options map the record's handle was found to name, and its
/// entries are copied, not aliased.
pub fn decode_host(record: &abi::Host, other: &OptionsMap) -> (r: Result<Host, MarshalError>)
    requires
        other.wf(),
    ensures
        match r {
            Ok(h) => {
                &&& record_decodes(record@)
                &&& h@ == decoded_record(record@, other@)
                &&& h.wf()
            },
            Err(e) => e == MarshalError::InvalidUtf8 && !record_decodes(record@),
        },
{
    let name = match decode_field(record.name.as_slice()) {
        Ok(s) => s,
        Err(e) => {
            return Err(e);
        },
    };
    let host_name = match &record.host_name {
        Some(b) => {
            proof {
                assert(record@.host_name == Some(b@));
            }
            match decode_field(b.as_slice()) {
                Ok(s) => Some(s),
                Err(e) => {
                    return Err(e);
                },
            }
        },
        None => None,
    };
    let user = match &record.user {
        Some(b) => {
            proof {
                assert(record@.user == Some(b@));
            }
            match decode_field(b.as_slice()) {
                Ok(s) => Some(s),
                Err(e) => {
                    return Err(e);
                },
            }
        },
        None => None,
    };
    let h = Host { name, host_name, user, other: other.duplicate() };
    proof {
        assert(h@ =~= decoded_record(record@, other@));
    }
    Ok(h)
}

/// Marshalling a native host out to its boundary record and back in
/// reproduces it exactly, whatever its field values; the record always
/// decodes, and decoding inverts encoding on every field.
pub proof fn lemma_host_round_trip(h: HostView, other_id: int)
    ensures
        record_decodes(encoded_record(h, other_id)),
        decoded_record(encoded_record(h, other_id), h.other) == h,
{
    encode_utf8_valid_utf8(h.name);
    encode_utf8_decode_utf8(h.name);
    if let Some(s) = h.host_name {
        encode_utf8_valid_utf8(s);
        encode_utf8_decode_utf8(s);
    }
    if let Some(s) = h.user {
        encode_utf8_valid_utf8(s);
        encode_utf8_decode_utf8(s);
    }
}

} // verus!
