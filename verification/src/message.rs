//! Messages on the wire: the codec capability a message type supplies, one
//! per concrete type, and a reference implementation whose binary form is
//! the raw bytes and whose JSON form is a hex string.

use vstd::prelude::*;
use vstd::slice::{slice_subrange, slice_to_vec};

use crate::hex::{hex_digit, hex_value, lemma_hex_digit_value, spec_hex_digit, spec_hex_value};
use crate::{Code, ConnectError, Encoding};

verus! {

/// The codec capability of one concrete message type: encoding and
/// decoding under both wire encodings, each pinned to the type's own
/// codec specification, plus the round-trip law every codec must obey.
///
/// Decode failures are `InvalidArgument`, encode failures `Internal`.
pub trait ConnectMessage: View + Sized {
    /// The value (as a view) that a byte sequence decodes to, if any.
    spec fn decode_view(encoding: Encoding, bytes: Seq<u8>) -> Option<Self::V>;

    /// The bytes a value (as a view) encodes to.
    spec fn encode_of(v: Self::V, encoding: Encoding) -> Seq<u8>;

    /// Decoding inverts encoding: the bytes any value encodes to decode
    /// back to that value. This is the codec round-trip law; it also makes
    /// re-encoding a decoded canonical message reproduce the original
    /// bytes (see `crate::dispatch::lemma_reencode_identity`).
    proof fn lemma_encode_decode(v: Self::V, encoding: Encoding)
        ensures
            Self::decode_view(encoding, Self::encode_of(v, encoding)) == Some(v),
    ;

    /// Encodes the message as JSON.
    fn encode_json(&self) -> (r: Result<Vec<u8>, ConnectError>)
        ensures
            match r {
                Ok(v) => v@ == Self::encode_of(self@, Encoding::Json),
                Err(e) => e.code == Code::Internal,
            },
    ;

    /// Encodes the message in the binary encoding.
    fn encode_proto(&self) -> (r: Result<Vec<u8>, ConnectError>)
        ensures
            match r {
                Ok(v) => v@ == Self::encode_of(self@, Encoding::Proto),
                Err(e) => e.code == Code::Internal,
            },
    ;

    /// Decodes a message from JSON bytes.
    fn decode_json(bytes: &[u8]) -> (r: Result<Self, ConnectError>)
        ensures
            match Self::decode_view(Encoding::Json, bytes@) {
                Some(mv) => r matches Ok(x) && x@ == mv,
                None => r matches Err(e) && e.code == Code::InvalidArgument,
            },
    ;

    /// Decodes a message from binary bytes.
    fn decode_proto(bytes: &[u8]) -> (r: Result<Self, ConnectError>)
        ensures
            match Self::decode_view(Encoding::Proto, bytes@) {
                Some(mv) => r matches Ok(x) && x@ == mv,
                None => r matches Err(e) && e.code == Code::InvalidArgument,
            },
    ;
}

/// The lowercase hex encoding of a byte sequence, two digits per byte.
pub open spec fn spec_hex_encoding(data: Seq<u8>) -> Seq<u8>
    decreases data.len(),
{
    if data.len() == 0 {
        Seq::empty()
    } else {
        seq![spec_hex_digit(data[0] / 16), spec_hex_digit(data[0] % 16)]
            + spec_hex_encoding(data.skip(1))
    }
}

/// The bytes a hex string decodes to: `None` on odd length or a non-digit.
pub open spec fn spec_hex_decoding(s: Seq<u8>) -> Option<Seq<u8>>
    decreases s.len(),
{
    if s.len() == 0 {
        Some(Seq::empty())
    } else if s.len() == 1 {
        None
    } else {
        match (spec_hex_value(s[0]), spec_hex_value(s[1])) {
            (Some(h), Some(l)) => match spec_hex_decoding(s.skip(2)) {
                Some(r) => Some(seq![(16 * h + l) as u8] + r),
                None => None,
            },
            _ => None,
        }
    }
}

/// Hex encoding distributes over concatenation.
pub proof fn lemma_hex_encoding_concat(a: Seq<u8>, b: Seq<u8>)
    ensures
        spec_hex_encoding(a + b) == spec_hex_encoding(a) + spec_hex_encoding(b),
    decreases a.len(),
{
    if a.len() == 0 {
        assert(a + b =~= b);
        assert(spec_hex_encoding(a) =~= Seq::<u8>::empty());
        assert(spec_hex_encoding(a) + spec_hex_encoding(b) =~= spec_hex_encoding(b));
    } else {
        assert((a + b)[0] == a[0]);
        assert((a + b).skip(1) =~= a.skip(1) + b);
        lemma_hex_encoding_concat(a.skip(1), b);
        assert(spec_hex_encoding(a + b) =~= spec_hex_encoding(a) + spec_hex_encoding(b));
    }
}

/// Hex decoding undoes hex encoding.
pub proof fn lemma_hex_round_trip(data: Seq<u8>)
    ensures
        spec_hex_decoding(spec_hex_encoding(data)) == Some(data),
    decreases data.len(),
{
    if data.len() > 0 {
        let b = data[0];
        lemma_hex_digit_value(b / 16);
        lemma_hex_digit_value(b % 16);
        let enc = spec_hex_encoding(data);
        let pair = seq![spec_hex_digit(b / 16), spec_hex_digit(b % 16)];
        assert(enc == pair + spec_hex_encoding(data.skip(1)));
        assert(enc.len() >= 2);
        assert(enc[0] == spec_hex_digit(b / 16));
        assert(enc[1] == spec_hex_digit(b % 16));
        assert(enc.skip(2) =~= spec_hex_encoding(data.skip(1)));
        lemma_hex_round_trip(data.skip(1));
        assert(16 * (b / 16) + (b % 16) == b);
        assert(seq![b] + data.skip(1) =~= data);
    }
}

/// Hex-encodes a byte slice.
fn hex_encode(data: &[u8]) -> (r: Vec<u8>)
    ensures
        r@ == spec_hex_encoding(data@),
{
    let n = data.len();
    let mut out: Vec<u8> = Vec::new();
    let mut i: usize = 0;
    proof {
        assert(data@.subrange(0, 0) =~= Seq::<u8>::empty());
        assert(out@ =~= spec_hex_encoding(data@.subrange(0, 0)));
    }
    while i < n
        invariant
            i <= n,
            n == data@.len(),
            out@ == spec_hex_encoding(data@.subrange(0, i as int)),
        decreases n - i,
    {
        let b = data[i];
        out.push(hex_digit(b / 16));
        out.push(hex_digit(b % 16));
        proof {
            let pre = data@.subrange(0, i as int);
            let one = seq![data@[i as int]];
            assert(data@.subrange(0, i + 1) =~= pre + one);
            lemma_hex_encoding_concat(pre, one);
            assert(one.skip(1) =~= Seq::<u8>::empty());
            assert(one[0] == b);
            assert(spec_hex_encoding(Seq::<u8>::empty()) =~= Seq::<u8>::empty());
            assert(spec_hex_encoding(one) =~= seq![
                spec_hex_digit(b / 16),
                spec_hex_digit(b % 16),
            ]);
            assert(out@ =~= spec_hex_encoding(data@.subrange(0, i + 1)));
        }
        i += 1;
    }
    assert(data@.subrange(0, n as int) =~= data@);
    out
}

/// Hex-decodes a byte slice; fails exactly when the specification does.
fn hex_decode(s: &[u8]) -> (r: Result<Vec<u8>, ()>)
    ensures
        match r {
            Ok(v) => spec_hex_decoding(s@) == Some(v@),
            Err(()) => spec_hex_decoding(s@) is None,
        },
{
    let n = s.len();
    let mut out: Vec<u8> = Vec::new();
    let mut i: usize = 0;
    proof {
        assert(s@.skip(0) =~= s@);
        match spec_hex_decoding(s@) {
            Some(r0) => {
                assert(out@ + r0 =~= r0);
            },
            None => {},
        }
    }
    while i < n
        invariant
            i <= n,
            n == s@.len(),
            spec_hex_decoding(s@) == match spec_hex_decoding(s@.skip(i as int)) {
                Some(r0) => Some(out@ + r0),
                None => None::<Seq<u8>>,
            },
        decreases n - i,
    {
        let ghost rem = s@.skip(i as int);
        assert(rem[0] == s@[i as int]);
        if n - i == 1 {
            assert(rem.len() == 1);
            assert(spec_hex_decoding(rem) is None);
            return Err(());
        }
        assert(rem[1] == s@[i + 1]);
        let h = hex_value(s[i]);
        let l = hex_value(s[i + 1]);
        match (h, l) {
            (Some(hv), Some(lv)) => {
                assert(hv < 16 && lv < 16);
                let decoded: u8 = 16 * hv + lv;
                let ghost prev = out@;
                out.push(decoded);
                proof {
                    assert(rem.skip(2) =~= s@.skip(i + 2));
                    match spec_hex_decoding(s@.skip(i + 2)) {
                        Some(rr) => {
                            assert(spec_hex_decoding(rem) == Some(seq![decoded] + rr));
                            assert(prev.push(decoded) + rr =~= prev + (seq![decoded] + rr));
                        },
                        None => {
                            assert(spec_hex_decoding(rem) is None);
                        },
                    }
                }
                i += 2;
            },
            _ => {
                assert(spec_hex_decoding(rem) is None);
                return Err(());
            },
        }
    }
    proof {
        assert(s@.skip(n as int) =~= Seq::<u8>::empty());
        assert(spec_hex_decoding(Seq::<u8>::empty()) == Some(Seq::<u8>::empty()));
        assert(out@ + Seq::<u8>::empty() =~= out@);
    }
    Ok(out)
}

/// A message that is raw bytes: the binary encoding is the bytes
/// themselves, the JSON encoding is a quoted lowercase hex string. The
/// reference codec of the crate, and the message type of byte-oriented
/// echo methods.
#[derive(Debug)]
pub struct EchoMessage {
    pub data: Vec<u8>,
}

impl View for EchoMessage {
    type V = Seq<u8>;

    open spec fn view(&self) -> Seq<u8> {
        self.data@
    }
}

impl ConnectMessage for EchoMessage {
    open spec fn decode_view(encoding: Encoding, bytes: Seq<u8>) -> Option<Seq<u8>> {
        match encoding {
            Encoding::Proto => Some(bytes),
            Encoding::Json => if bytes.len() >= 2 && bytes[0] == 0x22 && bytes[bytes.len() - 1]
                == 0x22 {
                spec_hex_decoding(bytes.subrange(1, bytes.len() - 1))
            } else {
                None
            },
        }
    }

    open spec fn encode_of(v: Seq<u8>, encoding: Encoding) -> Seq<u8> {
        match encoding {
            Encoding::Proto => v,
            Encoding::Json => seq![0x22 as u8] + spec_hex_encoding(v) + seq![0x22 as u8],
        }
    }

    proof fn lemma_encode_decode(v: Seq<u8>, encoding: Encoding) {
        match encoding {
            Encoding::Proto => {},
            Encoding::Json => {
                let enc = Self::encode_of(v, Encoding::Json);
                assert(enc.len() == spec_hex_encoding(v).len() + 2);
                assert(enc[0] == 0x22);
                assert(enc[enc.len() - 1] == 0x22);
                assert(enc.subrange(1, enc.len() - 1) =~= spec_hex_encoding(v));
                lemma_hex_round_trip(v);
            },
        }
    }

    fn encode_json(&self) -> (r: Result<Vec<u8>, ConnectError>)
        ensures
            r is Ok,
    {
        let mut v: Vec<u8> = Vec::new();
        v.push(0x22);
        let hexed = hex_encode(self.data.as_slice());
        crate::text::push_bytes(&mut v, hexed.as_slice());
        v.push(0x22);
        assert(v@ =~= Self::encode_of(self@, Encoding::Json));
        Ok(v)
    }

    fn encode_proto(&self) -> (r: Result<Vec<u8>, ConnectError>)
        ensures
            r is Ok,
    {
        Ok(slice_to_vec(self.data.as_slice()))
    }

    fn decode_json(bytes: &[u8]) -> (r: Result<Self, ConnectError>) {
        let n = bytes.len();
        if n < 2 {
            return Err(ConnectError::invalid_argument("invalid JSON message"));
        }
        if bytes[0] != 0x22 || bytes[n - 1] != 0x22 {
            return Err(ConnectError::invalid_argument("invalid JSON message"));
        }
        let mid = slice_subrange(bytes, 1, n - 1);
        match hex_decode(mid) {
            Ok(d) => Ok(EchoMessage { data: d }),
            Err(()) => Err(ConnectError::invalid_argument("invalid hex payload")),
        }
    }

    fn decode_proto(bytes: &[u8]) -> (r: Result<Self, ConnectError>) {
        Ok(EchoMessage { data: slice_to_vec(bytes) })
    }
}

} // verus!
