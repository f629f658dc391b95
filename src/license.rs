//! Licenses, their canonical signing input, signatures, validation and the
//! base64 transport envelope.
use vstd::prelude::*;
use vstd::string::StringExecFns;

use crate::date::{ymd_before, Date};
use crate::hexfmt::{hex_of, is_lower_hex, to_hex};
use crate::meta::Metadata;
use crate::primitives::{
    base64_decode, base64_decoded_of, base64_encode, base64_of, hmac_sha256, hmac_sha256_of,
    json_string, json_string_of, parse_iso_date, parsed_date_of, push_char, today_utc,
    utf8_string,
};

verus! {

/// Why a license could not be produced or was not accepted.
#[derive(Clone, Copy, Debug, PartialEq, Eq, Structural)]
pub enum LicenseError {
    /// The token is not base64, not UTF-8 or not a signed license.
    InvalidEncoding,
    /// A date of the license does not read as `YYYY-MM-DD`.
    InvalidDateFormat,
    /// Today lies outside the license's validity window.
    Expired,
    /// The signature does not match the license under the secret.
    InvalidSignature,
    /// The secret cannot serve as an HMAC key.
    KeyMaterialError,
}

impl LicenseError {
    /// A one-line description for people: one fixed text per kind.
    pub fn message(&self) -> (r: &'static str)
        ensures
            *self == LicenseError::InvalidEncoding ==> r@ == "invalid license encoding"@,
            *self == LicenseError::InvalidDateFormat ==> r@ == "invalid date format"@,
            *self == LicenseError::Expired ==> r@ == "License expired or not yet active"@,
            *self == LicenseError::InvalidSignature ==> r@ == "Invalid signature!"@,
            *self == LicenseError::KeyMaterialError ==> r@ == "invalid signing secret"@,
    {
        match self {
            LicenseError::InvalidEncoding => "invalid license encoding",
            LicenseError::InvalidDateFormat => "invalid date format",
            LicenseError::Expired => "License expired or not yet active",
            LicenseError::InvalidSignature => "Invalid signature!",
            LicenseError::KeyMaterialError => "invalid signing secret",
        }
    }
}

/// The payload that a signature attests to.
#[derive(Clone, Debug)]
pub struct License {
    pub id: Option<String>,
    pub meta: Metadata,
    pub valid_from: String,
    pub valid_until: String,
}

/// A license with its hex-encoded HMAC-SHA256 signature.
#[derive(Clone, Debug)]
pub struct SignedLicense {
    pub license: License,
    pub signature: String,
}

/// A newline before each metadata value, in key order.
pub open spec fn newline_values(s: Seq<(Seq<char>, Seq<char>)>) -> Seq<char>
    decreases s.len(),
{
    if s.len() == 0 {
        Seq::empty()
    } else {
        newline_values(s.drop_last()) + seq!['\n'] + s.last().1
    }
}

/// The canonical signing input: valid-from, valid-until, id and then each
/// metadata value in key order, joined by newlines.
pub open spec fn signing_input(
    from: Seq<char>,
    until: Seq<char>,
    id: Seq<char>,
    meta: Seq<(Seq<char>, Seq<char>)>,
) -> Seq<char> {
    from + seq!['\n'] + until + seq!['\n'] + id + newline_values(meta)
}

/// The lowercase hex HMAC-SHA256 tag of a signing input under a secret.
pub open spec fn signature_of(secret: Seq<char>, input: Seq<char>) -> Seq<char> {
    hex_of(hmac_sha256_of(secret, input))
}

/// `"key":"value"` pairs joined by commas, in key order.
pub open spec fn meta_json(s: Seq<(Seq<char>, Seq<char>)>) -> Seq<char>
    decreases s.len(),
{
    if s.len() == 0 {
        Seq::empty()
    } else {
        let pair = json_string_of(s.last().0) + seq![':'] + json_string_of(s.last().1);
        if s.len() == 1 {
            pair
        } else {
            meta_json(s.drop_last()) + seq![','] + pair
        }
    }
}

/// The JSON text of a signed license: fields labelled, in a fixed order.
pub open spec fn signed_json(
    id: Seq<char>,
    meta: Seq<(Seq<char>, Seq<char>)>,
    from: Seq<char>,
    until: Seq<char>,
    signature: Seq<char>,
) -> Seq<char> {
    "{\"license\":{\"id\":"@ + json_string_of(id) + ",\"meta\":{"@ + meta_json(meta)
        + "},\"valid_from\":"@ + json_string_of(from) + ",\"valid_until\":"@
        + json_string_of(until) + "},\"signature\":"@ + json_string_of(signature) + "}"@
}

impl License {
    /// The canonical signing input of a license that has an id.
    pub open spec fn spec_signing_input(&self) -> Seq<char> {
        signing_input(self.valid_from@, self.valid_until@, self.id->0@, self.meta@)
    }

    /// The signature this license has under `secret`.
    pub open spec fn spec_signature(&self, secret: Seq<char>) -> Seq<char> {
        signature_of(secret, self.spec_signing_input())
    }

    /// The token text (before base64) of this license signed under `secret`.
    pub open spec fn spec_json(&self, secret: Seq<char>) -> Seq<char> {
        signed_json(
            self.id->0@,
            self.meta@,
            self.valid_from@,
            self.valid_until@,
            self.spec_signature(secret),
        )
    }

    /// The token of this license signed under `secret`.
    pub open spec fn spec_token(&self, secret: Seq<char>) -> Seq<char> {
        base64_of(self.spec_json(secret))
    }

    /// The token of this license with its id replaced by `id`, signed under
    /// `secret`.
    pub open spec fn spec_token_with_id(&self, id: Seq<char>, secret: Seq<char>) -> Seq<char> {
        let input = signing_input(self.valid_from@, self.valid_until@, id, self.meta@);
        base64_of(
            signed_json(
                id,
                self.meta@,
                self.valid_from@,
                self.valid_until@,
                signature_of(secret, input),
            ),
        )
    }

    /// The canonical signing input.
    pub fn signing_text(&self) -> (r: String)
        requires
            self.id is Some,
        ensures
            r@ == self.spec_signing_input(),
    {
        let mut msg = String::new();
        msg.append(self.valid_from.as_str());
        push_char(&mut msg, '\n');
        msg.append(self.valid_until.as_str());
        push_char(&mut msg, '\n');
        match &self.id {
            Some(id) => msg.append(id.as_str()),
            None => {},
        }
        let ghost head = msg@;
        let n = self.meta.len();
        let mut i: usize = 0;
        while i < n
            invariant
                n == self.meta@.len(),
                i <= n,
                msg@ == head + newline_values(self.meta@.subrange(0, i as int)),
            decreases n - i,
        {
            let (_, v) = self.meta.entry(i);
            push_char(&mut msg, '\n');
            msg.append(v.as_str());
            proof {
                let s = self.meta@.subrange(0, i as int + 1);
                assert(s.drop_last() =~= self.meta@.subrange(0, i as int));
            }
            i = i + 1;
        }
        assert(self.meta@.subrange(0, n as int) =~= self.meta@);
        msg
    }

    /// The hex HMAC-SHA256 signature of the canonical signing input under
    /// `secret`.
    pub fn sign(&self, secret: String) -> (r: Result<String, LicenseError>)
        requires
            self.id is Some,
        ensures
            r is Ok,
            r matches Ok(sig) ==> sig@ == self.spec_signature(secret@) && sig@.len() == 64
                && forall|i: int| 0 <= i < sig@.len() ==> is_lower_hex(#[trigger] sig@[i]),
    {
        let msg = self.signing_text();
        match hmac_sha256(secret.as_str(), msg.as_str()) {
            Some(tag) => Ok(to_hex(tag.as_slice())),
            None => Err(LicenseError::KeyMaterialError),
        }
    }
}

/// What validating `sl` under `secret` gives on the day `today`.
pub open spec fn validation_outcome(
    sl: SignedLicense,
    secret: Seq<char>,
    today: (int, int, int),
) -> Result<(), LicenseError> {
    let from = parsed_date_of(sl.license.valid_from@);
    let until = parsed_date_of(sl.license.valid_until@);
    if from is None || until is None {
        Err(LicenseError::InvalidDateFormat)
    } else if ymd_before(today, from->0) || ymd_before(until->0, today) {
        Err(LicenseError::Expired)
    } else if sl.license.id is None {
        Err(LicenseError::InvalidEncoding)
    } else if sl.signature@ != sl.license.spec_signature(secret) {
        Err(LicenseError::InvalidSignature)
    } else {
        Ok(())
    }
}

/// What decoding a token gives: the JSON text it carries, or why it carries none.
pub open spec fn decoded_text(token: Seq<char>) -> Result<Seq<char>, LicenseError> {
    match base64_decoded_of(token) {
        None => Err(LicenseError::InvalidEncoding),
        Some(b) => if vstd::utf8::valid_utf8(b) {
            Ok(vstd::utf8::decode_utf8(b))
        } else {
            Err(LicenseError::InvalidEncoding)
        },
    }
}

/// Whether two texts are equal, looking at every character of equal-length
/// texts whatever the first difference.
pub fn same_text(a: &str, b: &str) -> (r: bool)
    ensures
        r == (a@ == b@),
{
    let n = a.unicode_len();
    if n != b.unicode_len() {
        return false;
    }
    let mut diff: u32 = 0;
    let mut i: usize = 0;
    assert(a@.subrange(0, 0) =~= b@.subrange(0, 0));
    while i < n
        invariant
            n == a@.len(),
            n == b@.len(),
            i <= n,
            (diff == 0) == (a@.subrange(0, i as int) == b@.subrange(0, i as int)),
        decreases n - i,
    {
        let ca = a.get_char(i);
        let cb = b.get_char(i);
        proof {
            assert(a@.subrange(0, i as int + 1) =~= a@.subrange(0, i as int).push(ca));
            assert(b@.subrange(0, i as int + 1) =~= b@.subrange(0, i as int).push(cb));
            if a@.subrange(0, i as int + 1) == b@.subrange(0, i as int + 1) {
                assert(a@.subrange(0, i as int + 1)[i as int] == ca);
                assert(b@.subrange(0, i as int + 1)[i as int] == cb);
                assert(a@.subrange(0, i as int) =~= a@.subrange(0, i as int + 1).drop_last());
                assert(b@.subrange(0, i as int) =~= b@.subrange(0, i as int + 1).drop_last());
            }
        }
        let x = ca as u32;
        let y = cb as u32;
        let step = x ^ y;
        let next = diff | step;
        assert((step == 0) == (x == y)) by (bit_vector)
            requires
                step == x ^ y,
        ;
        assert((next == 0) == (diff == 0 && step == 0)) by (bit_vector)
            requires
                next == diff | step,
        ;
        assert((x == y) == (ca == cb));
        diff = next;
        i = i + 1;
    }
    assert(a@.subrange(0, n as int) =~= a@);
    assert(b@.subrange(0, n as int) =~= b@);
    diff == 0
}

/// Appends the JSON string literal of `text`.
fn append_json_string(out: &mut String, text: &str)
    ensures
        final(out)@ == old(out)@ + json_string_of(text@),
{
    let q = json_string(text).unwrap();
    out.append(q.as_str());
}

impl License {
    /// The JSON text of this license with `signature`.
    pub fn signed_json_text(&self, signature: &String) -> (r: String)
        requires
            self.id is Some,
        ensures
            r@ == signed_json(
                self.id->0@,
                self.meta@,
                self.valid_from@,
                self.valid_until@,
                signature@,
            ),
    {
        let mut out = String::new();
        out.append("{\"license\":{\"id\":");
        match &self.id {
            Some(id) => append_json_string(&mut out, id.as_str()),
            None => {},
        }
        out.append(",\"meta\":{");
        let ghost head = out@;
        let n = self.meta.len();
        let mut i: usize = 0;
        while i < n
            invariant
                n == self.meta@.len(),
                i <= n,
                out@ == head + meta_json(self.meta@.subrange(0, i as int)),
            decreases n - i,
        {
            let (k, v) = self.meta.entry(i);
            if i > 0 {
                push_char(&mut out, ',');
            }
            append_json_string(&mut out, k.as_str());
            push_char(&mut out, ':');
            append_json_string(&mut out, v.as_str());
            proof {
                let s = self.meta@.subrange(0, i as int + 1);
                assert(s.drop_last() =~= self.meta@.subrange(0, i as int));
                if i == 0 {
                    assert(self.meta@.subrange(0, 0) =~= Seq::<(Seq<char>, Seq<char>)>::empty());
                }
            }
            i = i + 1;
        }
        assert(self.meta@.subrange(0, n as int) =~= self.meta@);
        out.append("},\"valid_from\":");
        append_json_string(&mut out, self.valid_from.as_str());
        out.append(",\"valid_until\":");
        append_json_string(&mut out, self.valid_until.as_str());
        out.append("},\"signature\":");
        append_json_string(&mut out, signature.as_str());
        out.append("}");
        out
    }

    /// Signs the license under `secret` and encodes license and signature as
    /// a token: base64 of the JSON text of the signed license.
    pub fn hash(&self, secret: String) -> (r: Result<String, LicenseError>)
        requires
            self.id is Some,
        ensures
            r is Ok,
            r matches Ok(t) ==> t@ == self.spec_token(secret@),
    {
        let sig = match self.sign(secret) {
            Ok(s) => s,
            Err(e) => return Err(e),
        };
        let text = self.signed_json_text(&sig);
        Ok(base64_encode(text.as_str()))
    }
}

/// The JSON text that a token carries: base64-decoded, then read as UTF-8.
pub fn decode_token(encoded: &str) -> (r: Result<String, LicenseError>)
    ensures
        decoded_text(encoded@) is Ok <==> r is Ok,
        r matches Ok(t) ==> decoded_text(encoded@) == Ok::<Seq<char>, LicenseError>(t@),
        r matches Err(e) ==> decoded_text(encoded@) == Err::<Seq<char>, LicenseError>(e),
        forall|t: Seq<char>| #[trigger] base64_of(t) == encoded@ ==> (r matches Ok(s) && s@ == t),
{
    let bytes = match base64_decode(encoded) {
        Some(b) => b,
        None => return Err(LicenseError::InvalidEncoding),
    };
    match utf8_string(bytes) {
        Some(s) => Ok(s),
        None => Err(LicenseError::InvalidEncoding),
    }
}

impl SignedLicense {
    /// Checks the license on the day `today`: both dates read as `YYYY-MM-DD`,
    /// `today` lies in the inclusive window, and the signature is the one the
    /// license has under `secret`.
    pub fn validate_at(&self, secret: String, today: Date) -> (r: Result<(), LicenseError>)
        ensures
            r == validation_outcome(*self, secret@, today.ymd()),
    {
        let from = match parse_iso_date(self.license.valid_from.as_str()) {
            Some(d) => d,
            None => return Err(LicenseError::InvalidDateFormat),
        };
        let until = match parse_iso_date(self.license.valid_until.as_str()) {
            Some(d) => d,
            None => return Err(LicenseError::InvalidDateFormat),
        };
        if today.is_before(&from) || until.is_before(&today) {
            return Err(LicenseError::Expired);
        }
        if self.license.id.is_none() {
            return Err(LicenseError::InvalidEncoding);
        }
        let sig = match self.license.sign(secret) {
            Ok(s) => s,
            Err(e) => return Err(e),
        };
        if same_text(sig.as_str(), self.signature.as_str()) {
            Ok(())
        } else {
            Err(LicenseError::InvalidSignature)
        }
    }

    /// Checks the license on today's date in UTC.
    pub fn validate(&self, secret: String) -> (r: Result<(), LicenseError>)
        ensures
            exists|today: Date| today.wf() && r == validation_outcome(*self, secret@, today.ymd()),
    {
        let today = today_utc();
        self.validate_at(secret, today)
    }
}

/// Both dates of `l` read and its window holds `today`.
pub open spec fn in_window(l: License, today: (int, int, int)) -> bool {
    &&& parsed_date_of(l.valid_from@) is Some
    &&& parsed_date_of(l.valid_until@) is Some
    &&& !ymd_before(today, parsed_date_of(l.valid_from@)->0)
    &&& !ymd_before(parsed_date_of(l.valid_until@)->0, today)
}

} // verus!
