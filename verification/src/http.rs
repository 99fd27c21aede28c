//! A plain model of the HTTP responses the publish endpoint saves and replays.
//!
//! The idempotency store persists a response verbatim (status code, headers,
//! body) so that a retried request can be answered byte-identically. This
//! module holds that representation and the redirect responses the handlers
//! build.

use vstd::prelude::*;

verus! {

use vstd::string::StringExecFns;

/// One response header, name and value.
#[derive(Debug)]
pub struct HttpHeader {
    pub name: String,
    pub value: String,
}

/// The mathematical image of a header: both strings as character sequences.
#[verifier::ext_equal]
pub struct HttpHeaderModel {
    pub name: Seq<char>,
    pub value: Seq<char>,
}

impl View for HttpHeader {
    type V = HttpHeaderModel;

    open spec fn view(&self) -> HttpHeaderModel {
        HttpHeaderModel { name: self.name@, value: self.value@ }
    }
}

impl HttpHeader {
    /// An exact copy; unlike a derived `Clone`, its effect is specified.
    pub fn duplicate(&self) -> (r: Self)
        ensures
            r == *self,
    {
        HttpHeader { name: self.name.clone(), value: self.value.clone() }
    }
}

/// An HTTP response as the idempotency store records it: status code,
/// headers, and body, enough to replay the response verbatim.
#[derive(Debug)]
pub struct SavedResponse {
    pub status_code: u16,
    pub headers: Vec<HttpHeader>,
    pub body: Vec<u8>,
}

/// The mathematical image of a saved response.
#[verifier::ext_equal]
pub struct SavedResponseModel {
    pub status_code: u16,
    pub headers: Seq<HttpHeaderModel>,
    pub body: Seq<u8>,
}

impl View for SavedResponse {
    type V = SavedResponseModel;

    open spec fn view(&self) -> SavedResponseModel {
        SavedResponseModel {
            status_code: self.status_code,
            headers: self.headers@.map_values(|h: HttpHeader| h@),
            body: self.body@,
        }
    }
}

impl SavedResponse {
    /// An exact copy; replaying a saved response hands out a copy so the
    /// stored record stays untouched.
    pub fn duplicate(&self) -> (r: Self)
        ensures
            r@ == self@,
    {
        let mut headers: Vec<HttpHeader> = Vec::new();
        let mut i: usize = 0;
        while i < self.headers.len()
            invariant
                0 <= i <= self.headers.len(),
                headers@ == self.headers@.subrange(0, i as int),
            decreases self.headers.len() - i,
        {
            headers.push(self.headers[i].duplicate());
            assert(headers@ =~= self.headers@.subrange(0, i as int + 1));
            i += 1;
        }
        assert(headers@ =~= self.headers@);
        let r = SavedResponse {
            status_code: self.status_code,
            headers,
            body: vstd::slice::slice_to_vec(self.body.as_slice()),
        };
        assert(r@.headers =~= self@.headers);
        r
    }
}

/// The spec-level bare response: a status code with no headers and no
/// body.
pub open spec fn status_only_model(status_code: u16) -> SavedResponseModel {
    SavedResponseModel { status_code, headers: Seq::empty(), body: Seq::empty() }
}

/// A bare response: just a status code.
pub fn status_only(status_code: u16) -> (r: SavedResponse)
    ensures
        r@ == status_only_model(status_code),
{
    let r = SavedResponse { status_code, headers: Vec::new(), body: Vec::new() };
    assert(r@ =~= status_only_model(status_code));
    r
}

/// The spec-level redirect response: status 303 with a single `Location`
/// header naming `location`, and an empty body.
pub open spec fn see_other_model(location: Seq<char>) -> SavedResponseModel {
    SavedResponseModel {
        status_code: 303,
        headers: seq![HttpHeaderModel { name: "Location"@, value: location }],
        body: Seq::empty(),
    }
}

/// A redirect ("see other") response to `location`, as the handlers return
/// after a form submission.
pub fn see_other(location: &str) -> (r: SavedResponse)
    ensures
        r@ == see_other_model(location@),
{
    let mut headers: Vec<HttpHeader> = Vec::new();
    headers.push(HttpHeader {
        name: String::from_str("Location"),
        value: location.to_owned(),
    });
    let r = SavedResponse { status_code: 303, headers, body: Vec::new() };
    assert(r@.headers =~= see_other_model(location@).headers);
    assert(r@ =~= see_other_model(location@));
    r
}

} // verus!
