//! Admitting a request: whose it is and what it asks for.
//!
//! A request is admitted on the credentials in its `Authorization` header,
//! in the Basic scheme, and then served by its path.

use vstd::prelude::*;
use vstd::slice::slice_subrange;
use vstd::slice::slice_to_vec;
use vstd::string::StringSliceAdditionalSpecFns;
use vstd::utf8::valid_utf8;

verus! {

/// The byte `:`, which parts the user's name from the password.
pub const COLON: u8 = 58;

/// The byte `?`, which ends a request's path.
pub const QUESTION: u8 = 63;

/// The bytes of `Basic `, the scheme's name and the space after it.
pub open spec fn scheme() -> Seq<u8> {
    seq![66u8, 97u8, 115u8, 105u8, 99u8, 32u8]
}

/// The bytes of `/`, the path of the terminal's page.
pub open spec fn index_path() -> Seq<u8> {
    seq![47u8]
}

/// The bytes of `/ws`, the path of the terminal's connection.
pub open spec fn terminal_path() -> Seq<u8> {
    seq![47u8, 119u8, 115u8]
}

/// What a request is answered with.
#[derive(Clone, Copy, Debug, PartialEq, Eq, Structural)]
pub enum Reply {
    /// Ask for credentials.
    Unauthorized,
    /// Serve the terminal's page.
    Index,
    /// Upgrade the connection and start a session.
    Upgrade,
    /// Nothing is served under this path.
    NotFound,
}

/// Base64 text as the standard alphabet with padding decodes it, where it
/// does.
pub uninterp spec fn base64_decoding(input: Seq<u8>) -> Option<Seq<u8>>;

/// The bytes that an optional vector holds.
pub open spec fn bytes_of(value: Option<Vec<u8>>) -> Option<Seq<u8>> {
    match value {
        Some(bytes) => Some(bytes@),
        None => None,
    }
}

/// The name and password that a pair of vectors holds.
pub open spec fn pair_of(value: Option<(Vec<u8>, Vec<u8>)>) -> Option<(Seq<u8>, Seq<u8>)> {
    match value {
        Some((user, password)) => Some((user@, password@)),
        None => None,
    }
}

/// The bytes of an optional string.
pub open spec fn header_bytes(header: Option<&str>) -> Option<Seq<u8>> {
    match header {
        Some(text) => Some(text.spec_bytes()),
        None => None,
    }
}

/// Whether the decoder takes an input of this length: its own length
/// arithmetic must not overflow.
pub open spec fn decoder_takes(len: int) -> bool {
    len + 7 <= usize::MAX
}

/// `base64::decode`: the decoding of the input in the standard alphabet
/// with padding, or nothing where the input is no such text. On inputs so
/// long that rounding their length up to the next multiple of eight
/// overflows, the decoder panics; they are left out.
#[verifier::external_body]
fn base64_decode(input: &[u8]) -> (decoded: Option<Vec<u8>>)
    requires
        decoder_takes(input@.len() as int),
    ensures
        bytes_of(decoded) == base64_decoding(input@),
{
    base64::decode(input).ok()
}

/// `std::str::from_utf8`, asked only whether it succeeds: it does on
/// exactly the byte strings that are well-formed UTF-8.
#[verifier::external_body]
fn is_utf8(bytes: &[u8]) -> (valid: bool)
    ensures
        valid == valid_utf8(bytes@),
{
    std::str::from_utf8(bytes).is_ok()
}

/// The place of the first `byte` in `text`, or the length of `text` if it
/// holds none.
pub open spec fn first_of(text: Seq<u8>, byte: u8) -> int
    decreases text.len(),
{
    if text.len() == 0 || text[0] == byte {
        0
    } else {
        1 + first_of(text.drop_first(), byte)
    }
}

/// The name and the password in `name:password`. Text without a colon
/// holds neither; what follows a second colon belongs to neither.
pub open spec fn name_and_password(text: Seq<u8>) -> Option<(Seq<u8>, Seq<u8>)> {
    let colon = first_of(text, COLON);
    if colon == text.len() {
        None
    } else {
        let rest = text.skip(colon + 1);
        Some((text.take(colon), rest.take(first_of(rest, COLON))))
    }
}

/// The credentials in decoded text: those of `name:password` where the
/// whole text is well-formed UTF-8, none otherwise.
pub open spec fn credentials_in(decoded: Seq<u8>) -> Option<(Seq<u8>, Seq<u8>)> {
    if valid_utf8(decoded) {
        name_and_password(decoded)
    } else {
        None
    }
}

/// Whether a header's value names the Basic scheme.
pub open spec fn has_scheme(header: Seq<u8>) -> bool {
    header.len() >= scheme().len() && header.take(scheme().len() as int) == scheme()
}

/// The credentials that an `Authorization` header offers.
pub open spec fn offered(header: Option<Seq<u8>>) -> Option<(Seq<u8>, Seq<u8>)> {
    match header {
        Some(value) => if has_scheme(value) && decoder_takes(value.len() - scheme().len()) {
            match base64_decoding(value.skip(scheme().len() as int)) {
                Some(decoded) => credentials_in(decoded),
                None => None,
            }
        } else {
            None
        },
        None => None,
    }
}

/// The path of a request's target: what stands before the first `?`.
pub open spec fn path_of(uri: Seq<u8>) -> Seq<u8> {
    uri.take(first_of(uri, QUESTION))
}

/// What a request is answered with, given whether its sender is admitted.
pub open spec fn reply_of(admitted: bool, uri: Seq<u8>) -> Reply {
    if !admitted {
        Reply::Unauthorized
    } else if path_of(uri) == index_path() {
        Reply::Index
    } else if path_of(uri) == terminal_path() {
        Reply::Upgrade
    } else {
        Reply::NotFound
    }
}

/// `first_of` is the only place before which `byte` does not occur and at
/// which it does, or the text ends.
pub proof fn lemma_first_of_is_first(text: Seq<u8>, byte: u8, i: int)
    ensures
        0 <= first_of(text, byte) <= text.len(),
        first_of(text, byte) < text.len() ==> text[first_of(text, byte)] == byte,
        0 <= i < first_of(text, byte) ==> text[i] != byte,
        (0 <= i <= text.len() && (i == text.len() || text[i] == byte) && forall|k: int|
            0 <= k < i ==> text[k] != byte) ==> i == first_of(text, byte),
    decreases text.len(),
{
    if text.len() > 0 && text[0] != byte {
        let rest = text.drop_first();
        lemma_first_of_is_first(rest, byte, i - 1);
        if 0 < i <= text.len() && (i == text.len() || text[i] == byte) && (forall|k: int|
            0 <= k < i ==> text[k] != byte) {
            assert forall|k: int| 0 <= k < i - 1 implies rest[k] != byte by {
                assert(rest[k] == text[k + 1]);
            }
        }
    }
}

/// The name is what stands before the first colon and the password what
/// stands between the first colon and the second, or the end: neither
/// holds a colon, and the text starts with the name, a colon and the
/// password. Text without a colon holds no credentials.
pub proof fn lemma_name_and_password(text: Seq<u8>)
    ensures
        name_and_password(text) is None <==> !text.contains(COLON),
        name_and_password(text) matches Some((name, password)) ==> {
            let read = name.len() + 1 + password.len();
            &&& !name.contains(COLON)
            &&& !password.contains(COLON)
            &&& read <= text.len()
            &&& text.take(read as int) == name + seq![COLON] + password
            &&& read == text.len() || text[read as int] == COLON
        },
{
    let colon = first_of(text, COLON);
    lemma_first_of_is_first(text, COLON, 0);
    if colon == text.len() {
        if text.contains(COLON) {
            let k = choose|k: int| 0 <= k < text.len() && text[k] == COLON;
            lemma_first_of_is_first(text, COLON, k);
        }
    } else {
        assert(text[colon] == COLON);
        let rest = text.skip(colon + 1);
        let end = first_of(rest, COLON);
        lemma_first_of_is_first(rest, COLON, 0);
        let name = text.take(colon);
        let password = rest.take(end);
        if name.contains(COLON) {
            let k = choose|k: int| 0 <= k < name.len() && name[k] == COLON;
            lemma_first_of_is_first(text, COLON, k);
        }
        if password.contains(COLON) {
            let k = choose|k: int| 0 <= k < password.len() && password[k] == COLON;
            lemma_first_of_is_first(rest, COLON, k);
        }
        let read = name.len() + 1 + password.len();
        assert(text.take(read as int) =~= name + seq![COLON] + password);
        if read < text.len() {
            assert(text[read as int] == rest[end]);
        }
    }
}

/// What follows the first `?` has no part in the answer to a request.
pub proof fn lemma_query_is_ignored(admitted: bool, uri: Seq<u8>)
    ensures
        reply_of(admitted, uri) == reply_of(admitted, path_of(uri)),
{
    let end = first_of(uri, QUESTION);
    let path = path_of(uri);
    lemma_first_of_is_first(uri, QUESTION, 0);
    assert forall|k: int| 0 <= k < path.len() implies path[k] != QUESTION by {
        lemma_first_of_is_first(uri, QUESTION, k);
    }
    lemma_first_of_is_first(path, QUESTION, path.len() as int);
    assert(path_of(path) =~= path);
}

/// Finds the first `byte` in `text`.
fn find(text: &[u8], byte: u8) -> (i: usize)
    ensures
        i == first_of(text@, byte),
        i <= text@.len(),
{
    let mut i: usize = 0;
    while i < text.len() && text[i] != byte
        invariant
            i <= text@.len(),
            forall|k: int| 0 <= k < i ==> text@[k] != byte,
        decreases text@.len() - i,
    {
        i = i + 1;
    }
    proof {
        lemma_first_of_is_first(text@, byte, i as int);
    }
    i
}

/// Whether two byte strings are the same.
fn same_bytes(a: &[u8], b: &[u8]) -> (same: bool)
    ensures
        same == (a@ == b@),
{
    if a.len() != b.len() {
        return false;
    }
    let mut i: usize = 0;
    while i < a.len()
        invariant
            i <= a@.len(),
            a@.len() == b@.len(),
            forall|k: int| 0 <= k < i ==> a@[k] == b@[k],
        decreases a@.len() - i,
    {
        if a[i] != b[i] {
            return false;
        }
        i = i + 1;
    }
    assert(a@ =~= b@);
    true
}

/// Reads the name and the password out of decoded credentials.
pub fn read_credentials(decoded: &[u8]) -> (r: Option<(Vec<u8>, Vec<u8>)>)
    ensures
        pair_of(r) == credentials_in(decoded@),
{
    if !is_utf8(decoded) {
        return None;
    }
    let colon = find(decoded, COLON);
    if colon == decoded.len() {
        return None;
    }
    let rest = slice_subrange(decoded, colon + 1, decoded.len());
    let end = find(rest, COLON);
    let user = slice_to_vec(slice_subrange(decoded, 0, colon));
    let password = slice_to_vec(slice_subrange(rest, 0, end));
    assert(rest@ =~= decoded@.skip(colon + 1));
    assert(user@ =~= decoded@.take(colon as int));
    assert(password@ =~= rest@.take(end as int));
    Some((user, password))
}

/// Reads the credentials that an `Authorization` header offers, if the
/// request has such a header and it offers any.
pub fn get_auth(header: Option<&str>) -> (r: Option<(Vec<u8>, Vec<u8>)>)
    ensures
        pair_of(r) == offered(header_bytes(header)),
{
    let value = match header {
        Some(text) => text.as_bytes(),
        None => {
            return None;
        },
    };
    if value.len() < 6 || value[0] != 66 || value[1] != 97 || value[2] != 115 || value[3] != 105
        || value[4] != 99 || value[5] != 32 {
        assert(!has_scheme(value@)) by {
            if value@.len() >= 6 {
                let head = value@.take(6);
                assert(head[0] == value@[0] && head[1] == value@[1] && head[2] == value@[2]
                    && head[3] == value@[3] && head[4] == value@[4] && head[5] == value@[5]);
            }
        }
        return None;
    }
    assert(has_scheme(value@)) by {
        assert(value@.take(6) =~= scheme());
    }
    let encoded = slice_subrange(value, 6, value.len());
    assert(encoded@ =~= value@.skip(6));
    if encoded.len() > usize::MAX - 7 {
        return None;
    }
    match base64_decode(encoded) {
        Some(decoded) => read_credentials(decoded.as_slice()),
        None => None,
    }
}

/// Whether a request offers exactly this name and this password.
pub fn login(header: Option<&str>, user: &str, password: &str) -> (admitted: bool)
    ensures
        admitted == (offered(header_bytes(header)) == Some(
            (user.spec_bytes(), password.spec_bytes()),
        )),
{
    match get_auth(header) {
        Some((name, word)) => {
            let same_name = same_bytes(name.as_slice(), user.as_bytes());
            let same_word = same_bytes(word.as_slice(), password.as_bytes());
            same_name && same_word
        },
        None => false,
    }
}

/// Chooses the answer to a request for `uri` from a sender that is
/// admitted or not.
pub fn reply(admitted: bool, uri: &str) -> (r: Reply)
    ensures
        r == reply_of(admitted, uri.spec_bytes()),
{
    if !admitted {
        return Reply::Unauthorized;
    }
    let target = uri.as_bytes();
    let end = find(target, QUESTION);
    let path = slice_subrange(target, 0, end);
    assert(path@ =~= path_of(target@));
    if end == 1 && path[0] == 47 {
        assert(path@ =~= index_path());
        Reply::Index
    } else if end == 3 && path[0] == 47 && path[1] == 119 && path[2] == 115 {
        assert(path@ =~= terminal_path());
        Reply::Upgrade
    } else {
        assert(path@ != index_path()) by {
            if path@ == index_path() {
                assert(path@.len() == 1 && path@[0] == index_path()[0]);
            }
        }
        assert(path@ != terminal_path()) by {
            if path@ == terminal_path() {
                assert(path@.len() == 3 && path@[0] == terminal_path()[0] && path@[1]
                    == terminal_path()[1] && path@[2] == terminal_path()[2]);
            }
        }
        Reply::NotFound
    }
}

/// Answers a request: without the configured credentials it is asked for
/// them, with them it is served by its path.
pub fn handle_request(header: Option<&str>, uri: &str, user: &str, password: &str) -> (r: Reply)
    ensures
        r == reply_of(
            offered(header_bytes(header)) == Some((user.spec_bytes(), password.spec_bytes())),
            uri.spec_bytes(),
        ),
{
    reply(login(header, user, password), uri)
}

} // verus!
