//! Validated DNS names and the identities built on them.

use vstd::prelude::*;
use vstd::string::StringSliceAdditionalSpecFns;

verus! {

/// Whether webpki accepts the bytes as a DNS reference identifier.
///
/// The rules are those of RFC 5280 section 7.2, with underscores allowed; they
/// are webpki's to state, so the library only names the verdict.
pub uninterp spec fn dns_name_is_valid(name: Seq<u8>) -> bool;

/// The bytes that may occur in a DNS name: letters, digits, `-`, `_` and `.`.
pub open spec fn is_name_byte(b: u8) -> bool {
    ||| 0x61 <= b <= 0x7a
    ||| 0x41 <= b <= 0x5a
    ||| 0x30 <= b <= 0x39
    ||| b == 0x2d
    ||| b == 0x5f
    ||| b == 0x2e
}

/// What every accepted name looks like: between 1 and 253 bytes, all of them
/// name bytes.
pub open spec fn has_name_shape(name: Seq<u8>) -> bool {
    &&& 1 <= name.len() <= 253
    &&& forall|i: int| 0 <= i < name.len() ==> is_name_byte(#[trigger] name[i])
}

/// An ASCII upper-case letter becomes its lower-case form; any other byte is
/// kept.
pub open spec fn lower_byte(b: u8) -> u8 {
    if 0x41 <= b <= 0x5a {
        (b + 0x20) as u8
    } else {
        b
    }
}

/// The name with every ASCII upper-case letter in lower case.
pub open spec fn lower(name: Seq<u8>) -> Seq<u8> {
    Seq::new(name.len(), |i: int| lower_byte(name[i]))
}

/// Whether the last byte is a dot.
pub open spec fn ends_with_dot(name: Seq<u8>) -> bool {
    name.len() > 0 && name[name.len() - 1] == 0x2e
}

/// The inputs from which a `Name` can be made: syntactically valid DNS names
/// that are not written as absolute names.
pub open spec fn name_accepts(input: Seq<u8>) -> bool {
    !ends_with_dot(input) && dns_name_is_valid(input)
}

/// Asks webpki whether `name` is a valid DNS reference identifier
/// (`webpki::DNSNameRef::try_from_ascii`).
///
/// The verdict is webpki's. What is claimed beside it is read off its
/// validator: it refuses the empty input, inputs longer than 253 bytes, and any
/// byte other than a letter, a digit, `-`, `_` or `.`.
#[verifier::external_body]
fn valid_dns_id(name: &[u8]) -> (ok: bool)
    ensures
        ok == dns_name_is_valid(name@),
        ok ==> has_name_shape(name@),
{
    webpki::DNSNameRef::try_from_ascii(name).is_ok()
}

/// Turns ASCII bytes into text (`String::from_utf8`): each byte becomes the
/// character of the same number.
#[verifier::external_body]
fn ascii_text(bytes: Vec<u8>) -> (text: String)
    requires
        forall|i: int| 0 <= i < bytes@.len() ==> #[trigger] bytes@[i] < 0x80,
    ensures
        text@.len() == bytes@.len(),
        forall|i: int| 0 <= i < bytes@.len() ==> #[trigger] text@[i] as int == bytes@[i] as int,
{
    match String::from_utf8(bytes) {
        Ok(text) => text,
        Err(_) => String::new(),
    }
}

/// The error for an input that is not a usable DNS name.
#[derive(Clone, Copy, Debug, PartialEq, Eq, Structural)]
pub struct InvalidName;

/// An endpoint's identity: a syntactically valid DNS name, kept in lower case.
#[derive(Debug, Hash)]
pub struct Name {
    bytes: Vec<u8>,
}

impl View for Name {
    type V = Seq<u8>;

    closed spec fn view(&self) -> Seq<u8> {
        self.bytes@
    }
}

/// Copies `bytes` with every ASCII upper-case letter in lower case.
pub fn to_lower(bytes: &[u8]) -> (out: Vec<u8>)
    ensures
        out@ == lower(bytes@),
{
    let mut out: Vec<u8> = Vec::with_capacity(bytes.len());
    let mut i: usize = 0;
    while i < bytes.len()
        invariant
            i <= bytes.len(),
            out@.len() == i,
            forall|j: int| 0 <= j < i ==> out@[j] == lower_byte(#[trigger] bytes@[j]),
        decreases bytes.len() - i,
    {
        let b: u8 = bytes[i];
        if 0x41 <= b && b <= 0x5a {
            out.push(b + 0x20);
        } else {
            out.push(b);
        }
        i += 1;
    }
    assert(out@ =~= lower(bytes@));
    out
}

/// Whether two byte strings hold the same bytes.
pub fn same_bytes(a: &[u8], b: &[u8]) -> (same: bool)
    ensures
        same == (a@ == b@),
{
    if a.len() != b.len() {
        return false;
    }
    let mut i: usize = 0;
    while i < a.len()
        invariant
            i <= a.len(),
            a.len() == b.len(),
            forall|j: int| 0 <= j < i ==> a@[j] == b@[j],
        decreases a.len() - i,
    {
        if a[i] != b[i] {
            return false;
        }
        i += 1;
    }
    assert(a@ =~= b@);
    true
}

/// A copy of `bytes`.
pub fn copy_bytes(bytes: &[u8]) -> (out: Vec<u8>)
    ensures
        out@ == bytes@,
{
    let mut out: Vec<u8> = Vec::with_capacity(bytes.len());
    let mut i: usize = 0;
    while i < bytes.len()
        invariant
            i <= bytes.len(),
            out@ == bytes@.take(i as int),
        decreases bytes.len() - i,
    {
        out.push(bytes[i]);
        assert(bytes@.take(i + 1) =~= bytes@.take(i as int).push(bytes@[i as int]));
        i += 1;
    }
    assert(bytes@.take(bytes@.len() as int) =~= bytes@);
    out
}

impl Name {
    /// What holds of every name: it has the shape of a DNS name, is written in
    /// lower case and does not end in a dot.
    pub open spec fn is_name(name: Seq<u8>) -> bool {
        &&& has_name_shape(name)
        &&& lower(name) == name
        &&& !ends_with_dot(name)
    }

    #[verifier::type_invariant]
    closed spec fn well_formed(&self) -> bool {
        Self::is_name(self.bytes@)
    }

    /// Makes a name from ASCII bytes: `Ok` exactly for the valid DNS names that
    /// do not end in a dot, and then the input in lower case.
    pub fn from_bytes(input: &[u8]) -> (made: Result<Name, InvalidName>)
        ensures
            made is Ok <==> name_accepts(input@),
            made matches Ok(name) ==> name@ == lower(input@) && Name::is_name(name@),
    {
        let n = input.len();
        if n > 0 && input[n - 1] == 0x2e {
            return Err(InvalidName);
        }
        if !valid_dns_id(input) {
            return Err(InvalidName);
        }
        let bytes = to_lower(input);
        proof {
            lemma_lower_keeps_shape(input@);
        }
        Ok(Name { bytes })
    }

    /// Makes a name from text, as `from_bytes` does from its bytes.
    pub fn from_str(s: &str) -> (made: Result<Name, InvalidName>)
        ensures
            made is Ok <==> name_accepts(s.spec_bytes()),
            made matches Ok(name) ==> name@ == lower(s.spec_bytes()) && Name::is_name(name@),
    {
        Name::from_bytes(s.as_bytes())
    }

    /// The name as text, in lower case.
    pub fn to_string(&self) -> (text: String)
        ensures
            text@.len() == self@.len(),
            forall|i: int| 0 <= i < self@.len() ==> #[trigger] text@[i] as int == self@[i] as int,
    {
        proof {
            use_type_invariant(self);
        }
        ascii_text(copy_bytes(self.bytes.as_slice()))
    }

    /// The name's bytes.
    pub fn as_bytes(&self) -> (bytes: &[u8])
        ensures
            bytes@ == self@,
            Name::is_name(bytes@),
    {
        proof {
            use_type_invariant(self);
        }
        self.bytes.as_slice()
    }
}

impl Clone for Name {
    /// A second name of the same bytes.
    fn clone(&self) -> (copy: Self)
        ensures
            copy@ == self@,
    {
        proof {
            use_type_invariant(self);
        }
        Name { bytes: copy_bytes(self.bytes.as_slice()) }
    }
}

impl PartialEq for Name {
    /// Names are equal where their bytes are. As they are kept in lower case,
    /// names that differ in case only are equal.
    fn eq(&self, other: &Self) -> (equal: bool) {
        same_bytes(self.bytes.as_slice(), other.bytes.as_slice())
    }
}

impl vstd::std_specs::cmp::PartialEqSpecImpl for Name {
    open spec fn obeys_eq_spec() -> bool {
        true
    }

    open spec fn eq_spec(&self, other: &Self) -> bool {
        self@ == other@
    }
}

impl Eq for Name {

}

/// Lower-casing keeps the shape of a name, changes nothing when applied again,
/// and neither adds nor removes a final dot.
pub proof fn lemma_lower_keeps_shape(name: Seq<u8>)
    ensures
        has_name_shape(name) ==> has_name_shape(lower(name)),
        lower(lower(name)) == lower(name),
        ends_with_dot(lower(name)) == ends_with_dot(name),
{
    assert(lower(lower(name)) =~= lower(name));
    if has_name_shape(name) {
        assert forall|i: int| 0 <= i < lower(name).len() implies is_name_byte(
            #[trigger] lower(name)[i],
        ) by {
            assert(is_name_byte(name[i]));
        }
    }
}

/// Inputs that differ in the case of their letters only are the same in lower
/// case: names made of them are equal.
pub proof fn lemma_case_is_ignored(a: Seq<u8>, b: Seq<u8>)
    requires
        a.len() == b.len(),
        forall|i: int| 0 <= i < a.len() ==> lower_byte(#[trigger] a[i]) == lower_byte(b[i]),
    ensures
        lower(a) == lower(b),
{
    assert(lower(a) =~= lower(b));
}

/// The identity of the local workload.
#[derive(Debug, PartialEq, Eq, Hash)]
pub struct LocalId(pub Name);

impl Clone for LocalId {
    /// The same identity once more.
    fn clone(&self) -> (copy: Self)
        ensures
            copy.0@ == self.0@,
    {
        LocalId(self.0.clone())
    }
}

/// The identity of a peer, as its certificate gave it.
#[derive(Debug, PartialEq, Eq, Hash)]
pub struct ClientId(pub Name);

impl Clone for ClientId {
    /// The same identity once more.
    fn clone(&self) -> (copy: Self)
        ensures
            copy.0@ == self.0@,
    {
        ClientId(self.0.clone())
    }
}

impl ClientId {
    /// The identity of the peer named `s`, as `Name::from_str` reads it.
    pub fn from_str(s: &str) -> (made: Result<ClientId, InvalidName>)
        ensures
            made is Ok <==> name_accepts(s.spec_bytes()),
            made matches Ok(id) ==> id.0@ == lower(s.spec_bytes()),
    {
        match Name::from_str(s) {
            Ok(name) => Ok(ClientId(name)),
            Err(e) => Err(e),
        }
    }
}

/// The identity that a client asked to reach.
#[derive(Debug, PartialEq, Eq, Hash)]
pub struct ServerId(pub Name);

impl Clone for ServerId {
    /// The same identity once more.
    fn clone(&self) -> (copy: Self)
        ensures
            copy.0@ == self.0@,
    {
        ServerId(self.0.clone())
    }
}

} // verus!
