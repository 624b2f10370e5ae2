//! Package identifiers and origin names.

use crate::text::{opt_text, same_text};
use vstd::prelude::*;

verus! {

/// What a package identifier says, as mathematical values.
pub ghost struct Ident {
    pub origin: Seq<char>,
    pub name: Seq<char>,
    pub version: Option<Seq<char>>,
    pub release: Option<Seq<char>>,
}

impl Ident {
    /// `origin/name`, then the version and the release as far as they are given.
    pub open spec fn text(self) -> Seq<char> {
        let base = self.origin + "/"@ + self.name;
        match (self.version, self.release) {
            (Some(version), Some(release)) => base + "/"@ + version + "/"@ + release,
            (Some(version), None) => base + "/"@ + version,
            (None, _) => base,
        }
    }

    /// The two identifiers agree in every part that both of them give.
    pub open spec fn satisfies(self, other: Ident) -> bool {
        &&& self.origin == other.origin
        &&& self.name == other.name
        &&& agree(self.version, other.version)
        &&& agree(self.release, other.release)
    }
}

/// Two optional parts agree unless both are given and differ.
pub open spec fn agree(a: Option<Seq<char>>, b: Option<Seq<char>>) -> bool {
    a is Some && b is Some ==> a == b
}

/// Some identifier of the list satisfies `ident`.
pub open spec fn any_satisfies(list: Seq<Ident>, ident: Ident) -> bool {
    exists|i: int| 0 <= i < list.len() && (#[trigger] list[i]).satisfies(ident)
}

/// What a list of identifiers says.
pub open spec fn idents(list: Seq<PackageIdent>) -> Seq<Ident> {
    list.map_values(|p: PackageIdent| p@)
}

/// The identifier of the `hab` command itself.
pub open spec fn core_hab() -> Ident {
    Ident { origin: "core"@, name: "hab"@, version: None, release: None }
}

/// Identifies a package, down to its release or more loosely.
#[derive(Debug, PartialEq, Eq)]
pub struct PackageIdent {
    pub origin: String,
    pub name: String,
    pub version: Option<String>,
    pub release: Option<String>,
}

impl View for PackageIdent {
    type V = Ident;

    open spec fn view(&self) -> Ident {
        Ident {
            origin: self.origin@,
            name: self.name@,
            version: opt_text(self.version),
            release: opt_text(self.release),
        }
    }
}

impl Clone for PackageIdent {
    fn clone(&self) -> (copy: Self)
        ensures
            copy == *self,
    {
        PackageIdent {
            origin: self.origin.clone(),
            name: self.name.clone(),
            version: self.version.clone(),
            release: self.release.clone(),
        }
    }
}

fn parts_agree(a: &Option<String>, b: &Option<String>) -> (r: bool)
    ensures
        r == agree(opt_text(*a), opt_text(*b)),
{
    match (a, b) {
        (Some(a), Some(b)) => same_text(a.as_str(), b.as_str()),
        _ => true,
    }
}

impl PackageIdent {
    /// The identifier of the `hab` command itself, whatever its version.
    pub fn core_hab() -> (hab: PackageIdent)
        ensures
            hab@ == core_hab(),
    {
        PackageIdent {
            origin: "core".to_owned(),
            name: "hab".to_owned(),
            version: None,
            release: None,
        }
    }

    /// Writes the identifier with slashes between its parts.
    pub fn to_string(&self) -> (text: String)
        ensures
            text@ == self@.text(),
    {
        let base = self.origin.clone().concat("/").concat(self.name.as_str());
        match &self.version {
            Some(version) => {
                let versioned = base.concat("/").concat(version.as_str());
                match &self.release {
                    Some(release) => versioned.concat("/").concat(release.as_str()),
                    None => versioned,
                }
            },
            None => base,
        }
    }

    /// Whether this identifier agrees with `other` in every part that both of them give: the
    /// looser of the two stands for every package that the stricter one can name.
    pub fn satisfies(&self, other: &PackageIdent) -> (r: bool)
        ensures
            r == self@.satisfies(other@),
    {
        same_text(self.origin.as_str(), other.origin.as_str()) && same_text(
            self.name.as_str(),
            other.name.as_str(),
        ) && parts_agree(&self.version, &other.version) && parts_agree(
            &self.release,
            &other.release,
        )
    }
}

/// Whether some identifier of the list satisfies `ident`.
pub fn any_of_satisfies(list: &[PackageIdent], ident: &PackageIdent) -> (found: bool)
    ensures
        found == any_satisfies(idents(list@), ident@),
{
    let mut i: usize = 0;
    while i < list.len()
        invariant
            i <= list.len(),
            forall|j: int| 0 <= j < i ==> !(#[trigger] idents(list@)[j]).satisfies(ident@),
        decreases list.len() - i,
    {
        if list[i].satisfies(ident) {
            assert(idents(list@)[i as int].satisfies(ident@));
            return true;
        }
        i = i + 1;
    }
    false
}

/// The characters of an origin name: lowercase letters, digits, `_` and `-`.
pub open spec fn origin_char(c: char) -> bool {
    origin_first_char(c) || c == '_' || c == '-'
}

/// The characters that an origin name may begin with: lowercase letters and digits.
pub open spec fn origin_first_char(c: char) -> bool {
    ('a' <= c && c <= 'z') || ('0' <= c && c <= '9')
}

/// An origin name begins with a lowercase letter or a digit, goes on with those, `_` and `-`, and
/// has no more than 255 characters.
pub open spec fn valid_origin_name(origin: Seq<char>) -> bool {
    &&& 1 <= origin.len() <= 255
    &&& origin_first_char(origin[0])
    &&& forall|i: int| 0 <= i < origin.len() ==> origin_char(#[trigger] origin[i])
}

/// Whether a text can name an origin.
pub fn is_valid_origin_name(origin: &str) -> (valid: bool)
    ensures
        valid == valid_origin_name(origin@),
{
    let len: usize = origin.unicode_len();
    if len == 0 || len > 255 {
        return false;
    }
    let mut i: usize = 0;
    while i < len
        invariant
            len == origin@.len(),
            1 <= len <= 255,
            i <= len,
            i > 0 ==> origin_first_char(origin@[0]),
            forall|j: int| 0 <= j < i ==> origin_char(#[trigger] origin@[j]),
        decreases len - i,
    {
        let c = origin.get_char(i);
        let first = ('a' <= c && c <= 'z') || ('0' <= c && c <= '9');
        if !first && (i == 0 || (c != '_' && c != '-')) {
            return false;
        }
        i = i + 1;
    }
    true
}

/// An identifier satisfies itself, and where one satisfies another the other satisfies it.
pub proof fn law_satisfies_is_mutual(a: Ident, b: Ident)
    ensures
        a.satisfies(a),
        a.satisfies(b) == b.satisfies(a),
{
}

/// An identifier of nothing but origin and name stands for every version and release of it.
pub proof fn law_loose_ident_covers_every_release(loose: Ident, ident: Ident)
    requires
        loose.version is None,
        loose.release is None,
    ensures
        loose.satisfies(ident) == (loose.origin == ident.origin && loose.name == ident.name),
{
}

} // verus!
