//! Laws of package identifiers and origin names, over their parts and characters.

use crate::ident::{any_satisfies, core_hab, idents, valid_origin_name, Ident, PackageIdent};
use vstd::prelude::*;

verus! {

/// An identifier says what its fields say, part by part.
pub proof fn law_ident_says_its_fields(p: PackageIdent)
    ensures
        p@.origin == p.origin@,
        p@.name == p.name@,
        p@.version is Some == p.version is Some,
        p.version is Some ==> p@.version->0 == p.version->0@,
        p@.release is Some == p.release is Some,
        p.release is Some ==> p@.release->0 == p.release->0@,
{
}

/// A list of identifiers says what each of them says, in their order.
pub proof fn law_idents_say_each_ident(list: Seq<PackageIdent>)
    ensures
        idents(list).len() == list.len(),
        forall|i: int| 0 <= i < list.len() ==> #[trigger] idents(list)[i] == list[i]@,
{
}

/// The text of an identifier is its parts with slashes between them, as far as they are given.
pub proof fn law_text_joins_the_parts(ident: Ident)
    ensures
        ident.version is None ==> ident.text() == ident.origin + seq!['/'] + ident.name,
        ident.version is Some && ident.release is None ==> ident.text() == ident.origin + seq!['/']
            + ident.name + seq!['/'] + ident.version->0,
        ident.version is Some && ident.release is Some ==> ident.text() == ident.origin + seq!['/']
            + ident.name + seq!['/'] + ident.version->0 + seq!['/'] + ident.release->0,
{
    reveal_strlit("/");
    assert("/"@ =~= seq!['/']);
}

/// One identifier satisfies another exactly where they have the same origin and name, and do not
/// both give a version that differs, nor both give a release that differs.
pub proof fn law_satisfies_compares_the_given_parts(a: Ident, b: Ident)
    ensures
        a.satisfies(b) == ({
                &&& a.origin == b.origin
                &&& a.name == b.name
                &&& a.version is None || b.version is None || a.version == b.version
                &&& a.release is None || b.release is None || a.release == b.release
            }),
{
}

/// An identifier of a list satisfies another exactly where some entry of the list agrees with it in
/// origin, name and every one of version and release that both give.
pub proof fn law_any_satisfies_looks_at_every_entry(list: Seq<Ident>, p: Ident)
    ensures
        any_satisfies(list, p) == (exists|i: int|
                {
                    &&& 0 <= i < list.len()
                    &&& (#[trigger] list[i]).origin == p.origin
                    &&& list[i].name == p.name
                    &&& list[i].version is None || p.version is None || list[i].version
                        == p.version
                    &&& list[i].release is None || p.release is None || list[i].release
                        == p.release
                }),
{
    if any_satisfies(list, p) {
        let i = choose|i: int| 0 <= i < list.len() && (#[trigger] list[i]).satisfies(p);
        law_satisfies_compares_the_given_parts(list[i], p);
        assert(list[i].origin == p.origin);
    }
    if (exists|i: int|
                {
                    &&& 0 <= i < list.len()
                    &&& (#[trigger] list[i]).origin == p.origin
                    &&& list[i].name == p.name
                    &&& list[i].version is None || p.version is None || list[i].version
                        == p.version
                    &&& list[i].release is None || p.release is None || list[i].release
                        == p.release
                }) {
        let i = choose|i: int|
            {
                &&& 0 <= i < list.len()
                &&& (#[trigger] list[i]).origin == p.origin
                &&& list[i].name == p.name
                &&& list[i].version is None || p.version is None || list[i].version == p.version
                &&& list[i].release is None || p.release is None || list[i].release == p.release
            };
        law_satisfies_compares_the_given_parts(list[i], p);
        assert(list[i].satisfies(p));
    }
}

/// The `hab` command goes by the origin `core` and the name `hab`, whatever its version and release.
pub proof fn law_core_hab_is_any_release_of_hab(ident: Ident)
    ensures
        core_hab().origin == seq!['c', 'o', 'r', 'e'],
        core_hab().name == seq!['h', 'a', 'b'],
        ident.satisfies(core_hab()) == (ident.origin == "core"@ && ident.name == "hab"@),
        core_hab().satisfies(ident) == (ident.origin == "core"@ && ident.name == "hab"@),
{
    reveal_strlit("core");
    reveal_strlit("hab");
    assert("core"@ =~= seq!['c', 'o', 'r', 'e']);
    assert("hab"@ =~= seq!['h', 'a', 'b']);
}

/// A text with a character other than a lowercase letter, a digit, `_` and `-`, at any position, is
/// no origin name, nor is one that is empty, has more than 255 characters, or begins with `_` or
/// `-`; every other text is one.
pub proof fn law_origin_names_by_their_characters(text: Seq<char>)
    ensures
        valid_origin_name(text) == ({
            &&& 1 <= text.len() <= 255
            &&& text[0] != '_' && text[0] != '-'
            &&& forall|i: int|
                0 <= i < text.len() ==> {
                    ||| 'a' <= #[trigger] text[i] <= 'z'
                    ||| '0' <= text[i] <= '9'
                    ||| text[i] == '_'
                    ||| text[i] == '-'
                }
        }),
{
}

/// An origin name stays one when a character that is allowed is put at its end, as long as it is
/// not too long, and stops being one with any other character; and what it begins with is one.
pub proof fn law_origin_names_grow_by_allowed_characters(text: Seq<char>, c: char)
    requires
        valid_origin_name(text),
        text.len() < 255,
    ensures
        valid_origin_name(text.push(c)) == ('a' <= c <= 'z' || '0' <= c <= '9' || c == '_' || c
            == '-'),
        text.len() > 1 ==> valid_origin_name(text.drop_last()),
{
    law_origin_names_by_their_characters(text);
    law_origin_names_by_their_characters(text.push(c));
    law_origin_names_by_their_characters(text.drop_last());
    assert(text.push(c)[text.len() as int] == c);
    assert forall|i: int| 0 <= i < text.len() implies text.push(c)[i] == text[i] by {}
    if text.len() > 1 {
        assert forall|i: int| 0 <= i < text.len() - 1 implies text.drop_last()[i] == text[i] by {}
    }
}

} // verus!
