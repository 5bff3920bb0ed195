//! Laws that relate the inventory's operations to one another.

use vstd::prelude::*;
use crate::container::{install_args, install_flags, resolved_models, upgradable_names_of};
use crate::listing::{is_header, lemma_header_name_nonempty, listing_records, records_of, text_lines};
use crate::record::{lookup_succeeded, resolved_model, upgradable, CrateModel, InfoJson};
use crate::version::{semver_precedes, version_increases};

verus! {

/// A resolved registry crate is upgradable exactly when its newest version
/// orders strictly after the installed one; when the newest version is equal
/// or earlier under semantic-version ordering, it is not.
pub proof fn lemma_registry_upgradable_iff_newer(c: CrateModel)
    requires
        c.kind is Cratesio,
        c.online is Some,
    ensures
        upgradable(c) <==> version_increases(c.current, c.online->0),
        !semver_precedes(c.current, c.online->0) ==> !upgradable(c),
{
}

/// A crate that did not come from the registry is never upgradable, before or
/// after resolution, whatever its version texts.
pub proof fn lemma_non_registry_never_upgradable(c: CrateModel, lookup: Option<InfoJson>)
    requires
        !(c.kind is Cratesio),
    ensures
        !upgradable(c),
        !upgradable(resolved_model(c, lookup)),
        resolved_model(c, lookup).kind == c.kind,
{
}

proof fn lemma_records_unresolved(lines: Seq<Seq<char>>)
    ensures
        forall|i: int|
            0 <= i < records_of(lines).len() ==> (#[trigger] records_of(lines)[i]).online is None
                && records_of(lines)[i].updated_at is None,
    decreases lines.len(),
{
    if lines.len() > 0 {
        lemma_records_unresolved(lines.drop_last());
    }
}

/// Every crate that a listing yields is unresolved, and so not upgradable.
pub proof fn lemma_listing_unresolved(text: Seq<char>)
    ensures
        forall|i: int|
            0 <= i < listing_records(text).len() ==> (#[trigger] listing_records(text)[i]).online
                is None && !upgradable(listing_records(text)[i]),
{
    lemma_records_unresolved(text_lines(text));
}

proof fn lemma_records_named(lines: Seq<Seq<char>>)
    ensures
        forall|i: int| 0 <= i < records_of(lines).len() ==> (#[trigger] records_of(lines)[i]).name.len() > 0,
    decreases lines.len(),
{
    if lines.len() > 0 {
        lemma_records_named(lines.drop_last());
        if is_header(lines.last()) {
            lemma_header_name_nonempty(lines.last());
        }
    }
}

/// Every crate that a listing yields has a non-empty name.
pub proof fn lemma_listing_names_nonempty(text: Seq<char>)
    ensures
        forall|i: int| 0 <= i < listing_records(text).len() ==> (#[trigger] listing_records(text)[i]).name.len() > 0,
{
    lemma_records_named(text_lines(text));
}

/// Resolution keeps every crate. A failed lookup touches no other crate and
/// leaves its own registry crate as it was: a crate fresh from the listing
/// then stays unresolved and not upgradable.
pub proof fn lemma_failed_lookup_isolated(
    cs: Seq<CrateModel>,
    lookups: Seq<Option<InfoJson>>,
    i: int,
)
    requires
        lookups.len() == cs.len(),
        0 <= i < cs.len(),
        !lookup_succeeded(lookups[i]),
    ensures
        resolved_models(cs, lookups).len() == cs.len(),
        forall|j: int|
            0 <= j < cs.len() ==> #[trigger] resolved_models(cs, lookups)[j] == resolved_model(
                cs[j],
                lookups[j],
            ),
        cs[i].kind is Cratesio ==> resolved_models(cs, lookups)[i] == cs[i],
        cs[i].online is None ==> !upgradable(resolved_models(cs, lookups)[i]),
{
}

/// A name is among the upgradable names exactly when some upgradable crate
/// bears it.
pub proof fn lemma_upgradable_names_members(cs: Seq<CrateModel>, name: Seq<char>)
    ensures
        upgradable_names_of(cs).contains(name) <==> exists|i: int|
            0 <= i < cs.len() && upgradable(#[trigger] cs[i]) && cs[i].name == name,
    decreases cs.len(),
{
    if cs.len() > 0 {
        let before = cs.drop_last();
        lemma_upgradable_names_members(before, name);
        if upgradable_names_of(cs).contains(name) {
            if upgradable(cs.last()) && cs.last().name == name {
                assert(upgradable(cs[cs.len() - 1]));
            } else {
                if upgradable(cs.last()) {
                    let k = choose|k: int|
                        0 <= k < upgradable_names_of(cs).len() && upgradable_names_of(cs)[k]
                            == name;
                    assert(k < upgradable_names_of(before).len());
                    assert(upgradable_names_of(before)[k] == name);
                }
                let i = choose|i: int|
                    0 <= i < before.len() && upgradable(#[trigger] before[i]) && before[i].name
                        == name;
                assert(cs[i] == before[i]);
            }
        } else {
            assert forall|i: int|
                0 <= i < cs.len() && upgradable(#[trigger] cs[i]) implies cs[i].name != name by {
                let all = upgradable_names_of(cs);
                if i < cs.len() - 1 {
                    assert(cs[i] == before[i]);
                    if upgradable_names_of(before).contains(name) {
                        let k = choose|k: int|
                            0 <= k < upgradable_names_of(before).len()
                                && upgradable_names_of(before)[k] == name;
                        assert(all[k] == name);
                    }
                } else if cs[i].name == name {
                    assert(all[all.len() - 1] == name);
                }
            }
        }
    }
}

/// The upgradable names hold no crate when, and only when, no crate is
/// upgradable: an update then runs no command.
pub proof fn lemma_nothing_to_update(cs: Seq<CrateModel>)
    ensures
        upgradable_names_of(cs).len() == 0 <==> forall|i: int|
            0 <= i < cs.len() ==> !upgradable(#[trigger] cs[i]),
{
    if upgradable_names_of(cs).len() > 0 {
        lemma_upgradable_names_members(cs, upgradable_names_of(cs)[0]);
        assert(upgradable_names_of(cs).contains(upgradable_names_of(cs)[0]));
    } else {
        assert forall|i: int| 0 <= i < cs.len() implies !upgradable(#[trigger] cs[i]) by {
            lemma_upgradable_names_members(cs, cs[i].name);
        }
    }
}

/// The reinstall command names every upgradable crate and nothing else after
/// its flags; where names are unique, no crate that is not upgradable is
/// named.
pub proof fn lemma_install_names_exact(cs: Seq<CrateModel>, use_locked: bool, name: Seq<char>)
    ensures
        ({
            let names = install_args(upgradable_names_of(cs), use_locked).skip(
                install_flags(use_locked).len() as int,
            );
            names.contains(name) <==> exists|i: int|
                0 <= i < cs.len() && upgradable(#[trigger] cs[i]) && cs[i].name == name
        }),
        (forall|i: int, j: int|
            0 <= i < j < cs.len() ==> #[trigger] cs[i].name != #[trigger] cs[j].name) ==> forall|
            i: int,
        |
            0 <= i < cs.len() && !upgradable(#[trigger] cs[i]) ==> !install_args(
                upgradable_names_of(cs),
                use_locked,
            ).skip(install_flags(use_locked).len() as int).contains(cs[i].name),
{
    let names = install_args(upgradable_names_of(cs), use_locked).skip(
        install_flags(use_locked).len() as int,
    );
    assert(names == upgradable_names_of(cs));
    lemma_upgradable_names_members(cs, name);
    if forall|i: int, j: int|
        0 <= i < j < cs.len() ==> #[trigger] cs[i].name != #[trigger] cs[j].name {
        assert forall|i: int| 0 <= i < cs.len() && !upgradable(#[trigger] cs[i]) implies !names.contains(
            cs[i].name,
        ) by {
            lemma_upgradable_names_members(cs, cs[i].name);
            if names.contains(cs[i].name) {
                let k = choose|k: int|
                    0 <= k < cs.len() && upgradable(#[trigger] cs[k]) && cs[k].name == cs[i].name;
                assert(k != i);
                if k < i {
                    assert(cs[k].name != cs[i].name);
                } else {
                    assert(cs[i].name != cs[k].name);
                }
            }
        }
    }
}

} // verus!
