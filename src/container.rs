//! The inventory of one run: every installed crate, in listing order until
//! sorted, and the decisions taken over it.

use vstd::prelude::*;
use vstd::multiset::lemma_multiset_empty_len;
use vstd::seq_lib::{to_multiset_build, to_multiset_insert, to_multiset_len};
use vstd::utf8::{decode_utf8, valid_utf8};
use crate::listing::{listing_records, parse_listing};
use crate::record::{resolved_model, upgradable, CrateInfo, CrateModel, InfoJson};
use crate::text::{lemma_text_le_total, lemma_text_le_transitive, text_le, text_le_exec};

verus! {

/// The views of a sequence of records.
pub open spec fn models(crates: Seq<CrateInfo>) -> Seq<CrateModel> {
    crates.map_values(|c: CrateInfo| c@)
}

/// Why no inventory could be read from the package manager's listing.
pub enum ListingError {
    /// The listing command did not succeed.
    CommandFailed,
    /// Its output is not valid UTF-8 text.
    NotText,
}

/// Every crate of one listing.
pub struct CratesInfoContainer {
    crates: Vec<CrateInfo>,
}

impl View for CratesInfoContainer {
    type V = Seq<CrateModel>;

    closed spec fn view(&self) -> Seq<CrateModel> {
        models(self.crates@)
    }
}

/// Relies on `std::str::from_utf8`, which accepts exactly the valid UTF-8
/// byte sequences and reads them as the characters they encode.
#[verifier::external_body]
fn utf8_text(bytes: &[u8]) -> (r: Option<&str>)
    ensures
        r is Some <==> valid_utf8(bytes@),
        r matches Some(s) ==> s@ == decode_utf8(bytes@),
{
    std::str::from_utf8(bytes).ok()
}

/// The records that resolution makes of `cs` given one registry answer per
/// record.
pub open spec fn resolved_models(cs: Seq<CrateModel>, lookups: Seq<Option<InfoJson>>) -> Seq<
    CrateModel,
> {
    Seq::new(cs.len(), |i: int| resolved_model(cs[i], lookups[i]))
}


/// The names of the upgradable crates among `cs`, in order.
pub open spec fn upgradable_names_of(cs: Seq<CrateModel>) -> Seq<Seq<char>>
    decreases cs.len(),
{
    if cs.len() == 0 {
        Seq::<Seq<char>>::empty()
    } else {
        let before = upgradable_names_of(cs.drop_last());
        if upgradable(cs.last()) {
            before.push(cs.last().name)
        } else {
            before
        }
    }
}

/// The names of the crates among `cs` that did not come from the registry,
/// in order: an update leaves them alone.
pub open spec fn skipped_names_of(cs: Seq<CrateModel>) -> Seq<Seq<char>>
    decreases cs.len(),
{
    if cs.len() == 0 {
        Seq::<Seq<char>>::empty()
    } else {
        let before = skipped_names_of(cs.drop_last());
        if !(cs.last().kind is Cratesio) {
            before.push(cs.last().name)
        } else {
            before
        }
    }
}

/// The flags of the reinstall command: `install --force`, then `--locked`
/// when the packaged lock files are to be used.
pub open spec fn install_flags(use_locked: bool) -> Seq<Seq<char>> {
    if use_locked {
        seq!["install"@, "--force"@, "--locked"@]
    } else {
        seq!["install"@, "--force"@]
    }
}

/// The arguments of the package manager's reinstall command for `names`.
pub open spec fn install_args(names: Seq<Seq<char>>, use_locked: bool) -> Seq<Seq<char>> {
    install_flags(use_locked) + names
}

/// The views of a sequence of strings.
pub open spec fn texts(v: Seq<String>) -> Seq<Seq<char>> {
    v.map_values(|s: String| s@)
}

/// Whether the names of `cs` are in order.
pub open spec fn sorted_by_name(cs: Seq<CrateModel>) -> bool {
    forall|i: int, j: int| 0 <= i < j < cs.len() ==> text_le(#[trigger] cs[i].name, #[trigger] cs[j].name)
}

/// What an update comes to once the reinstall command has exited.
pub enum UpdateOutcome {
    /// The command succeeded.
    Succeeded,
    /// The command failed with this exit code, which the program exits with.
    ExitCode(i32),
    /// The command failed without an exit code (it was killed by a signal).
    Failed,
}

/// The outcome of a reinstall command that exited as given.
pub fn exit_outcome(success: bool, code: Option<i32>) -> (r: UpdateOutcome)
    ensures
        success ==> r is Succeeded,
        !success && code is Some ==> r == UpdateOutcome::ExitCode(code->0),
        !success && code is None ==> r is Failed,
{
    if success {
        UpdateOutcome::Succeeded
    } else {
        match code {
            Some(c) => UpdateOutcome::ExitCode(c),
            None => UpdateOutcome::Failed,
        }
    }
}

/// The arguments of the reinstall command for `names`.
pub fn install_arguments(names: Vec<String>, use_locked: bool) -> (r: Vec<String>)
    ensures
        texts(r@) == install_args(texts(names@), use_locked),
{
    let mut r: Vec<String> = Vec::new();
    r.push("install".to_string());
    r.push("--force".to_string());
    if use_locked {
        r.push("--locked".to_string());
    }
    let ghost flags = r@;
    assert(texts(flags) =~= install_flags(use_locked));
    let mut i: usize = 0;
    while i < names.len()
        invariant
            i <= names@.len(),
            r@ == flags + names@.take(i as int),
        decreases names.len() - i,
    {
        r.push(names[i].clone());
        assert(flags + names@.take(i + 1) == (flags + names@.take(i as int)).push(names@[i as int]));
        i = i + 1;
    }
    assert(names@.take(names@.len() as int) == names@);
    assert(texts(r@) =~= install_args(texts(names@), use_locked));
    r
}

impl CratesInfoContainer {
    /// The inventory that a listing's text describes: one record per header
    /// line, in order.
    pub fn new(listing: &str) -> (r: CratesInfoContainer)
        ensures
            r@ == listing_records(listing@),
    {
        let crates = parse_listing(listing);
        let r = CratesInfoContainer { crates };
        assert(r@ =~= listing_records(listing@));
        r
    }

    /// The inventory from the outcome of the listing command: fails when the
    /// command did not succeed or its output is not text, and never returns a
    /// partial inventory.
    pub fn maybe_new(succeeded: bool, stdout: &[u8]) -> (r: Result<
        CratesInfoContainer,
        ListingError,
    >)
        ensures
            !succeeded <==> r matches Err(ListingError::CommandFailed),
            (succeeded && !valid_utf8(stdout@)) <==> r matches Err(ListingError::NotText),
            r matches Ok(c) ==> c@ == listing_records(decode_utf8(stdout@)),
    {
        if !succeeded {
            return Err(ListingError::CommandFailed);
        }
        match utf8_text(stdout) {
            Some(text) => Ok(CratesInfoContainer::new(text)),
            None => Err(ListingError::NotText),
        }
    }

    /// The number of crates.
    pub fn len(&self) -> (r: usize)
        ensures
            r == self@.len(),
    {
        self.crates.len()
    }

    /// The crate at position `i`.
    pub fn get(&self, i: usize) -> (r: &CrateInfo)
        requires
            i < self@.len(),
        ensures
            r@ == self@[i as int],
    {
        &self.crates[i]
    }

    /// Every crate resolved against the registry's answer for it, `lookups[i]`
    /// answering for crate `i` (`None` where the lookup failed or was not
    /// made). No crate is lost: a failed lookup leaves its crate as it was.
    pub fn resolve(self, lookups: Vec<Option<InfoJson>>) -> (r: CratesInfoContainer)
        requires
            lookups@.len() == self@.len(),
        ensures
            r@ == resolved_models(self@, lookups@),
    {
        let ghost orig = self.crates@;
        let ghost answers = lookups@;
        let n = self.crates.len();
        let mut crates = self.crates;
        let mut lookups = lookups;
        let mut reversed: Vec<CrateInfo> = Vec::new();
        while crates.len() > 0
            invariant
                n == orig.len(),
                answers.len() == n,
                crates.len() == lookups.len(),
                crates.len() <= n,
                crates@ == orig.take(crates.len() as int),
                lookups@ == answers.take(lookups.len() as int),
                reversed.len() == n - crates.len(),
                forall|j: int|
                    0 <= j < reversed.len() ==> #[trigger] reversed@[j]@ == resolved_model(
                        orig[n - 1 - j]@,
                        answers[n - 1 - j],
                    ),
            decreases crates.len(),
        {
            let c = crates.pop().unwrap();
            let l = lookups.pop().unwrap();
            reversed.push(c.resolved(l));
        }
        let mut out: Vec<CrateInfo> = Vec::new();
        while reversed.len() > 0
            invariant
                n == orig.len(),
                answers.len() == n,
                reversed.len() + out.len() == n,
                forall|j: int|
                    0 <= j < reversed.len() ==> #[trigger] reversed@[j]@ == resolved_model(
                        orig[n - 1 - j]@,
                        answers[n - 1 - j],
                    ),
                forall|i: int|
                    0 <= i < out.len() ==> #[trigger] out@[i]@ == resolved_model(
                        orig[i]@,
                        answers[i],
                    ),
            decreases reversed.len(),
        {
            let c = reversed.pop().unwrap();
            out.push(c);
        }
        let r = CratesInfoContainer { crates: out };
        assert(r@ =~= resolved_models(models(orig), answers));
        r
    }
    /// The names of the crates that an update would reinstall, in order.
    pub fn upgradable_names(&self) -> (r: Vec<String>)
        ensures
            texts(r@) == upgradable_names_of(self@),
    {
        let ghost cs = self@;
        let mut r: Vec<String> = Vec::new();
        let mut i: usize = 0;
        while i < self.crates.len()
            invariant
                i <= self.crates@.len(),
                cs == models(self.crates@),
                texts(r@) == upgradable_names_of(cs.take(i as int)),
            decreases self.crates.len() - i,
        {
            assert(cs.take(i + 1).drop_last() == cs.take(i as int));
            let c = &self.crates[i];
            if c.is_upgradable() {
                r.push(c.name().clone());
                assert(texts(r@) =~= upgradable_names_of(cs.take(i + 1)));
            }
            i = i + 1;
        }
        assert(cs.take(cs.len() as int) == cs);
        r
    }

    /// The names of the crates that did not come from the registry, in order.
    pub fn skipped_names(&self) -> (r: Vec<String>)
        ensures
            texts(r@) == skipped_names_of(self@),
    {
        let ghost cs = self@;
        let mut r: Vec<String> = Vec::new();
        let mut i: usize = 0;
        while i < self.crates.len()
            invariant
                i <= self.crates@.len(),
                cs == models(self.crates@),
                texts(r@) == skipped_names_of(cs.take(i as int)),
            decreases self.crates.len() - i,
        {
            assert(cs.take(i + 1).drop_last() == cs.take(i as int));
            let c = &self.crates[i];
            if !c.is_from_cratesio() {
                r.push(c.name().clone());
                assert(texts(r@) =~= skipped_names_of(cs.take(i + 1)));
            }
            i = i + 1;
        }
        assert(cs.take(cs.len() as int) == cs);
        r
    }

    /// The arguments of the one reinstall command that an update runs, or
    /// `None` when nothing is upgradable and no command is to run.
    pub fn update_command(&self, use_locked: bool) -> (r: Option<Vec<String>>)
        ensures
            r is None <==> upgradable_names_of(self@).len() == 0,
            r matches Some(args) ==> texts(args@) == install_args(
                upgradable_names_of(self@),
                use_locked,
            ),
    {
        let names = self.upgradable_names();
        if names.len() == 0 {
            None
        } else {
            Some(install_arguments(names, use_locked))
        }
    }

    /// The same crates ordered by name.
    pub fn sorted_by_name(self) -> (r: CratesInfoContainer)
        ensures
            r@.to_multiset() == self@.to_multiset(),
            sorted_by_name(r@),
    {
        let ghost orig = self@;
        let mut rest = self.crates;
        let mut out: Vec<CrateInfo> = Vec::new();
        proof {
            to_multiset_len(models(out@));
            lemma_multiset_empty_len(models(out@).to_multiset());
        }
        assert(models(out@).to_multiset().add(models(rest@).to_multiset()) =~= orig.to_multiset());
        while rest.len() > 0
            invariant
                models(out@).to_multiset().add(models(rest@).to_multiset()) == orig.to_multiset(),
                sorted_by_name(models(out@)),
            decreases rest.len(),
        {
            let ghost before = rest@;
            let c = rest.pop().unwrap();
            assert(models(before) == models(rest@).push(c@));
            let mut p: usize = out.len();
            while p > 0 && !text_le_exec(out[p - 1].name(), c.name())
                invariant
                    p <= out@.len(),
                    forall|j: int| p <= j < out@.len() ==> !text_le(#[trigger] out@[j]@.name, c@.name),
                decreases p,
            {
                p = p - 1;
            }
            let ghost prev = out@;
            proof {
                assert forall|i: int, j: int| 0 <= i < j < prev.len() implies text_le(
                    prev[i]@.name,
                    prev[j]@.name,
                ) by {
                    assert(models(prev)[i] == prev[i]@ && models(prev)[j] == prev[j]@);
                }
                if p > 0 {
                    assert forall|i: int| 0 <= i < p implies text_le(#[trigger] prev[i]@.name, c@.name) by {
                        if i < p - 1 {
                            lemma_text_le_transitive(prev[i]@.name, prev[p - 1]@.name, c@.name);
                        }
                    }
                }
                assert forall|j: int| p <= j < prev.len() implies text_le(c@.name, #[trigger] prev[j]@.name) by {
                    lemma_text_le_total(c@.name, prev[j]@.name);
                }
            }
            out.insert(p, c);
            assert(models(out@) == models(prev).insert(p as int, c@));
            proof {
                to_multiset_insert(models(prev), p as int, c@);
                to_multiset_build(models(rest@), c@);
            }
            assert(models(out@).to_multiset().add(models(rest@).to_multiset()) =~= models(
                prev,
            ).to_multiset().add(models(before).to_multiset()));
            assert(sorted_by_name(models(out@))) by {
                assert forall|i: int, j: int| 0 <= i < j < out@.len() implies text_le(
                    #[trigger] models(out@)[i].name,
                    #[trigger] models(out@)[j].name,
                ) by {
                    assert(models(out@)[i] == out@[i]@ && models(out@)[j] == out@[j]@);
                    if j < p {
                        assert(out@[i] == prev[i] && out@[j] == prev[j]);
                    } else if j == p {
                        assert(out@[i] == prev[i]);
                    } else if i < p {
                        assert(out@[i] == prev[i] && out@[j] == prev[j - 1]);
                        lemma_text_le_transitive(prev[i]@.name, c@.name, prev[j - 1]@.name);
                    } else if i == p {
                        assert(out@[j] == prev[j - 1]);
                    } else {
                        assert(out@[i] == prev[i - 1] && out@[j] == prev[j - 1]);
                    }
                }
            }
        }
        proof {
            to_multiset_len(models(rest@));
            lemma_multiset_empty_len(models(rest@).to_multiset());
        }
        assert(models(out@).to_multiset() =~= orig.to_multiset());
        CratesInfoContainer { crates: out }
    }
}

} // verus!
