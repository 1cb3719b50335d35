use crate::migration::{Entry, Migration};
use crate::naming::{
    accepts, compiled, conforming_name, conforms_given, conforms_to, VERSION_PATTERN,
};
use regex::Regex;
use vstd::prelude::*;

verus! {

/// Whether an entry follows the naming convention. An entry without a name
/// never does.
pub open spec fn conforming(entry: Entry) -> bool {
    entry matches Entry::Named(name) && conforming_name(name)
}

/// The conforming entries, in their order.
pub open spec fn kept(entries: Seq<Entry>) -> Seq<Entry> {
    entries.filter(|e: Entry| conforming(e))
}

/// The non-conforming entries, in their order.
pub open spec fn rejected(entries: Seq<Entry>) -> Seq<Entry> {
    entries.filter(|e: Entry| !conforming(e))
}

/// The verdict on the entry at a position: the one listed for it, and
/// non-conforming where none is listed.
pub open spec fn verdict_at(verdicts: Seq<bool>, i: int) -> bool {
    0 <= i < verdicts.len() && verdicts[i]
}

/// The entries whose verdict is the wanted one, in their order.
pub open spec fn chosen(entries: Seq<Entry>, verdicts: Seq<bool>, want: bool) -> Seq<Entry>
    decreases entries.len(),
{
    if entries.len() == 0 {
        Seq::empty()
    } else {
        let init = chosen(entries.drop_last(), verdicts, want);
        if verdict_at(verdicts, entries.len() - 1) == want {
            init.push(entries.last())
        } else {
            init
        }
    }
}

/// Splits the entries by the verdicts given for them, position by position:
/// first those judged conforming, then the others, each in the order of the
/// input.
pub fn split_by(entries: Vec<Migration>, verdicts: &Vec<bool>) -> (r: (
    Vec<Migration>,
    Vec<Migration>,
))
    ensures
        r.0.deep_view() == chosen(entries.deep_view(), verdicts@, true),
        r.1.deep_view() == chosen(entries.deep_view(), verdicts@, false),
{
    let ghost source = entries@;
    let ghost all = entries.deep_view();
    let count = entries.len();
    let mut valid: Vec<Migration> = Vec::new();
    let mut invalid: Vec<Migration> = Vec::new();
    let mut i: usize = 0;
    assert(valid.deep_view() =~= Seq::empty());
    assert(invalid.deep_view() =~= Seq::empty());
    for entry in it: entries
        invariant
            i == it.index(),
            it.seq() == source,
            source.len() == count,
            all == Seq::new(source.len(), |k: int| source[k]@),
            valid.deep_view() == chosen(all.take(i as int), verdicts@, true),
            invalid.deep_view() == chosen(all.take(i as int), verdicts@, false),
    {
        assert(all.take(i + 1).drop_last() =~= all.take(i as int));
        let ghost before_valid = valid.deep_view();
        let ghost before_invalid = invalid.deep_view();
        let verdict = i < verdicts.len() && verdicts[i];
        if verdict {
            valid.push(entry);
            assert(valid.deep_view() =~= before_valid.push(entry@));
        } else {
            invalid.push(entry);
            assert(invalid.deep_view() =~= before_invalid.push(entry@));
        }
        i += 1;
    }
    assert(all.take(i as int) =~= all);
    (valid, invalid)
}

/// Sorting loses and invents nothing: every entry is in exactly one of the
/// two lists, the conforming list holds conforming entries only, and the
/// other list none.
pub proof fn lemma_sorting_is_a_partition(entries: Seq<Entry>)
    ensures
        kept(entries).len() + rejected(entries).len() == entries.len(),
        forall|i: int| 0 <= i < kept(entries).len() ==> conforming(#[trigger] kept(entries)[i]),
        forall|i: int|
            0 <= i < rejected(entries).len() ==> !conforming(#[trigger] rejected(entries)[i]),
    decreases entries.len(),
{
    reveal(Seq::filter);
    if entries.len() > 0 {
        lemma_sorting_is_a_partition(entries.drop_last());
    }
}

/// An entry without a name is never among the conforming ones.
pub proof fn lemma_unrecognized_is_rejected(entries: Seq<Entry>)
    ensures
        !kept(entries).contains(Entry::Unrecognized),
{
    lemma_sorting_is_a_partition(entries);
    if kept(entries).contains(Entry::Unrecognized) {
        let i = choose|i: int|
            0 <= i < kept(entries).len() && kept(entries)[i] == Entry::Unrecognized;
        assert(conforming(kept(entries)[i]));
    }
}

/// Verdicts that are the naming convention's own choose the conforming
/// entries, and the others.
pub proof fn lemma_chosen_by_convention(entries: Seq<Entry>, verdicts: Seq<bool>)
    requires
        entries.len() <= verdicts.len(),
        forall|i: int| 0 <= i < entries.len() ==> verdicts[i] == conforming(entries[i]),
    ensures
        chosen(entries, verdicts, true) == kept(entries),
        chosen(entries, verdicts, false) == rejected(entries),
    decreases entries.len(),
{
    reveal(Seq::filter);
    if entries.len() > 0 {
        lemma_chosen_by_convention(entries.drop_last(), verdicts);
    }
}

/// Judges one entry against a compiled version pattern. An entry without a
/// name does not conform.
pub fn entry_conforms(rule: &Result<Regex, regex::Error>, entry: &Migration) -> (r: bool)
    ensures
        r == (entry@ matches Entry::Named(name) && conforms_given(
            name,
            *rule matches Ok(re) && accepts(re, name),
        )),
{
    match entry {
        Migration::Named(name) => conforms_to(rule, name.as_str()),
        Migration::NotOk() => false,
    }
}

/// Sorts the entries of one file by the naming convention: first those that
/// conform, then those that do not. Each list keeps the order of the input,
/// and every entry of the input is in exactly one of them.
pub fn check_naming(migrations: Vec<Migration>) -> (r: (Vec<Migration>, Vec<Migration>))
    ensures
        r.0.deep_view() == kept(migrations.deep_view()),
        r.1.deep_view() == rejected(migrations.deep_view()),
{
    let rule = Regex::new(VERSION_PATTERN);
    let mut verdicts: Vec<bool> = Vec::new();
    let mut i: usize = 0;
    while i < migrations.len()
        invariant
            i <= migrations.len(),
            verdicts.len() == i,
            rule == compiled(VERSION_PATTERN@),
            forall|k: int| 0 <= k < i ==> verdicts[k] == conforming(#[trigger] migrations[k]@),
        decreases migrations.len() - i,
    {
        let verdict = entry_conforms(&rule, &migrations[i]);
        verdicts.push(verdict);
        i += 1;
    }
    proof {
        lemma_chosen_by_convention(migrations.deep_view(), verdicts@);
    }
    split_by(migrations, &verdicts)
}

} // verus!
