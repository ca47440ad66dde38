//! What a bundle read and what it imported: the record that is kept while
//! the engine reads and resolves files.

use crate::expand::{has_at, matches_at};
use crate::text::{chars_of, views};
use indexmap::IndexSet;
use vstd::prelude::*;

verus! {

/// `indexmap::IndexSet`: a set that keeps its items in the order in which
/// they were put in.
#[verifier::external_type_specification]
#[verifier::external_body]
#[verifier::reject_recursive_types(T)]
#[verifier::reject_recursive_types(S)]
pub struct ExIndexSet<T, S>(IndexSet<T, S>);

/// The items of a set of strings, in the order in which they were put in.
pub uninterp spec fn index_set_items(set: IndexSet<String>) -> Seq<Seq<char>>;

/// `IndexSet::new`: a set without items.
#[verifier::external_body]
fn index_set_new() -> (set: IndexSet<String>)
    ensures
        index_set_items(set) == Seq::<Seq<char>>::empty(),
{
    IndexSet::new()
}

/// `IndexSet::insert`: a string that the set does not hold yet goes to its
/// end and the call returns `true`; with one that it holds the set stays as
/// it is and the call returns `false`.
#[verifier::external_body]
fn index_set_insert(set: &mut IndexSet<String>, value: String) -> (added: bool)
    ensures
        added == !index_set_items(*old(set)).contains(value@),
        index_set_items(*final(set)) == add_once(index_set_items(*old(set)), value@),
{
    set.insert(value)
}

/// `IndexSet::iter`, each item cloned: the items in their order.
#[verifier::external_body]
fn index_set_to_vec(set: &IndexSet<String>) -> (items: Vec<String>)
    ensures
        views(items@) == index_set_items(*set),
{
    set.iter().cloned().collect()
}

/// `list` with `item` at its end, unless `list` holds it already.
pub open spec fn add_once(list: Seq<Seq<char>>, item: Seq<char>) -> Seq<Seq<char>> {
    if list.contains(item) {
        list
    } else {
        list.push(item)
    }
}

/// The imports of one file: the file, and what its imports resolved to, in
/// the order in which they were resolved.
#[derive(Debug, Clone, PartialEq, Eq)]
pub struct ImportEntry {
    pub from: String,
    pub to: Vec<String>,
}

/// What `ImportEntry` is, apart from how its strings are stored.
pub struct ImportEntryView {
    pub from: Seq<char>,
    pub to: Seq<Seq<char>>,
}

impl View for ImportEntry {
    type V = ImportEntryView;

    open spec fn view(&self) -> ImportEntryView {
        ImportEntryView { from: self.from@, to: views(self.to@) }
    }
}

/// What the imports of `file` resolved to according to `entries`; nothing
/// where no entry is about `file`.
pub open spec fn targets_in(entries: Seq<ImportEntryView>, file: Seq<char>) -> Seq<Seq<char>>
    decreases entries.len(),
{
    if entries.len() == 0 {
        Seq::empty()
    } else if entries.last().from == file {
        entries.last().to
    } else {
        targets_in(entries.drop_last(), file)
    }
}

/// Whether no two entries are about the same file and every entry holds at
/// least one import.
pub open spec fn entries_valid(entries: Seq<ImportEntryView>) -> bool {
    &&& forall|i: int, j: int|
        0 <= i < j < entries.len() ==> (#[trigger] entries[i]).from != (#[trigger] entries[j]).from
    &&& forall|i: int| 0 <= i < entries.len() ==> (#[trigger] entries[i]).to.len() > 0
}

/// The import graph of `entries`: each file that imports something, with
/// what its imports resolved to.
pub open spec fn graph_of(entries: Seq<ImportEntryView>) -> Map<Seq<char>, Seq<Seq<char>>> {
    Map::new(
        |file: Seq<char>| targets_in(entries, file).len() > 0,
        |file: Seq<char>| targets_in(entries, file),
    )
}

/// Whether an import names a style sheet that is not a local file: an
/// address on the web, with or without its scheme.
pub open spec fn is_remote(specifier: Seq<char>) -> bool {
    matches_at(specifier, 0, "http://"@) || matches_at(specifier, 0, "https://"@) || matches_at(
        specifier,
        0,
        "//"@,
    )
}

/// Whether `specifier` names a style sheet that is not a local file.
pub fn is_remote_import(specifier: &str) -> (r: bool)
    ensures
        r == is_remote(specifier@),
{
    let text = chars_of(specifier);
    has_at(&text, 0, &chars_of("http://")) || has_at(&text, 0, &chars_of("https://")) || has_at(
        &text,
        0,
        &chars_of("//"),
    )
}

/// Why an import was not resolved.
#[derive(Debug, Clone, PartialEq, Eq)]
pub enum ResolveError<E> {
    /// The import names a style sheet that is not a local file. Holds the
    /// import as written.
    Remote(String),
    /// The resolution failed.
    Failed(E),
}

/// The result of a bundle.
#[derive(Debug, Clone, PartialEq, Eq)]
pub struct CompileResult {
    /// The bundled style sheet, printed.
    pub css: String,
    /// Every file that was read, once, in the order of the first read.
    pub dependencies: Vec<String>,
    /// For every file that imports something, what its imports resolved to.
    pub imports: Vec<ImportEntry>,
}

/// The record of a bundle in progress.
pub struct TrackingProvider {
    dependencies: IndexSet<String>,
    imports: Vec<ImportEntry>,
}

/// An entry of `entries` that is about `file` holds what `targets_in` gives
/// for `file`.
proof fn lemma_targets_at(entries: Seq<ImportEntryView>, i: int)
    requires
        entries_valid(entries),
        0 <= i < entries.len(),
    ensures
        targets_in(entries, entries[i].from) == entries[i].to,
    decreases entries.len(),
{
    if i < entries.len() - 1 {
        let rest = entries.drop_last();
        assert(rest[i] == entries[i]);
        assert(entries.last() == entries[entries.len() - 1]);
        lemma_targets_at(rest, i);
    }
}

/// Where no entry is about `file`, `targets_in` gives nothing for it.
proof fn lemma_targets_absent(entries: Seq<ImportEntryView>, file: Seq<char>)
    requires
        forall|i: int| 0 <= i < entries.len() ==> (#[trigger] entries[i]).from != file,
    ensures
        targets_in(entries, file) == Seq::<Seq<char>>::empty(),
    decreases entries.len(),
{
    if entries.len() > 0 {
        let rest = entries.drop_last();
        assert(entries.last() == entries[entries.len() - 1]);
        assert forall|i: int| 0 <= i < rest.len() implies (#[trigger] rest[i]).from != file by {
            assert(rest[i] == entries[i]);
        }
        lemma_targets_absent(rest, file);
    }
}

/// Replacing what one entry holds changes what `targets_in` gives for its
/// file, and for no other.
proof fn lemma_targets_update(
    entries: Seq<ImportEntryView>,
    i: int,
    entry: ImportEntryView,
    file: Seq<char>,
)
    requires
        entries_valid(entries),
        0 <= i < entries.len(),
        entry.from == entries[i].from,
        entry.to.len() > 0,
    ensures
        entries_valid(entries.update(i, entry)),
        targets_in(entries.update(i, entry), file) == if file == entry.from {
            entry.to
        } else {
            targets_in(entries, file)
        },
    decreases entries.len(),
{
    let updated = entries.update(i, entry);
    assert(entries_valid(updated)) by {
        assert forall|a: int, b: int| 0 <= a < b < updated.len() implies (#[trigger] updated[a]).from
            != (#[trigger] updated[b]).from by {
            assert(updated[a].from == entries[a].from);
            assert(updated[b].from == entries[b].from);
        }
        assert forall|a: int| 0 <= a < updated.len() implies (#[trigger] updated[a]).to.len()
            > 0 by {
            if a != i {
                assert(updated[a] == entries[a]);
            }
        }
    }
    if file == entry.from {
        lemma_targets_at(updated, i);
    } else {
        let last = entries.len() - 1;
        assert(entries.last() == entries[last]);
        assert(updated.last() == updated[last]);
        if i == last {
            assert(updated.drop_last() =~= entries.drop_last());
        } else {
            let rest = entries.drop_last();
            assert(entries_valid(rest)) by {
                assert forall|a: int, b: int| 0 <= a < b < rest.len() implies (#[trigger] rest[a]).from
                    != (#[trigger] rest[b]).from by {
                    assert(rest[a] == entries[a]);
                    assert(rest[b] == entries[b]);
                }
                assert forall|a: int| 0 <= a < rest.len() implies (#[trigger] rest[a]).to.len()
                    > 0 by {
                    assert(rest[a] == entries[a]);
                }
            }
            assert(rest[i] == entries[i]);
            lemma_targets_update(rest, i, entry, file);
            assert(updated.drop_last() =~= rest.update(i, entry));
        }
    }
}

impl TrackingProvider {
    /// No file is among the files read twice, no two entries are about the
    /// same file, and every entry holds at least one import.
    #[verifier::type_invariant]
    spec fn valid(self) -> bool {
        &&& index_set_items(self.dependencies).no_duplicates()
        &&& entries_valid(views(self.imports@))
    }

    /// Every file that was read, once, in the order of the first read.
    pub closed spec fn dependencies(self) -> Seq<Seq<char>> {
        index_set_items(self.dependencies)
    }

    /// What was recorded for each file that imports something.
    pub closed spec fn entries(self) -> Seq<ImportEntryView> {
        views(self.imports@)
    }

    /// What the imports of `file` resolved to, in the order in which they
    /// were resolved; nothing for a file without imports.
    pub open spec fn targets(self, file: Seq<char>) -> Seq<Seq<char>> {
        targets_in(self.entries(), file)
    }

    /// The import graph: each file that imports something, with what its
    /// imports resolved to.
    pub open spec fn imports(self) -> Map<Seq<char>, Seq<Seq<char>>> {
        graph_of(self.entries())
    }

    /// A record that holds nothing yet.
    pub fn new() -> (provider: TrackingProvider)
        ensures
            provider.dependencies() == Seq::<Seq<char>>::empty(),
            provider.entries() == Seq::<ImportEntryView>::empty(),
    {
        let provider = TrackingProvider { dependencies: index_set_new(), imports: Vec::new() };
        assert(views(provider.imports@) =~= Seq::<ImportEntryView>::empty());
        provider
    }

    /// Records the read of `path`, given how the read ended, and hands the
    /// outcome on.
    ///
    /// A read that succeeded puts `path` at the end of the files read, unless
    /// it is among them already. A read that failed leaves no trace.
    pub fn read<T, E>(&mut self, path: &str, outcome: Result<T, E>) -> (r: Result<T, E>)
        ensures
            r == outcome,
            final(self).entries() == old(self).entries(),
            final(self).dependencies() == if outcome is Ok {
                add_once(old(self).dependencies(), path@)
            } else {
                old(self).dependencies()
            },
            final(self).dependencies().no_duplicates(),
    {
        proof {
            use_type_invariant(&*self);
        }
        if outcome.is_ok() {
            let ghost before = index_set_items(self.dependencies);
            let mut dependencies = index_set_new();
            core::mem::swap(&mut self.dependencies, &mut dependencies);
            let added = index_set_insert(&mut dependencies, path.to_owned());
            proof {
                if added {
                    assert forall|i: int, j: int|
                        0 <= i < before.len() + 1 && 0 <= j < before.len() + 1 && i
                            != j implies before.push(path@)[i] != before.push(path@)[j] by {
                        if i < before.len() && j < before.len() {
                        } else if i < before.len() {
                            assert(before.contains(before[i]));
                        } else {
                            assert(before.contains(before[j]));
                        }
                    }
                }
            }
            core::mem::swap(&mut self.dependencies, &mut dependencies);
        }
        outcome
    }

    /// Records that an import in `originating_file` was resolved, given how
    /// the resolution ended, and hands what it gave on.
    ///
    /// A resolution that succeeded comes as what it gave, with the text of
    /// its target for the record. An import of a style sheet that is not a
    /// local file is refused, whatever the resolution made of it. Otherwise a
    /// resolution that succeeded puts its target at the end of what the
    /// imports of `originating_file` resolved to. In every other case the
    /// record stays as it is.
    pub fn resolve<T, E>(
        &mut self,
        specifier: &str,
        originating_file: &str,
        outcome: Result<(T, String), E>,
    ) -> (r: Result<T, ResolveError<E>>)
        ensures
            final(self).dependencies() == old(self).dependencies(),
            is_remote(specifier@) ==> (r matches Err(ResolveError::Remote(written)) && written@
                == specifier@),
            !is_remote(specifier@) ==> match outcome {
                Ok(given) => r == Ok::<T, ResolveError<E>>(given.0),
                Err(e) => r == Err::<T, ResolveError<E>>(ResolveError::Failed(e)),
            },
            is_remote(specifier@) || outcome is Err ==> final(self).entries() == old(self).entries(),
            !is_remote(specifier@) ==> (outcome matches Ok(given) ==> forall|file: Seq<char>|
                #[trigger] final(self).targets(file) == if file == originating_file@ {
                    old(self).targets(file).push(given.1@)
                } else {
                    old(self).targets(file)
                }),
    {
        proof {
            use_type_invariant(&*self);
        }
        if is_remote_import(specifier) {
            return Err(ResolveError::Remote(specifier.to_owned()));
        }
        match outcome {
            Err(e) => Err(ResolveError::Failed(e)),
            Ok((given, target)) => {
                let ghost before = views(self.imports@);
                let mut imports: Vec<ImportEntry> = Vec::new();
                assert(views(imports@) =~= Seq::<ImportEntryView>::empty());
                core::mem::swap(&mut self.imports, &mut imports);
                let from = originating_file.to_owned();
                let mut i: usize = 0;
                let mut found = false;
                while i < imports.len() && !found
                    invariant
                        i <= imports.len(),
                        views(imports@) == before,
                        from@ == originating_file@,
                        forall|j: int| 0 <= j < i ==> (#[trigger] before[j]).from != from@,
                        found ==> i < imports.len() && before[i as int].from == from@,
                    decreases imports.len() - i + (if found { 0int } else { 1int }),
                {
                    assert(before[i as int].from == imports[i as int].from@);
                    if imports[i].from == from {
                        found = true;
                    } else {
                        i += 1;
                    }
                }
                if found {
                    let mut entry = imports.remove(i);
                    assert(entry@ == before[i as int]);
                    let ghost old_to = entry.to@;
                    entry.to.push(target);
                    let ghost updated = before.update(i as int, entry@);
                    proof {
                        assert(views(entry.to@) =~= views(old_to).push(target@));
                        lemma_targets_at(before, i as int);
                        assert forall|file: Seq<char>| #[trigger]
                            targets_in(updated, file) == if file == originating_file@ {
                                targets_in(before, file).push(target@)
                            } else {
                                targets_in(before, file)
                            } by {
                            lemma_targets_update(before, i as int, entry@, file);
                        }
                        lemma_targets_update(before, i as int, entry@, from@);
                    }
                    imports.insert(i, entry);
                    assert(views(imports@) =~= updated);
                } else {
                    let mut to: Vec<String> = Vec::new();
                    to.push(target);
                    let entry = ImportEntry { from, to };
                    let ghost added = before.push(entry@);
                    proof {
                        assert(views(entry.to@) =~= seq![target@]);
                        lemma_targets_absent(before, originating_file@);
                        assert(Seq::<Seq<char>>::empty().push(target@) =~= seq![target@]);
                        assert(added.drop_last() =~= before);
                        assert(added.last() == entry@);
                        assert(entries_valid(added));
                        assert forall|file: Seq<char>| #[trigger]
                            targets_in(added, file) == if file == originating_file@ {
                                targets_in(before, file).push(target@)
                            } else {
                                targets_in(before, file)
                            } by {
                        }
                    }
                    imports.push(entry);
                    assert(views(imports@) =~= added);
                }
                core::mem::swap(&mut self.imports, &mut imports);
                Ok(given)
            },
        }
    }

    /// The result of the bundle, given the printed style sheet.
    pub fn into_result(self, css: String) -> (result: CompileResult)
        ensures
            result.css == css,
            views(result.dependencies@) == self.dependencies(),
            views(result.dependencies@).no_duplicates(),
            views(result.imports@) == self.entries(),
            entries_valid(views(result.imports@)),
    {
        proof {
            use_type_invariant(&self);
        }
        let dependencies = index_set_to_vec(&self.dependencies);
        CompileResult { css, dependencies, imports: self.imports }
    }
}

} // verus!
