//! What a whole walk through a directory leaves.
//!
//! A walk goes in rounds: it asks for an entry to be read, and takes the answer.

use vstd::multiset::Multiset;
use vstd::prelude::*;

use crate::graph::source_depmap::{self, DepmapWalk, EntryModel, LabelCheck, TreeFile, WalkAction, WalkEntry};
use crate::source::source_entry::Status;
use crate::source::source_reference::SourceReference;

verus! {

/// What a walk is told of the entry that it asked for.
pub enum WalkAnswer {
    Directory { entries: Seq<WalkEntry> },
    File { content_hash: Vec<u8>, executable: bool },
}

/// Whether a walk asked for an entry, and took the answer.
pub open spec fn round(before: DepmapWalk, asked: DepmapWalk, answer: WalkAnswer, after: DepmapWalk) -> bool {
    match answer {
        WalkAnswer::Directory { entries } => {
            &&& asked.went_on(before, WalkAction::ReadDirectory)
            &&& after.took_directory(asked, entries)
        },
        WalkAnswer::File { content_hash, executable } => {
            &&& asked.went_on(before, WalkAction::CacheFile)
            &&& after.took_file(asked, content_hash, executable)
        },
    }
}

/// Whether a walk goes through rounds, one after the other: `walks` holds its states before and after
/// each, and `asked` those while it waits for an answer.
pub open spec fn rounds(walks: Seq<DepmapWalk>, asked: Seq<DepmapWalk>, answers: Seq<WalkAnswer>) -> bool {
    &&& walks.len() == answers.len() + 1
    &&& asked.len() == answers.len()
    &&& forall|i: int| 0 <= i < answers.len() ==> round(walks[i], asked[i], #[trigger] answers[i], walks[i + 1])
}

/// The entries that one answer adds.
pub open spec fn entries_told(answer: WalkAnswer) -> Seq<WalkEntry> {
    match answer {
        WalkAnswer::Directory { entries } => entries,
        WalkAnswer::File { .. } => Seq::empty(),
    }
}

/// All entries that a walk was told of.
pub open spec fn entries_seen(entries: Seq<WalkEntry>, answers: Seq<WalkAnswer>) -> Seq<WalkEntry>
    decreases answers.len(),
{
    if answers.len() == 0 {
        entries
    } else {
        entries_seen(entries, answers.drop_last()) + entries_told(answers.last())
    }
}

/// What kind of file stands at a path.
pub enum EntryKind {
    Regular,
    Symlink { target: Seq<char> },
    Directory,
}

/// The kind of an entry of a tree.
pub open spec fn kind_of(model: (Seq<char>, EntryModel)) -> (Seq<char>, EntryKind) {
    (
        model.0,
        match model.1 {
            EntryModel::Regular { .. } => EntryKind::Regular,
            EntryModel::Symlink { target } => EntryKind::Symlink { target },
            EntryModel::Directory => EntryKind::Directory,
        },
    )
}

/// The kinds of the files of a tree.
pub open spec fn file_kinds(files: Seq<TreeFile>) -> Seq<(Seq<char>, EntryKind)> {
    files.map_values(|f: TreeFile| kind_of(source_depmap::file_model(f)))
}

/// The kind of what an entry is seen to be. `None` where it is not there.
pub open spec fn seen_as(entry: WalkEntry) -> Option<EntryKind> {
    match entry.reference.pre_observation_status {
        Status::Directory(_) => Some(EntryKind::Directory),
        Status::File(_) => Some(EntryKind::Regular),
        Status::Symlink(l) => Some(EntryKind::Symlink { target: l.target@ }),
        Status::NotFound => None,
    }
}

/// One file for each entry below the root that can stand in a label and is there, from the last to the
/// first.
pub open spec fn tree_of(root: Seq<char>, entries: Seq<WalkEntry>) -> Seq<(Seq<char>, EntryKind)>
    decreases entries.len(),
{
    if entries.len() == 0 {
        Seq::empty()
    } else {
        let rest = tree_of(root, entries.drop_first());
        match (source_depmap::entry_subpath(root, entries[0]), seen_as(entries[0])) {
            (Some(subpath), Some(kind)) => rest.push((subpath, kind)),
            _ => rest,
        }
    }
}

proof fn lemma_tree_of_both(root: Seq<char>, a: Seq<WalkEntry>, b: Seq<WalkEntry>)
    ensures
        tree_of(root, a + b) == tree_of(root, b) + tree_of(root, a),
        source_depmap::recorded_in(root, a + b) == source_depmap::recorded_in(root, b)
            + source_depmap::recorded_in(root, a),
    decreases a.len(),
{
    if a.len() == 0 {
        assert(a + b =~= b);
        assert(tree_of(root, b) + tree_of(root, a) =~= tree_of(root, b));
        assert(source_depmap::recorded_in(root, b) + source_depmap::recorded_in(root, a)
            =~= source_depmap::recorded_in(root, b));
    } else {
        lemma_tree_of_both(root, a.drop_first(), b);
        assert((a + b).drop_first() =~= a.drop_first() + b);
        assert((a + b)[0] == a[0]);
        assert(tree_of(root, a + b) =~= tree_of(root, b) + tree_of(root, a));
        assert(source_depmap::recorded_in(root, a + b) =~= source_depmap::recorded_in(root, b)
            + source_depmap::recorded_in(root, a));
    }
}

proof fn lemma_links_are_tree(root: Seq<char>, entries: Seq<WalkEntry>)
    requires
        forall|i: int|
            0 <= i < entries.len() ==> source_depmap::skipped_or_kept(root, #[trigger] entries[i]),
    ensures
        source_depmap::links_in(root, entries).map_values(|m: (Seq<char>, EntryModel)| kind_of(m)) == tree_of(
            root,
            entries,
        ),
    decreases entries.len(),
{
    let f = |m: (Seq<char>, EntryModel)| kind_of(m);
    let links = source_depmap::links_in(root, entries);
    if entries.len() == 0 {
        assert(links.map_values(f) =~= tree_of(root, entries));
    } else {
        let rest = entries.drop_first();
        assert forall|i: int| 0 <= i < rest.len() implies source_depmap::skipped_or_kept(
            root,
            #[trigger] rest[i],
        ) by {
            assert(rest[i] == entries[i + 1]);
        }
        lemma_links_are_tree(root, rest);
        assert(source_depmap::skipped_or_kept(root, entries[0]));
        let before = source_depmap::links_in(root, rest);
        match (source_depmap::entry_subpath(root, entries[0]), seen_as(entries[0])) {
            (Some(subpath), Some(kind)) => {
                assert(links.map_values(f) =~= before.map_values(f).push((subpath, kind)));
            },
            _ => {
                assert(links == before);
            },
        }
    }
}

/// The files that a walk has, with those that it owes for the entries on its stack.
pub open spec fn kept_or_owed(walk: DepmapWalk) -> Multiset<(Seq<char>, EntryKind)> {
    (file_kinds(walk.files@) + tree_of(walk.root@, walk.stack@)).to_multiset()
}

/// The sources that a walk recorded, with those that it owes for the entries on its stack.
pub open spec fn recorded_or_owed(walk: DepmapWalk) -> Multiset<SourceReference> {
    (walk.references@ + source_depmap::recorded_in(walk.root@, walk.stack@)).to_multiset()
}

proof fn lemma_kinds_grow(before: Seq<TreeFile>, after: Seq<TreeFile>)
    requires
        before.is_prefix_of(after),
    ensures
        file_kinds(after) == file_kinds(before) + source_depmap::new_files(before, after).map_values(
            |m: (Seq<char>, EntryModel)| kind_of(m),
        ),
{
    let n = before.len() as int;
    assert forall|i: int| 0 <= i < n implies after[i] == before[i] by {
        assert(after.subrange(0, n)[i] == after[i]);
    }
    let grown = source_depmap::new_files(before, after).map_values(|m: (Seq<char>, EntryModel)| kind_of(m));
    assert(file_kinds(after) =~= file_kinds(before) + grown);
}

proof fn lemma_round(before: DepmapWalk, asked: DepmapWalk, answer: WalkAnswer, after: DepmapWalk)
    requires
        round(before, asked, answer, after),
    ensures
        after.root == before.root,
        kept_or_owed(after) == kept_or_owed(before).add(
            tree_of(before.root@, entries_told(answer)).to_multiset(),
        ),
        recorded_or_owed(after) == recorded_or_owed(before).add(
            source_depmap::recorded_in(before.root@, entries_told(answer)).to_multiset(),
        ),
{
    let root = before.root@;
    let n = asked.stack@.len() as int;
    let entry = before.stack@[n];
    let taken = before.stack@.skip(n + 1);
    let told = entries_told(answer);
    let left = asked.stack@;
    assert(asked.current is Some);
    let subpath = asked.current->0.subpath@;
    assert(left =~= before.stack@.take(n));
    assert(before.stack@ =~= left + (seq![entry] + taken));
    assert(after.stack@ =~= left + told);
    lemma_tree_of_both(root, left, seq![entry] + taken);
    lemma_tree_of_both(root, seq![entry], taken);
    lemma_tree_of_both(root, left, told);
    assert forall|i: int| 0 <= i < taken.len() implies source_depmap::skipped_or_kept(
        root,
        #[trigger] taken[i],
    ) by {
        assert(taken[i] == before.stack@[n + 1 + i]);
    }
    lemma_links_are_tree(root, taken);
    lemma_kinds_grow(before.files@, asked.files@);
    let kind = match answer {
        WalkAnswer::Directory { .. } => EntryKind::Directory,
        WalkAnswer::File { .. } => EntryKind::Regular,
    };
    reveal_with_fuel(tree_of, 2);
    reveal_with_fuel(source_depmap::recorded_in, 2);
    assert(seq![entry].drop_first() =~= Seq::<WalkEntry>::empty());
    assert(tree_of(root, seq![entry]) =~= seq![(subpath, kind)]);
    assert(source_depmap::recorded_in(root, seq![entry]) =~= seq![entry.reference]);
    assert(after.files@ =~= asked.files@.push(after.files@.last()));
    assert(file_kinds(after.files@) =~= file_kinds(asked.files@).push((subpath, kind)));

    let files = file_kinds(before.files@);
    let links = tree_of(root, taken);
    let own = seq![(subpath, kind)];
    let owed = tree_of(root, left);
    let new = tree_of(root, told);
    assert(file_kinds(after.files@) + tree_of(root, after.stack@) =~= (files + (links + own)) + (new + owed));
    assert(files + tree_of(root, before.stack@) =~= files + ((links + own) + owed));
    lemma_moved(files, links + own, new, owed);

    let sources = before.references@;
    let passed = source_depmap::recorded_in(root, taken);
    let one = seq![entry.reference];
    let due = source_depmap::recorded_in(root, left);
    let more = source_depmap::recorded_in(root, told);
    assert(after.references@ + source_depmap::recorded_in(root, after.stack@) =~= (sources + (passed + one)) + (more
        + due));
    assert(sources + source_depmap::recorded_in(root, before.stack@) =~= sources + ((passed + one) + due));
    lemma_moved(sources, passed + one, more, due);
}

proof fn lemma_moved<T>(a: Seq<T>, b: Seq<T>, new: Seq<T>, c: Seq<T>)
    ensures
        ((a + b) + (new + c)).to_multiset() == (a + (b + c)).to_multiset().add(new.to_multiset()),
{
    vstd::seq_lib::lemma_multiset_commutative(a + b, new + c);
    vstd::seq_lib::lemma_multiset_commutative(a, b);
    vstd::seq_lib::lemma_multiset_commutative(new, c);
    vstd::seq_lib::lemma_multiset_commutative(a, b + c);
    vstd::seq_lib::lemma_multiset_commutative(b, c);
    assert(((a + b) + (new + c)).to_multiset() =~= (a + (b + c)).to_multiset().add(new.to_multiset()));
}

/// Whether nothing stops a walk at an entry: it is left out, or can stand in a label.
pub open spec fn passes(root: Seq<char>, entry: WalkEntry) -> bool {
    source_depmap::entry_subpath(root, entry) is Some ==> entry.label == LabelCheck::Valid
}

proof fn lemma_rounds(walks: Seq<DepmapWalk>, asked: Seq<DepmapWalk>, answers: Seq<WalkAnswer>)
    requires
        rounds(walks, asked, answers),
        walks[0].files@.len() == 0,
        walks[0].references@.len() == 0,
    ensures
        walks.last().root == walks[0].root,
        kept_or_owed(walks.last()) == tree_of(
            walks[0].root@,
            entries_seen(walks[0].stack@, answers),
        ).to_multiset(),
        recorded_or_owed(walks.last()) == source_depmap::recorded_in(
            walks[0].root@,
            entries_seen(walks[0].stack@, answers),
        ).to_multiset(),
        forall|e: WalkEntry| #[trigger]
            entries_seen(walks[0].stack@, answers).contains(e) ==> passes(walks[0].root@, e)
                || walks.last().stack@.contains(e),
    decreases answers.len(),
{
    let root = walks[0].root@;
    let entries = walks[0].stack@;
    if answers.len() == 0 {
        assert(file_kinds(walks[0].files@) + tree_of(root, entries) =~= tree_of(root, entries));
        assert(walks[0].references@ + source_depmap::recorded_in(root, entries) =~= source_depmap::recorded_in(
            root,
            entries,
        ));
    } else {
        let n = answers.len() - 1;
        let earlier_walks = walks.drop_last();
        let earlier_asked = asked.drop_last();
        let earlier = answers.drop_last();
        assert(earlier.len() == n && earlier_walks.len() == n + 1 && earlier_asked.len() == n);
        assert forall|i: int| 0 <= i < earlier.len() implies round(
            earlier_walks[i],
            earlier_asked[i],
            #[trigger] earlier[i],
            earlier_walks[i + 1],
        ) by {
            assert(earlier[i] == answers[i]);
        }
        lemma_rounds(earlier_walks, earlier_asked, earlier);
        let before = walks[n];
        let after = walks[n + 1];
        let told = entries_told(answers[n]);
        let seen = entries_seen(entries, earlier);
        assert(round(before, asked[n], answers[n], after));
        lemma_round(before, asked[n], answers[n], after);
        lemma_tree_of_both(root, seen, told);
        vstd::seq_lib::lemma_multiset_commutative(tree_of(root, told), tree_of(root, seen));
        vstd::seq_lib::lemma_multiset_commutative(
            source_depmap::recorded_in(root, told),
            source_depmap::recorded_in(root, seen),
        );
        assert(kept_or_owed(after) =~= tree_of(root, seen + told).to_multiset());
        assert(recorded_or_owed(after) =~= source_depmap::recorded_in(root, seen + told).to_multiset());
        let left = asked[n].stack@;
        assert(after.stack@ =~= left + told);
        assert forall|e: WalkEntry| #[trigger] (seen + told).contains(e) implies passes(root, e)
            || after.stack@.contains(e) by {
            let i = choose|i: int| 0 <= i < (seen + told).len() && (seen + told)[i] == e;
            if i >= seen.len() {
                assert(after.stack@[left.len() + (i - seen.len())] == e);
            } else {
                assert(seen[i] == e);
                assert(seen.contains(e));
                if before.stack@.contains(e) {
                    let k = choose|k: int| 0 <= k < before.stack@.len() && before.stack@[k] == e;
                    if k < left.len() {
                        assert(left[k] == before.stack@.take(left.len() as int)[k]);
                        assert(after.stack@[k] == e);
                    } else if k > left.len() {
                        assert(source_depmap::skipped_or_kept(root, before.stack@[k]));
                    }
                }
            }
        }
    }
}

/// A walk that is done holds exactly one file for each entry that it was told of that is below the root,
/// can stand in a label and is there, at its path and of its kind. It recorded exactly the sources of the
/// entries that are below the root and can stand in a label. None of the entries led out of the root.
pub proof fn finished_walks_hold_every_entry_once(
    walks: Seq<DepmapWalk>,
    asked: Seq<DepmapWalk>,
    answers: Seq<WalkAnswer>,
    end: DepmapWalk,
)
    requires
        rounds(walks, asked, answers),
        walks[0].files@.len() == 0,
        walks[0].references@.len() == 0,
        end.went_on(walks.last(), WalkAction::Done),
    ensures
        ({
            let root = walks[0].root@;
            let seen = entries_seen(walks[0].stack@, answers);
            &&& file_kinds(end.files@).to_multiset() == tree_of(root, seen).to_multiset()
            &&& end.references@.to_multiset() == source_depmap::recorded_in(root, seen).to_multiset()
            &&& forall|i: int| 0 <= i < seen.len() ==> passes(root, #[trigger] seen[i])
        }),
{
    lemma_rounds(walks, asked, answers);
    let root = walks[0].root@;
    let seen = entries_seen(walks[0].stack@, answers);
    let last = walks.last();
    assert(last.stack@.skip(0) =~= last.stack@);
    lemma_links_are_tree(root, last.stack@);
    lemma_kinds_grow(last.files@, end.files@);
    assert forall|i: int| 0 <= i < seen.len() implies passes(root, #[trigger] seen[i]) by {
        assert(seen.contains(seen[i]));
        if last.stack@.contains(seen[i]) {
            let k = choose|k: int| 0 <= k < last.stack@.len() && last.stack@[k] == seen[i];
            assert(source_depmap::skipped_or_kept(root, last.stack@[k]));
        }
    }
}

/// Entries are seen as what they are, and what is not there is not.
pub proof fn entries_are_seen_as_what_they_are(entry: WalkEntry)
    ensures
        match entry.reference.pre_observation_status {
            Status::Directory(_) => seen_as(entry) == Some(EntryKind::Directory),
            Status::File(_) => seen_as(entry) == Some(EntryKind::Regular),
            Status::Symlink(l) => seen_as(entry) == Some(EntryKind::Symlink { target: l.target@ }),
            Status::NotFound => seen_as(entry) is None,
        },
{
}

/// The tree of entries holds each that is below the root and there, under its path, and no other.
pub proof fn trees_hold_each_entry_that_is_there(root: Seq<char>, entry: WalkEntry, rest: Seq<WalkEntry>)
    ensures
        tree_of(root, Seq::empty()) == Seq::<(Seq<char>, EntryKind)>::empty(),
        tree_of(root, seq![entry] + rest) == if source_depmap::entry_subpath(root, entry) is Some && seen_as(entry)
            is Some {
            tree_of(root, rest).push((source_depmap::entry_subpath(root, entry)->0, seen_as(entry)->0))
        } else {
            tree_of(root, rest)
        },
{
    let all = seq![entry] + rest;
    assert(all[0] == entry);
    assert(all.drop_first() =~= rest);
}

/// A walk was told of the entries that it started with, and of those of every directory that was read.
pub proof fn walks_are_told_of_every_entry(
    entries: Seq<WalkEntry>,
    answers: Seq<WalkAnswer>,
    more: Seq<WalkEntry>,
    content_hash: Vec<u8>,
    executable: bool,
)
    ensures
        entries_seen(entries, Seq::empty()) == entries,
        entries_seen(entries, answers.push(WalkAnswer::Directory { entries: more })) == entries_seen(entries, answers)
            + more,
        entries_seen(entries, answers.push(WalkAnswer::File { content_hash, executable })) == entries_seen(
            entries,
            answers,
        ),
{
    let read = answers.push(WalkAnswer::Directory { entries: more });
    let cached = answers.push(WalkAnswer::File { content_hash, executable });
    assert(read.drop_last() =~= answers);
    assert(cached.drop_last() =~= answers);
    assert(entries_seen(entries, cached) =~= entries_seen(entries, answers));
}

} // verus!
