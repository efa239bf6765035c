//! The record repository: an in-memory collection of [`Record`]s with a
//! unique `isbn` key, and the create/read/update/delete operations on it.
//!
//! The repository never judges affected-row counts itself: each mutation
//! returns the raw count (zero rows touched is not an error here), so that
//! a caller running a guarded sequence can apply a stricter policy.

use vstd::prelude::*;

use crate::record::{Record, RecordV, RepoError};

verus! {

/// The view of a vector of records: each row as its mathematical image.
pub open spec fn rows_view(rows: Seq<Record>) -> Seq<RecordV> {
    rows.map_values(|r: Record| r@)
}

/// No two rows share an `isbn`.
pub open spec fn unique_isbns(s: Seq<RecordV>) -> bool {
    forall|i: int, j: int| 0 <= i < j < s.len() ==> s[i].isbn != s[j].isbn
}

/// Some row carries this `isbn`.
pub open spec fn has_isbn(s: Seq<RecordV>, isbn: Seq<char>) -> bool {
    exists|i: int| 0 <= i < s.len() && s[i].isbn == isbn
}

/// The index of a row carrying this `isbn` (meaningful when one exists).
pub open spec fn idx_of(s: Seq<RecordV>, isbn: Seq<char>) -> int {
    choose|i: int| 0 <= i < s.len() && s[i].isbn == isbn
}

/// How many rows carry this `isbn`.
pub open spec fn count_isbn(s: Seq<RecordV>, isbn: Seq<char>) -> nat
    decreases s.len(),
{
    if s.len() == 0 {
        0
    } else {
        count_isbn(s.drop_last(), isbn) + if s.last().isbn == isbn {
            1nat
        } else {
            0nat
        }
    }
}

/// How many rows carry this `author`.
pub open spec fn count_author(s: Seq<RecordV>, author: Seq<char>) -> nat
    decreases s.len(),
{
    if s.len() == 0 {
        0
    } else {
        count_author(s.drop_last(), author) + if s.last().author == author {
            1nat
        } else {
            0nat
        }
    }
}

/// The collection with every row of this `author` removed, order kept.
pub open spec fn remove_author(s: Seq<RecordV>, author: Seq<char>) -> Seq<RecordV>
    decreases s.len(),
{
    if s.len() == 0 {
        Seq::<RecordV>::empty()
    } else {
        let rest = remove_author(s.drop_last(), author);
        if s.last().author == author {
            rest
        } else {
            rest.push(s.last())
        }
    }
}

/// Every row matching `isbn` rewritten to the new title and author; other
/// rows untouched.
pub open spec fn update_matching(
    s: Seq<RecordV>,
    title: Seq<char>,
    author: Seq<char>,
    isbn: Seq<char>,
) -> Seq<RecordV> {
    s.map_values(
        |r: RecordV|
            if r.isbn == isbn {
                RecordV { title: title, author: author, isbn: isbn }
            } else {
                r
            },
    )
}

/// A collection without a row of some `isbn` counts it zero times.
pub proof fn lemma_count_isbn_absent(s: Seq<RecordV>, isbn: Seq<char>)
    requires
        !has_isbn(s, isbn),
    ensures
        count_isbn(s, isbn) == 0,
    decreases s.len(),
{
    if s.len() > 0 {
        assert(!has_isbn(s.drop_last(), isbn)) by {
            assert(forall|i: int|
                0 <= i < s.len() - 1 ==> s.drop_last()[i] == s[i]);
        }
        lemma_count_isbn_absent(s.drop_last(), isbn);
        assert(s.last().isbn != isbn);
    }
}

/// Under the unique-key invariant, a present `isbn` is counted exactly
/// once.
pub proof fn lemma_count_isbn_present(s: Seq<RecordV>, isbn: Seq<char>)
    requires
        unique_isbns(s),
        has_isbn(s, isbn),
    ensures
        count_isbn(s, isbn) == 1,
    decreases s.len(),
{
    let init = s.drop_last();
    assert(forall|i: int| 0 <= i < s.len() - 1 ==> init[i] == s[i]);
    assert(unique_isbns(init));
    if s.last().isbn == isbn {
        assert(!has_isbn(init, isbn)) by {
            if has_isbn(init, isbn) {
                let i = choose|i: int| 0 <= i < init.len() && init[i].isbn == isbn;
                assert(s[i].isbn == s[s.len() - 1].isbn);
            }
        }
        lemma_count_isbn_absent(init, isbn);
    } else {
        assert(has_isbn(init, isbn)) by {
            let i = choose|i: int| 0 <= i < s.len() && s[i].isbn == isbn;
            assert(init[i].isbn == isbn);
        }
        lemma_count_isbn_present(init, isbn);
    }
}

/// Two collections whose rows agree on `isbn` position by position count
/// every `isbn` alike.
pub proof fn lemma_count_isbn_pointwise(s: Seq<RecordV>, t: Seq<RecordV>, isbn: Seq<char>)
    requires
        s.len() == t.len(),
        forall|i: int| 0 <= i < s.len() ==> s[i].isbn == t[i].isbn,
    ensures
        count_isbn(s, isbn) == count_isbn(t, isbn),
    decreases s.len(),
{
    if s.len() > 0 {
        assert(forall|i: int|
            0 <= i < s.len() - 1 ==> s.drop_last()[i].isbn == t.drop_last()[i].isbn);
        lemma_count_isbn_pointwise(s.drop_last(), t.drop_last(), isbn);
    }
}

/// Removing an author never invents an `isbn`.
pub proof fn lemma_remove_author_has(s: Seq<RecordV>, author: Seq<char>, isbn: Seq<char>)
    requires
        has_isbn(remove_author(s, author), isbn),
    ensures
        has_isbn(s, isbn),
    decreases s.len(),
{
    if s.len() > 0 {
        let init = s.drop_last();
        let rest = remove_author(init, author);
        if s.last().author == author {
            lemma_remove_author_has(init, author, isbn);
            let i = choose|i: int| 0 <= i < init.len() && init[i].isbn == isbn;
            assert(s[i].isbn == isbn);
        } else {
            let r = remove_author(s, author);
            let k = choose|k: int| 0 <= k < r.len() && r[k].isbn == isbn;
            if k < rest.len() {
                lemma_remove_author_has(init, author, isbn);
                let i = choose|i: int| 0 <= i < init.len() && init[i].isbn == isbn;
                assert(s[i].isbn == isbn);
            } else {
                assert(s[s.len() - 1].isbn == isbn);
            }
        }
    }
}

/// Removing an author keeps the unique-key invariant.
pub proof fn lemma_remove_author_unique(s: Seq<RecordV>, author: Seq<char>)
    requires
        unique_isbns(s),
    ensures
        unique_isbns(remove_author(s, author)),
    decreases s.len(),
{
    if s.len() > 0 {
        let init = s.drop_last();
        assert(forall|i: int| 0 <= i < s.len() - 1 ==> init[i] == s[i]);
        assert(unique_isbns(init));
        lemma_remove_author_unique(init, author);
        let rest = remove_author(init, author);
        if s.last().author != author {
            let last = s.last();
            assert(!has_isbn(rest, last.isbn)) by {
                if has_isbn(rest, last.isbn) {
                    lemma_remove_author_has(init, author, last.isbn);
                    let i = choose|i: int| 0 <= i < init.len() && init[i].isbn == last.isbn;
                    assert(s[i].isbn == s[s.len() - 1].isbn);
                }
            }
            assert(unique_isbns(rest.push(last))) by {
                assert(forall|i: int|
                    0 <= i < rest.len() ==> rest.push(last)[i] == rest[i]);
            }
        }
    }
}

/// The first row carrying `isbn`, if any.
fn find_isbn(rows: &Vec<Record>, isbn: &String) -> (found: Option<usize>)
    ensures
        match found {
            Some(i) => i < rows@.len() && rows@[i as int]@.isbn == isbn@,
            None => !has_isbn(rows_view(rows@), isbn@),
        },
{
    let mut i: usize = 0;
    while i < rows.len()
        invariant
            i <= rows@.len(),
            forall|j: int| 0 <= j < i ==> rows@[j]@.isbn != isbn@,
        decreases rows@.len() - i,
    {
        if rows[i].isbn == *isbn {
            return Some(i);
        }
        i += 1;
    }
    assert(forall|j: int|
        0 <= j < rows_view(rows@).len() ==> rows_view(rows@)[j].isbn != isbn@);
    None
}

/// The record collection, keyed uniquely by `isbn`.
///
/// The view is the ordered sequence of row images; [`Store::wf`] is the
/// collection invariant that every operation preserves.
pub struct Store {
    records: Vec<Record>,
}

impl View for Store {
    type V = Seq<RecordV>;

    closed spec fn view(&self) -> Seq<RecordV> {
        rows_view(self.records@)
    }
}

impl Store {
    /// The collection invariant: `isbn` is a unique key.
    pub open spec fn wf(&self) -> bool {
        unique_isbns(self@)
    }

    /// An empty collection.
    pub fn new() -> (s: Store)
        ensures
            s@ == Seq::<RecordV>::empty(),
            s.wf(),
    {
        let s = Store { records: Vec::new() };
        proof {
            assert(s@ =~= Seq::<RecordV>::empty());
        }
        s
    }

    /// A collection holding exactly the given rows, which must respect the
    /// unique-key invariant.
    pub fn from_records(rows: Vec<Record>) -> (s: Store)
        requires
            unique_isbns(rows_view(rows@)),
        ensures
            s@ == rows_view(rows@),
            s.wf(),
    {
        Store { records: rows }
    }

    /// Inserts one record. Affects one row on success; rejects a duplicate
    /// `isbn` with a constraint violation and changes nothing.
    pub fn create(&mut self, book: &Record) -> (res: Result<u64, RepoError>)
        requires
            old(self).wf(),
        ensures
            final(self).wf(),
            has_isbn(old(self)@, book@.isbn) ==> res == Err::<u64, RepoError>(
                RepoError::ConstraintViolation,
            ) && final(self)@ == old(self)@,
            !has_isbn(old(self)@, book@.isbn) ==> res == Ok::<u64, RepoError>(1u64)
                && final(self)@ == old(self)@.push(book@),
    {
        match find_isbn(&self.records, &book.isbn) {
            Some(i) => {
                proof {
                    assert(self@[i as int].isbn == book@.isbn);
                }
                Err(RepoError::ConstraintViolation)
            },
            None => {
                let ghost before = self@;
                self.records.push(book.clone());
                proof {
                    assert(self@ =~= before.push(book@));
                    assert forall|i: int, j: int| 0 <= i < j < self@.len() implies self@[i].isbn
                        != self@[j].isbn by {
                        if j < before.len() {
                        } else {
                            assert(self@[j] == book@);
                            assert(before[i].isbn != book@.isbn);
                        }
                    }
                }
                Ok(1)
            },
        }
    }

    /// Returns all records, in the collection's order. A fresh call
    /// re-reads the collection; an empty result is not a failure.
    pub fn read(&self) -> (rows: Vec<Record>)
        ensures
            rows_view(rows@) == self@,
    {
        let mut rows: Vec<Record> = Vec::new();
        let mut i: usize = 0;
        while i < self.records.len()
            invariant
                i <= self.records@.len(),
                rows@.len() == i,
                forall|j: int| 0 <= j < i ==> rows@[j] == self.records@[j],
            decreases self.records@.len() - i,
        {
            rows.push(self.records[i].clone());
            i += 1;
        }
        proof {
            assert(rows@ =~= self.records@);
        }
        rows
    }

    /// Rewrites title and author of the row matching `isbn`. Affects one
    /// row when the key exists, zero when it does not; zero is not an
    /// error here.
    pub fn update(&mut self, book: &Record, isbn: &String) -> (n: u64)
        requires
            old(self).wf(),
        ensures
            final(self).wf(),
            final(self)@ == update_matching(old(self)@, book@.title, book@.author, isbn@),
            n == if has_isbn(old(self)@, isbn@) {
                1u64
            } else {
                0u64
            },
    {
        let ghost before = self@;
        match find_isbn(&self.records, isbn) {
            None => {
                proof {
                    assert(forall|j: int|
                        0 <= j < before.len() ==> before[j].isbn != isbn@);
                    assert(final(self)@ =~= update_matching(before, book@.title, book@.author, isbn@));
                }
                0
            },
            Some(i) => {
                let rec = Record {
                    title: book.title.clone(),
                    author: book.author.clone(),
                    isbn: isbn.clone(),
                };
                self.records[i] = rec;
                proof {
                    assert(before[i as int].isbn == isbn@);
                    assert(forall|j: int|
                        0 <= j < before.len() && j != i ==> before[j].isbn != isbn@);
                    assert(self@ =~= update_matching(before, book@.title, book@.author, isbn@));
                    assert forall|a: int, b: int| 0 <= a < b < self@.len() implies self@[a].isbn
                        != self@[b].isbn by {
                        assert(self@[a].isbn == before[a].isbn);
                        assert(self@[b].isbn == before[b].isbn);
                    }
                }
                1
            },
        }
    }

    /// Removes the row matching `isbn`. Affects one row when the key
    /// exists, zero when it does not; zero is not an error here.
    pub fn delete(&mut self, isbn: &String) -> (n: u64)
        requires
            old(self).wf(),
        ensures
            final(self).wf(),
            !has_isbn(old(self)@, isbn@) ==> final(self)@ == old(self)@ && n == 0,
            has_isbn(old(self)@, isbn@) ==> final(self)@ == old(self)@.remove(
                idx_of(old(self)@, isbn@),
            ) && n == 1,
            !has_isbn(final(self)@, isbn@),
    {
        let ghost before = self@;
        match find_isbn(&self.records, isbn) {
            None => 0,
            Some(i) => {
                self.records.remove(i);
                proof {
                    assert(before[i as int].isbn == isbn@);
                    let ic = idx_of(before, isbn@);
                    assert(0 <= ic < before.len() && before[ic].isbn == isbn@);
                    assert(ic == i as int);
                    assert(self@ =~= before.remove(i as int)) by {
                        before.remove_ensures(i as int);
                        assert(self.records@ == old(self).records@.remove(i as int));
                        old(self).records@.remove_ensures(i as int);
                    }
                    before.remove_ensures(ic);
                    assert forall|a: int, b: int| 0 <= a < b < self@.len() implies self@[a].isbn
                        != self@[b].isbn by {
                        let sa = if a < ic { a } else { a + 1 };
                        let sb = if b < ic { b } else { b + 1 };
                        assert(self@[a] == before[sa]);
                        assert(self@[b] == before[sb]);
                    }
                    assert(!has_isbn(self@, isbn@)) by {
                        if has_isbn(self@, isbn@) {
                            let k = choose|k: int|
                                0 <= k < self@.len() && self@[k].isbn == isbn@;
                            let sk = if k < ic { k } else { k + 1 };
                            assert(self@[k] == before[sk]);
                            assert(before[sk].isbn == before[ic].isbn && sk != ic);
                        }
                    }
                }
                1
            },
        }
    }

    /// Removes every row of this author, keeping the others in order, and
    /// returns how many rows went. Zero is not an error here.
    pub fn delete_by_author(&mut self, author: &String) -> (n: u64)
        requires
            old(self).wf(),
        ensures
            final(self).wf(),
            final(self)@ == remove_author(old(self)@, author@),
            n == count_author(old(self)@, author@),
    {
        let ghost v = self@;
        let mut kept: Vec<Record> = Vec::new();
        let mut cnt: u64 = 0;
        let mut i: usize = 0;
        while i < self.records.len()
            invariant
                i <= self.records@.len(),
                v == rows_view(self.records@),
                rows_view(kept@) == remove_author(v.take(i as int), author@),
                cnt == count_author(v.take(i as int), author@),
                cnt <= i,
            decreases self.records@.len() - i,
        {
            let ghost prefix = v.take(i as int);
            let ghost next = v.take(i as int + 1);
            proof {
                assert(next.drop_last() =~= prefix);
                assert(next.last() == v[i as int]);
            }
            if self.records[i].author == *author {
                cnt += 1;
                proof {
                    assert(v[i as int].author == author@);
                    assert(remove_author(next, author@) == remove_author(prefix, author@));
                    assert(count_author(next, author@) == count_author(prefix, author@) + 1);
                }
            } else {
                kept.push(self.records[i].clone());
                proof {
                    assert(v[i as int].author != author@);
                    assert(remove_author(next, author@) == remove_author(prefix, author@).push(
                        v[i as int],
                    ));
                    assert(count_author(next, author@) == count_author(prefix, author@));
                    assert(rows_view(kept@) =~= remove_author(prefix, author@).push(v[i as int]));
                }
            }
            i += 1;
        }
        proof {
            assert(v.take(v.len() as int) =~= v);
            lemma_remove_author_unique(v, author@);
        }
        self.records = kept;
        cnt
    }
}

} // verus!
