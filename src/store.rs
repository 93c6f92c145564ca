use vstd::prelude::*;
use crate::errors::CliError;
use crate::generics::Crud;

verus! {

/// How many present identifiers a `MissingIdentifier` error lists.
pub const AVAILABLE_SHOWN: usize = 10;

/// No two records of the sequence share an identifier.
pub open spec fn keys_unique<T: Crud>(s: Seq<T>) -> bool {
    forall|i: int, j: int| 0 <= i < j < s.len() ==> s[i].key() != s[j].key()
}

/// The mapping from identifier to record that a sequence of records stands for.
pub open spec fn to_map<T: Crud>(s: Seq<T>) -> Map<Seq<char>, T>
    decreases s.len(),
{
    if s.len() == 0 {
        Map::empty()
    } else {
        to_map(s.drop_last()).insert(s.last().key(), s.last())
    }
}

proof fn lemma_to_map_keys<T: Crud>(s: Seq<T>)
    ensures
        forall|k: Seq<char>| #[trigger]
            to_map(s).contains_key(k) <==> exists|i: int| 0 <= i < s.len() && s[i].key() == k,
    decreases s.len(),
{
    if s.len() > 0 {
        let d = s.drop_last();
        lemma_to_map_keys(d);
        assert(to_map(s) == to_map(d).insert(s.last().key(), s.last()));
        assert forall|k: Seq<char>| #[trigger]
            to_map(s).contains_key(k) implies exists|i: int| 0 <= i < s.len() && s[i].key() == k by {
            if k == s.last().key() {
                assert(s[s.len() - 1].key() == k);
            } else {
                assert(to_map(d).contains_key(k));
                let i = choose|i: int| 0 <= i < d.len() && d[i].key() == k;
                assert(s[i] == d[i]);
            }
        }
        assert forall|k: Seq<char>|
            (exists|i: int| 0 <= i < s.len() && s[i].key() == k) implies #[trigger]
            to_map(s).contains_key(k) by {
            let i = choose|i: int| 0 <= i < s.len() && s[i].key() == k;
            if i < s.len() - 1 {
                assert(d[i] == s[i]);
            }
        }
    }
}

proof fn lemma_to_map_value<T: Crud>(s: Seq<T>, i: int)
    requires
        keys_unique(s),
        0 <= i < s.len(),
    ensures
        to_map(s).contains_key(s[i].key()),
        to_map(s)[s[i].key()] == s[i],
    decreases s.len(),
{
    lemma_to_map_keys(s);
    if i < s.len() - 1 {
        let d = s.drop_last();
        assert(d[i] == s[i]);
        lemma_to_map_value(d, i);
    }
}

proof fn lemma_to_map_len<T: Crud>(s: Seq<T>)
    requires
        keys_unique(s),
    ensures
        to_map(s).dom().finite(),
        to_map(s).len() == s.len(),
    decreases s.len(),
{
    if s.len() > 0 {
        let d = s.drop_last();
        lemma_to_map_len(d);
        lemma_to_map_keys(d);
        assert(!to_map(d).contains_key(s.last().key())) by {
            if to_map(d).contains_key(s.last().key()) {
                let i = choose|i: int| 0 <= i < d.len() && d[i].key() == s.last().key();
                assert(s[i] == d[i]);
            }
        }
    }
}

/// Two unique sequences with the same records under each key stand for the same map.
proof fn lemma_to_map_ext<T: Crud>(s: Seq<T>, m: Map<Seq<char>, T>)
    requires
        keys_unique(s),
        forall|k: Seq<char>| #[trigger]
            m.contains_key(k) <==> exists|i: int| 0 <= i < s.len() && s[i].key() == k,
        forall|i: int| 0 <= i < s.len() ==> m[#[trigger] s[i].key()] == s[i],
    ensures
        to_map(s) == m,
{
    lemma_to_map_keys(s);
    assert forall|k: Seq<char>| #[trigger] to_map(s).contains_key(k) implies to_map(s)[k] == m[k] by {
        let i = choose|i: int| 0 <= i < s.len() && s[i].key() == k;
        lemma_to_map_value(s, i);
    }
    assert(to_map(s) =~= m);
}

/// Facts about a unique sequence: its map is finite, has one entry per
/// record, and the identifiers of the records are exactly its keys.
proof fn lemma_unique_facts<T: Crud>(s: Seq<T>)
    requires
        keys_unique(s),
    ensures
        to_map(s).dom().finite(),
        to_map(s).len() == s.len(),
        forall|i: int| 0 <= i < s.len() ==> to_map(s).contains_key(#[trigger] s[i].key()),
        forall|i: int| 0 <= i < s.len() ==> to_map(s)[#[trigger] s[i].key()] == s[i],
        forall|k: Seq<char>| #[trigger]
            to_map(s).contains_key(k) <==> exists|i: int| 0 <= i < s.len() && s[i].key() == k,
{
    lemma_to_map_len(s);
    lemma_to_map_keys(s);
    assert forall|i: int| 0 <= i < s.len() implies to_map(s)[#[trigger] s[i].key()] == s[i] by {
        lemma_to_map_value(s, i);
    }
}

proof fn lemma_remove_keeps<T: Crud>(s: Seq<T>, i: int)
    requires
        keys_unique(s),
        0 <= i < s.len(),
    ensures
        keys_unique(s.remove(i)),
        to_map(s.remove(i)) == to_map(s).remove(s[i].key()),
{
    let t = s.remove(i);
    let m = to_map(s).remove(s[i].key());
    lemma_unique_facts(s);
    assert forall|a: int, b: int| 0 <= a < b < t.len() implies t[a].key() != t[b].key() by {
        let a2 = if a < i { a } else { a + 1 };
        let b2 = if b < i { b } else { b + 1 };
        assert(t[a] == s[a2] && t[b] == s[b2]);
    }
    assert forall|k: Seq<char>| #[trigger]
        m.contains_key(k) <==> exists|j: int| 0 <= j < t.len() && t[j].key() == k by {
        if m.contains_key(k) {
            let j = choose|j: int| 0 <= j < s.len() && s[j].key() == k;
            let j2 = if j < i { j } else { j - 1 };
            assert(t[j2] == s[j]);
        }
        if exists|j: int| 0 <= j < t.len() && t[j].key() == k {
            let j = choose|j: int| 0 <= j < t.len() && t[j].key() == k;
            let j2 = if j < i { j } else { j + 1 };
            assert(t[j] == s[j2]);
        }
    }
    assert forall|j: int| 0 <= j < t.len() implies m[#[trigger] t[j].key()] == t[j] by {
        let j2 = if j < i { j } else { j + 1 };
        assert(t[j] == s[j2]);
    }
    lemma_to_map_ext(t, m);
}

proof fn lemma_update_keeps<T: Crud>(s: Seq<T>, i: int, r: T)
    requires
        keys_unique(s),
        0 <= i < s.len(),
        r.key() == s[i].key(),
    ensures
        keys_unique(s.update(i, r)),
        to_map(s.update(i, r)) == to_map(s).insert(r.key(), r),
{
    let t = s.update(i, r);
    let m = to_map(s).insert(r.key(), r);
    lemma_unique_facts(s);
    assert forall|a: int, b: int| 0 <= a < b < t.len() implies t[a].key() != t[b].key() by {
        assert(t[a].key() == s[a].key() && t[b].key() == s[b].key());
    }
    assert forall|k: Seq<char>| #[trigger]
        m.contains_key(k) <==> exists|j: int| 0 <= j < t.len() && t[j].key() == k by {
        if m.contains_key(k) {
            if k == r.key() {
                assert(t[i].key() == k);
            } else {
                let j = choose|j: int| 0 <= j < s.len() && s[j].key() == k;
                assert(t[j] == s[j]);
            }
        }
        if exists|j: int| 0 <= j < t.len() && t[j].key() == k {
            let j = choose|j: int| 0 <= j < t.len() && t[j].key() == k;
            assert(t[j].key() == s[j].key());
        }
    }
    assert forall|j: int| 0 <= j < t.len() implies m[#[trigger] t[j].key()] == t[j] by {
        if j != i {
            assert(t[j] == s[j]);
        }
    }
    lemma_to_map_ext(t, m);
}

proof fn lemma_push_keeps<T: Crud>(s: Seq<T>, r: T)
    requires
        keys_unique(s),
        !to_map(s).contains_key(r.key()),
    ensures
        keys_unique(s.push(r)),
        to_map(s.push(r)) == to_map(s).insert(r.key(), r),
{
    lemma_unique_facts(s);
    let t = s.push(r);
    assert(t.drop_last() == s);
    assert forall|a: int, b: int| 0 <= a < b < t.len() implies t[a].key() != t[b].key() by {
        if b == s.len() {
            assert(to_map(s).contains_key(s[a].key()));
        } else {
            assert(t[a] == s[a] && t[b] == s[b]);
        }
    }
}

/// Position of the record with identifier `slug`, if any.
fn find_in<T: Crud>(items: &Vec<T>, slug: &str) -> (r: Option<usize>)
    ensures
        match r {
            Some(i) => i < items@.len() && items@[i as int].key() == slug@,
            None => forall|i: int| 0 <= i < items@.len() ==> items@[i].key() != slug@,
        },
{
    let target = slug.to_owned();
    let mut i: usize = 0;
    while i < items.len()
        invariant
            i <= items@.len(),
            target@ == slug@,
            forall|j: int| 0 <= j < i ==> items@[j].key() != slug@,
        decreases items@.len() - i,
    {
        let id = items[i].identifier();
        if id == target {
            return Some(i);
        }
        i = i + 1;
    }
    None
}

/// The records of a sequence of (identifier, record) entries.
pub open spec fn entry_records<T>(es: Seq<(String, T)>) -> Seq<T> {
    es.map_values(|e: (String, T)| e.1)
}

/// Each entry is filed under its record's own identifier, and no identifier
/// occurs twice.
pub open spec fn entries_consistent<T: Crud>(es: Seq<(String, T)>) -> bool {
    &&& forall|i: int| 0 <= i < es.len() ==> (#[trigger] es[i]).0@ == es[i].1.key()
    &&& keys_unique(entry_records(es))
}

/// What a read of a collection's file found, decoded by the file's codec.
pub enum FileContent<T> {
    /// There is no file: the collection is empty.
    Absent,
    /// The file exists but could not be read.
    Unreadable { detail: String },
    /// The file was read but its text does not decode.
    Undecodable { detail: String },
    /// The decoded (identifier, record) entries, in the order the codec gave them.
    Decoded { entries: Vec<(String, T)> },
}

/// A whole collection of one record kind, held in memory between a read of
/// its file and the write that replaces it. No two records share an identifier.
pub struct Collection<T: Crud> {
    items: Vec<T>,
}

impl<T: Crud> View for Collection<T> {
    type V = Map<Seq<char>, T>;

    closed spec fn view(&self) -> Map<Seq<char>, T> {
        to_map(self.items@)
    }
}

impl<T: Crud> Collection<T> {
    #[verifier::type_invariant]
    spec fn inv(&self) -> bool {
        keys_unique(self.items@)
    }

    /// The identifiers of the records, in the order in which they are held.
    pub closed spec fn stored_keys(&self) -> Seq<Seq<char>> {
        self.items@.map_values(|r: T| r.key())
    }

    /// An empty collection.
    pub fn new() -> (r: Self)
        ensures
            r@ == Map::<Seq<char>, T>::empty(),
            r.stored_keys() == Seq::<Seq<char>>::empty(),
    {
        let r = Collection { items: Vec::new() };
        assert(r@ =~= Map::<Seq<char>, T>::empty());
        assert(r.stored_keys() =~= Seq::<Seq<char>>::empty());
        r
    }

    /// Builds a collection from decoded entries; fails with `Corruption`,
    /// naming the offending identifier, when an entry is filed under another
    /// identifier than its record's or an identifier occurs twice.
    pub fn from_entries(entries: Vec<(String, T)>) -> (r: Result<Self, CliError>)
        ensures
            r is Ok <==> entries_consistent(entries@),
            r is Ok ==> r->Ok_0@ == to_map(entry_records(entries@)),
            r is Ok ==> r->Ok_0.stored_keys() == entry_records(entries@).map_values(
                |t: T| t.key(),
            ),
            r is Err ==> r->Err_0 is Corruption,
    {
        let ghost es = entries@;
        let mut rest = entries;
        let mut items: Vec<T> = Vec::new();
        let ghost mut n: int = 0;
        while rest.len() > 0
            invariant
                es == entries@,
                0 <= n <= es.len(),
                rest@ == es.subrange(n, es.len() as int),
                forall|i: int| 0 <= i < n ==> (#[trigger] es[i]).0@ == es[i].1.key(),
                keys_unique(items@),
                items@ == entry_records(es.subrange(0, n)),
            decreases rest@.len(),
        {
            proof {
                lemma_unique_facts(items@);
            }
            let (slug, record) = rest.remove(0);
            assert(es[n] == (slug, record));
            let id = record.identifier();
            if !(id == slug) {
                assert(!entries_consistent(es));
                return Err(CliError::Corruption { detail: slug });
            }
            if let Some(j) = find_in(&items, slug.as_str()) {
                proof {
                    assert(entry_records(es)[j as int] == items@[j as int]);
                    assert(entry_records(es)[n] == record);
                    assert(!entries_consistent(es));
                }
                return Err(CliError::Corruption { detail: slug });
            }
            proof {
                lemma_push_keeps(items@, record);
                assert(entry_records(es.subrange(0, n + 1)) == entry_records(es.subrange(0, n)).push(
                    record,
                ));
            }
            items.push(record);
            proof {
                n = n + 1;
            }
        }
        proof {
            assert(es.subrange(0, n) == es);
        }
        Ok(Collection { items })
    }

    /// The collection that a read of its file stands for: empty when there is
    /// no file, `Read` when it could not be read, `Corruption` when its text or
    /// its entries are not a well-formed collection.
    pub fn load(content: FileContent<T>) -> (r: Result<Self, CliError>)
        ensures
            match content {
                FileContent::Absent => r is Ok && r->Ok_0@ == Map::<Seq<char>, T>::empty(),
                FileContent::Unreadable { detail } => r == Err::<Self, CliError>(
                    CliError::Read { detail },
                ),
                FileContent::Undecodable { detail } => r == Err::<Self, CliError>(
                    CliError::Corruption { detail },
                ),
                FileContent::Decoded { entries } => {
                    &&& r is Ok <==> entries_consistent(entries@)
                    &&& r is Ok ==> r->Ok_0@ == to_map(entry_records(entries@))
                    &&& r is Err ==> r->Err_0 is Corruption
                },
            },
    {
        match content {
            FileContent::Absent => Ok(Collection::new()),
            FileContent::Unreadable { detail } => Err(CliError::Read { detail }),
            FileContent::Undecodable { detail } => Err(CliError::Corruption { detail }),
            FileContent::Decoded { entries } => Collection::from_entries(entries),
        }
    }

    /// Inserts a record whose identifier is not yet present; else fails with
    /// `DuplicateIdentifier` and changes nothing.
    pub fn add(&mut self, record: T) -> (r: Result<(), CliError>)
        ensures
            r is Ok <==> !old(self)@.contains_key(record.key()),
            r is Ok ==> final(self)@ == old(self)@.insert(record.key(), record),
            r is Ok ==> final(self).stored_keys() == old(self).stored_keys().push(record.key()),
            r is Err ==> final(self)@ == old(self)@ && final(self).stored_keys() == old(
                self,
            ).stored_keys(),
            r is Err ==> r->Err_0 is DuplicateIdentifier && r->Err_0->DuplicateIdentifier_slug@
                == record.key(),
            // the identifiers held stay pairwise distinct
            forall|i: int, j: int|
                0 <= i < j < final(self).stored_keys().len() ==> final(self).stored_keys()[i]
                    != final(self).stored_keys()[j],
    {
        proof {
            use_type_invariant(&*self);
        }
        let slug = record.identifier();
        if let Err(e) = self.write_ok(slug.as_str(), false) {
            return Err(e);
        }
        proof {
            lemma_push_keeps(self.items@, record);
        }
        let mut taken = Collection::new();
        std::mem::swap(self, &mut taken);
        let mut items = taken.items;
        items.push(record);
        *self = Collection { items };
        proof {
            use_type_invariant(&*self);
            assert(self.stored_keys() == old(self).stored_keys().push(record.key()));
        }
        Ok(())
    }

    /// Removes the record with identifier `slug`; fails with
    /// `MissingIdentifier` and changes nothing when there is none.
    pub fn delete(&mut self, slug: &str) -> (r: Result<(), CliError>)
        ensures
            r is Ok <==> old(self)@.contains_key(slug@),
            r is Ok ==> final(self)@ == old(self)@.remove(slug@),
            r is Err ==> final(self)@ == old(self)@ && final(self).stored_keys() == old(
                self,
            ).stored_keys(),
            r is Err ==> missing_error(old(self)@, old(self).stored_keys(), slug@, r->Err_0),
    {
        proof {
            use_type_invariant(&*self);
            lemma_unique_facts(self.items@);
        }
        match find_in(&self.items, slug) {
            None => Err(self.missing(slug)),
            Some(i) => {
                proof {
                    lemma_remove_keeps(self.items@, i as int);
                }
                let mut taken = Collection::new();
                std::mem::swap(self, &mut taken);
                let mut items = taken.items;
                items.remove(i);
                *self = Collection { items };
                Ok(())
            },
        }
    }

    /// Replaces the record that has `record`'s identifier; fails with
    /// `MissingIdentifier` and changes nothing when there is none.
    pub fn overwrite(&mut self, record: T) -> (r: Result<(), CliError>)
        ensures
            r is Ok <==> old(self)@.contains_key(record.key()),
            r is Ok ==> final(self)@ == old(self)@.insert(record.key(), record),
            r is Ok ==> final(self).stored_keys() == old(self).stored_keys(),
            r is Ok ==> final(self)@.len() == old(self)@.len(),
            r is Err ==> final(self)@ == old(self)@ && final(self).stored_keys() == old(
                self,
            ).stored_keys(),
            r is Err ==> missing_error(old(self)@, old(self).stored_keys(), record.key(), r->Err_0),
    {
        proof {
            use_type_invariant(&*self);
            lemma_unique_facts(self.items@);
        }
        let slug = record.identifier();
        match find_in(&self.items, slug.as_str()) {
            None => Err(self.missing(slug.as_str())),
            Some(i) => {
                proof {
                    lemma_update_keeps(self.items@, i as int, record);
                }
                let mut taken = Collection::new();
                std::mem::swap(self, &mut taken);
                let mut items = taken.items;
                items.set(i, record);
                *self = Collection { items };
                proof {
                    assert(self.stored_keys() =~= old(self).stored_keys());
                    lemma_unique_facts(self.items@);
                }
                Ok(())
            },
        }
    }

    /// The record with identifier `slug`; fails with `MissingIdentifier`
    /// when there is none.
    pub fn retrieve(&self, slug: &str) -> (r: Result<T, CliError>)
        ensures
            r is Ok <==> self@.contains_key(slug@),
            r is Ok ==> r->Ok_0 == self@[slug@],
            r is Err ==> missing_error(self@, self.stored_keys(), slug@, r->Err_0),
    {
        proof {
            use_type_invariant(self);
            lemma_unique_facts(self.items@);
        }
        match find_in(&self.items, slug) {
            None => Err(self.missing(slug)),
            Some(i) => Ok(self.items[i].duplicate()),
        }
    }

    /// Every record filed under its identifier, for the codec to write out.
    /// Loading these entries back gives this very collection: they are
    /// consistent, and the map they stand for is this one.
    pub fn entries(&self) -> (r: Vec<(String, T)>)
        ensures
            entries_consistent(r@),
            to_map(entry_records(r@)) == self@,
            entry_records(r@).map_values(|t: T| t.key()) == self.stored_keys(),
    {
        proof {
            use_type_invariant(self);
        }
        let mut out: Vec<(String, T)> = Vec::new();
        let mut i: usize = 0;
        while i < self.items.len()
            invariant
                i <= self.items@.len(),
                out@.len() == i,
                entry_records(out@) == self.items@.subrange(0, i as int),
                forall|j: int| 0 <= j < i ==> (#[trigger] out@[j]).0@ == out@[j].1.key(),
            decreases self.items@.len() - i,
        {
            let record = self.items[i].duplicate();
            let slug = record.identifier();
            let ghost before = out@;
            out.push((slug, record));
            assert(entry_records(out@) == entry_records(before).push(record));
            i = i + 1;
        }
        assert(entry_records(out@) == self.items@);
        out
    }

    /// Every record, each once, in the order in which they are held.
    pub fn retrieve_all(&self) -> (r: Vec<T>)
        ensures
            r@.len() == self@.len(),
            r@.map_values(|t: T| t.key()) == self.stored_keys(),
            forall|i: int|
                0 <= i < r@.len() ==> self@.contains_key(#[trigger] r@[i].key()) && self@[r@[i].key()]
                    == r@[i],
            forall|i: int, j: int| 0 <= i < j < r@.len() ==> r@[i].key() != r@[j].key(),
    {
        proof {
            use_type_invariant(self);
            lemma_unique_facts(self.items@);
        }
        let mut out: Vec<T> = Vec::new();
        let mut i: usize = 0;
        while i < self.items.len()
            invariant
                i <= self.items@.len(),
                out@ == self.items@.subrange(0, i as int),
            decreases self.items@.len() - i,
        {
            out.push(self.items[i].duplicate());
            i = i + 1;
        }
        assert(out@ == self.items@);
        out
    }

    /// How many records the collection holds.
    pub fn len(&self) -> (r: usize)
        ensures
            r == self@.len(),
            r == self.stored_keys().len(),
    {
        proof {
            use_type_invariant(self);
            lemma_unique_facts(self.items@);
        }
        self.items.len()
    }

    /// Whether a record with identifier `slug` is present.
    pub fn contains(&self, slug: &str) -> (r: bool)
        ensures
            r == self@.contains_key(slug@),
    {
        proof {
            use_type_invariant(self);
            lemma_to_map_keys(self.items@);
        }
        match find_in(&self.items, slug) {
            Some(i) => true,
            None => false,
        }
    }

    /// The identifiers present, in the order in which they are held.
    pub fn available_slugs(&self) -> (r: Vec<String>)
        ensures
            r@.len() == self.stored_keys().len(),
            forall|i: int| 0 <= i < r@.len() ==> #[trigger] r@[i]@ == self.stored_keys()[i],
    {
        self.first_slugs(self.items.len())
    }

    /// The first `n` identifiers held.
    fn first_slugs(&self, n: usize) -> (r: Vec<String>)
        requires
            n <= self.items@.len(),
        ensures
            r@.len() == n,
            forall|i: int| 0 <= i < n ==> #[trigger] r@[i]@ == self.stored_keys()[i],
    {
        let mut out: Vec<String> = Vec::new();
        let mut i: usize = 0;
        while i < n
            invariant
                i <= n <= self.items@.len(),
                out@.len() == i,
                forall|j: int| 0 <= j < i ==> #[trigger] out@[j]@ == self.stored_keys()[j],
            decreases n - i,
        {
            out.push(self.items[i].identifier());
            i = i + 1;
        }
        out
    }

    /// The error for an identifier that is not present: it names the slug and
    /// lists the first identifiers held, at most `AVAILABLE_SHOWN` of them.
    fn missing(&self, slug: &str) -> (e: CliError)
        ensures
            missing_error(self@, self.stored_keys(), slug@, e),
    {
        proof {
            use_type_invariant(self);
            lemma_unique_facts(self.items@);
        }
        let n = if self.items.len() < AVAILABLE_SHOWN {
            self.items.len()
        } else {
            AVAILABLE_SHOWN
        };
        let available = self.first_slugs(n);
        CliError::MissingIdentifier { slug: slug.to_owned(), available }
    }

    /// Succeeds when the presence of `slug` is what `slug_expect` says; else
    /// `MissingIdentifier` (expected, absent) or `DuplicateIdentifier`
    /// (unexpected, present).
    pub fn write_ok(&self, slug: &str, slug_expect: bool) -> (r: Result<(), CliError>)
        ensures
            r is Ok <==> (self@.contains_key(slug@) == slug_expect),
            r is Err && slug_expect ==> missing_error(self@, self.stored_keys(), slug@, r->Err_0),
            r is Err && !slug_expect ==> r->Err_0 is DuplicateIdentifier
                && r->Err_0->DuplicateIdentifier_slug@ == slug@,
    {
        let present = self.contains(slug);
        if present == slug_expect {
            Ok(())
        } else if slug_expect {
            Err(self.missing(slug))
        } else {
            Err(CliError::DuplicateIdentifier { slug: slug.to_owned() })
        }
    }
}

/// `e` is the error for `slug` missing from `m`, whose identifiers are held in
/// the order `keys`: it lists the first of them, at most `AVAILABLE_SHOWN`.
pub open spec fn missing_error<T>(
    m: Map<Seq<char>, T>,
    keys: Seq<Seq<char>>,
    slug: Seq<char>,
    e: CliError,
) -> bool {
    &&& e is MissingIdentifier
    &&& e->MissingIdentifier_slug@ == slug
    &&& e->MissingIdentifier_available@.len() == if m.len() < AVAILABLE_SHOWN {
        m.len()
    } else {
        AVAILABLE_SHOWN as nat
    }
    &&& forall|i: int|
        0 <= i < e->MissingIdentifier_available@.len()
            ==> #[trigger] e->MissingIdentifier_available@[i]@ == keys[i]
}

/// After `add` of `record` succeeds, retrieving its identifier gives
/// `record` back.
pub proof fn law_add_then_retrieve<T: Crud>(
    before: Map<Seq<char>, T>,
    after: Map<Seq<char>, T>,
    record: T,
)
    requires
        !before.contains_key(record.key()),
        after == before.insert(record.key(), record),
    ensures
        after.contains_key(record.key()),
        after[record.key()] == record,
{
}

/// After `delete` of an identifier succeeds, the identifier is absent, so
/// retrieving it fails with `MissingIdentifier`.
pub proof fn law_delete_then_retrieve<T: Crud>(
    before: Map<Seq<char>, T>,
    after: Map<Seq<char>, T>,
    slug: Seq<char>,
)
    requires
        before.contains_key(slug),
        after == before.remove(slug),
    ensures
        !after.contains_key(slug),
{
}

/// After `overwrite` of `record` succeeds on a present identifier, the
/// collection has as many records as before and retrieving the identifier
/// gives `record`.
pub proof fn law_overwrite_keeps_count<T: Crud>(
    before: Map<Seq<char>, T>,
    after: Map<Seq<char>, T>,
    record: T,
)
    requires
        before.dom().finite(),
        before.contains_key(record.key()),
        after == before.insert(record.key(), record),
    ensures
        after.len() == before.len(),
        after.contains_key(record.key()),
        after[record.key()] == record,
{
    assert(after.dom() =~= before.dom());
}

} // verus!
