//! Fields of a snapshot that are kept in memory.
//!
//! A caching provider keeps the fields that it has read, so that it need
//! not read them again, but no more of them than its budget of memory
//! allows. Here stands its bookkeeping: which fields it holds, how large
//! they are, and in what order they were last used. To make room for a
//! new field it gives up the fields that have not been used for the longest
//! time.

use crate::tracing::field_line::lemma_name_index;
use crate::tracing::field_line::name_index;
use vstd::prelude::*;

verus! {

/// The fields that a caching provider holds, with their sizes in bytes,
/// from the one that has not been used for the longest time to the one that
/// was used last.
#[derive(Debug)]
pub struct FieldCache {
    max_bytes: u64,
    fields: Vec<(String, u64)>,
}

/// Mathematical content of a [`FieldCache`].
pub struct FieldCacheView {
    /// The budget of memory, in bytes.
    pub max_bytes: nat,
    /// The names and sizes of the fields, from the least to the most
    /// recently used.
    pub fields: Seq<(Seq<char>, nat)>,
}

/// The sizes of the given fields together.
pub open spec fn total_size(fields: Seq<(Seq<char>, nat)>) -> nat
    decreases fields.len(),
{
    if fields.len() == 0 {
        0
    } else {
        total_size(fields.drop_last()) + fields.last().1
    }
}

/// The names of the given fields.
pub open spec fn field_names(fields: Seq<(Seq<char>, nat)>) -> Seq<Seq<char>> {
    fields.map_values(|field: (Seq<char>, nat)| field.0)
}

/// The number of fields to give up, from the least recently used on, so
/// that a field of the given size fits into the budget beside the rest: the
/// least number that is enough, and all of them where none is enough.
pub open spec fn number_to_evict(fields: Seq<(Seq<char>, nat)>, size: nat, max_bytes: nat) -> nat
    decreases fields.len(),
{
    if fields.len() == 0 || total_size(fields) + size <= max_bytes {
        0
    } else {
        1 + number_to_evict(fields.drop_first(), size, max_bytes)
    }
}

/// Leaving out the first field takes its size off the total.
proof fn lemma_total_size_without_first(fields: Seq<(Seq<char>, nat)>)
    requires
        fields.len() > 0,
    ensures
        total_size(fields) == fields.first().1 + total_size(fields.drop_first()),
    decreases fields.len(),
{
    if fields.len() == 1 {
        assert(fields.drop_first() =~= fields.drop_last());
    } else {
        lemma_total_size_without_first(fields.drop_last());
        assert(fields.drop_last().drop_first() =~= fields.drop_first().drop_last());
    }
}

/// Leaving out one field takes its size off the total.
proof fn lemma_total_size_without(fields: Seq<(Seq<char>, nat)>, i: int)
    requires
        0 <= i < fields.len(),
    ensures
        total_size(fields) == fields[i].1 + total_size(fields.remove(i)),
    decreases fields.len(),
{
    if i == fields.len() - 1 {
        assert(fields.remove(i) =~= fields.drop_last());
    } else {
        lemma_total_size_without(fields.drop_last(), i);
        assert(fields.remove(i).drop_last() =~= fields.drop_last().remove(i));
    }
}

/// What [`number_to_evict`] gives: not more than there are fields; enough
/// for the new field to fit, where it fits at all; and not one more than
/// is needed.
pub proof fn lemma_number_to_evict(fields: Seq<(Seq<char>, nat)>, size: nat, max_bytes: nat)
    ensures
        number_to_evict(fields, size, max_bytes) <= fields.len(),
        size <= max_bytes ==> total_size(
            fields.skip(number_to_evict(fields, size, max_bytes) as int),
        ) + size <= max_bytes,
        forall|k: int|
            0 <= k < number_to_evict(fields, size, max_bytes) ==> total_size(
                #[trigger] fields.skip(k),
            ) + size > max_bytes,
    decreases fields.len(),
{
    let number = number_to_evict(fields, size, max_bytes);
    assert(fields.skip(0) =~= fields);
    if fields.len() == 0 || total_size(fields) + size <= max_bytes {
    } else {
        let rest = fields.drop_first();
        lemma_number_to_evict(rest, size, max_bytes);
        assert(rest.skip(number - 1) =~= fields.skip(number as int));
        assert forall|k: int| 0 <= k < number implies total_size(#[trigger] fields.skip(k)) + size
            > max_bytes by {
            if k > 0 {
                assert(rest.skip(k - 1) =~= fields.skip(k));
            }
        }
    }
}

impl View for FieldCache {
    type V = FieldCacheView;

    closed spec fn view(&self) -> FieldCacheView {
        FieldCacheView {
            max_bytes: self.max_bytes as nat,
            fields: self.fields@.map_values(|field: (String, u64)| (field.0@, field.1 as nat)),
        }
    }
}

impl FieldCacheView {
    /// Whether the bookkeeping is in order: no field is held twice, and
    /// the fields together are within the budget.
    pub open spec fn is_well_formed(self) -> bool {
        &&& forall|i: int, j: int|
            0 <= i < j < self.fields.len() ==> self.fields[i].0 != self.fields[j].0
        &&& total_size(self.fields) <= self.max_bytes
    }

    /// Whether a field of the given name is held.
    pub open spec fn holds(self, name: Seq<char>) -> bool {
        name_index(field_names(self.fields), name) is Some
    }

    /// The bookkeeping after the field of the given name was used: where
    /// it is held, it has become the most recently used.
    pub open spec fn after_use(self, name: Seq<char>) -> Self {
        match name_index(field_names(self.fields), name) {
            Some(i) => FieldCacheView {
                fields: self.fields.remove(i).push(self.fields[i]),
                ..self
            },
            None => self,
        }
    }

    /// The bookkeeping after a field of the given name and size was taken
    /// in: the least recently used fields have made room for it, and it
    /// has become the most recently used. A field that is larger than the
    /// budget is not kept, and leaves no other field behind.
    pub open spec fn after_admission(self, name: Seq<char>, size: nat) -> Self {
        let rest = self.fields.skip(number_to_evict(self.fields, size, self.max_bytes) as int);
        FieldCacheView {
            fields: if size <= self.max_bytes {
                rest.push((name, size))
            } else {
                rest
            },
            ..self
        }
    }

    /// The names of the fields that are given up when a field of the
    /// given size is taken in, from the least recently used on.
    pub open spec fn evicted_by_admission(self, size: nat) -> Seq<Seq<char>> {
        field_names(
            self.fields.take(number_to_evict(self.fields, size, self.max_bytes) as int),
        )
    }

    /// The bookkeeping after the field of the given name was dropped.
    pub open spec fn after_drop(self, name: Seq<char>) -> Self {
        match name_index(field_names(self.fields), name) {
            Some(i) => FieldCacheView { fields: self.fields.remove(i), ..self },
            None => self,
        }
    }
}

impl FieldCache {
    /// Creates the bookkeeping of a provider that holds no field yet.
    pub fn new(max_bytes: u64) -> (cache: Self)
        ensures
            cache@ == (FieldCacheView { max_bytes: max_bytes as nat, fields: Seq::empty() }),
            cache@.is_well_formed(),
    {
        let fields: Vec<(String, u64)> = Vec::new();
        assert(fields@.map_values(|field: (String, u64)| (field.0@, field.1 as nat))
            =~= Seq::empty());
        FieldCache { max_bytes, fields }
    }

    /// The budget of memory, in bytes.
    pub fn max_bytes(&self) -> (max_bytes: u64)
        ensures
            max_bytes == self@.max_bytes,
    {
        self.max_bytes
    }

    /// Number of fields that are held.
    pub fn number_of_fields(&self) -> (number: usize)
        ensures
            number == self@.fields.len(),
    {
        self.fields.len()
    }

    /// The sizes of the fields that are held, together.
    pub fn total_bytes(&self) -> (total: u64)
        requires
            self@.is_well_formed(),
        ensures
            total == total_size(self@.fields),
            total <= self@.max_bytes,
    {
        let ghost all = self@.fields;
        let mut total: u64 = 0;
        assert(all.take(0) =~= Seq::empty());
        for i in 0..self.fields.len()
            invariant
                all == self@.fields,
                total_size(all) <= u64::MAX,
                total == total_size(all.take(i as int)),
        {
            proof {
                assert(all.take(i + 1).drop_last() =~= all.take(i as int));
                lemma_total_size_of_prefix(all, i + 1);
            }
            total = total + self.fields[i].1;
        }
        assert(all.take(self.fields.len() as int) =~= all);
        total
    }

    /// Position of the field of the given name.
    fn find(&self, name: &String) -> (index: Option<usize>)
        ensures
            match index {
                Some(i) => i < self.fields@.len() && name_index(field_names(self@.fields), name@)
                    == Some(i as int),
                None => name_index(field_names(self@.fields), name@) is None,
            },
    {
        let ghost names = field_names(self@.fields);
        for i in 0..self.fields.len()
            invariant
                names == field_names(self@.fields),
                forall|j: int| 0 <= j < i ==> names[j] != name@,
        {
            if self.fields[i].0 == *name {
                proof {
                    crate::tracing::field_line::lemma_name_index_is(names, name@, i as int);
                }
                return Some(i);
            }
        }
        proof {
            lemma_name_index(names, name@);
        }
        None
    }

    /// Whether a field of the given name is held.
    pub fn contains(&self, name: &String) -> (held: bool)
        ensures
            held == self@.holds(name@),
    {
        self.find(name).is_some()
    }
}

/// The first fields of a list are not larger together than all of them.
proof fn lemma_total_size_of_prefix(fields: Seq<(Seq<char>, nat)>, i: int)
    requires
        0 <= i <= fields.len(),
    ensures
        total_size(fields.take(i)) <= total_size(fields),
    decreases fields.len() - i,
{
    if i < fields.len() {
        assert(fields.take(i + 1).drop_last() =~= fields.take(i));
        lemma_total_size_of_prefix(fields, i + 1);
    } else {
        assert(fields.take(i) =~= fields);
    }
}

/// The last fields of a list are not larger together than all of them.
proof fn lemma_total_size_of_suffix(fields: Seq<(Seq<char>, nat)>, k: int)
    requires
        0 <= k <= fields.len(),
    ensures
        total_size(fields.skip(k)) <= total_size(fields),
    decreases k,
{
    if k > 0 {
        lemma_total_size_of_suffix(fields, k - 1);
        lemma_total_size_without_first(fields.skip(k - 1));
        assert(fields.skip(k - 1).drop_first() =~= fields.skip(k));
    } else {
        assert(fields.skip(0) =~= fields);
    }
}

impl FieldCache {
    /// Takes note that the field of the given name is used: where it is
    /// held, it becomes the most recently used. Says whether it is held.
    pub fn touch(&mut self, name: &String) -> (held: bool)
        requires
            old(self)@.is_well_formed(),
        ensures
            held == old(self)@.holds(name@),
            final(self)@ == old(self)@.after_use(name@),
            final(self)@.is_well_formed(),
    {
        let ghost before = self@.fields;
        match self.find(name) {
            Some(i) => {
                proof {
                    lemma_total_size_without(before, i as int);
                    assert forall|a: int, b: int|
                        0 <= a < b < before.remove(i as int).len() implies before.remove(
                        i as int,
                    )[a].0 != before.remove(i as int)[b].0 by {
                        let a_before = if a < i {
                            a
                        } else {
                            a + 1
                        };
                        let b_before = if b < i {
                            b
                        } else {
                            b + 1
                        };
                        assert(before.remove(i as int)[a] == before[a_before]);
                        assert(before.remove(i as int)[b] == before[b_before]);
                    }
                    assert(self.fields@.remove(i as int).map_values(
                        |field: (String, u64)| (field.0@, field.1 as nat),
                    ) =~= before.remove(i as int));
                }
                let field = self.fields.remove(i);
                proof {
                    let after = before.remove(i as int).push(before[i as int]);
                    assert(after.drop_last() =~= before.remove(i as int));
                    assert forall|a: int, b: int| 0 <= a < b < after.len() implies after[a].0
                        != after[b].0 by {
                        if b == after.len() - 1 {
                            let a_before = if a < i {
                                a
                            } else {
                                a + 1
                            };
                            assert(after[a] == before[a_before]);
                        }
                    }
                    assert(self.fields@.push(field).map_values(
                        |field: (String, u64)| (field.0@, field.1 as nat),
                    ) =~= after);
                }
                self.fields.push(field);
                true
            },
            None => false,
        }
    }

    /// Makes room for a field of the given name and size, which is not
    /// held yet, and takes it in where it can be kept. Gives the names of
    /// the fields that are given up for it, from the least recently used
    /// on.
    #[verifier::rlimit(40)]
    pub fn take_in(&mut self, name: String, size: u64) -> (evicted: Vec<String>)
        requires
            old(self)@.is_well_formed(),
            !old(self)@.holds(name@),
        ensures
            final(self)@ == old(self)@.after_admission(name@, size as nat),
            evicted@.map_values(|name: String| name@) == old(self)@.evicted_by_admission(
                size as nat,
            ),
            final(self)@.is_well_formed(),
            final(self)@.holds(name@) == (size <= old(self)@.max_bytes),
    {
        let ghost before = self@.fields;
        let ghost max_bytes = self@.max_bytes;
        let number_of_fields = self.fields.len();
        let mut total = self.total_bytes();
        let mut number: usize = 0;
        proof {
            assert(before.skip(0) =~= before);
        }
        while number < number_of_fields && (size > self.max_bytes || total > self.max_bytes
            - size)
            invariant
                before == self@.fields,
                max_bytes == self@.max_bytes,
                number_of_fields == before.len(),
                number <= number_of_fields,
                total == total_size(before.skip(number as int)),
                number_to_evict(before, size as nat, max_bytes) == number + number_to_evict(
                    before.skip(number as int),
                    size as nat,
                    max_bytes,
                ),
            decreases number_of_fields - number,
        {
            proof {
                lemma_total_size_without_first(before.skip(number as int));
                assert(before.skip(number as int).drop_first() =~= before.skip(number + 1));
            }
            total = total - self.fields[number].1;
            number = number + 1;
        }
        proof {
            lemma_number_to_evict(before, size as nat, max_bytes);
            lemma_total_size_of_suffix(before, number as int);
            lemma_name_index(field_names(before), name@);
            assert(self.fields@.take(number as int).map_values(
                |field: (String, u64)| (field.0@, field.1 as nat),
            ) =~= before.take(number as int));
            assert(self.fields@.skip(number as int).map_values(
                |field: (String, u64)| (field.0@, field.1 as nat),
            ) =~= before.skip(number as int));
            assert forall|a: int, b: int|
                0 <= a < b < before.take(number as int).len() implies before.take(
                number as int,
            )[a].0 != before.take(number as int)[b].0 by {
                assert(before.take(number as int)[a] == before[a]);
                assert(before.take(number as int)[b] == before[b]);
            }
            lemma_total_size_of_prefix(before, number as int);
            assert forall|a: int, b: int|
                0 <= a < b < before.skip(number as int).len() implies before.skip(
                number as int,
            )[a].0 != before.skip(number as int)[b].0 by {
                assert(before.skip(number as int)[a] == before[a + number]);
                assert(before.skip(number as int)[b] == before[b + number]);
            }
        }
        let mut kept = self.fields.split_off(number);
        core::mem::swap(&mut self.fields, &mut kept);
        let given_up = kept;
        if size <= self.max_bytes {
            proof {
                let after = before.skip(number as int).push((name@, size as nat));
                assert(after.drop_last() =~= before.skip(number as int));
                assert forall|a: int, b: int| 0 <= a < b < after.len() implies after[a].0
                    != after[b].0 by {
                    if b == after.len() - 1 {
                        assert(after[a] == before[a + number]);
                        assert(field_names(before)[a + number] != name@);
                    } else {
                        assert(after[a] == before[a + number]);
                        assert(after[b] == before[b + number]);
                    }
                }
                assert(self.fields@.push((name, size)).map_values(
                    |field: (String, u64)| (field.0@, field.1 as nat),
                ) =~= after);
                assert forall|j: int| 0 <= j < after.len() - 1 implies field_names(after)[j]
                    != name@ by {
                    assert(after[j] == before[j + number]);
                    assert(field_names(before)[j + number] != name@);
                }
                crate::tracing::field_line::lemma_name_index_is(
                    field_names(after),
                    name@,
                    after.len() - 1,
                );
            }
            self.fields.push((name, size));
        } else {
            proof {
                assert(before.skip(number as int) =~= Seq::empty());
                assert(field_names(before.skip(number as int)) =~= Seq::empty());
            }
        }
        let mut evicted: Vec<String> = Vec::new();
        for field in iter: given_up
            invariant
                evicted@.len() == iter.index(),
                forall|j: int| 0 <= j < evicted@.len() ==> evicted@[j]@ == given_up@[j].0@,
        {
            evicted.push(field.0);
        }
        assert(evicted@.map_values(|name: String| name@) =~= field_names(
            before.take(number as int),
        ));
        evicted
    }

    /// Drops the field of the given name, where it is held. Says whether it
    /// was held.
    pub fn drop_field(&mut self, name: &String) -> (held: bool)
        requires
            old(self)@.is_well_formed(),
        ensures
            held == old(self)@.holds(name@),
            final(self)@ == old(self)@.after_drop(name@),
            final(self)@.is_well_formed(),
    {
        let ghost before = self@.fields;
        match self.find(name) {
            Some(i) => {
                proof {
                    lemma_total_size_without(before, i as int);
                    assert forall|a: int, b: int|
                        0 <= a < b < before.remove(i as int).len() implies before.remove(
                        i as int,
                    )[a].0 != before.remove(i as int)[b].0 by {
                        let a_before = if a < i {
                            a
                        } else {
                            a + 1
                        };
                        let b_before = if b < i {
                            b
                        } else {
                            b + 1
                        };
                        assert(before.remove(i as int)[a] == before[a_before]);
                        assert(before.remove(i as int)[b] == before[b_before]);
                    }
                    assert(self.fields@.remove(i as int).map_values(
                        |field: (String, u64)| (field.0@, field.1 as nat),
                    ) =~= before.remove(i as int));
                }
                let _ = self.fields.remove(i);
                true
            },
            None => false,
        }
    }

    /// Drops all fields.
    pub fn drop_all_fields(&mut self)
        ensures
            final(self)@ == (FieldCacheView { fields: Seq::empty(), ..old(self)@ }),
            final(self)@.is_well_formed(),
    {
        proof {
            let fields: Seq<(String, u64)> = Seq::empty();
            assert(fields.map_values(|field: (String, u64)| (field.0@, field.1 as nat))
                =~= Seq::empty());
        }
        self.fields.clear();
    }
}

} // verus!
