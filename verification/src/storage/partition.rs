//! The partitions of every LUN of a device, looked up by name.

use crate::storage::gpt::{
    clean_name, entry_clean_name, entry_key, entry_search_key, search_key, GptEntry, GptTable,
};
use crate::text::{str_eq, str_to_lowercase, str_trim};
use vstd::prelude::*;

verus! {

/// The entries of `tables`, table after table.
pub open spec fn flat_entries(tables: Seq<GptTable>) -> Seq<GptEntry>
    decreases tables.len(),
{
    if tables.len() == 0 {
        seq![]
    } else {
        flat_entries(tables.drop_last()) + tables.last().entries@
    }
}

/// The entries of the tables of LUN `lun`, table after table.
pub open spec fn flat_entries_of_lun(tables: Seq<GptTable>, lun: u8) -> Seq<GptEntry>
    decreases tables.len(),
{
    if tables.len() == 0 {
        seq![]
    } else if tables.last().physical_partition == lun {
        flat_entries_of_lun(tables.drop_last(), lun) + tables.last().entries@
    } else {
        flat_entries_of_lun(tables.drop_last(), lun)
    }
}

/// The entries a sequence of references points to.
pub open spec fn derefs(s: Seq<&GptEntry>) -> Seq<GptEntry> {
    s.map_values(|r: &GptEntry| *r)
}

/// Entry `i` carries exactly the cleaned name `name`, which is not empty.
pub open spec fn exact_match(entries: Seq<GptEntry>, name: Seq<char>, i: int) -> bool {
    clean_name(entries[i].name@) == name && clean_name(entries[i].name@).len() > 0
}

/// Entry `i` is the one a lookup of `name` answers: the first entry with
/// that exact cleaned name, or, where there is none, the first entry whose
/// name matches ignoring case.
pub open spec fn is_lookup_result(flat: Seq<GptEntry>, name: Seq<char>, i: int) -> bool {
    &&& 0 <= i < flat.len()
    &&& {
        ||| exact_match(flat, name, i) && forall|j: int| 0 <= j < i ==> !exact_match(flat, name, j)
        ||| (forall|j: int| 0 <= j < flat.len() ==> !exact_match(flat, name, j))
            && entry_key(flat[i].name@) == search_key(name) && forall|j: int|
            0 <= j < i ==> entry_key(#[trigger] flat[j].name@) != search_key(name)
    }
}

/// The partition tables of all LUNs of a device.
pub struct PartitionMap {
    tables: Vec<GptTable>,
}

impl View for PartitionMap {
    type V = Seq<GptTable>;

    closed spec fn view(&self) -> Seq<GptTable> {
        self.tables@
    }
}

proof fn lemma_flat_step(tables: Seq<GptTable>, t: int)
    requires
        0 <= t < tables.len(),
    ensures
        flat_entries(tables.subrange(0, t + 1)) == flat_entries(tables.subrange(0, t))
            + tables[t].entries@,
        flat_entries_of_lun(tables.subrange(0, t + 1), tables[t].physical_partition)
            == flat_entries_of_lun(tables.subrange(0, t), tables[t].physical_partition)
            + tables[t].entries@,
        forall|lun: u8| lun != tables[t].physical_partition ==> flat_entries_of_lun(tables.subrange(0, t + 1), lun)
            == flat_entries_of_lun(tables.subrange(0, t), lun),
{
    assert(tables.subrange(0, t + 1).drop_last() =~= tables.subrange(0, t));
}

proof fn lemma_flat_len_monotone(tables: Seq<GptTable>, t: int, u: int)
    requires
        0 <= t <= u <= tables.len(),
    ensures
        flat_entries(tables.subrange(0, t)).len() <= flat_entries(tables.subrange(0, u)).len(),
    decreases u - t,
{
    if t < u {
        lemma_flat_len_monotone(tables, t, u - 1);
        lemma_flat_step(tables, u - 1);
    }
}

impl PartitionMap {
    #[verifier::type_invariant]
    spec fn well_formed(self) -> bool {
        flat_entries(self.tables@).len() <= usize::MAX
    }

    /// An empty map.
    pub fn new() -> (m: Self)
        ensures
            m@.len() == 0,
    {
        PartitionMap { tables: Vec::new() }
    }

    /// Adds the table of one LUN.
    pub fn add_table(&mut self, table: GptTable)
        requires
            flat_entries(old(self)@).len() + table.entries@.len() <= usize::MAX,
        ensures
            final(self)@ == old(self)@.push(table),
    {
        let mut tables = Vec::new();
        std::mem::swap(&mut tables, &mut self.tables);
        let ghost before = tables@;
        tables.push(table);
        assert(tables@.drop_last() =~= before);
        self.tables = tables;
    }

    /// All entries, table after table.
    pub fn all_entries(&self) -> (r: Vec<&GptEntry>)
        ensures
            derefs(r@) == flat_entries(self@),
    {
        let mut out: Vec<&GptEntry> = Vec::new();
        let mut t: usize = 0;
        assert(flat_entries(self.tables@.subrange(0, 0)) =~= Seq::<GptEntry>::empty());
        while t < self.tables.len()
            invariant
                t <= self.tables@.len(),
                derefs(out@) =~= flat_entries(self.tables@.subrange(0, t as int)),
            decreases self.tables@.len() - t,
        {
            let table = &self.tables[t];
            let ghost base = derefs(out@);
            let mut e: usize = 0;
            while e < table.entries.len()
                invariant
                    e <= table.entries@.len(),
                    t < self.tables@.len(),
                    table == self.tables@[t as int],
                    derefs(out@) =~= base + table.entries@.subrange(0, e as int),
                decreases table.entries@.len() - e,
            {
                let ghost prev = out@;
                out.push(&table.entries[e]);
                assert(derefs(out@) =~= derefs(prev).push(table.entries@[e as int]));
                assert(table.entries@.subrange(0, e + 1) =~= table.entries@.subrange(0, e as int).push(table.entries@[e as int]));
                e = e + 1;
            }
            proof {
                lemma_flat_step(self.tables@, t as int);
                assert(table.entries@.subrange(0, e as int) =~= table.entries@);
            }
            t = t + 1;
        }
        assert(self.tables@.subrange(0, t as int) =~= self.tables@);
        out
    }

    /// The entries of the tables read from LUN `lun`.
    pub fn entries_for_lun(&self, lun: u8) -> (r: Vec<&GptEntry>)
        ensures
            derefs(r@) == flat_entries_of_lun(self@, lun),
    {
        let mut out: Vec<&GptEntry> = Vec::new();
        let mut t: usize = 0;
        assert(flat_entries_of_lun(self.tables@.subrange(0, 0), lun) =~= Seq::<GptEntry>::empty());
        while t < self.tables.len()
            invariant
                t <= self.tables@.len(),
                derefs(out@) =~= flat_entries_of_lun(self.tables@.subrange(0, t as int), lun),
            decreases self.tables@.len() - t,
        {
            let table = &self.tables[t];
            proof {
                lemma_flat_step(self.tables@, t as int);
            }
            if table.physical_partition == lun {
                let ghost base = derefs(out@);
                let mut e: usize = 0;
                while e < table.entries.len()
                    invariant
                        e <= table.entries@.len(),
                        t < self.tables@.len(),
                        table == self.tables@[t as int],
                        derefs(out@) =~= base + table.entries@.subrange(0, e as int),
                    decreases table.entries@.len() - e,
                {
                    let ghost prev = out@;
                    out.push(&table.entries[e]);
                    assert(derefs(out@) =~= derefs(prev).push(table.entries@[e as int]));
                    assert(table.entries@.subrange(0, e + 1) =~= table.entries@.subrange(0, e as int).push(table.entries@[e as int]));
                    e = e + 1;
                }
                assert(table.entries@.subrange(0, e as int) =~= table.entries@);
            }
            t = t + 1;
        }
        assert(self.tables@.subrange(0, t as int) =~= self.tables@);
        out
    }

    /// The LUN of each table, in the order the tables were added.
    pub fn luns(&self) -> (r: Vec<u8>)
        ensures
            r@ == self@.map_values(|t: GptTable| t.physical_partition),
    {
        let mut out: Vec<u8> = Vec::new();
        let mut t: usize = 0;
        while t < self.tables.len()
            invariant
                t <= self.tables@.len(),
                out@ =~= self.tables@.subrange(0, t as int).map_values(|t: GptTable| t.physical_partition),
            decreases self.tables@.len() - t,
        {
            out.push(self.tables[t].physical_partition);
            t = t + 1;
        }
        assert(self.tables@.subrange(0, t as int) =~= self.tables@);
        out
    }

    /// The number of entries over all tables.
    pub fn total_partitions(&self) -> (n: usize)
        ensures
            n == flat_entries(self@).len(),
    {
        proof {
            use_type_invariant(self);
        }
        let mut n: usize = 0;
        let mut t: usize = 0;
        assert(flat_entries(self.tables@.subrange(0, 0)) =~= Seq::<GptEntry>::empty());
        while t < self.tables.len()
            invariant
                t <= self.tables@.len(),
                n == flat_entries(self.tables@.subrange(0, t as int)).len(),
                flat_entries(self.tables@).len() <= usize::MAX,
            decreases self.tables@.len() - t,
        {
            proof {
                lemma_flat_step(self.tables@, t as int);
                lemma_flat_len_monotone(self.tables@, t + 1, self.tables@.len() as int);
                assert(self.tables@.subrange(0, self.tables@.len() as int) =~= self.tables@);
            }
            n = n + self.tables[t].entries.len();
            t = t + 1;
        }
        assert(self.tables@.subrange(0, t as int) =~= self.tables@);
        n
    }

    /// Looks a partition up by name over all LUNs: first by its exact
    /// cleaned name, then, failing that, ignoring case. When several
    /// entries match, the first one added wins.
    pub fn find_partition(&self, name: &str) -> (r: Option<&GptEntry>)
        ensures
            match r {
                Some(e) => exists|i: int|
                    is_lookup_result(flat_entries(self@), name@, i) && *e == flat_entries(self@)[i],
                None => forall|i: int|
                    0 <= i < flat_entries(self@).len() ==> !exact_match(flat_entries(self@), name@, i)
                        && entry_key(#[trigger] flat_entries(self@)[i].name@) != search_key(name@),
            },
    {
        let all = self.all_entries();
        let ghost flat = flat_entries(self@);
        assert(all@.len() == flat.len());
        let mut i: usize = 0;
        while i < all.len()
            invariant
                i <= all@.len(),
                all@.len() == flat.len(),
                flat == flat_entries(self@),
                derefs(all@) == flat,
                forall|j: int| 0 <= j < i ==> !exact_match(flat, name@, j),
            decreases all@.len() - i,
        {
            let clean = entry_clean_name(&all[i].name);
            assert(derefs(all@)[i as int] == *all@[i as int]);
            if !clean.is_empty() && str_eq(clean, name) {
                assert(clean@.len() > 0);
                assert(exact_match(flat, name@, i as int));
                assert(*all@[i as int] == flat[i as int]);
                assert(is_lookup_result(flat, name@, i as int));
                let found: &GptEntry = all[i];
                assert(*found == flat[i as int]);
                return Some(found);
            }
            i = i + 1;
        }
        let key = str_to_lowercase(str_trim(name));
        let mut i: usize = 0;
        while i < all.len()
            invariant
                i <= all@.len(),
                all@.len() == flat.len(),
                flat == flat_entries(self@),
                derefs(all@) == flat,
                key@ == search_key(name@),
                forall|j: int| 0 <= j < all@.len() ==> !exact_match(flat, name@, j),
                forall|j: int| 0 <= j < i ==> entry_key(#[trigger] flat[j].name@) != key@,
            decreases all@.len() - i,
        {
            let k = entry_search_key(&all[i].name);
            assert(derefs(all@)[i as int] == *all@[i as int]);
            if k == key {
                assert(*all@[i as int] == flat[i as int]);
                assert(entry_key(flat[i as int].name@) == search_key(name@));
                assert(is_lookup_result(flat, name@, i as int));
                let found: &GptEntry = all[i];
                assert(*found == flat[i as int]);
                return Some(found);
            }
            i = i + 1;
        }
        None
    }
}

impl Default for PartitionMap {
    fn default() -> (m: Self)
        ensures
            m@.len() == 0,
    {
        PartitionMap::new()
    }
}

/// Adding a table: the entries grow by the table's entries, in order; the
/// LUNs grow by the table's LUN; and a name that some earlier entry carries
/// exactly is looked up to the same entry as before (the table added first
/// wins).
pub proof fn lemma_add_table(tables: Seq<GptTable>, table: GptTable, name: Seq<char>)
    ensures
        flat_entries(tables.push(table)) == flat_entries(tables) + table.entries@,
        flat_entries(tables.push(table)).len() == flat_entries(tables).len() + table.entries@.len(),
        tables.push(table).map_values(|t: GptTable| t.physical_partition) == tables.map_values(
            |t: GptTable| t.physical_partition,
        ).push(table.physical_partition),
        (exists|j: int| 0 <= j < flat_entries(tables).len() && exact_match(flat_entries(tables), name, j))
            ==> forall|i: int|
            is_lookup_result(flat_entries(tables.push(table)), name, i) <==> is_lookup_result(
                flat_entries(tables),
                name,
                i,
            ),
{
    assert(tables.push(table).drop_last() =~= tables);
    let old_flat = flat_entries(tables);
    let new_flat = flat_entries(tables.push(table));
    assert(new_flat =~= old_flat + table.entries@);
    assert(tables.push(table).map_values(|t: GptTable| t.physical_partition) =~= tables.map_values(
        |t: GptTable| t.physical_partition,
    ).push(table.physical_partition));
    if exists|j: int| 0 <= j < old_flat.len() && exact_match(old_flat, name, j) {
        let j = choose|j: int| 0 <= j < old_flat.len() && exact_match(old_flat, name, j);
        assert(new_flat[j] == old_flat[j]);
        assert(exact_match(new_flat, name, j));
        assert forall|i: int| is_lookup_result(new_flat, name, i) implies is_lookup_result(old_flat, name, i) by {
            assert(exact_match(new_flat, name, i));
            if i > j {
                assert(!exact_match(new_flat, name, j));
            }
            assert(i <= j);
            assert(new_flat[i] == old_flat[i]);
            assert forall|k: int| 0 <= k < i implies !exact_match(old_flat, name, k) by {
                assert(new_flat[k] == old_flat[k]);
                assert(!exact_match(new_flat, name, k));
            }
        }
        assert forall|i: int| is_lookup_result(old_flat, name, i) implies is_lookup_result(new_flat, name, i) by {
            assert(exact_match(old_flat, name, i));
            assert(new_flat[i] == old_flat[i]);
            assert forall|k: int| 0 <= k < i implies !exact_match(new_flat, name, k) by {
                assert(new_flat[k] == old_flat[k]);
                assert(!exact_match(old_flat, name, k));
            }
        }
    }
}

} // verus!
